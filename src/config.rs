use vstd::prelude::*;
use vstd::string::StringExecFns;
use crate::scalar::entry_from;
use crate::discover::names_of;
use url::Url;

verus! {

#[verifier::external_type_specification]
#[verifier::external_body]
pub struct ExUrl(Url);

/// The pattern of a placeholder in the schema address: `{{NAME}}`.
pub const PLACEHOLDER: &'static str = "\\{\\{(\\w+)\\}\\}";

/// What `Regex::split` yields for a pattern and a text: the parts between matches.
pub uninterp spec fn regex_pieces(pattern: Seq<char>, text: Seq<char>) -> Seq<Seq<char>>;

/// What `Regex::captures_iter` yields for a pattern and a text: the first group of each match.
pub uninterp spec fn regex_groups(pattern: Seq<char>, text: Seq<char>) -> Seq<Option<Seq<char>>>;

/// Whether `Regex::new` accepts a pattern.
pub uninterp spec fn regex_compiles(pattern: Seq<char>) -> bool;

/// Whether `Url::parse` accepts a text.
pub uninterp spec fn url_parses(text: Seq<char>) -> bool;

/// What `Url::as_str` gives for the URL that `Url::parse` read from a text.
pub uninterp spec fn url_serialization(text: Seq<char>) -> Seq<char>;

/// Relies on `Regex::new` and `Regex::split`: the parts of `text` between the
/// matches of `pattern`, in order; `None` when the pattern does not compile.
#[verifier::external_body]
fn split_matches(pattern: &str, text: &str) -> (r: Option<Vec<String>>)
    ensures
        r is Some <==> regex_compiles(pattern@),
        r matches Some(v) ==> v@.map_values(|p: String| p@) == regex_pieces(pattern@, text@),
{
    match regex::Regex::new(pattern) {
        Ok(re) => Some(re.split(text).map(|p| p.to_owned()).collect()),
        Err(_) => None,
    }
}

/// Relies on `Regex::new` and `Regex::captures_iter`: the first group of each
/// match of `pattern` in `text`, in order; `None` when the pattern does not compile.
#[verifier::external_body]
fn match_groups(pattern: &str, text: &str) -> (r: Option<Vec<Option<String>>>)
    ensures
        r is Some <==> regex_compiles(pattern@),
        r matches Some(v) ==> v@.map_values(|g: Option<String>| opt_view(g)) == regex_groups(pattern@, text@),
{
    match regex::Regex::new(pattern) {
        Ok(re) => Some(re.captures_iter(text).map(|c| c.get(1).map(|m| m.as_str().to_owned())).collect()),
        Err(_) => None,
    }
}

/// Relies on `Url::parse` and `Url::as_str`: an absolute URL read from
/// `text`, when it is one, with its serialization.
#[verifier::external_body]
fn parse_url(text: &str) -> (r: Option<(Url, String)>)
    ensures
        r is Some <==> url_parses(text@),
        r matches Some(p) ==> p.1@ == url_serialization(text@),
{
    match Url::parse(text) {
        Ok(u) => {
            let serialized = u.as_str().to_owned();
            Some((u, serialized))
        },
        Err(_) => None,
    }
}

pub open spec fn opt_view(g: Option<String>) -> Option<Seq<char>> {
    match g {
        Some(s) => Some(s@),
        None => None,
    }
}

/// The first `k` placeholders filled in: the first piece, then for each
/// placeholder its value from `env` and the piece after it. `None` when a
/// placeholder has no name or no value.
pub open spec fn filled_upto(
    pieces: Seq<Seq<char>>,
    groups: Seq<Option<Seq<char>>>,
    env: Seq<(String, String)>,
    k: int,
) -> Option<Seq<char>>
    decreases k,
{
    if k <= 0 {
        Some(pieces[0])
    } else {
        match (filled_upto(pieces, groups, env, k - 1), groups[k - 1]) {
            (Some(acc), Some(n)) => match entry_from(env, n, 0) {
                Some(v) => Some(acc + v + pieces[k]),
                None => None,
            },
            _ => None,
        }
    }
}

/// A template with every placeholder replaced by its value, when the pieces
/// and placeholders interleave and every placeholder has a value.
pub open spec fn filled(pieces: Seq<Seq<char>>, groups: Seq<Option<Seq<char>>>, env: Seq<(String, String)>) -> Option<
    Seq<char>,
> {
    if pieces.len() == groups.len() + 1 {
        filled_upto(pieces, groups, env, groups.len() as int)
    } else {
        None
    }
}

/// Why a configuration cannot be used.
#[derive(Debug)]
pub enum ConfigError {
    /// A placeholder names a variable that has no value.
    MissingEnvVar(String),
    /// The placeholders could not be read from the template.
    Placeholder,
    /// The schema address is not an absolute URL.
    InvalidUrl(String),
    /// The document path is not valid UTF-8.
    DocumentPath,
}

/// The value of the first entry of `env` whose key is `name`.
pub fn env_lookup<'a>(env: &'a Vec<(String, String)>, name: &String) -> (r: Option<&'a String>)
    ensures
        match r {
            Some(v) => entry_from(env@, name@, 0) == Some(v@),
            None => entry_from(env@, name@, 0) is None,
        },
{
    let mut i: usize = 0;
    while i < env.len()
        invariant
            i <= env@.len(),
            entry_from(env@, name@, 0) == entry_from(env@, name@, i as int),
        decreases env.len() - i,
    {
        if env[i].0 == *name {
            return Some(&env[i].1);
        }
        i += 1;
    }
    None
}

/// Fills the placeholders between `pieces` with their values from `env`:
/// `Ok` exactly when `filled` gives a text, `MissingEnvVar` for a name
/// without value, `Placeholder` when the pieces and names do not interleave.
pub fn fill_placeholders(pieces: &Vec<String>, groups: &Vec<Option<String>>, env: &Vec<(String, String)>) -> (r:
    Result<String, ConfigError>)
    ensures
        r is Ok <==> filled(pieces@.map_values(|p: String| p@), groups@.map_values(|g: Option<String>| opt_view(g)), env@) is Some,
        r matches Ok(s) ==> Some(s@) == filled(
            pieces@.map_values(|p: String| p@),
            groups@.map_values(|g: Option<String>| opt_view(g)),
            env@,
        ),
        r matches Err(ConfigError::MissingEnvVar(n)) ==> entry_from(env@, n@, 0) is None,
        r matches Err(e) ==> e is MissingEnvVar || e is Placeholder,
{
    let ghost ps = pieces@.map_values(|p: String| p@);
    let ghost gs = groups@.map_values(|g: Option<String>| opt_view(g));
    if pieces.len() == 0 || pieces.len() - 1 != groups.len() {
        return Err(ConfigError::Placeholder);
    }
    let mut out = pieces[0].clone();
    let mut k: usize = 0;
    while k < groups.len()
        invariant
            k <= groups@.len(),
            pieces@.len() == groups@.len() + 1,
            ps == pieces@.map_values(|p: String| p@),
            gs == groups@.map_values(|g: Option<String>| opt_view(g)),
            filled_upto(ps, gs, env@, k as int) == Some(out@),
        decreases groups.len() - k,
    {
        assert(gs[k as int] == opt_view(groups@[k as int]));
        match &groups[k] {
            Some(name) => match env_lookup(env, name) {
                Some(v) => {
                    out.append(v.as_str());
                    out.append(pieces[k + 1].as_str());
                    assert(ps[k + 1] == pieces@[k + 1]@);
                },
                None => {
                    proof {
                        lemma_filled_stays_none(ps, gs, env@, k as int + 1, groups@.len() as int);
                    }
                    return Err(ConfigError::MissingEnvVar(name.clone()));
                },
            },
            None => {
                proof {
                    lemma_filled_stays_none(ps, gs, env@, k as int + 1, groups@.len() as int);
                }
                return Err(ConfigError::Placeholder);
            },
        }
        k += 1;
    }
    Ok(out)
}

proof fn lemma_filled_stays_none(
    pieces: Seq<Seq<char>>,
    groups: Seq<Option<Seq<char>>>,
    env: Seq<(String, String)>,
    k: int,
    m: int,
)
    requires
        1 <= k <= m,
        filled_upto(pieces, groups, env, k) is None,
    ensures
        filled_upto(pieces, groups, env, m) is None,
    decreases m - k,
{
    if k < m {
        lemma_filled_stays_none(pieces, groups, env, k + 1, m);
    }
}

/// A template with each `{{NAME}}` replaced by the value of `NAME` in `env`.
pub open spec fn interpolated(template: Seq<char>, env: Seq<(String, String)>) -> Option<Seq<char>> {
    filled(regex_pieces(PLACEHOLDER@, template), regex_groups(PLACEHOLDER@, template), env)
}

/// Replaces each `{{NAME}}` of `template` by the value of `NAME` in `env`.
pub fn interpolate(template: &String, env: &Vec<(String, String)>) -> (r: Result<String, ConfigError>)
    ensures
        r matches Ok(s) ==> Some(s@) == interpolated(template@, env@),
        regex_compiles(PLACEHOLDER@) ==> (r is Ok <==> interpolated(template@, env@) is Some),
        r matches Err(ConfigError::MissingEnvVar(n)) ==> entry_from(env@, n@, 0) is None,
        r matches Err(e) ==> e is MissingEnvVar || e is Placeholder,
{
    let pieces = match split_matches(PLACEHOLDER, template.as_str()) {
        Some(p) => p,
        None => return Err(ConfigError::Placeholder),
    };
    let groups = match match_groups(PLACEHOLDER, template.as_str()) {
        Some(g) => g,
        None => return Err(ConfigError::Placeholder),
    };
    fill_placeholders(&pieces, &groups, env)
}

/// The placeholder names among the first `k` groups that have no value in `env`, in order.
pub open spec fn unset_upto(groups: Seq<Option<Seq<char>>>, env: Seq<(String, String)>, k: int) -> Seq<Seq<char>>
    decreases k,
{
    if k <= 0 {
        Seq::empty()
    } else {
        match groups[k - 1] {
            Some(n) => if entry_from(env, n, 0) is None {
                unset_upto(groups, env, k - 1).push(n)
            } else {
                unset_upto(groups, env, k - 1)
            },
            None => unset_upto(groups, env, k - 1),
        }
    }
}

/// Every placeholder of `template` whose variable has no value in `env`, in
/// order of appearance; `None` when the placeholders cannot be read.
pub fn unset_variables(template: &String, env: &Vec<(String, String)>) -> (r: Option<Vec<String>>)
    ensures
        r is Some <==> regex_compiles(PLACEHOLDER@),
        r matches Some(v) ==> names_of(v@) == unset_upto(
            regex_groups(PLACEHOLDER@, template@),
            env@,
            regex_groups(PLACEHOLDER@, template@).len() as int,
        ),
{
    let groups = match match_groups(PLACEHOLDER, template.as_str()) {
        Some(g) => g,
        None => return None,
    };
    let ghost gs = groups@.map_values(|g: Option<String>| opt_view(g));
    let mut out: Vec<String> = Vec::new();
    let mut k: usize = 0;
    while k < groups.len()
        invariant
            k <= groups@.len(),
            gs == groups@.map_values(|g: Option<String>| opt_view(g)),
            names_of(out@) == unset_upto(gs, env@, k as int),
        decreases groups.len() - k,
    {
        assert(gs[k as int] == opt_view(groups@[k as int]));
        match &groups[k] {
            Some(name) => {
                if env_lookup(env, name).is_none() {
                    let ghost before = names_of(out@);
                    out.push(name.clone());
                    assert(names_of(out@) =~= before.push(name@));
                }
            },
            None => {},
        }
        k += 1;
    }
    Some(out)
}

/// The configuration ready for use.
#[derive(Debug)]
pub struct AppConfig {
    pub schema: Url,
    /// The serialization of `schema`.
    pub schema_text: String,
    pub no_ssl: bool,
    pub document_path: Option<String>,
    pub emit_schema: bool,
}

/// The configuration file as written, before its values are checked.
#[derive(Debug)]
pub struct RawAppConfig {
    pub schema: String,
    pub no_ssl: Option<bool>,
    pub document: Option<PathText>,
    pub emit_schema: Option<bool>,
}

/// Why a path could not be used as text.
#[derive(Debug, Clone, Copy, PartialEq, Eq)]
pub enum PathError {
    NotUtf8,
}

/// A path as the system gave it: its text when it is valid UTF-8.
#[derive(Debug)]
pub enum PathText {
    Utf8(String),
    NotUtf8,
}

/// The text of a path, or `NotUtf8` when the path is not valid UTF-8.
pub fn path_to_string(path: &PathText) -> (r: Result<String, PathError>)
    ensures
        match path {
            PathText::Utf8(s) => r matches Ok(t) && t@ == s@,
            PathText::NotUtf8 => r == Err::<String, PathError>(PathError::NotUtf8),
        },
{
    match path {
        PathText::Utf8(s) => Ok(s.clone()),
        PathText::NotUtf8 => Err(PathError::NotUtf8),
    }
}

/// The text of the document path, when there is one and it is valid UTF-8.
pub open spec fn document_text(d: Option<PathText>) -> Option<Seq<char>> {
    match d {
        Some(PathText::Utf8(s)) => Some(s@),
        _ => None,
    }
}

/// A raw configuration can be used: the schema address, once its
/// placeholders are filled, is an absolute URL, and the document path, if
/// any, is valid UTF-8.
pub open spec fn config_ok(raw: RawAppConfig, env: Seq<(String, String)>) -> bool {
    &&& interpolated(raw.schema@, env) matches Some(t)
    &&& url_parses(t)
    &&& !(raw.document matches Some(PathText::NotUtf8))
}

impl AppConfig {
    /// Checks a raw configuration: the schema address with its placeholders
    /// filled from `env` must be an absolute URL, the document path must be
    /// UTF-8, and the flags default to off.
    pub fn from_raw(raw: RawAppConfig, env: &Vec<(String, String)>) -> (r: Result<AppConfig, ConfigError>)
        ensures
            r is Ok ==> config_ok(raw, env@),
            regex_compiles(PLACEHOLDER@) ==> (r is Ok <==> config_ok(raw, env@)),
            r matches Ok(c) ==> c.schema_text@ == url_serialization(interpolated(raw.schema@, env@).unwrap())
                && c.no_ssl == (raw.no_ssl == Some(true)) && c.emit_schema == (raw.emit_schema == Some(true))
                && opt_view(c.document_path) == document_text(raw.document),
            r matches Err(ConfigError::MissingEnvVar(n)) ==> entry_from(env@, n@, 0) is None,
            r matches Err(ConfigError::InvalidUrl(t)) ==> interpolated(raw.schema@, env@) == Some(t@) && !url_parses(t@),
            r matches Err(ConfigError::DocumentPath) ==> raw.document matches Some(PathText::NotUtf8),
    {
        let text = interpolate(&raw.schema, env)?;
        let (schema, schema_text) = match parse_url(text.as_str()) {
            Some(p) => p,
            None => return Err(ConfigError::InvalidUrl(text)),
        };
        let document_path = match raw.document_path() {
            Ok(p) => p,
            Err(_) => return Err(ConfigError::DocumentPath),
        };
        Ok(AppConfig { schema, schema_text, no_ssl: raw.no_ssl(), document_path, emit_schema: raw.emit_schema() })
    }
}

impl RawAppConfig {
    /// Whether certificate checks are switched off; off unless the file says so.
    pub fn no_ssl(&self) -> (r: bool)
        ensures
            r == (self.no_ssl == Some(true)),
    {
        match self.no_ssl {
            Some(b) => b,
            None => false,
        }
    }

    /// Whether the fetched schema is also written out; no unless the file says so.
    pub fn emit_schema(&self) -> (r: bool)
        ensures
            r == (self.emit_schema == Some(true)),
    {
        match self.emit_schema {
            Some(b) => b,
            None => false,
        }
    }

    /// The document path as text: `None` when there is none, `NotUtf8` when it
    /// is not valid UTF-8.
    pub fn document_path(&self) -> (r: Result<Option<String>, PathError>)
        ensures
            r is Err <==> self.document matches Some(PathText::NotUtf8),
            r matches Ok(d) ==> opt_view(d) == document_text(self.document),
    {
        match &self.document {
            Some(p) => match path_to_string(p) {
                Ok(s) => Ok(Some(s)),
                Err(e) => Err(e),
            },
            None => Ok(None),
        }
    }
}

} // verus!
