use vstd::prelude::*;
use vstd::string::StringExecFns;
use crate::discover::{
    discover, lemma_child_reachable, lemma_first_unique, list_refs, field_refs, no_dangling, reachable, ref_names, selected,
    steps_to,
};
use crate::emit::{decl_text, declarable, emit_declaration};
use crate::error::GenError;
use crate::model::{Schema, Type, base_name, first_named, has_named, named_as};
use crate::scalar::ScalarConfig;

verus! {

/// The declaration of one named type.
#[derive(Debug)]
pub struct Declaration {
    pub name: String,
    pub text: String,
}

pub open spec fn decls_view(v: Seq<Declaration>) -> Seq<(Seq<char>, Seq<char>)> {
    v.map_values(|d: Declaration| (d.name@, d.text@))
}

/// The declarations of the selected types among the first `k`, in schema order.
pub open spec fn selected_decls(s: Schema, cfg: ScalarConfig, k: int) -> Seq<(Seq<char>, Seq<char>)>
    decreases k,
{
    if k <= 0 {
        Seq::empty()
    } else if selected(s, k - 1) {
        selected_decls(s, cfg, k - 1).push((named_as(s.types@[k - 1]).unwrap(), decl_text(s.types@[k - 1], cfg)))
    } else {
        selected_decls(s, cfg, k - 1)
    }
}

/// Every declaration of a run: one for each reachable named type, in the order
/// in which the schema lists them.
pub open spec fn generated(s: Schema, cfg: ScalarConfig) -> Seq<(Seq<char>, Seq<char>)> {
    selected_decls(s, cfg, s.types@.len() as int)
}

/// A run succeeds: every reachable name is defined and every reachable type
/// can be declared.
pub open spec fn schema_ok(s: Schema) -> bool {
    &&& no_dangling(s)
    &&& forall|i: int| 0 <= i < s.types@.len() && #[trigger] selected(s, i) ==> declarable(s.types@[i], s.types@)
}

/// The texts of some declarations, one after another.
pub open spec fn joined_texts(ds: Seq<(Seq<char>, Seq<char>)>) -> Seq<char>
    decreases ds.len(),
{
    if ds.len() == 0 {
        Seq::empty()
    } else {
        joined_texts(ds.drop_last()) + ds.last().1
    }
}

/// The outcome of a whole run: success exactly on consistent schemas, with the
/// declarations of `generated` one after another.
pub open spec fn typescript_outcome(s: Schema, cfg: ScalarConfig, r: Result<String, GenError>) -> bool {
    &&& (r is Ok <==> schema_ok(s))
    &&& (r matches Ok(t) ==> t@ == joined_texts(generated(s, cfg)))
}

/// The error of a failed run names what went wrong.
pub open spec fn error_explained(s: Schema, e: GenError) -> bool {
    match e {
        GenError::SchemaConsistency(n) => !has_named(s.types@, n@),
        GenError::Declaration(n) => exists|i: int|
            0 <= i < s.types@.len() && #[trigger] selected(s, i) && named_as(s.types@[i]) == Some(n@)
                && !declarable(s.types@[i], s.types@),
        GenError::Resolution(_) => false,
    }
}

/// The declarations of every type reachable from the schema's roots, each
/// reachable named type exactly once, in schema order.
pub fn generate_declarations(s: &Schema, cfg: &ScalarConfig) -> (r: Result<Vec<Declaration>, GenError>)
    ensures
        r is Ok <==> schema_ok(*s),
        r matches Ok(v) ==> decls_view(v@) == generated(*s, *cfg),
        r matches Err(e) ==> error_explained(*s, e),
        !no_dangling(*s) ==> (r matches Err(e) && e is SchemaConsistency),
{
    let seen = discover(s)?;
    let mut out: Vec<Declaration> = Vec::new();
    let mut i: usize = 0;
    while i < s.types.len()
        invariant
            i <= s.types@.len(),
            no_dangling(*s),
            seen@.len() == s.types@.len(),
            forall|j: int| 0 <= j < seen@.len() ==> (seen@[j] <==> #[trigger] selected(*s, j)),
            forall|j: int| 0 <= j < i && #[trigger] selected(*s, j) ==> declarable(s.types@[j], s.types@),
            decls_view(out@) == selected_decls(*s, *cfg, i as int),
        decreases s.types.len() - i,
    {
        if seen[i] {
            let t = &s.types[i];
            match emit_declaration(t, &s.types, cfg) {
                Ok(text) => {
                    let name = match t.name() {
                        Some(n) => n.clone(),
                        None => {
                            assert(false);
                            String::new()
                        },
                    };
                    let ghost before = decls_view(out@);
                    out.push(Declaration { name, text });
                    assert(decls_view(out@) =~= before.push((name@, text@)));
                },
                Err(e) => {
                    assert(selected(*s, i as int));
                    return match e {
                        GenError::Resolution(n) => Err(GenError::SchemaConsistency(n)),
                        GenError::Declaration(n) => Err(GenError::Declaration(n)),
                        GenError::SchemaConsistency(n) => Err(GenError::SchemaConsistency(n)),
                    };
                },
            }
        }
        i += 1;
    }
    Ok(out)
}

/// Concatenates the texts of some declarations.
pub fn render(decls: &Vec<Declaration>) -> (r: String)
    ensures
        r@ == joined_texts(decls_view(decls@)),
{
    let mut out = String::new();
    let mut i: usize = 0;
    while i < decls.len()
        invariant
            i <= decls@.len(),
            out@ == joined_texts(decls_view(decls@.subrange(0, i as int))),
        decreases decls.len() - i,
    {
        out.append(decls[i].text.as_str());
        proof {
            let next = decls@.subrange(0, i + 1);
            assert(decls_view(next).drop_last() =~= decls_view(decls@.subrange(0, i as int)));
            assert(decls_view(next).last() == (decls@[i as int].name@, decls@[i as int].text@));
        }
        i += 1;
    }
    assert(decls@.subrange(0, decls@.len() as int) =~= decls@);
    out
}

/// The whole target module for a schema, or the reason it cannot be written.
pub fn generate_typescript(s: &Schema, cfg: &ScalarConfig) -> (r: Result<String, GenError>)
    ensures
        typescript_outcome(*s, *cfg, r),
        r matches Err(e) ==> error_explained(*s, e),
        !no_dangling(*s) ==> (r matches Err(e) && e is SchemaConsistency),
{
    let decls = generate_declarations(s, cfg)?;
    Ok(render(&decls))
}

proof fn lemma_first_exists(types: Seq<Type>, n: Seq<char>)
    requires
        has_named(types, n),
    ensures
        exists|i: int| first_named(types, n, i),
    decreases types.len(),
{
    let init = types.drop_last();
    if has_named(init, n) {
        lemma_first_exists(init, n);
        let i = choose|i: int| first_named(init, n, i);
        assert forall|j: int| 0 <= j < i implies named_as(#[trigger] types[j]) != Some(n) by {
            assert(types[j] == init[j]);
        }
        assert(first_named(types, n, i));
    } else {
        let last = types.len() - 1;
        let w = choose|w: int| 0 <= w < types.len() && named_as(#[trigger] types[w]) == Some(n);
        if w < last {
            assert(init[w] == types[w]);
        }
        assert forall|j: int| 0 <= j < last implies named_as(#[trigger] types[j]) != Some(n) by {
            assert(init[j] == types[j]);
        }
        assert(first_named(types, n, last));
    }
}

/// `n` is first defined at an index below `k`, by a selected type.
pub open spec fn selected_below(s: Schema, n: Seq<char>, k: int) -> bool {
    exists|i: int| 0 <= i < k && #[trigger] selected(s, i) && first_named(s.types@, n, i)
}

proof fn lemma_selected_decls(s: Schema, cfg: ScalarConfig, k: int)
    requires
        0 <= k <= s.types@.len(),
    ensures
        forall|m: int| 0 <= m < selected_decls(s, cfg, k).len() ==> selected_below(s, #[trigger] selected_decls(s, cfg, k)[m].0, k),
        forall|a: int, b: int|
            0 <= a < b < selected_decls(s, cfg, k).len() ==> #[trigger] selected_decls(s, cfg, k)[a].0
                != #[trigger] selected_decls(s, cfg, k)[b].0,
        forall|i: int| 0 <= i < k && #[trigger] selected(s, i) ==> exists|m: int|
            0 <= m < selected_decls(s, cfg, k).len() && selected_decls(s, cfg, k)[m] == (
                named_as(s.types@[i]).unwrap(),
                decl_text(s.types@[i], cfg),
            ),
    decreases k,
{
    if k > 0 {
        lemma_selected_decls(s, cfg, k - 1);
        let prev = selected_decls(s, cfg, k - 1);
        let cur = selected_decls(s, cfg, k);
        let t = k - 1;
        if selected(s, t) {
            let nt = named_as(s.types@[t]).unwrap();
            assert(cur == prev.push((nt, decl_text(s.types@[t], cfg))));
            assert forall|m: int| 0 <= m < cur.len() implies selected_below(s, #[trigger] cur[m].0, k) by {
                if m < prev.len() {
                    assert(cur[m] == prev[m]);
                } else {
                    assert(selected(s, t) && first_named(s.types@, cur[m].0, t));
                }
            }
            assert forall|a: int, b: int| 0 <= a < b < cur.len() implies #[trigger] cur[a].0 != #[trigger] cur[b].0 by {
                assert(cur[a] == prev[a]);
                if b < prev.len() {
                    assert(cur[b] == prev[b]);
                } else {
                    let i = choose|i: int| 0 <= i < k - 1 && #[trigger] selected(s, i) && first_named(s.types@, prev[a].0, i);
                    if cur[a].0 == cur[b].0 {
                        lemma_first_unique(s.types@, nt, i, t);
                    }
                }
            }
            assert forall|i: int| 0 <= i < k && #[trigger] selected(s, i) implies exists|m: int|
                0 <= m < cur.len() && cur[m] == (named_as(s.types@[i]).unwrap(), decl_text(s.types@[i], cfg)) by {
                if i < t {
                    let m = choose|m: int|
                        0 <= m < prev.len() && prev[m] == (named_as(s.types@[i]).unwrap(), decl_text(s.types@[i], cfg));
                    assert(cur[m] == prev[m]);
                } else {
                    assert(cur[prev.len() as int] == (nt, decl_text(s.types@[t], cfg)));
                }
            }
        } else {
            assert(cur == prev);
            assert forall|m: int| 0 <= m < cur.len() implies selected_below(s, #[trigger] cur[m].0, k) by {
                let i = choose|i: int| 0 <= i < k - 1 && #[trigger] selected(s, i) && first_named(s.types@, prev[m].0, i);
            }
        }
    }
}

/// Each reachable named type is declared exactly once: no two declarations of
/// a run share a name, each reachable type that the schema defines has its
/// declaration, and nothing else is declared.
pub proof fn lemma_each_type_once(s: Schema, cfg: ScalarConfig)
    ensures
        forall|a: int, b: int|
            0 <= a < b < generated(s, cfg).len() ==> #[trigger] generated(s, cfg)[a].0 != #[trigger] generated(
                s,
                cfg,
            )[b].0,
        forall|n: Seq<char>| #[trigger] reachable(s, n) && has_named(s.types@, n) ==> exists|m: int|
            0 <= m < generated(s, cfg).len() && generated(s, cfg)[m].0 == n,
        forall|m: int| 0 <= m < generated(s, cfg).len() ==> reachable(s, #[trigger] generated(s, cfg)[m].0),
{
    let k = s.types@.len() as int;
    lemma_selected_decls(s, cfg, k);
    let g = generated(s, cfg);
    assert forall|n: Seq<char>| #[trigger] reachable(s, n) && has_named(s.types@, n) implies exists|m: int|
        0 <= m < g.len() && g[m].0 == n by {
        lemma_first_exists(s.types@, n);
        let i = choose|i: int| first_named(s.types@, n, i);
        assert(selected(s, i));
        let m = choose|m: int| 0 <= m < g.len() && g[m] == (named_as(s.types@[i]).unwrap(), decl_text(s.types@[i], cfg));
        assert(g[m].0 == n);
    }
    assert forall|m: int| 0 <= m < g.len() implies reachable(s, #[trigger] g[m].0) by {
        let i = choose|i: int| 0 <= i < k && #[trigger] selected(s, i) && first_named(s.types@, g[m].0, i);
    }
}

/// Running generation twice on the same schema and scalar table gives the
/// same outcome: both runs fail, or both succeed with identical text.
pub proof fn lemma_generation_repeatable(
    s: Schema,
    cfg: ScalarConfig,
    first: Result<String, GenError>,
    second: Result<String, GenError>,
)
    requires
        typescript_outcome(s, cfg, first),
        typescript_outcome(s, cfg, second),
    ensures
        first is Ok <==> second is Ok,
        first is Ok ==> first->Ok_0@ == second->Ok_0@,
{
}

proof fn lemma_declared(s: Schema, cfg: ScalarConfig, n: Seq<char>)
    requires
        reachable(s, n),
        has_named(s.types@, n),
    ensures
        exists|k: int, m: int|
            #[trigger] first_named(s.types@, n, k) && 0 <= m < generated(s, cfg).len() && #[trigger] generated(s, cfg)[m] == (
                n,
                decl_text(s.types@[k], cfg),
            ),
{
    lemma_selected_decls(s, cfg, s.types@.len() as int);
    lemma_first_exists(s.types@, n);
    let k = choose|k: int| first_named(s.types@, n, k);
    assert(selected(s, k));
    let m = choose|m: int|
        0 <= m < generated(s, cfg).len() && generated(s, cfg)[m] == (
            named_as(s.types@[k]).unwrap(),
            decl_text(s.types@[k], cfg),
        );
    assert(generated(s, cfg)[m] == (n, decl_text(s.types@[k], cfg)));
}

/// Cycles are cut: when a reachable type `a` refers to a type `b` (a field
/// of its own type, or two objects that reach each other through a union),
/// both are declared, each by exactly one declaration of the output.
pub proof fn lemma_cycle_declared_once(s: Schema, cfg: ScalarConfig, a: Seq<char>, b: Seq<char>)
    requires
        reachable(s, a),
        steps_to(s.types@, a, b),
        has_named(s.types@, a),
        has_named(s.types@, b),
    ensures
        exists|m: int| 0 <= m < generated(s, cfg).len() && #[trigger] generated(s, cfg)[m].0 == a,
        exists|m: int| 0 <= m < generated(s, cfg).len() && #[trigger] generated(s, cfg)[m].0 == b,
        forall|x: int, y: int|
            0 <= x < y < generated(s, cfg).len() ==> #[trigger] generated(s, cfg)[x].0 != #[trigger] generated(
                s,
                cfg,
            )[y].0,
{
    lemma_each_type_once(s, cfg);
    let i = choose|i: int| first_named(s.types@, a, i) && #[trigger] ref_names(s.types@[i]).contains(b);
    assert(selected(s, i));
    lemma_child_reachable(s, i, b);
}

/// An object's declaration extends each of its interfaces by name, and each
/// interface it lists that the schema defines has its own declaration with
/// that interface's fields: the object exposes its own fields and theirs.
pub proof fn lemma_interfaces_declared(s: Schema, cfg: ScalarConfig, i: int, j: int)
    requires
        0 <= i < s.types@.len(),
        selected(s, i),
        s.types@[i] is Object,
        0 <= j < s.types@[i]->Object_interfaces@.len(),
        has_named(s.types@, base_name(s.types@[i]->Object_interfaces@[j])),
    ensures
        decl_text(s.types@[i], cfg) == "export interface "@ + s.types@[i]->Object_name@ + " extends "@
            + crate::emit::joined_names(s.types@[i]->Object_interfaces@) + " {\n"@ + crate::emit::field_lines(
            s.types@[i]->Object_fields@,
            cfg,
        ) + "}\n\n"@,
        exists|m: int|
            0 <= m < generated(s, cfg).len() && #[trigger] generated(s, cfg)[m] == (
                s.types@[i]->Object_name@,
                decl_text(s.types@[i], cfg),
            ),
        exists|k: int, m: int|
            #[trigger] first_named(s.types@, base_name(s.types@[i]->Object_interfaces@[j]), k) && 0 <= m < generated(
                s,
                cfg,
            ).len() && #[trigger] generated(s, cfg)[m] == (
                base_name(s.types@[i]->Object_interfaces@[j]),
                decl_text(s.types@[k], cfg),
            ),
{
    let t = s.types@[i];
    let ifs = t->Object_interfaces@;
    let n = base_name(ifs[j]);
    let fr = field_refs(t->Object_fields@);
    assert(ref_names(t) == fr + list_refs(ifs));
    assert(ref_names(t)[fr.len() + j] == n);
    lemma_child_reachable(s, i, n);
    lemma_declared(s, cfg, n);
    lemma_selected_decls(s, cfg, s.types@.len() as int);
}

} // verus!
