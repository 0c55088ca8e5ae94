use vstd::prelude::*;

verus! {

/// How scalar names become target types: a user table, consulted first, then
/// the built-in scalars, then a fallback for every other name.
pub struct ScalarConfig {
    pub overrides: Vec<(String, String)>,
    pub fallback: String,
}

/// The value of the first entry of `ov` at or after `i` whose key is `n`.
pub open spec fn entry_from(ov: Seq<(String, String)>, n: Seq<char>, i: int) -> Option<Seq<char>>
    decreases ov.len() - i,
{
    if i < 0 || i >= ov.len() {
        None
    } else if ov[i].0@ == n {
        Some(ov[i].1@)
    } else {
        entry_from(ov, n, i + 1)
    }
}

/// The target types of GraphQL's built-in scalars.
pub open spec fn builtin_scalar(n: Seq<char>) -> Option<Seq<char>> {
    if n == "Int"@ || n == "Float"@ {
        Some("number"@)
    } else if n == "String"@ || n == "ID"@ {
        Some("string"@)
    } else if n == "Boolean"@ {
        Some("boolean"@)
    } else {
        None
    }
}

/// The target type of the scalar named `n`.
pub open spec fn scalar_target(cfg: ScalarConfig, n: Seq<char>) -> Seq<char> {
    match entry_from(cfg.overrides@, n, 0) {
        Some(t) => t,
        None => match builtin_scalar(n) {
            Some(t) => t,
            None => cfg.fallback@,
        },
    }
}

impl ScalarConfig {
    /// No user table, and `unknown` for every scalar that is not built in.
    pub fn new() -> (r: ScalarConfig)
        ensures
            r.overrides@.len() == 0,
            r.fallback@ == "unknown"@,
    {
        ScalarConfig { overrides: Vec::new(), fallback: "unknown".to_owned() }
    }

    /// The target type of the scalar named `name`.
    pub fn map_scalar(&self, name: &String) -> (r: String)
        ensures
            r@ == scalar_target(*self, name@),
    {
        let mut i: usize = 0;
        while i < self.overrides.len()
            invariant
                i <= self.overrides@.len(),
                entry_from(self.overrides@, name@, 0) == entry_from(self.overrides@, name@, i as int),
            decreases self.overrides.len() - i,
        {
            if self.overrides[i].0 == *name {
                return self.overrides[i].1.clone();
            }
            i += 1;
        }
        let int_name = "Int".to_owned();
        let float_name = "Float".to_owned();
        let string_name = "String".to_owned();
        let id_name = "ID".to_owned();
        let boolean_name = "Boolean".to_owned();
        if *name == int_name || *name == float_name {
            "number".to_owned()
        } else if *name == string_name || *name == id_name {
            "string".to_owned()
        } else if *name == boolean_name {
            "boolean".to_owned()
        } else {
            self.fallback.clone()
        }
    }
}

} // verus!
