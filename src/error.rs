use vstd::prelude::*;

verus! {

/// Why a generation run failed; each carries the offending type name.
#[derive(Debug)]
pub enum GenError {
    /// A type reference names a type that the schema does not define.
    Resolution(String),
    /// A named type cannot be rendered (a union without members, an enum without values).
    Declaration(String),
    /// Discovery reached a reference to a type that the schema does not define.
    SchemaConsistency(String),
}

} // verus!
