use vstd::prelude::*;
use vstd::string::StringExecFns;
use crate::error::GenError;
use crate::model::{TypeRef, Type, base_name, has_named, find_type, ref_of};
use crate::scalar::{ScalarConfig, scalar_target};

verus! {

/// `x | null`.
pub open spec fn or_null(x: Seq<char>) -> Seq<char> {
    x + " | null"@
}

/// `Array<x>`.
pub open spec fn array_of(x: Seq<char>) -> Seq<char> {
    "Array<"@ + x + ">"@
}

/// The expression of a resolved reference with its nullability written out.
pub open spec fn with_nullability(r: (Seq<char>, bool)) -> Seq<char> {
    if r.1 {
        or_null(r.0)
    } else {
        r.0
    }
}

/// A reference as a target expression, and whether its outermost level is
/// nullable. `NonNull` clears the flag of what it wraps; a list is nullable
/// unless wrapped, and its items carry their own nullability as `| null`.
pub open spec fn resolved(t: TypeRef, cfg: ScalarConfig) -> (Seq<char>, bool)
    decreases t,
{
    match t {
        TypeRef::NonNull { of_type } => (resolved(*of_type, cfg).0, false),
        TypeRef::List { of_type } => (array_of(with_nullability(resolved(*of_type, cfg))), true),
        TypeRef::Scalar { name } => (scalar_target(cfg, name@), true),
        TypeRef::Object { name } => (name@, true),
        TypeRef::Interface { name } => (name@, true),
        TypeRef::Union { name } => (name@, true),
        TypeRef::Enum { name } => (name@, true),
        TypeRef::InputObject { name } => (name@, true),
    }
}

/// Renders a reference without looking its name up.
pub fn render_ref(t: &TypeRef, cfg: &ScalarConfig) -> (r: (String, bool))
    ensures
        (r.0@, r.1) == resolved(*t, *cfg),
    decreases t,
{
    match t {
        TypeRef::NonNull { of_type } => {
            let inner = render_ref(of_type, cfg);
            (inner.0, false)
        },
        TypeRef::List { of_type } => {
            let inner = render_ref(of_type, cfg);
            let mut s = "Array<".to_owned();
            s.append(inner.0.as_str());
            if inner.1 {
                s.append(" | null");
            }
            s.append(">");
            proof {
                let x = resolved(**of_type, *cfg);
                assert(x.0 == inner.0@);
                if inner.1 {
                    assert(s@ =~= array_of(or_null(x.0)));
                } else {
                    assert(s@ =~= array_of(x.0));
                }
            }
            (s, true)
        },
        TypeRef::Scalar { name } => (cfg.map_scalar(name), true),
        TypeRef::Object { name } => (name.clone(), true),
        TypeRef::Interface { name } => (name.clone(), true),
        TypeRef::Union { name } => (name.clone(), true),
        TypeRef::Enum { name } => (name.clone(), true),
        TypeRef::InputObject { name } => (name.clone(), true),
    }
}

impl TypeRef {
    /// A copy of this reference.
    pub fn duplicate(&self) -> (r: TypeRef)
        ensures
            r == *self,
        decreases self,
    {
        match self {
            TypeRef::Scalar { name } => TypeRef::Scalar { name: name.clone() },
            TypeRef::Object { name } => TypeRef::Object { name: name.clone() },
            TypeRef::Interface { name } => TypeRef::Interface { name: name.clone() },
            TypeRef::Union { name } => TypeRef::Union { name: name.clone() },
            TypeRef::Enum { name } => TypeRef::Enum { name: name.clone() },
            TypeRef::InputObject { name } => TypeRef::InputObject { name: name.clone() },
            TypeRef::NonNull { of_type } => TypeRef::NonNull { of_type: Box::new(of_type.duplicate()) },
            TypeRef::List { of_type } => TypeRef::List { of_type: Box::new(of_type.duplicate()) },
        }
    }

    /// The reference as a target expression, written `T | null` when nullable.
    pub fn as_typescript(&self, cfg: &ScalarConfig) -> (r: String)
        ensures
            r@ == with_nullability(resolved(*self, *cfg)),
    {
        let (mut s, nullable) = render_ref(self, cfg);
        if nullable {
            s.append(" | null");
        }
        s
    }
}

impl Type {
    /// The type, referred to by name or through its wrappers, as a target
    /// expression written `T | null` when nullable.
    pub fn as_typescript(&self, cfg: &ScalarConfig) -> (r: String)
        ensures
            r@ == with_nullability(resolved(ref_of(*self), *cfg)),
    {
        let t = match self {
            Type::Scalar { name, .. } => TypeRef::Scalar { name: name.clone() },
            Type::Object { name, .. } => TypeRef::Object { name: name.clone() },
            Type::Interface { name, .. } => TypeRef::Interface { name: name.clone() },
            Type::Union { name, .. } => TypeRef::Union { name: name.clone() },
            Type::Enum { name, .. } => TypeRef::Enum { name: name.clone() },
            Type::InputObject { name, .. } => TypeRef::InputObject { name: name.clone() },
            Type::NonNull { of_type } => TypeRef::NonNull { of_type: Box::new(of_type.duplicate()) },
            Type::List { of_type } => TypeRef::List { of_type: Box::new(of_type.duplicate()) },
        };
        t.as_typescript(cfg)
    }
}

/// Resolves a reference against the schema's types: the target expression and
/// whether its outermost level is nullable, or `Resolution` with the name when
/// the named type is missing.
pub fn resolve(t: &TypeRef, types: &Vec<Type>, cfg: &ScalarConfig) -> (r: Result<(String, bool), GenError>)
    ensures
        r is Ok <==> has_named(types@, base_name(*t)),
        r matches Ok(v) ==> (v.0@, v.1) == resolved(*t, *cfg),
        r matches Err(e) ==> e matches GenError::Resolution(n) && n@ == base_name(*t),
{
    let name = t.base_name();
    match find_type(types, name) {
        Some(_) => Ok(render_ref(t, cfg)),
        None => Err(GenError::Resolution(name.clone())),
    }
}

} // verus!
