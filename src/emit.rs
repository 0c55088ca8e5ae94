use vstd::prelude::*;
use vstd::string::StringExecFns;
use crate::error::GenError;
use crate::model::{EnumValue, Field, InputValue, Type, TypeRef, base_name, has_named, named_as};
use crate::resolve::{resolve, resolved, with_nullability};
use crate::scalar::{ScalarConfig, scalar_target};

verus! {

/// A field as a property: a nullable type is written `T | null`.
pub open spec fn field_line(f: Field, cfg: ScalarConfig) -> Seq<char> {
    "  "@ + f.name@ + ": "@ + with_nullability(resolved(f.of_type, cfg)) + ";\n"@
}

/// An input value as a property: it is optional when its type is nullable or
/// when it has a default value; its outermost `| null` is left out.
pub open spec fn input_line(v: InputValue, cfg: ScalarConfig) -> Seq<char> {
    let r = resolved(v.of_type, cfg);
    "  "@ + v.name@ + (if r.1 || v.default_value is Some { "?"@ } else { Seq::<char>::empty() }) + ": "@ + r.0 + ";\n"@
}

/// The deprecation note of an enum value, empty when it is not deprecated.
pub open spec fn deprecation_note(v: EnumValue) -> Seq<char> {
    if v.is_deprecated {
        match v.deprecation_reason {
            Some(reason) => " /* deprecated: "@ + reason@ + " */"@,
            None => " /* deprecated */"@,
        }
    } else {
        Seq::<char>::empty()
    }
}

/// An enum value as one member of a union of string literals.
pub open spec fn enum_line(v: EnumValue) -> Seq<char> {
    "  | \""@ + v.name@ + "\""@ + deprecation_note(v) + "\n"@
}

/// A member of a union type.
pub open spec fn member_line(t: TypeRef) -> Seq<char> {
    "  | "@ + base_name(t) + "\n"@
}

pub open spec fn field_lines(fs: Seq<Field>, cfg: ScalarConfig) -> Seq<char>
    decreases fs.len(),
{
    if fs.len() == 0 {
        Seq::empty()
    } else {
        field_lines(fs.drop_last(), cfg) + field_line(fs.last(), cfg)
    }
}

pub open spec fn input_lines(vs: Seq<InputValue>, cfg: ScalarConfig) -> Seq<char>
    decreases vs.len(),
{
    if vs.len() == 0 {
        Seq::empty()
    } else {
        input_lines(vs.drop_last(), cfg) + input_line(vs.last(), cfg)
    }
}

pub open spec fn enum_lines(vs: Seq<EnumValue>) -> Seq<char>
    decreases vs.len(),
{
    if vs.len() == 0 {
        Seq::empty()
    } else {
        enum_lines(vs.drop_last()) + enum_line(vs.last())
    }
}

pub open spec fn member_lines(ts: Seq<TypeRef>) -> Seq<char>
    decreases ts.len(),
{
    if ts.len() == 0 {
        Seq::empty()
    } else {
        member_lines(ts.drop_last()) + member_line(ts.last())
    }
}

/// The names of `ts`, separated by `, `.
pub open spec fn joined_names(ts: Seq<TypeRef>) -> Seq<char>
    decreases ts.len(),
{
    if ts.len() == 0 {
        Seq::empty()
    } else if ts.len() == 1 {
        base_name(ts[0])
    } else {
        joined_names(ts.drop_last()) + ", "@ + base_name(ts.last())
    }
}

/// ` extends A, B` for the interfaces of an object, empty when it has none.
pub open spec fn extends_clause(ts: Seq<TypeRef>) -> Seq<char> {
    if ts.len() == 0 {
        Seq::<char>::empty()
    } else {
        " extends "@ + joined_names(ts)
    }
}

/// The declaration of a named type.
pub open spec fn decl_text(t: Type, cfg: ScalarConfig) -> Seq<char> {
    match t {
        Type::Scalar { name, .. } => "export type "@ + name@ + " = "@ + scalar_target(cfg, name@) + ";\n\n"@,
        Type::Object { name, fields, interfaces, .. } => "export interface "@ + name@ + extends_clause(
            interfaces@,
        ) + " {\n"@ + field_lines(fields@, cfg) + "}\n\n"@,
        Type::Interface { name, fields, .. } => "export interface "@ + name@ + " {\n"@ + field_lines(
            fields@,
            cfg,
        ) + "}\n\n"@,
        Type::Union { name, possible_types, .. } => "export type "@ + name@ + " =\n"@ + member_lines(
            possible_types.unwrap()@,
        ) + ";\n\n"@,
        Type::Enum { name, enum_values, .. } => "export type "@ + name@ + " =\n"@ + enum_lines(enum_values@)
            + ";\n\n"@,
        Type::InputObject { name, input_fields, .. } => "export interface "@ + name@ + " {\n"@
            + input_lines(input_fields@, cfg) + "}\n\n"@,
        Type::NonNull { .. } => Seq::<char>::empty(),
        Type::List { .. } => Seq::<char>::empty(),
    }
}

pub open spec fn fields_resolve(fs: Seq<Field>, types: Seq<Type>) -> bool {
    forall|i: int| 0 <= i < fs.len() ==> has_named(types, base_name(#[trigger] fs[i].of_type))
}

pub open spec fn inputs_resolve(vs: Seq<InputValue>, types: Seq<Type>) -> bool {
    forall|i: int| 0 <= i < vs.len() ==> has_named(types, base_name(#[trigger] vs[i].of_type))
}

/// A named type can be declared: every type its properties name exists, and a
/// union or enum has at least one member. Wrappers are never declared.
pub open spec fn declarable(t: Type, types: Seq<Type>) -> bool {
    match t {
        Type::Scalar { .. } => true,
        Type::Object { fields, .. } => fields_resolve(fields@, types),
        Type::Interface { fields, .. } => fields_resolve(fields@, types),
        Type::Union { possible_types, .. } => possible_types matches Some(v) && v@.len() > 0,
        Type::Enum { enum_values, .. } => enum_values@.len() > 0,
        Type::InputObject { input_fields, .. } => inputs_resolve(input_fields@, types),
        Type::NonNull { .. } => false,
        Type::List { .. } => false,
    }
}

fn fields_text(fs: &Vec<Field>, types: &Vec<Type>, cfg: &ScalarConfig) -> (r: Result<String, GenError>)
    ensures
        r is Ok <==> fields_resolve(fs@, types@),
        r matches Ok(s) ==> s@ == field_lines(fs@, *cfg),
        r matches Err(e) ==> e matches GenError::Resolution(n) && !has_named(types@, n@),
{
    let mut out = String::new();
    let mut i: usize = 0;
    while i < fs.len()
        invariant
            i <= fs@.len(),
            out@ == field_lines(fs@.subrange(0, i as int), *cfg),
            fields_resolve(fs@.subrange(0, i as int), types@),
        decreases fs.len() - i,
    {
        let f = &fs[i];
        match resolve(&f.of_type, types, cfg) {
            Ok(v) => {
                out.append("  ");
                out.append(f.name.as_str());
                out.append(": ");
                out.append(v.0.as_str());
                if v.1 {
                    out.append(" | null");
                }
                out.append(";\n");
                proof {
                    let next = fs@.subrange(0, i + 1);
                    assert(next.drop_last() =~= fs@.subrange(0, i as int));
                    assert(next.last() == fs@[i as int]);
                    assert(out@ =~= field_lines(next, *cfg));
                    assert forall|j: int| 0 <= j < next.len() implies has_named(types@, base_name(#[trigger] next[j].of_type)) by {
                        if j < i {
                            assert(next[j] == fs@.subrange(0, i as int)[j]);
                        }
                    }
                }
            },
            Err(e) => {
                return Err(e);
            },
        }
        i += 1;
    }
    assert(fs@.subrange(0, fs@.len() as int) =~= fs@);
    Ok(out)
}

fn inputs_text(vs: &Vec<InputValue>, types: &Vec<Type>, cfg: &ScalarConfig) -> (r: Result<String, GenError>)
    ensures
        r is Ok <==> inputs_resolve(vs@, types@),
        r matches Ok(s) ==> s@ == input_lines(vs@, *cfg),
        r matches Err(e) ==> e matches GenError::Resolution(n) && !has_named(types@, n@),
{
    let mut out = String::new();
    let mut i: usize = 0;
    while i < vs.len()
        invariant
            i <= vs@.len(),
            out@ == input_lines(vs@.subrange(0, i as int), *cfg),
            inputs_resolve(vs@.subrange(0, i as int), types@),
        decreases vs.len() - i,
    {
        let v = &vs[i];
        match resolve(&v.of_type, types, cfg) {
            Ok(x) => {
                out.append("  ");
                out.append(v.name.as_str());
                if x.1 || v.default_value.is_some() {
                    out.append("?");
                }
                out.append(": ");
                out.append(x.0.as_str());
                out.append(";\n");
                proof {
                    let next = vs@.subrange(0, i + 1);
                    assert(next.drop_last() =~= vs@.subrange(0, i as int));
                    assert(next.last() == vs@[i as int]);
                    assert(out@ =~= input_lines(next, *cfg));
                    assert forall|j: int| 0 <= j < next.len() implies has_named(types@, base_name(#[trigger] next[j].of_type)) by {
                        if j < i {
                            assert(next[j] == vs@.subrange(0, i as int)[j]);
                        }
                    }
                }
            },
            Err(e) => {
                return Err(e);
            },
        }
        i += 1;
    }
    assert(vs@.subrange(0, vs@.len() as int) =~= vs@);
    Ok(out)
}

fn enum_text(vs: &Vec<EnumValue>) -> (r: String)
    ensures
        r@ == enum_lines(vs@),
{
    let mut out = String::new();
    let mut i: usize = 0;
    while i < vs.len()
        invariant
            i <= vs@.len(),
            out@ == enum_lines(vs@.subrange(0, i as int)),
        decreases vs.len() - i,
    {
        let v = &vs[i];
        out.append("  | \"");
        out.append(v.name.as_str());
        out.append("\"");
        if v.is_deprecated {
            match &v.deprecation_reason {
                Some(reason) => {
                    out.append(" /* deprecated: ");
                    out.append(reason.as_str());
                    out.append(" */");
                },
                None => {
                    out.append(" /* deprecated */");
                },
            }
        }
        out.append("\n");
        proof {
            let next = vs@.subrange(0, i + 1);
            assert(next.drop_last() =~= vs@.subrange(0, i as int));
            assert(next.last() == vs@[i as int]);
            assert(out@ =~= enum_lines(next));
        }
        i += 1;
    }
    assert(vs@.subrange(0, vs@.len() as int) =~= vs@);
    out
}

fn members_text(ts: &Vec<TypeRef>) -> (r: String)
    ensures
        r@ == member_lines(ts@),
{
    let mut out = String::new();
    let mut i: usize = 0;
    while i < ts.len()
        invariant
            i <= ts@.len(),
            out@ == member_lines(ts@.subrange(0, i as int)),
        decreases ts.len() - i,
    {
        out.append("  | ");
        out.append(ts[i].base_name().as_str());
        out.append("\n");
        proof {
            let next = ts@.subrange(0, i + 1);
            assert(next.drop_last() =~= ts@.subrange(0, i as int));
            assert(next.last() == ts@[i as int]);
            assert(out@ =~= member_lines(next));
        }
        i += 1;
    }
    assert(ts@.subrange(0, ts@.len() as int) =~= ts@);
    out
}

fn extends_text(ts: &Vec<TypeRef>) -> (r: String)
    ensures
        r@ == extends_clause(ts@),
{
    if ts.len() == 0 {
        return String::new();
    }
    let mut out = " extends ".to_owned();
    out.append(ts[0].base_name().as_str());
    proof {
        assert(ts@.subrange(0, 1).drop_last().len() == 0);
        assert(out@ =~= " extends "@ + joined_names(ts@.subrange(0, 1)));
    }
    let mut i: usize = 1;
    while i < ts.len()
        invariant
            1 <= i <= ts@.len(),
            out@ == " extends "@ + joined_names(ts@.subrange(0, i as int)),
        decreases ts.len() - i,
    {
        out.append(", ");
        out.append(ts[i].base_name().as_str());
        proof {
            let next = ts@.subrange(0, i + 1);
            assert(next.drop_last() =~= ts@.subrange(0, i as int));
            assert(next.last() == ts@[i as int]);
            assert(out@ =~= " extends "@ + joined_names(next));
        }
        i += 1;
    }
    assert(ts@.subrange(0, ts@.len() as int) =~= ts@);
    out
}

/// The declaration of one named type: `Ok` exactly when the type is
/// declarable, with the text of `decl_text`.
pub fn emit_declaration(t: &Type, types: &Vec<Type>, cfg: &ScalarConfig) -> (r: Result<String, GenError>)
    ensures
        r is Ok <==> declarable(*t, types@),
        r matches Ok(s) ==> s@ == decl_text(*t, *cfg),
        r matches Err(e) ==> match e {
            GenError::Resolution(n) => !has_named(types@, n@),
            GenError::Declaration(n) => named_as(*t) is None || named_as(*t) == Some(n@),
            GenError::SchemaConsistency(_) => false,
        },
{
    match t {
        Type::Scalar { name, .. } => {
            let mut out = "export type ".to_owned();
            out.append(name.as_str());
            out.append(" = ");
            out.append(cfg.map_scalar(name).as_str());
            out.append(";\n\n");
            assert(out@ =~= decl_text(*t, *cfg));
            Ok(out)
        },
        Type::Object { name, fields, interfaces, .. } => {
            let body = fields_text(fields, types, cfg)?;
            let mut out = "export interface ".to_owned();
            out.append(name.as_str());
            out.append(extends_text(interfaces).as_str());
            out.append(" {\n");
            out.append(body.as_str());
            out.append("}\n\n");
            assert(out@ =~= decl_text(*t, *cfg));
            Ok(out)
        },
        Type::Interface { name, fields, .. } => {
            let body = fields_text(fields, types, cfg)?;
            let mut out = "export interface ".to_owned();
            out.append(name.as_str());
            out.append(" {\n");
            out.append(body.as_str());
            out.append("}\n\n");
            assert(out@ =~= decl_text(*t, *cfg));
            Ok(out)
        },
        Type::Union { name, possible_types, .. } => {
            match possible_types {
                Some(members) => {
                    if members.len() == 0 {
                        return Err(GenError::Declaration(name.clone()));
                    }
                    let mut out = "export type ".to_owned();
                    out.append(name.as_str());
                    out.append(" =\n");
                    out.append(members_text(members).as_str());
                    out.append(";\n\n");
                    assert(out@ =~= decl_text(*t, *cfg));
                    Ok(out)
                },
                None => Err(GenError::Declaration(name.clone())),
            }
        },
        Type::Enum { name, enum_values, .. } => {
            if enum_values.len() == 0 {
                return Err(GenError::Declaration(name.clone()));
            }
            let mut out = "export type ".to_owned();
            out.append(name.as_str());
            out.append(" =\n");
            out.append(enum_text(enum_values).as_str());
            out.append(";\n\n");
            assert(out@ =~= decl_text(*t, *cfg));
            Ok(out)
        },
        Type::InputObject { name, input_fields, .. } => {
            let body = inputs_text(input_fields, types, cfg)?;
            let mut out = "export interface ".to_owned();
            out.append(name.as_str());
            out.append(" {\n");
            out.append(body.as_str());
            out.append("}\n\n");
            assert(out@ =~= decl_text(*t, *cfg));
            Ok(out)
        },
        Type::NonNull { of_type } => Err(GenError::Declaration(of_type.base_name().clone())),
        Type::List { of_type } => Err(GenError::Declaration(of_type.base_name().clone())),
    }
}

} // verus!
