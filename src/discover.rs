use vstd::prelude::*;
use crate::error::GenError;
use crate::model::{Field, InputValue, Schema, Type, TypeRef, base_name, find_type, first_named, has_named, named_as};

verus! {

/// The string contents of a vector of strings.
pub open spec fn names_of(v: Seq<String>) -> Seq<Seq<char>> {
    v.map_values(|s: String| s@)
}

/// The names of the types of some input values, in order.
pub open spec fn input_refs(vs: Seq<InputValue>) -> Seq<Seq<char>>
    decreases vs.len(),
{
    if vs.len() == 0 {
        Seq::empty()
    } else {
        input_refs(vs.drop_last()).push(base_name(vs.last().of_type))
    }
}

/// The names of the types of some fields, each followed by those of its arguments.
pub open spec fn field_refs(fs: Seq<Field>) -> Seq<Seq<char>>
    decreases fs.len(),
{
    if fs.len() == 0 {
        Seq::empty()
    } else {
        field_refs(fs.drop_last()).push(base_name(fs.last().of_type)) + input_refs(fs.last().args@)
    }
}

/// The names of a list of references.
pub open spec fn list_refs(ts: Seq<TypeRef>) -> Seq<Seq<char>> {
    ts.map_values(|t: TypeRef| base_name(t))
}

/// The names of a list of references that may be absent.
pub open spec fn opt_list_refs(ts: Option<Vec<TypeRef>>) -> Seq<Seq<char>> {
    match ts {
        Some(v) => list_refs(v@),
        None => Seq::empty(),
    }
}

/// The names that a type's definition refers to: field and argument types,
/// the interfaces of an object, the members of a union and input field types.
/// An interface's possible types are not followed.
pub open spec fn ref_names(t: Type) -> Seq<Seq<char>> {
    match t {
        Type::Object { fields, interfaces, .. } => field_refs(fields@) + list_refs(interfaces@),
        Type::Interface { fields, .. } => field_refs(fields@),
        Type::Union { possible_types, .. } => opt_list_refs(possible_types),
        Type::InputObject { input_fields, .. } => input_refs(input_fields@),
        _ => Seq::empty(),
    }
}

/// The argument types of some directives, in order.
pub open spec fn directive_refs(ds: Seq<crate::model::Directive>) -> Seq<Seq<char>>
    decreases ds.len(),
{
    if ds.len() == 0 {
        Seq::empty()
    } else {
        directive_refs(ds.drop_last()) + input_refs(ds.last().args@)
    }
}

/// Where discovery starts: the operation roots, then the directives' argument types.
pub open spec fn root_names(s: Schema) -> Seq<Seq<char>> {
    seq![s.query_type.name@] + (match s.mutation_type {
        Some(r) => seq![r.name@],
        None => Seq::empty(),
    }) + (match s.subscription_type {
        Some(r) => seq![r.name@],
        None => Seq::empty(),
    }) + directive_refs(s.directives@)
}

/// The type first named `a` refers to `b`.
pub open spec fn steps_to(types: Seq<Type>, a: Seq<char>, b: Seq<char>) -> bool {
    exists|i: int| first_named(types, a, i) && #[trigger] ref_names(types[i]).contains(b)
}

/// `p` starts at a root and each name is referred to by the type named before it.
pub open spec fn is_path(s: Schema, p: Seq<Seq<char>>) -> bool {
    &&& p.len() > 0
    &&& root_names(s).contains(p[0])
    &&& forall|k: int| 0 <= k < p.len() - 1 ==> steps_to(s.types@, #[trigger] p[k], p[k + 1])
}

/// A name is reachable when some path from a root ends at it.
pub open spec fn reachable(s: Schema, n: Seq<char>) -> bool {
    exists|p: Seq<Seq<char>>| is_path(s, p) && p.last() == n
}

/// The type at `i` is the first definition of a reachable name.
pub open spec fn selected(s: Schema, i: int) -> bool {
    named_as(s.types@[i]) matches Some(n) && first_named(s.types@, n, i) && reachable(s, n)
}

/// Every reachable name is defined.
pub open spec fn no_dangling(s: Schema) -> bool {
    forall|n: Seq<char>| reachable(s, n) ==> has_named(s.types@, n)
}

pub open spec fn marked(seen: Seq<bool>, types: Seq<Type>, n: Seq<char>) -> bool {
    exists|i: int| first_named(types, n, i) && #[trigger] seen[i]
}

pub open spec fn count_unseen(s: Seq<bool>) -> nat
    decreases s.len(),
{
    if s.len() == 0 {
        0
    } else {
        count_unseen(s.drop_last()) + if s.last() { 0nat } else { 1nat }
    }
}

proof fn lemma_count_update(s: Seq<bool>, i: int)
    requires
        0 <= i < s.len(),
        !s[i],
    ensures
        count_unseen(s.update(i, true)) + 1 == count_unseen(s),
    decreases s.len(),
{
    let u = s.update(i, true);
    if i == s.len() - 1 {
        assert(u.drop_last() =~= s.drop_last());
    } else {
        lemma_count_update(s.drop_last(), i);
        assert(u.drop_last() =~= s.drop_last().update(i, true));
    }
}

/// Two first indices of one name are the same index.
pub proof fn lemma_first_unique(types: Seq<Type>, n: Seq<char>, i: int, j: int)
    requires
        first_named(types, n, i),
        first_named(types, n, j),
    ensures
        i == j,
{
    if i < j {
        assert(named_as(types[i]) != Some(n));
    } else if j < i {
        assert(named_as(types[j]) != Some(n));
    }
}

fn push_input_refs(vs: &Vec<InputValue>, out: &mut Vec<String>)
    ensures
        names_of(final(out)@) == names_of(old(out)@) + input_refs(vs@),
{
    let ghost start = names_of(out@);
    let mut i: usize = 0;
    while i < vs.len()
        invariant
            i <= vs@.len(),
            names_of(out@) == start + input_refs(vs@.subrange(0, i as int)),
        decreases vs.len() - i,
    {
        let ghost before = names_of(out@);
        out.push(vs[i].of_type.base_name().clone());
        assert(names_of(out@) =~= before.push(base_name(vs@[i as int].of_type)));
        proof {
            let next = vs@.subrange(0, i + 1);
            assert(next.drop_last() =~= vs@.subrange(0, i as int));
            assert(next.last() == vs@[i as int]);
            assert(names_of(out@) =~= start + input_refs(next));
        }
        i += 1;
    }
    assert(vs@.subrange(0, vs@.len() as int) =~= vs@);
}

fn push_field_refs(fs: &Vec<Field>, out: &mut Vec<String>)
    ensures
        names_of(final(out)@) == names_of(old(out)@) + field_refs(fs@),
{
    let ghost start = names_of(out@);
    let mut i: usize = 0;
    while i < fs.len()
        invariant
            i <= fs@.len(),
            names_of(out@) == start + field_refs(fs@.subrange(0, i as int)),
        decreases fs.len() - i,
    {
        let ghost before = names_of(out@);
        out.push(fs[i].of_type.base_name().clone());
        assert(names_of(out@) =~= before.push(base_name(fs@[i as int].of_type)));
        push_input_refs(&fs[i].args, out);
        proof {
            let next = fs@.subrange(0, i + 1);
            assert(next.drop_last() =~= fs@.subrange(0, i as int));
            assert(next.last() == fs@[i as int]);
            assert(names_of(out@) =~= start + field_refs(next));
        }
        i += 1;
    }
    assert(fs@.subrange(0, fs@.len() as int) =~= fs@);
}

fn push_list_refs(ts: &Vec<TypeRef>, out: &mut Vec<String>)
    ensures
        names_of(final(out)@) == names_of(old(out)@) + list_refs(ts@),
{
    let ghost start = names_of(out@);
    let mut i: usize = 0;
    while i < ts.len()
        invariant
            i <= ts@.len(),
            names_of(out@) == start + list_refs(ts@.subrange(0, i as int)),
        decreases ts.len() - i,
    {
        let ghost before = names_of(out@);
        out.push(ts[i].base_name().clone());
        assert(names_of(out@) =~= before.push(base_name(ts@[i as int])));
        proof {
            let next = ts@.subrange(0, i + 1);
            assert(list_refs(next) =~= list_refs(ts@.subrange(0, i as int)).push(base_name(ts@[i as int])));
            assert(names_of(out@) =~= start + list_refs(next));
        }
        i += 1;
    }
    assert(ts@.subrange(0, ts@.len() as int) =~= ts@);
}

/// The names that a type's definition refers to.
pub fn refs_of(t: &Type) -> (r: Vec<String>)
    ensures
        names_of(r@) == ref_names(*t),
{
    let mut out: Vec<String> = Vec::new();
    assert(names_of(out@) =~= Seq::empty());
    match t {
        Type::Object { fields, interfaces, .. } => {
            push_field_refs(fields, &mut out);
            push_list_refs(interfaces, &mut out);
            assert(names_of(out@) =~= ref_names(*t));
        },
        Type::Interface { fields, .. } => {
            push_field_refs(fields, &mut out);
            assert(names_of(out@) =~= ref_names(*t));
        },
        Type::Union { possible_types, .. } => {
            match possible_types {
                Some(v) => push_list_refs(v, &mut out),
                None => {},
            }
            assert(names_of(out@) =~= ref_names(*t));
        },
        Type::InputObject { input_fields, .. } => {
            push_input_refs(input_fields, &mut out);
            assert(names_of(out@) =~= ref_names(*t));
        },
        _ => {},
    }
    out
}

/// The names where discovery starts.
pub fn roots_of(s: &Schema) -> (r: Vec<String>)
    ensures
        names_of(r@) == root_names(*s),
{
    let mut out: Vec<String> = Vec::new();
    out.push(s.query_type.name.clone());
    match &s.mutation_type {
        Some(m) => out.push(m.name.clone()),
        None => {},
    }
    match &s.subscription_type {
        Some(m) => out.push(m.name.clone()),
        None => {},
    }
    let ghost operations = names_of(out@);
    let ds = &s.directives;
    let mut i: usize = 0;
    while i < ds.len()
        invariant
            i <= ds@.len(),
            names_of(out@) == operations + directive_refs(ds@.subrange(0, i as int)),
        decreases ds.len() - i,
    {
        push_input_refs(&ds[i].args, &mut out);
        proof {
            let next = ds@.subrange(0, i + 1);
            assert(next.drop_last() =~= ds@.subrange(0, i as int));
            assert(next.last() == ds@[i as int]);
            assert(names_of(out@) =~= operations + directive_refs(next));
        }
        i += 1;
    }
    assert(ds@.subrange(0, ds@.len() as int) =~= ds@);
    assert(names_of(out@) =~= root_names(*s));
    out
}

/// What discovery keeps true: `order` lists the marked indices, each the first
/// definition of a reachable name, and every marked index is listed.
pub open spec fn marking_ok(s: Schema, seen: Seq<bool>, order: Seq<usize>) -> bool {
    &&& seen.len() == s.types@.len()
    &&& forall|k: int|
        0 <= k < order.len() ==> (#[trigger] order[k] as int) < seen.len() && seen[order[k] as int]
            && selected(s, order[k] as int)
    &&& forall|i: int| 0 <= i < seen.len() && #[trigger] seen[i] ==> exists|k: int| 0 <= k < order.len() && order[k] == i
}

/// The first `head` listed types have all their references marked.
pub open spec fn closed_upto(s: Schema, seen: Seq<bool>, order: Seq<usize>, head: int) -> bool {
    &&& 0 <= head <= order.len()
    &&& forall|k: int, n: Seq<char>|
        0 <= k < head && #[trigger] ref_names(s.types@[order[k] as int]).contains(n) ==> marked(seen, s.types@, n)
}

pub open spec fn roots_marked(s: Schema, seen: Seq<bool>) -> bool {
    forall|n: Seq<char>| root_names(s).contains(n) ==> #[trigger] marked(seen, s.types@, n)
}

proof fn lemma_mark_step(
    s: Schema,
    seen: Seq<bool>,
    order: Seq<usize>,
    seen2: Seq<bool>,
    order2: Seq<usize>,
    i: usize,
    name: Seq<char>,
    head: int,
)
    requires
        marking_ok(s, seen, order),
        first_named(s.types@, name, i as int),
        reachable(s, name),
        seen2 == seen.update(i as int, true),
        order2 == if seen[i as int] { order } else { order.push(i) },
    ensures
        marking_ok(s, seen2, order2),
        forall|n: Seq<char>| marked(seen, s.types@, n) ==> marked(seen2, s.types@, n),
        marked(seen2, s.types@, name),
        count_unseen(seen2) + order2.len() == count_unseen(seen) + order.len(),
        closed_upto(s, seen, order, head) ==> closed_upto(s, seen2, order2, head),
        roots_marked(s, seen) ==> roots_marked(s, seen2),
{
    let types = s.types@;
    if seen[i as int] {
        assert(seen2 =~= seen);
    } else {
        lemma_count_update(seen, i as int);
        assert forall|k: int| 0 <= k < order2.len() implies (#[trigger] order2[k] as int) < seen2.len()
            && seen2[order2[k] as int] && selected(s, order2[k] as int) by {
            if k < order.len() {
                assert(order2[k] == order[k]);
            } else {
                assert(order2[k] == i);
            }
        }
        assert forall|j: int| 0 <= j < seen2.len() && #[trigger] seen2[j] implies exists|k: int|
            0 <= k < order2.len() && order2[k] == j by {
            if j == i as int {
                assert(order2[order.len() as int] as int == j);
            } else {
                let k = choose|k: int| 0 <= k < order.len() && order[k] == j;
                assert(order2[k] == j);
            }
        }
    }
    assert forall|n: Seq<char>| marked(seen, types, n) implies marked(seen2, types, n) by {
        let j = choose|j: int| first_named(types, n, j) && #[trigger] seen[j];
        assert(seen2[j]);
    }
    assert(seen2[i as int]);
    if closed_upto(s, seen, order, head) {
        assert forall|k: int, n: Seq<char>|
            0 <= k < head && #[trigger] ref_names(types[order2[k] as int]).contains(n) implies marked(seen2, types, n) by {
            assert(order2[k] == order[k]);
            assert(marked(seen, types, n));
        }
    }
    if roots_marked(s, seen) {
        assert forall|n: Seq<char>| root_names(s).contains(n) implies #[trigger] marked(seen2, types, n) by {
            assert(marked(seen, types, n));
        }
    }
}

/// A name that a selected type refers to is reachable.
pub proof fn lemma_child_reachable(s: Schema, i: int, c: Seq<char>)
    requires
        0 <= i < s.types@.len(),
        selected(s, i),
        ref_names(s.types@[i]).contains(c),
    ensures
        reachable(s, c),
{
    let n = named_as(s.types@[i]).unwrap();
    let p = choose|p: Seq<Seq<char>>| is_path(s, p) && p.last() == n;
    let q = p.push(c);
    assert(steps_to(s.types@, n, c));
    assert forall|k: int| 0 <= k < q.len() - 1 implies steps_to(s.types@, #[trigger] q[k], q[k + 1]) by {
        if k < p.len() - 1 {
            assert(q[k] == p[k] && q[k + 1] == p[k + 1]);
        } else {
            assert(q[k] == n && q[k + 1] == c);
        }
    }
    assert(q[0] == p[0]);
    assert(is_path(s, q) && q.last() == c);
}

proof fn lemma_path_marked(s: Schema, seen: Seq<bool>, order: Seq<usize>, p: Seq<Seq<char>>)
    requires
        marking_ok(s, seen, order),
        closed_upto(s, seen, order, order.len() as int),
        roots_marked(s, seen),
        is_path(s, p),
    ensures
        marked(seen, s.types@, p.last()),
    decreases p.len(),
{
    let types = s.types@;
    if p.len() == 1 {
        assert(marked(seen, types, p[0]));
    } else {
        let q = p.drop_last();
        assert forall|k: int| 0 <= k < q.len() - 1 implies steps_to(types, #[trigger] q[k], q[k + 1]) by {
            assert(q[k] == p[k] && q[k + 1] == p[k + 1]);
        }
        assert(q[0] == p[0]);
        lemma_path_marked(s, seen, order, q);
        let j = choose|j: int| first_named(types, q.last(), j) && #[trigger] seen[j];
        let k = choose|k: int| 0 <= k < order.len() && order[k] == j;
        let last = p.len() - 2;
        assert(steps_to(types, p[last], p[last + 1]));
        assert(q.last() == p[last]);
        let i2 = choose|i2: int| first_named(types, p[last], i2) && #[trigger] ref_names(types[i2]).contains(p[last + 1]);
        lemma_first_unique(types, p[last], i2, j);
        assert(ref_names(types[order[k] as int]).contains(p.last()));
    }
}

/// Marks the first type named `name`, listing it in `order` when it was not
/// marked before; `SchemaConsistency` when no type has that name.
fn mark(types: &Vec<Type>, name: &String, seen: &mut Vec<bool>, order: &mut Vec<usize>) -> (r: Result<usize, GenError>)
    requires
        old(seen)@.len() == types@.len(),
    ensures
        match r {
            Ok(i) => first_named(types@, name@, i as int) && final(seen)@ == old(seen)@.update(i as int, true)
                && final(order)@ == if old(seen)@[i as int] {
                old(order)@
            } else {
                old(order)@.push(i)
            },
            Err(e) => !has_named(types@, name@) && (e matches GenError::SchemaConsistency(n) && n@ == name@),
        },
{
    match find_type(types, name) {
        Some(i) => {
            if !seen[i] {
                seen.set(i, true);
                order.push(i);
            } else {
                assert(seen@.update(i as int, true) =~= seen@);
            }
            Ok(i)
        },
        None => Err(GenError::SchemaConsistency(name.clone())),
    }
}

/// Finds every type reachable from the roots, walking each one once. The
/// result marks, for each index of `types`, whether it is the first definition
/// of a reachable name; `SchemaConsistency` names a reachable but undefined type.
pub fn discover(s: &Schema) -> (r: Result<Vec<bool>, GenError>)
    ensures
        r is Ok <==> no_dangling(*s),
        r matches Ok(seen) ==> seen@.len() == s.types@.len() && forall|i: int|
            0 <= i < seen@.len() ==> (seen@[i] <==> #[trigger] selected(*s, i)),
        r matches Err(e) ==> e matches GenError::SchemaConsistency(n) && reachable(*s, n@) && !has_named(s.types@, n@),
{
    let mut seen: Vec<bool> = Vec::new();
    let mut i: usize = 0;
    while i < s.types.len()
        invariant
            i <= s.types@.len(),
            seen@.len() == i,
            forall|j: int| 0 <= j < i ==> !(#[trigger] seen@[j]),
        decreases s.types.len() - i,
    {
        seen.push(false);
        i += 1;
    }
    let mut order: Vec<usize> = Vec::new();
    let roots = roots_of(s);
    let mut j: usize = 0;
    while j < roots.len()
        invariant
            j <= roots@.len(),
            marking_ok(*s, seen@, order@),
            names_of(roots@) == root_names(*s),
            forall|jj: int| 0 <= jj < j ==> marked(seen@, s.types@, #[trigger] roots@[jj]@),
        decreases roots.len() - j,
    {
        let ghost name = roots@[j as int]@;
        proof {
            assert(names_of(roots@)[j as int] == name);
            let p = seq![name];
            assert(is_path(*s, p) && p.last() == name);
            assert(reachable(*s, name));
        }
        let ghost seen0 = seen@;
        let ghost order0 = order@;
        match mark(&s.types, &roots[j], &mut seen, &mut order) {
            Ok(k) => {
                proof {
                    lemma_mark_step(*s, seen0, order0, seen@, order@, k, name, 0);
                }
            },
            Err(e) => {
                return Err(e);
            },
        }
        j += 1;
    }
    proof {
        assert forall|n: Seq<char>| root_names(*s).contains(n) implies #[trigger] marked(seen@, s.types@, n) by {
            let jj = choose|jj: int| 0 <= jj < root_names(*s).len() && root_names(*s)[jj] == n;
            assert(names_of(roots@)[jj] == roots@[jj]@);
        }
    }
    let mut head: usize = 0;
    while head < order.len()
        invariant
            marking_ok(*s, seen@, order@),
            closed_upto(*s, seen@, order@, head as int),
            roots_marked(*s, seen@),
        decreases count_unseen(seen@) + order@.len() - head,
    {
        let p = order[head];
        let refs = refs_of(&s.types[p]);
        let ghost total = count_unseen(seen@) + order@.len();
        let mut j: usize = 0;
        while j < refs.len()
            invariant
                j <= refs@.len(),
                head < order@.len(),
                order@[head as int] == p,
                (p as int) < s.types@.len(),
                selected(*s, p as int),
                marking_ok(*s, seen@, order@),
                closed_upto(*s, seen@, order@, head as int),
                roots_marked(*s, seen@),
                names_of(refs@) == ref_names(s.types@[p as int]),
                forall|jj: int| 0 <= jj < j ==> marked(seen@, s.types@, #[trigger] refs@[jj]@),
                count_unseen(seen@) + order@.len() == total,
            decreases refs.len() - j,
        {
            let ghost name = refs@[j as int]@;
            proof {
                assert(names_of(refs@)[j as int] == name);
                lemma_child_reachable(*s, p as int, name);
            }
            let ghost seen0 = seen@;
            let ghost order0 = order@;
            match mark(&s.types, &refs[j], &mut seen, &mut order) {
                Ok(k) => {
                    proof {
                        lemma_mark_step(*s, seen0, order0, seen@, order@, k, name, head as int);
                        assert(order@[head as int] == order0[head as int]);
                    }
                },
                Err(e) => {
                    return Err(e);
                },
            }
            j += 1;
        }
        proof {
            assert forall|k: int, n: Seq<char>|
                0 <= k < head + 1 && #[trigger] ref_names(s.types@[order@[k] as int]).contains(n) implies marked(
                seen@,
                s.types@,
                n,
            ) by {
                if k == head {
                    let jj = choose|jj: int| 0 <= jj < ref_names(s.types@[p as int]).len() && ref_names(s.types@[p as int])[jj] == n;
                    assert(names_of(refs@)[jj] == refs@[jj]@);
                }
            }
        }
        head += 1;
    }
    proof {
        assert forall|i: int| 0 <= i < seen@.len() implies (seen@[i] <==> #[trigger] selected(*s, i)) by {
            if seen@[i] {
                let k = choose|k: int| 0 <= k < order@.len() && order@[k] == i;
                assert(selected(*s, order@[k] as int));
            }
            if selected(*s, i) {
                let n = named_as(s.types@[i]).unwrap();
                let p = choose|p: Seq<Seq<char>>| is_path(*s, p) && p.last() == n;
                lemma_path_marked(*s, seen@, order@, p);
                let j = choose|j: int| first_named(s.types@, n, j) && #[trigger] seen@[j];
                lemma_first_unique(s.types@, n, i, j);
            }
        }
        assert forall|n: Seq<char>| reachable(*s, n) implies has_named(s.types@, n) by {
            let p = choose|p: Seq<Seq<char>>| is_path(*s, p) && p.last() == n;
            lemma_path_marked(*s, seen@, order@, p);
            let j = choose|j: int| first_named(s.types@, n, j) && #[trigger] seen@[j];
            assert(named_as(s.types@[j]) == Some(n));
        }
    }
    Ok(seen)
}

} // verus!
