use vstd::prelude::*;

use crate::analyser::tree::{SpecTypedTree, SpecTypedTreeNode, TypedTree, TypedTreeNode};
use crate::analyser::ttype::{can_name, has_name, OpaqueTypeKind, SpecType, Type};
use crate::utils::{chars_of, owned};

verus! {

// What the compiler decides, apart from the LLVM calls that carry the decisions out: which
// LLVM type stands for each tower type, and in which order the functions of a module are
// compiled.

/// An LLVM type, as the compiler picks it for a tower type.
#[derive(Debug, PartialEq)]
pub enum LlvmType {
    /// `i1`
    Int1,
    /// An integer type of this many bits.
    Int(usize),
    /// `float`
    Float,
    /// `double`
    Double,
    /// An array of this many `i8`s.
    ByteArray(usize),
    /// A named struct type defined here, with its element types.
    Struct { name: String, fields: Vec<LlvmType> },
    /// The named struct type defined earlier under this name.
    Defined(String),
    /// An opaque pointer.
    Pointer,
    /// The type of a tower function: `void (ptr, ptr, ptr)`.
    TowerFunction,
}

/// The mathematical value of an `LlvmType`.
pub enum SpecLlvmType {
    Int1,
    Int(usize),
    Float,
    Double,
    ByteArray(usize),
    Struct { name: Seq<char>, fields: Seq<SpecLlvmType> },
    Defined(Seq<char>),
    Pointer,
    TowerFunction,
}

pub open spec fn view_llvm(t: LlvmType) -> SpecLlvmType
    decreases t,
{
    match t {
        LlvmType::Int1 => SpecLlvmType::Int1,
        LlvmType::Int(b) => SpecLlvmType::Int(b),
        LlvmType::Float => SpecLlvmType::Float,
        LlvmType::Double => SpecLlvmType::Double,
        LlvmType::ByteArray(n) => SpecLlvmType::ByteArray(n),
        LlvmType::Struct { name, fields } => SpecLlvmType::Struct {
            name: name@,
            fields: Seq::new(
                fields.len() as nat,
                |i: int| if 0 <= i < fields.len() { view_llvm(fields@[i]) } else { SpecLlvmType::Pointer },
            ),
        },
        LlvmType::Defined(name) => SpecLlvmType::Defined(name@),
        LlvmType::Pointer => SpecLlvmType::Pointer,
        LlvmType::TowerFunction => SpecLlvmType::TowerFunction,
    }
}

impl View for LlvmType {
    type V = SpecLlvmType;

    open spec fn view(&self) -> SpecLlvmType {
        view_llvm(*self)
    }
}

/// The LLVM type for `ty`, with `defined` the names of the struct types defined so far, and
/// the names defined after; `None` where the compiler cannot handle the type yet. A struct
/// type is defined the first time it is met (its fields first), and referred to by name
/// after that. Integers and `bool` map to integer types of their width; `f32`/`f64` to
/// `float`/`double`; a sized string to a byte
/// array; references to pointers; functions to the tower function type. Sizes are in bytes:
/// a float of 4 bytes is `float`, one of 8 bytes `double`.
pub open spec fn llvm_type_of(ty: SpecType, defined: Seq<Seq<char>>) -> Option<(SpecLlvmType, Seq<Seq<char>>)>
    decreases ty, 1nat, 0int,
{
    match ty {
        SpecType::Opaque { size, kind } => match kind {
            OpaqueTypeKind::Bool => Some((SpecLlvmType::Int1, defined)),
            OpaqueTypeKind::UnsignedInt | OpaqueTypeKind::SignedInt => match size {
                Some(s) => if s * 8 <= usize::MAX && (s * 8 == 8 || s * 8 == 16 || s * 8 == 32 || s * 8 == 64 || s * 8 == 128) {
                    Some((SpecLlvmType::Int((s * 8) as usize), defined))
                } else {
                    None
                },
                None => None,
            },
            OpaqueTypeKind::Float => match size {
                Some(s) => if s == 4 {
                    Some((SpecLlvmType::Float, defined))
                } else if s == 8 {
                    Some((SpecLlvmType::Double, defined))
                } else {
                    None
                },
                None => None,
            },
            OpaqueTypeKind::Str => match size {
                Some(s) => Some((SpecLlvmType::ByteArray(s), defined)),
                None => None,
            },
            OpaqueTypeKind::Array => None,
        },
        SpecType::Transparent { name, fields, sum_type } => if defined.contains(name) {
            Some((SpecLlvmType::Defined(name), defined))
        } else if sum_type || !(forall|i: int| 0 <= i < fields.len() ==> has_name(#[trigger] fields[i].1)) {
            None
        } else {
            match llvm_fields(fields, fields.len() as int, defined) {
                Some((fs, d)) => Some((SpecLlvmType::Struct { name, fields: fs }, d.push(name))),
                None => None,
            }
        },
        SpecType::Reference { .. } => Some((SpecLlvmType::Pointer, defined)),
        SpecType::Generic { .. } => None,
        SpecType::Function { .. } => Some((SpecLlvmType::TowerFunction, defined)),
    }
}

/// The LLVM types of the first `n` fields, in order, each seeing the struct types the ones
/// before it defined.
pub open spec fn llvm_fields(fields: Seq<(Seq<char>, SpecType)>, n: int, defined: Seq<Seq<char>>) -> Option<(Seq<SpecLlvmType>, Seq<Seq<char>>)>
    decreases fields, 0nat, n,
{
    if n <= 0 || n > fields.len() {
        Some((Seq::empty(), defined))
    } else {
        match llvm_fields(fields, n - 1, defined) {
            Some((fs, d)) => match llvm_type_of(fields[n - 1].1, d) {
                Some((t, d2)) => Some((fs.push(t), d2)),
                None => None,
            },
            None => None,
        }
    }
}

/// The names, as character sequences.
pub open spec fn name_views(v: Seq<String>) -> Seq<Seq<char>> {
    v.map_values(|s: String| s@)
}

/// Whether `name` is one of `names`.
fn contains_name(names: &Vec<String>, name: &String) -> (r: bool)
    ensures
        r == name_views(names@).contains(name@),
{
    let mut i: usize = 0;
    while i < names.len()
        invariant
            i <= names@.len(),
            forall|j: int| 0 <= j < i ==> names@[j]@ != name@,
        decreases names.len() - i,
    {
        if names[i].eq(name) {
            proof {
                assert(name_views(names@)[i as int] == name@);
            }
            return true;
        }
        i += 1;
    }
    proof {
        if name_views(names@).contains(name@) {
            let j = choose|j: int| 0 <= j < name_views(names@).len() && name_views(names@)[j] == name@;
            assert(names@[j]@ == name@);
        }
    }
    false
}

/// The LLVM type for `ty`, `defined` holding the names of the struct types defined so far;
/// see `llvm_type_of`. `None` where the compiler cannot handle the type; `defined` may then
/// have grown.
fn llvm_type_in(ty: &Type, defined: &mut Vec<String>) -> (r: Option<LlvmType>)
    ensures
        match r {
            Some(t) => llvm_type_of(ty@, name_views(old(defined)@)) == Some((t@, name_views(final(defined)@))),
            None => llvm_type_of(ty@, name_views(old(defined)@)) is None,
        },
    decreases ty,
{
    match ty {
        Type::Opaque { size, kind } => match kind {
            OpaqueTypeKind::Bool => Some(LlvmType::Int1),
            OpaqueTypeKind::UnsignedInt | OpaqueTypeKind::SignedInt => {
                let s = match size {
                    Some(s) => *s,
                    None => return None,
                };
                if s > usize::MAX / 8 {
                    return None;
                }
                let bits = s * 8;
                if bits == 8 || bits == 16 || bits == 32 || bits == 64 || bits == 128 {
                    Some(LlvmType::Int(bits))
                } else {
                    None
                }
            },
            OpaqueTypeKind::Float => match size {
                Some(4) => Some(LlvmType::Float),
                Some(8) => Some(LlvmType::Double),
                _ => None,
            },
            OpaqueTypeKind::Str => match size {
                Some(s) => Some(LlvmType::ByteArray(*s)),
                None => None,
            },
            OpaqueTypeKind::Array => None,
        },
        Type::Transparent { name, fields, sum_type } => {
            let ghost vf = ty@->fields;
            if contains_name(defined, name) {
                return Some(LlvmType::Defined(owned(name.as_str())));
            }
            if *sum_type {
                return None;
            }
            let ghost d0 = name_views(defined@);
            let mut k: usize = 0;
            while k < fields.len()
                invariant
                    *ty == (Type::Transparent { name: *name, fields: *fields, sum_type: *sum_type }),
                    d0 == name_views(old(defined)@),
                    defined@ == old(defined)@,
                    !d0.contains(name@),
                    !*sum_type,
                    vf == ty@->fields,
                    vf.len() == fields@.len(),
                    k <= fields@.len(),
                    forall|j: int| 0 <= j < k ==> has_name(#[trigger] vf[j].1),
                decreases fields.len() - k,
            {
                proof {
                    assert(vf[k as int].1 == fields@[k as int].1@);
                }
                if !can_name(&fields[k].1) {
                    proof {
                        assert(!has_name(vf[k as int].1));
                    }
                    return None;
                }
                k += 1;
            }
            let mut out: Vec<LlvmType> = Vec::new();
            let mut i: usize = 0;
            proof {
                assert(Seq::new(0nat, |j: int| view_llvm(out@[j])) =~= Seq::<SpecLlvmType>::empty());
            }
            while i < fields.len()
                invariant
                    *ty == (Type::Transparent { name: *name, fields: *fields, sum_type: *sum_type }),
                    d0 == name_views(old(defined)@),
                    !d0.contains(name@),
                    !*sum_type,
                    forall|j: int| 0 <= j < vf.len() ==> has_name(#[trigger] vf[j].1),
                    vf == ty@->fields,
                    vf.len() == fields@.len(),
                    i <= fields@.len(),
                    llvm_fields(vf, i as int, d0) == Some((Seq::new(out@.len(), |j: int| view_llvm(out@[j])), name_views(defined@))),
                decreases fields.len() - i,
            {
                proof {
                    assert(vf[i as int].1 == fields@[i as int].1@);
                    assert(decreases_to!(*ty => (*ty)->fields));
                    assert(decreases_to!(*fields => fields@));
                    assert(decreases_to!(fields@ => fields@[i as int]));
                    assert(decreases_to!(fields@[i as int] => fields@[i as int].1));
                }
                let ghost before = out@;
                let t = match llvm_type_in(&fields[i].1, defined) {
                    Some(t) => t,
                    None => {
                        proof {
                            assert(llvm_fields(vf, i + 1, d0) is None);
                            if llvm_fields(vf, vf.len() as int, d0) is Some {
                                lemma_llvm_fields_prefix(vf, vf.len() as int, i + 1, d0);
                            }
                        }
                        return None;
                    },
                };
                out.push(t);
                proof {
                    assert(Seq::new(out@.len(), |j: int| view_llvm(out@[j])) =~= Seq::new(before.len(), |j: int| view_llvm(before[j])).push(t@));
                }
                i += 1;
            }
            let ghost d_before = name_views(defined@);
            defined.push(owned(name.as_str()));
            let r = LlvmType::Struct { name: owned(name.as_str()), fields: out };
            proof {
                assert(name_views(defined@) =~= d_before.push(name@));
                assert(r@->fields =~= Seq::new(out@.len(), |j: int| view_llvm(out@[j])));
            }
            Some(r)
        },
        Type::Reference { .. } => Some(LlvmType::Pointer),
        Type::Generic { .. } => None,
        Type::Function { .. } => Some(LlvmType::TowerFunction),
    }
}

proof fn lemma_llvm_fields_prefix(fields: Seq<(Seq<char>, SpecType)>, n: int, m: int, d: Seq<Seq<char>>)
    requires
        0 <= m <= n <= fields.len(),
        llvm_fields(fields, n, d) is Some,
    ensures
        llvm_fields(fields, m, d) is Some,
    decreases n - m,
{
    if m < n {
        lemma_llvm_fields_prefix(fields, n - 1, m, d);
    }
}

// ---------------------------------------------------------------- the order of compilation

/// Whether every word in the body names a function compiled already.
pub open spec fn ready(body: Seq<SpecTypedTreeNode>, compiled: Seq<Seq<char>>) -> bool {
    forall|i: int| 0 <= i < body.len() ==> ((#[trigger] body[i]).tree matches SpecTypedTree::Word(w) ==> compiled.contains(w))
}

/// Whether the compiler can emit the body: it holds only words (calls).
pub open spec fn emittable(body: Seq<SpecTypedTreeNode>) -> bool {
    forall|i: int| 0 <= i < body.len() ==> (#[trigger] body[i]).tree is Word
}

/// One pass over the functions left, from position `i`: each that is ready is compiled (its
/// name is added to `compiled`) and its position noted in `taken`; `None` where a ready
/// function cannot be emitted.
pub open spec fn plan_pass(left: Seq<SpecTypedTreeNode>, i: int, compiled: Seq<Seq<char>>, taken: Seq<int>) -> Option<(Seq<Seq<char>>, Seq<int>)>
    decreases left.len() - i,
{
    if i < 0 || i >= left.len() {
        Some((compiled, taken))
    } else {
        match left[i].tree {
            SpecTypedTree::Function { name, body, .. } => if ready(body, compiled) {
                if emittable(body) {
                    plan_pass(left, i + 1, compiled.push(name), taken.push(i))
                } else {
                    None
                }
            } else {
                plan_pass(left, i + 1, compiled, taken)
            },
            _ => None,
        }
    }
}

/// `left` with the positions `idxs` removed one after the other (each position counted in
/// what the removals before it left); `None` if one is out of range.
pub open spec fn remove_each<T>(left: Seq<T>, idxs: Seq<int>) -> Option<Seq<T>>
    decreases idxs.len(),
{
    if idxs.len() == 0 {
        Some(left)
    } else if 0 <= idxs[0] < left.len() {
        remove_each(left.remove(idxs[0]), idxs.drop_first())
    } else {
        None
    }
}

/// Passes over the functions left until none is: the names of the functions compiled, in
/// order; `None` where a pass compiles none, or the removal goes out of range.
pub open spec fn plan_rounds(left: Seq<SpecTypedTreeNode>, compiled: Seq<Seq<char>>) -> Option<Seq<Seq<char>>>
    decreases left.len(),
{
    if left.len() == 0 {
        Some(compiled)
    } else {
        match plan_pass(left, 0, compiled, Seq::empty()) {
            None => None,
            Some((c2, taken)) => if taken.len() == 0 {
                None
            } else {
                match remove_each(left, taken) {
                    Some(l2) => if l2.len() < left.len() {
                        plan_rounds(l2, c2)
                    } else {
                        None
                    },
                    None => None,
                }
            },
        }
    }
}

/// The function definitions among a module's definitions, in order.
pub open spec fn function_nodes(elems: Seq<(Seq<char>, SpecTypedTreeNode)>) -> Seq<SpecTypedTreeNode>
    decreases elems.len(),
{
    if elems.len() == 0 {
        Seq::empty()
    } else if elems.last().1.tree is Function {
        function_nodes(elems.drop_last()).push(elems.last().1)
    } else {
        function_nodes(elems.drop_last())
    }
}

/// The functions compiled after compiling the module `t`, `compiled` being those compiled
/// before, in order (a name twice where a function is compiled twice); nothing is added if
/// the tree is not a module. `None` where compiling the module fails.
pub open spec fn compile_plan(t: SpecTypedTreeNode, compiled: Seq<Seq<char>>) -> Option<Seq<Seq<char>>> {
    match t.tree {
        SpecTypedTree::Module { elems, .. } => plan_rounds(function_nodes(elems), compiled),
        _ => Some(compiled),
    }
}

/// Whether the function `func` can be compiled now: every word in its body names a
/// function compiled already.
fn function_ready(func: &TypedTreeNode, compiled: &Vec<String>) -> (r: bool)
    requires
        func@.tree is Function,
    ensures
        r == ready(func@.tree->Function_body, name_views(compiled@)),
{
    let body = match &func.tree {
        TypedTree::Function { body, .. } => body,
        _ => vstd::pervasive::unreached(),
    };
    let ghost vb = func@.tree->Function_body;
    let mut i: usize = 0;
    while i < body.len()
        invariant
            vb == func@.tree->Function_body,
            func.tree is Function,
            *body == func.tree->Function_body,
            vb.len() == body@.len(),
            i <= body@.len(),
            forall|j: int| 0 <= j < i ==> ((#[trigger] vb[j]).tree matches SpecTypedTree::Word(w) ==> name_views(compiled@).contains(w)),
        decreases body.len() - i,
    {
        proof {
            assert(vb[i as int] == body@[i as int]@);
        }
        if let TypedTree::Word(name) = &body[i].tree {
            if !contains_name(compiled, name) {
                return false;
            }
        }
        i += 1;
    }
    true
}

/// Whether the body of `func` holds only words.
fn only_words(func: &TypedTreeNode) -> (r: bool)
    requires
        func@.tree is Function,
    ensures
        r == emittable(func@.tree->Function_body),
{
    let body = match &func.tree {
        TypedTree::Function { body, .. } => body,
        _ => vstd::pervasive::unreached(),
    };
    let ghost vb = func@.tree->Function_body;
    let mut i: usize = 0;
    while i < body.len()
        invariant
            vb == func@.tree->Function_body,
            func.tree is Function,
            *body == func.tree->Function_body,
            vb.len() == body@.len(),
            i <= body@.len(),
            forall|j: int| 0 <= j < i ==> (#[trigger] vb[j]).tree is Word,
        decreases body.len() - i,
    {
        proof {
            assert(vb[i as int] == body@[i as int]@);
        }
        match &body[i].tree {
            TypedTree::Word(_) => {},
            _ => return false,
        }
        i += 1;
    }
    true
}


/// The views of a list of borrowed typed nodes.
pub open spec fn node_views(v: Seq<&TypedTreeNode>) -> Seq<SpecTypedTreeNode> {
    Seq::new(v.len(), |i: int| (*v[i])@)
}

/// Positions, as integers.
pub open spec fn positions(v: Seq<usize>) -> Seq<int> {
    Seq::new(v.len(), |i: int| v[i] as int)
}

proof fn lemma_name_views_push(v: Seq<String>, s: String)
    ensures
        name_views(v.push(s)) =~= name_views(v).push(s@),
{
}

proof fn lemma_remove_each_len<T>(left: Seq<T>, idxs: Seq<int>)
    requires
        remove_each(left, idxs) is Some,
    ensures
        remove_each(left, idxs)->0.len() == left.len() - idxs.len(),
    decreases idxs.len(),
{
    if idxs.len() > 0 {
        lemma_remove_each_len(left.remove(idxs[0]), idxs.drop_first());
    }
}

// ---------------------------------------------------------------- callees first

/// Whether the `k`th name of `out` is that of a function among `fns` every word of whose
/// body names a function before it in `out`.
pub open spec fn added_after_callees(fns: Seq<SpecTypedTreeNode>, out: Seq<Seq<char>>, k: int) -> bool {
    exists|j: int|
        0 <= j < fns.len() && #[trigger] fns[j].tree is Function && fns[j].tree->Function_name == out[k]
            && ready(fns[j].tree->Function_body, out.subrange(0, k))
}

/// Whether `out` extends `before` with names of functions among `fns`, each added only once
/// every word of its body names a function before it in `out`.
pub open spec fn callees_first(fns: Seq<SpecTypedTreeNode>, before: Seq<Seq<char>>, out: Seq<Seq<char>>) -> bool {
    &&& before.len() <= out.len()
    &&& out.subrange(0, before.len() as int) == before
    &&& forall|k: int| before.len() <= k < out.len() ==> #[trigger] added_after_callees(fns, out, k)
}

proof fn lemma_callees_first_push(fns: Seq<SpecTypedTreeNode>, before: Seq<Seq<char>>, c: Seq<Seq<char>>, j: int)
    requires
        callees_first(fns, before, c),
        0 <= j < fns.len(),
        fns[j].tree is Function,
        ready(fns[j].tree->Function_body, c),
    ensures
        callees_first(fns, before, c.push(fns[j].tree->Function_name)),
{
    let c2 = c.push(fns[j].tree->Function_name);
    assert(c2.subrange(0, before.len() as int) =~= c.subrange(0, before.len() as int));
    assert forall|k: int| before.len() <= k < c2.len() implies #[trigger] added_after_callees(fns, c2, k) by {
        if k < c.len() {
            assert(c2.subrange(0, k) =~= c.subrange(0, k));
            assert(added_after_callees(fns, c, k));
            let j2 = choose|j2: int|
                0 <= j2 < fns.len() && #[trigger] fns[j2].tree is Function && fns[j2].tree->Function_name == c[k]
                    && ready(fns[j2].tree->Function_body, c.subrange(0, k));
            assert(fns[j2].tree is Function);
        } else {
            assert(c2.subrange(0, k) =~= c);
            assert(fns[j].tree is Function);
        }
    }
}

proof fn lemma_pass_callees_first(
    fns: Seq<SpecTypedTreeNode>,
    left: Seq<SpecTypedTreeNode>,
    i: int,
    before: Seq<Seq<char>>,
    c: Seq<Seq<char>>,
    taken: Seq<int>,
)
    requires
        forall|x: int| 0 <= x < left.len() ==> fns.contains(#[trigger] left[x]),
        plan_pass(left, i, c, taken) is Some,
        callees_first(fns, before, c),
    ensures
        callees_first(fns, before, (plan_pass(left, i, c, taken)->0).0),
    decreases left.len() - i,
{
    if 0 <= i < left.len() {
        if let SpecTypedTree::Function { name, body, .. } = left[i].tree {
            if ready(body, c) {
                assert(fns.contains(left[i]));
                let j = choose|j: int| 0 <= j < fns.len() && fns[j] == left[i];
                lemma_callees_first_push(fns, before, c, j);
                lemma_pass_callees_first(fns, left, i + 1, before, c.push(name), taken.push(i));
            } else {
                lemma_pass_callees_first(fns, left, i + 1, before, c, taken);
            }
        }
    }
}

proof fn lemma_remove_each_within<T>(fns: Seq<T>, left: Seq<T>, idxs: Seq<int>)
    requires
        forall|x: int| 0 <= x < left.len() ==> fns.contains(#[trigger] left[x]),
        remove_each(left, idxs) is Some,
    ensures
        forall|x: int| 0 <= x < remove_each(left, idxs)->0.len() ==> fns.contains(#[trigger] remove_each(left, idxs)->0[x]),
    decreases idxs.len(),
{
    if idxs.len() > 0 {
        let l2 = left.remove(idxs[0]);
        assert forall|x: int| 0 <= x < l2.len() implies fns.contains(#[trigger] l2[x]) by {
            if x < idxs[0] {
                assert(l2[x] == left[x]);
            } else {
                assert(l2[x] == left[x + 1]);
            }
        }
        lemma_remove_each_within(fns, l2, idxs.drop_first());
    }
}

proof fn lemma_rounds_callees_first(fns: Seq<SpecTypedTreeNode>, left: Seq<SpecTypedTreeNode>, before: Seq<Seq<char>>, c: Seq<Seq<char>>)
    requires
        forall|x: int| 0 <= x < left.len() ==> fns.contains(#[trigger] left[x]),
        plan_rounds(left, c) is Some,
        callees_first(fns, before, c),
    ensures
        callees_first(fns, before, plan_rounds(left, c)->0),
    decreases left.len(),
{
    if left.len() > 0 {
        let (c2, taken) = plan_pass(left, 0, c, Seq::empty())->0;
        lemma_pass_callees_first(fns, left, 0, before, c, Seq::empty());
        lemma_remove_each_within(fns, left, taken);
        let l2 = remove_each(left, taken)->0;
        lemma_rounds_callees_first(fns, l2, before, c2);
    }
}

/// Compiling a module keeps the functions compiled before, and compiles each function only
/// once every function its body calls is compiled: each name added is that of a function
/// of the module whose words all name functions compiled before it.
pub proof fn law_callees_compiled_first(module: SpecTypedTreeNode, compiled: Seq<Seq<char>>)
    requires
        compile_plan(module, compiled) is Some,
    ensures
        module.tree is Module ==> callees_first(
            function_nodes(module.tree->Module_elems),
            compiled,
            compile_plan(module, compiled)->0,
        ),
        !(module.tree is Module) ==> compile_plan(module, compiled) == Some(compiled),
{
    if let SpecTypedTree::Module { elems, .. } = module.tree {
        let fns = function_nodes(elems);
        assert(compiled.subrange(0, compiled.len() as int) =~= compiled);
        lemma_rounds_callees_first(fns, fns, compiled, compiled);
    }
}

/// What the compiler keeps of a module under way: the names of the struct types it has
/// defined, and the names of the functions it has compiled, in order.
pub struct ModuleContext {
    pub typedefs: Vec<String>,
    pub functions: Vec<String>,
}

impl ModuleContext {
    /// A context in which nothing is defined or compiled yet.
    pub fn new() -> (r: ModuleContext)
        ensures
            r.typedefs@.len() == 0,
            r.functions@.len() == 0,
    {
        ModuleContext { typedefs: Vec::new(), functions: Vec::new() }
    }

    /// The LLVM type for `ty`; a struct type met for the first time is defined (its name is
    /// added to `typedefs`). See `llvm_type_of`.
    pub fn llvm_type(&mut self, ty: &Type) -> (r: LlvmType)
        requires
            llvm_type_of(ty@, name_views(old(self).typedefs@)) is Some,
        ensures
            llvm_type_of(ty@, name_views(old(self).typedefs@)) == Some((r@, name_views(final(self).typedefs@))),
            final(self).functions@ == old(self).functions@,
    {
        match llvm_type_in(ty, &mut self.typedefs) {
            Some(t) => t,
            None => vstd::pervasive::unreached(),
        }
    }

    /// The LLVM type for `ty` as `llvm_type` gives it, for any type: `None`, with the
    /// context left as it was, where the compiler cannot handle the type.
    pub fn try_llvm_type(&mut self, ty: &Type) -> (r: Option<LlvmType>)
        ensures
            match r {
                Some(t) => llvm_type_of(ty@, name_views(old(self).typedefs@)) == Some((t@, name_views(final(self).typedefs@))),
                None => llvm_type_of(ty@, name_views(old(self).typedefs@)) is None && final(self).typedefs@ == old(self).typedefs@,
            },
            final(self).functions@ == old(self).functions@,
    {
        let saved = copy_names(&self.typedefs);
        match llvm_type_in(ty, &mut self.typedefs) {
            Some(t) => Some(t),
            None => {
                self.typedefs = saved;
                None
            },
        }
    }

    /// Compiles the function `func` if every word in its body names a function compiled
    /// already (its name is then added to `functions`), and says whether it did.
    pub fn compile_function(&mut self, func: &TypedTreeNode) -> (r: bool)
        requires
            func@.tree is Function,
            ready(func@.tree->Function_body, name_views(old(self).functions@)) ==> emittable(func@.tree->Function_body),
        ensures
            r == ready(func@.tree->Function_body, name_views(old(self).functions@)),
            name_views(final(self).functions@) == if r { name_views(old(self).functions@).push(func@.tree->Function_name) } else { name_views(old(self).functions@) },
            !r ==> final(self).functions@ == old(self).functions@,
            final(self).typedefs@ == old(self).typedefs@,
    {
        if !function_ready(func, &self.functions) {
            return false;
        }
        if !only_words(func) {
            return vstd::pervasive::unreached();
        }
        let name = match &func.tree {
            TypedTree::Function { name, .. } => owned(name.as_str()),
            _ => vstd::pervasive::unreached(),
        };
        let ghost before = self.functions@;
        self.functions.push(name);
        proof {
            lemma_name_views_push(before, self.functions@.last());
        }
        true
    }

    /// Compiles the functions of a module: pass after pass over the functions left, each
    /// compiling those whose words name functions compiled already, until none is left.
    /// See `compile_plan`.
    pub fn compile_module(&mut self, module: &TypedTreeNode)
        requires
            compile_plan(module@, name_views(old(self).functions@)) is Some,
        ensures
            compile_plan(module@, name_views(old(self).functions@)) == Some(name_views(final(self).functions@)),
            final(self).typedefs@ == old(self).typedefs@,
    {
        if !self.plan_module(module) {
            vstd::pervasive::unreached::<()>();
        }
    }

    /// Compiles the functions of a module as `compile_module` does, on any module: says
    /// whether compiling it succeeds. Where it does not (a pass compiles nothing, or a
    /// function that is ready holds something other than words), nothing is compiled and
    /// the context is left as it was.
    pub fn try_compile_module(&mut self, module: &TypedTreeNode) -> (r: bool)
        ensures
            r == (compile_plan(module@, name_views(old(self).functions@)) is Some),
            r ==> compile_plan(module@, name_views(old(self).functions@)) == Some(name_views(final(self).functions@)),
            !r ==> final(self).functions@ == old(self).functions@,
            final(self).typedefs@ == old(self).typedefs@,
    {
        let saved = copy_names(&self.functions);
        if self.plan_module(module) {
            true
        } else {
            self.functions = saved;
            false
        }
    }

    /// The passes of `compile_module`, saying whether they succeed; where they do not, what
    /// is left in `functions` is not stated.
    fn plan_module(&mut self, module: &TypedTreeNode) -> (r: bool)
        ensures
            r == (compile_plan(module@, name_views(old(self).functions@)) is Some),
            r ==> compile_plan(module@, name_views(old(self).functions@)) == Some(name_views(final(self).functions@)),
            final(self).typedefs@ == old(self).typedefs@,
    {
        let elems = match &module.tree {
            TypedTree::Module { elems, .. } => elems,
            _ => return true,
        };
        let ghost ve = module@.tree->Module_elems;
        let ghost goal = compile_plan(module@, name_views(self.functions@));
        let ghost td = self.typedefs@;
        let mut left: Vec<&TypedTreeNode> = Vec::new();
        let mut e: usize = 0;
        while e < elems.len()
            invariant
                module.tree is Module,
                *elems == module.tree->Module_elems,
                ve == module@.tree->Module_elems,
                ve.len() == elems@.len(),
                e <= elems@.len(),
                node_views(left@) =~= function_nodes(ve.subrange(0, e as int)),
            decreases elems.len() - e,
        {
            proof {
                assert(ve[e as int].1 == elems@[e as int].1@);
                assert(ve.subrange(0, e + 1).drop_last() =~= ve.subrange(0, e as int));
            }
            if let TypedTree::Function { .. } = &elems[e].1.tree {
                left.push(&elems[e].1);
            }
            e += 1;
        }
        proof {
            assert(ve.subrange(0, ve.len() as int) =~= ve);
        }
        while left.len() > 0
            invariant
                plan_rounds(node_views(left@), name_views(self.functions@)) == goal,
                goal == compile_plan(module@, name_views(old(self).functions@)),
                self.typedefs@ == td,
                td == old(self).typedefs@,
            decreases left.len(),
        {
            let ghost vl = node_views(left@);
            let ghost c0 = name_views(self.functions@);
            let mut to_remove: Vec<usize> = Vec::new();
            let mut i: usize = 0;
            proof {
                assert(positions(to_remove@) =~= Seq::<int>::empty());
            }
            while i < left.len()
                invariant
                    vl == node_views(left@),
                    vl.len() > 0,
                    plan_rounds(vl, c0) == goal,
                    plan_pass(vl, 0, c0, Seq::empty()) == plan_pass(vl, i as int, name_views(self.functions@), positions(to_remove@)),
                    i <= left@.len(),
                    self.typedefs@ == td,
                    goal == compile_plan(module@, name_views(old(self).functions@)),
                    td == old(self).typedefs@,
                decreases left.len() - i,
            {
                let f: &TypedTreeNode = left[i];
                assert(vl[i as int] == f@);
                let is_fn = match &f.tree {
                    TypedTree::Function { .. } => true,
                    _ => false,
                };
                if !is_fn {
                    return false;
                }
                if function_ready(f, &self.functions) && !only_words(f) {
                    return false;
                }
                if self.compile_function(f) {
                    proof {
                        assert(positions(to_remove@.push(i)) =~= positions(to_remove@).push(i as int));
                    }
                    to_remove.push(i);
                }
                i += 1;
            }
            let ghost taken = positions(to_remove@);
            if to_remove.len() == 0 {
                return false;
            }
            let mut k: usize = 0;
            proof {
                assert(taken.skip(0) =~= taken);
            }
            while k < to_remove.len()
                invariant
                    taken == positions(to_remove@),
                    taken.len() > 0,
                    plan_pass(vl, 0, c0, Seq::empty()) == Some((name_views(self.functions@), taken)),
                    plan_rounds(vl, c0) == goal,
                    vl.len() > 0,
                    k <= to_remove@.len(),
                    remove_each(vl, taken) == remove_each(node_views(left@), taken.skip(k as int)),
                    self.typedefs@ == td,
                    goal == compile_plan(module@, name_views(old(self).functions@)),
                    td == old(self).typedefs@,
                decreases to_remove.len() - k,
            {
                let idx = to_remove[k];
                if idx >= left.len() {
                    return false;
                }
                let ghost lb = left@;
                left.remove(idx);
                proof {
                    assert(node_views(left@) =~= node_views(lb).remove(idx as int));
                    assert(taken.skip(k as int).drop_first() =~= taken.skip(k + 1));
                }
                k += 1;
            }
            proof {
                assert(taken.skip(taken.len() as int) =~= Seq::<int>::empty());
                lemma_remove_each_len(vl, taken);
            }
        }
        true
    }
}

/// A copy of a list of names.
fn copy_names(v: &Vec<String>) -> (r: Vec<String>)
    ensures
        r@ == v@,
{
    let mut r: Vec<String> = Vec::new();
    let mut i: usize = 0;
    while i < v.len()
        invariant
            i <= v@.len(),
            r@.len() == i,
            forall|j: int| 0 <= j < i ==> r@[j] == v@[j],
        decreases v.len() - i,
    {
        r.push(v[i].clone());
        i += 1;
    }
    proof {
        assert(r@ =~= v@);
    }
    r
}

/// Whether a function of the builtin module is a tower builtin: its name starts with `__`.
pub open spec fn tower_builtin_name(name: Seq<char>) -> bool {
    name.len() >= 2 && name[0] == '_' && name[1] == '_'
}

/// Whether a function of the builtin module is a tower builtin; see `tower_builtin_name`.
pub fn is_tower_builtin(name: &str) -> (r: bool)
    ensures
        r == tower_builtin_name(name@),
{
    let c = chars_of(name);
    c.len() >= 2 && c[0] == '_' && c[1] == '_'
}

} // verus!
