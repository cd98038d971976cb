pub mod error;

use vstd::prelude::*;

use crate::analyser::tree::{SpecTypedTree, SpecTypedTreeNode, TypedTree, TypedTreeNode};
use crate::analyser::ttype::{clone_type, type_eq, SpecType, Type};
use crate::analyser::value::{clone_value, view_values, SpecValue, SpecValueInner, Value, ValueInner};
use crate::analyser::{typed_lookup, TypedElems};
use crate::sorted::{
    collect_named, find_key, from_pairs, get_named, lemma_find_key_found, lemma_find_key_view, lemma_view_from_pairs,
    seq_key, string_key, view_pairs,
};
use crate::utils::owned;
use error::{RuntimeError, RuntimeErrorKind, SpecRuntimeError, SpecRuntimeErrorKind};

verus! {

/// How running a piece of code ends.
pub enum Run {
    /// It finished, leaving this stack.
    Done(Seq<SpecValue>),
    /// It stopped with an error.
    Failed(SpecRuntimeError),
    /// It cannot go on: the interpreter does not handle this case.
    Stuck,
    /// It needs more nested calls than allowed.
    OutOfFuel,
}

/// The value of the first field named `name`, pairing the values `vals` with the fields
/// `fields` in order.
pub open spec fn field_named(vals: Seq<SpecValue>, fields: Seq<(Seq<char>, SpecType)>, name: Seq<char>) -> Option<SpecValue>
    decreases vals.len(),
{
    if vals.len() == 0 || fields.len() == 0 {
        None
    } else if fields[0].0 == name {
        Some(vals[0])
    } else {
        field_named(vals.drop_first(), fields.drop_first(), name)
    }
}

/// Constructing a value of type `ty` from the top of `stack`: one value is popped for each
/// field, in field order, and must have the field's type; the struct is pushed.
pub open spec fn construct(ty: SpecType, stack: Seq<SpecValue>) -> Run {
    match ty {
        SpecType::Transparent { fields, sum_type, .. } => {
            let n = fields.len() as int;
            if sum_type || stack.len() < n {
                Run::Stuck
            } else if exists|j: int| 0 <= j < n && #[trigger] stack[stack.len() - 1 - j].ty != fields[j].1 {
                Run::Stuck
            } else {
                Run::Done(stack.take(stack.len() - n).push(SpecValue {
                    ty,
                    inner: SpecValueInner::Struct(Seq::new(n as nat, |j: int| stack[stack.len() - 1 - j])),
                }))
            }
        },
        _ => Run::Stuck,
    }
}


/// Constructing a struct takes exactly one value per field off the top of the stack (the
/// first field from the top) and puts the struct in their place: the stack below them is
/// left as it was.
pub proof fn law_construct_keeps_the_stack_below(ty: SpecType, stack: Seq<SpecValue>)
    requires
        construct(ty, stack) is Done,
    ensures
        ty is Transparent && !ty->sum_type,
        ({
            let n = ty->fields.len() as int;
            let out = construct(ty, stack)->Done_0;
            &&& n <= stack.len()
            &&& out.len() == stack.len() - n + 1
            &&& forall|i: int| 0 <= i < stack.len() - n ==> #[trigger] out[i] == stack[i]
            &&& out.last().ty == ty
            &&& out.last().inner matches SpecValueInner::Struct(vals) && vals.len() == n
                && forall|j: int| 0 <= j < n ==> #[trigger] vals[j] == stack[stack.len() - 1 - j]
        }),
{
}

/// Reading the field `name` of the struct on top of `stack`, which stays there: the field's
/// value is pushed on it.
pub open spec fn field_access(name: Seq<char>, stack: Seq<SpecValue>, cursor: int) -> Run {
    if stack.len() == 0 {
        Run::Failed(SpecRuntimeError { kind: SpecRuntimeErrorKind::StackUnderflowError, cursor })
    } else {
        let val = stack.last();
        match (val.inner, val.ty) {
            (SpecValueInner::Struct(vals), SpecType::Transparent { fields, sum_type: false, .. }) => match field_named(vals, fields, name) {
                Some(v) => Run::Done(stack.push(v)),
                None => Run::Stuck,
            },
            _ => Run::Stuck,
        }
    }
}

/// Running `node` on `stack`, with the functions `fns`, at most `fuel` calls deep.
pub open spec fn run(node: SpecTypedTreeNode, fns: TypedElems, stack: Seq<SpecValue>, fuel: nat) -> Run
    decreases fuel, node, 1nat, 0nat,
{
    match node.tree {
        SpecTypedTree::Function { .. } => run_body(node, 0, fns, stack, fuel),
        SpecTypedTree::Word(wd) => match typed_lookup(fns, wd) {
            Some(f) => if fuel == 0 {
                Run::OutOfFuel
            } else {
                run(f, fns, stack, (fuel - 1) as nat)
            },
            None => Run::Failed(SpecRuntimeError { kind: SpecRuntimeErrorKind::FunctionMissingError(wd), cursor: node.cursor }),
        },
        SpecTypedTree::Literal { value, .. } => Run::Done(stack.push(value)),
        SpecTypedTree::Constructor { ty, .. } => construct(ty, stack),
        SpecTypedTree::FieldAccess { name } => field_access(name, stack, node.cursor),
        _ => Run::Stuck,
    }
}

/// Running the body of the function `node` from element `i` on.
pub open spec fn run_body(node: SpecTypedTreeNode, i: int, fns: TypedElems, stack: Seq<SpecValue>, fuel: nat) -> Run
    decreases fuel, node, 0nat, node.tree->Function_body.len() - i,
{
    if node.tree is Function && 0 <= i < node.tree->Function_body.len() {
        match run(node.tree->Function_body[i], fns, stack, fuel) {
            Run::Done(s) => run_body(node, i + 1, fns, s, fuel),
            other => other,
        }
    } else {
        Run::Done(stack)
    }
}

/// Whether the run ended normally, with or without an error.
pub open spec fn finished(r: Run) -> bool {
    r is Done || r is Failed
}

/// The function definitions among a module's definitions, in order.
pub open spec fn function_defs(elems: TypedElems) -> TypedElems
    decreases elems.len(),
{
    if elems.len() == 0 {
        Seq::empty()
    } else if elems.last().1.tree is Function {
        function_defs(elems.drop_last()).push(elems.last())
    } else {
        function_defs(elems.drop_last())
    }
}

/// The functions of a module, by name.
pub open spec fn functions_of(elems: TypedElems) -> TypedElems {
    from_pairs(function_defs(elems), |s: Seq<char>| seq_key(s))
}

/// Running a typed tree: its module's `main` function, on an empty stack.
pub open spec fn interp_run(t: SpecTypedTreeNode, fuel: nat) -> Run {
    match t.tree {
        SpecTypedTree::Module { elems, .. } => match typed_lookup(functions_of(elems), seq!['m', 'a', 'i', 'n']) {
            Some(f) => run(f, functions_of(elems), Seq::empty(), fuel),
            None => Run::Failed(SpecRuntimeError {
                kind: SpecRuntimeErrorKind::FunctionMissingError(seq!['m', 'a', 'i', 'n']),
                cursor: t.cursor,
            }),
        },
        _ => Run::Failed(SpecRuntimeError { kind: SpecRuntimeErrorKind::ModuleNotFoundError, cursor: t.cursor }),
    }
}

/// Whether running `t` finishes (normally or with an error) within some number of nested calls.
pub open spec fn interp_finishes(t: SpecTypedTreeNode) -> bool {
    exists|fuel: nat| finished(#[trigger] interp_run(t, fuel))
}

/// How running `t` ends, where it finishes.
pub open spec fn interp_outcome(t: SpecTypedTreeNode) -> Run {
    interp_run(t, choose|fuel: nat| finished(#[trigger] interp_run(t, fuel)))
}

/// The view of functions by name.
pub open spec fn fns_view(m: Seq<(String, &TypedTreeNode)>) -> TypedElems {
    view_pairs(m, |n: &TypedTreeNode| n@)
}

/// The function called `name`.
fn lookup_fn<'a>(fns: &Vec<(String, &'a TypedTreeNode)>, name: &String) -> (r: Option<&'a TypedTreeNode>)
    ensures
        match r {
            Some(n) => typed_lookup(fns_view(fns@), name@) == Some(n@),
            None => typed_lookup(fns_view(fns@), name@) is None,
        },
{
    proof {
        lemma_find_key_view(fns@, name@, |n: &TypedTreeNode| n@);
        lemma_find_key_found(fns@, name@, |s: String| string_key(s));
    }
    match get_named(fns, name) {
        Some(n) => Some(*n),
        None => None,
    }
}

/// Constructs a value of the struct type `ty` from the top of the stack, saying whether it
/// could (see `construct`); where it could not, what is left on the stack is not stated.
fn construct_value(ty: &Type, stack: &mut Vec<Value>) -> (r: bool)
    ensures
        r == (construct(ty@, view_values(old(stack)@)) is Done),
        r ==> construct(ty@, view_values(old(stack)@)) == Run::Done(view_values(final(stack)@)),
{
    let ghost s0 = view_values(stack@);
    let fields = match ty {
        Type::Transparent { fields, sum_type, .. } => {
            if *sum_type {
                // enums cannot be constructed yet
                return false;
            }
            fields
        },
        _ => return false,
    };
    let ghost vfields = ty@->fields;
    proof {
        assert(vfields.len() == fields@.len());
        assert forall|j: int| 0 <= j < fields@.len() implies #[trigger] vfields[j].1 == fields@[j].1@ by {}
        assert(ty@ is Transparent);
        assert(!ty@->sum_type);
        assert(s0.take(s0.len() - 0) =~= s0);
    }
    let n = fields.len();
    if stack.len() < n {
        return false;
    }
    let mut values: Vec<Value> = Vec::new();
    let mut j: usize = 0;
    while j < n
        invariant
            n == fields@.len() == vfields.len(),
            s0.len() >= n,
            j <= n,
            forall|k: int| 0 <= k < n ==> #[trigger] vfields[k].1 == fields@[k].1@,
            forall|k: int| 0 <= k < j ==> #[trigger] s0[s0.len() - 1 - k].ty == vfields[k].1,
            view_values(stack@) == s0.take(s0.len() - j),
            values@.len() == j,
            forall|k: int| 0 <= k < j ==> (#[trigger] values@[k])@ == s0[s0.len() - 1 - k],
            ty@ is Transparent && !ty@->sum_type && vfields == ty@->fields,
            s0 == view_values(old(stack)@),
        decreases n - j,
    {
        let ghost before = view_values(stack@);
        proof {
            assert(before.len() == stack@.len());
            assert(stack@.len() > 0);
        }
        let v = match stack.pop() {
            Some(v) => v,
            None => return false,
        };
        proof {
            assert(before[before.len() - 1] == v@);
            assert(view_values(stack@) =~= before.drop_last());
            assert(before.drop_last() =~= s0.take(s0.len() - j - 1));
            assert(s0[s0.len() - 1 - j] == v@);
            assert(v@.ty == v.ty@);
            assert(vfields[j as int].1 == fields@[j as int].1@);
        }
        if !type_eq(&v.ty, &fields[j].1) {
            proof {
                assert(s0[s0.len() - 1 - j].ty != vfields[j as int].1);
                assert(exists|k: int| 0 <= k < vfields.len() && #[trigger] s0[s0.len() - 1 - k].ty != vfields[k].1);
                assert(construct(ty@, s0) is Stuck);
            }
            return false;
        }
        values.push(v);
        j += 1;
    }
    let ghost kept = view_values(stack@);
    let value = Value::new_struct(clone_type(ty), values);
    stack.push(value);
    proof {
        assert(view_values(values@) =~= Seq::new(n as nat, |k: int| s0[s0.len() - 1 - k]));
        assert(view_values(stack@) =~= kept.push(value@));
    }
    true
}

/// Reads the field `name` of the struct on top of the stack, pushing its value.
/// `None` where the value on top is not a struct with that field (see `field_access`).
fn access_field(name: &String, stack: &mut Vec<Value>, cursor: usize) -> (r: Option<Result<(), RuntimeError>>)
    ensures
        match field_access(name@, view_values(old(stack)@), cursor as int) {
            Run::Done(s) => r == Some(Ok::<(), RuntimeError>(())) && view_values(final(stack)@) == s,
            Run::Failed(e) => r matches Some(Err(x)) && x@ == e,
            _ => r is None,
        },
        !(r matches Some(Ok(()))) ==> final(stack)@ == old(stack)@,
{
    let n = stack.len();
    if n == 0 {
        return Some(Err(RuntimeError::new(RuntimeErrorKind::StackUnderflowError, cursor)));
    }
    let ghost s0 = view_values(stack@);
    let val = &stack[n - 1];
    proof {
        assert(s0.last() == val@);
    }
    let copy = match (&val.inner, &val.ty) {
        (ValueInner::Struct(vals), Type::Transparent { fields, sum_type, .. }) => {
            if *sum_type {
                return None;
            }
            let ghost vv = val@.inner->Struct_0;
            let ghost vf = val@.ty->fields;
            let mut i: usize = 0;
            proof {
                assert(vv.skip(0) =~= vv);
                assert(vf.skip(0) =~= vf);
            }
            let mut found: Option<usize> = None;
            while i < vals.len() && i < fields.len()
                invariant_except_break
                    found is None,
                invariant
                    vv == crate::analyser::value::view_values(vals@),
                    vv.len() == vals@.len(),
                    vf.len() == fields@.len(),
                    forall|k: int| 0 <= k < fields@.len() ==> #[trigger] vf[k].0 == fields@[k].0@,
                    i <= vals@.len(),
                    i <= fields@.len(),
                    field_named(vv, vf, name@) == field_named(vv.skip(i as int), vf.skip(i as int), name@),
                ensures
                    found matches Some(k) ==> k < vals@.len() && field_named(vv, vf, name@) == Some(vv[k as int]),
                    found is None ==> field_named(vv, vf, name@) is None,
                decreases vals.len() - i,
            {
                proof {
                    assert(vv.skip(i as int).drop_first() =~= vv.skip(i + 1));
                    assert(vf.skip(i as int).drop_first() =~= vf.skip(i + 1));
                }
                if fields[i].0.eq(name) {
                    found = Some(i);
                    break;
                }
                i += 1;
            }
            match found {
                Some(k) => {
                    proof {
                        assert(vv[k as int] == vals@[k as int]@);
                    }
                    clone_value(&vals[k])
                },
                None => return None,
            }
        },
        _ => return None,
    };
    stack.push(copy);
    proof {
        assert(view_values(stack@) =~= s0.push(copy@));
    }
    Some(Ok(()))
}

/// Runs `typed_tree` on `stack`, with the functions `fns`, at most `fuel` calls deep.
fn interp_node(typed_tree: &TypedTreeNode, fns: &Vec<(String, &TypedTreeNode)>, stack: &mut Vec<Value>, Ghost(fuel): Ghost<nat>) -> (r: Result<(), RuntimeError>)
    requires
        finished(run(typed_tree@, fns_view(fns@), view_values(old(stack)@), fuel)),
    ensures
        match run(typed_tree@, fns_view(fns@), view_values(old(stack)@), fuel) {
            Run::Done(s) => r is Ok && view_values(final(stack)@) == s,
            Run::Failed(e) => r matches Err(x) && x@ == e,
            _ => false,
        },
        typed_tree@.tree matches SpecTypedTree::Word(w) && typed_lookup(fns_view(fns@), w) is None
            ==> final(stack)@ == old(stack)@,
        typed_tree@.tree is FieldAccess && r is Err ==> final(stack)@ == old(stack)@,
    decreases fuel, typed_tree, 1nat, 0nat,
{
    let ghost fv = fns_view(fns@);
    match &typed_tree.tree {
        TypedTree::Function { body, .. } => {
            let ghost node = typed_tree@;
            let ghost s0 = view_values(stack@);
            let mut i: usize = 0;
            while i < body.len()
                invariant
                    node == typed_tree@,
                    fv == fns_view(fns@),
                    typed_tree.tree is Function,
                    *body == typed_tree.tree->Function_body,
                    i <= body@.len(),
                    node.tree->Function_body.len() == body@.len(),
                    forall|j: int| 0 <= j < body@.len() ==> #[trigger] node.tree->Function_body[j] == body@[j]@,
                    run_body(node, 0, fv, s0, fuel) == run_body(node, i as int, fv, view_values(stack@), fuel),
                    run(node, fv, s0, fuel) == run_body(node, 0, fv, s0, fuel),
                    s0 == view_values(old(stack)@),
                    finished(run_body(node, i as int, fv, view_values(stack@), fuel)),
                decreases body.len() - i,
            {
                proof {
                    assert(node.tree->Function_body[i as int] == body@[i as int]@);
                    assert(decreases_to!(*typed_tree => typed_tree.tree));
                    assert(decreases_to!(typed_tree.tree => (typed_tree.tree)->Function_body));
                    assert(decreases_to!((typed_tree.tree)->Function_body => (typed_tree.tree)->Function_body@));
                    assert(decreases_to!((typed_tree.tree)->Function_body@ => (typed_tree.tree)->Function_body@[i as int]));
                }
                match interp_node(&body[i], fns, stack, Ghost(fuel)) {
                    Ok(()) => {},
                    Err(e) => return Err(e),
                }
                i += 1;
            }
            Ok(())
        },
        TypedTree::Word(wd) => match lookup_fn(fns, wd) {
            Some(node) => interp_node(node, fns, stack, Ghost((fuel - 1) as nat)),
            None => Err(RuntimeError::new(RuntimeErrorKind::FunctionMissingError(owned(wd.as_str())), typed_tree.cursor)),
        },
        TypedTree::Literal { value, .. } => {
            let ghost s0 = view_values(stack@);
            let v = clone_value(value);
            stack.push(v);
            proof {
                assert(view_values(stack@) =~= s0.push(v@));
            }
            Ok(())
        },
        TypedTree::Constructor { ty, .. } => {
            if !construct_value(ty, stack) {
                return vstd::pervasive::unreached();
            }
            Ok(())
        },
        TypedTree::FieldAccess { name } => match access_field(name, stack, typed_tree.cursor) {
            Some(r) => r,
            None => vstd::pervasive::unreached(),
        },
        _ => vstd::pervasive::unreached(),
    }
}

/// The functions of the module `typed_tree`, by name; `None` if the tree is not a module.
fn module_functions(typed_tree: &TypedTreeNode) -> (r: Option<Vec<(String, &TypedTreeNode)>>)
    ensures
        match typed_tree@.tree {
            SpecTypedTree::Module { elems, .. } => r matches Some(f) && fns_view(f@) == functions_of(elems),
            _ => r is None,
        },
{
    match &typed_tree.tree {
        TypedTree::Module { elems, .. } => {
            let ghost vf = |n: &TypedTreeNode| n@;
            let ghost velems = typed_tree@.tree->Module_elems;
            proof {
                assert(velems =~= view_pairs(elems@, |n: TypedTreeNode| n@));
            }
            let mut defs: Vec<(String, &TypedTreeNode)> = Vec::new();
            let mut i: usize = 0;
            proof {
                assert(velems.take(0) =~= Seq::<(Seq<char>, SpecTypedTreeNode)>::empty());
                assert(view_pairs(defs@, vf) =~= function_defs(velems.take(0)));
            }
            while i < elems.len()
                invariant
                    vf == |n: &TypedTreeNode| n@,
                    velems == view_pairs(elems@, |n: TypedTreeNode| n@),
                    i <= elems@.len(),
                    view_pairs(defs@, vf) == function_defs(velems.take(i as int)),
                decreases elems.len() - i,
            {
                let ghost before = defs@;
                proof {
                    assert(velems.take(i + 1).drop_last() =~= velems.take(i as int));
                    assert(velems.take(i + 1).last() == velems[i as int]);
                }
                let is_fn = match &elems[i].1.tree {
                    TypedTree::Function { .. } => true,
                    _ => false,
                };
                if is_fn {
                    defs.push((owned(elems[i].0.as_str()), &elems[i].1));
                    proof {
                        assert(view_pairs(defs@, vf) =~= view_pairs(before, vf).push(velems[i as int]));
                    }
                } else {
                    proof {
                        assert(view_pairs(defs@, vf) =~= view_pairs(before, vf));
                    }
                }
                i += 1;
            }
            proof {
                assert(velems.take(elems@.len() as int) =~= velems);
            }
            let ghost pairs = defs@;
            let fns = collect_named(defs);
            proof {
                lemma_view_from_pairs(pairs, vf);
            }
            Some(fns)
        },
        _ => None,
    }
}

/// Runs the `main` function of the module `typed_tree` on an empty stack, giving the stack it
/// leaves.
pub fn interp(typed_tree: TypedTreeNode) -> (r: Result<Vec<Value>, RuntimeError>)
    requires
        interp_finishes(typed_tree@),
    ensures
        match interp_outcome(typed_tree@) {
            Run::Done(s) => r matches Ok(v) && view_values(v@) == s,
            Run::Failed(e) => r matches Err(x) && x@ == e,
            _ => false,
        },
{
    let ghost fuel = choose|fuel: nat| finished(#[trigger] interp_run(typed_tree@, fuel));
    match module_functions(&typed_tree) {
        Some(fns) => {
            let main_name = owned("main");
            proof {
                reveal_strlit("main");
                assert(main_name@ =~= seq!['m', 'a', 'i', 'n']);
            }
            match lookup_fn(&fns, &main_name) {
                Some(f) => {
                    let mut stack: Vec<Value> = Vec::new();
                    proof {
                        assert(view_values(stack@) =~= Seq::<SpecValue>::empty());
                    }
                    match interp_node(f, &fns, &mut stack, Ghost(fuel)) {
                        Ok(()) => Ok(stack),
                        Err(e) => Err(e),
                    }
                },
                None => Err(RuntimeError::new(RuntimeErrorKind::FunctionMissingError(main_name), typed_tree.cursor)),
            }
        },
        None => Err(RuntimeError::new(RuntimeErrorKind::ModuleNotFoundError, typed_tree.cursor)),
    }
}

/// Runs `typed_tree` on `stack`, with the functions `fns`, at most `fuel` calls deep: `None`
/// where the run needs more calls, or reaches a case the interpreter does not handle (see
/// `run`); what is left on the stack then is not stated.
fn run_checked(typed_tree: &TypedTreeNode, fns: &Vec<(String, &TypedTreeNode)>, stack: &mut Vec<Value>, fuel: u64) -> (r: Option<Result<(), RuntimeError>>)
    ensures
        match run(typed_tree@, fns_view(fns@), view_values(old(stack)@), fuel as nat) {
            Run::Done(s) => r == Some(Ok::<(), RuntimeError>(())) && view_values(final(stack)@) == s,
            Run::Failed(e) => r matches Some(Err(x)) && x@ == e,
            _ => r is None,
        },
    decreases fuel, typed_tree, 1nat, 0nat,
{
    let ghost fv = fns_view(fns@);
    match &typed_tree.tree {
        TypedTree::Function { body, .. } => {
            let ghost node = typed_tree@;
            let ghost s0 = view_values(stack@);
            let mut i: usize = 0;
            while i < body.len()
                invariant
                    node == typed_tree@,
                    fv == fns_view(fns@),
                    typed_tree.tree is Function,
                    *body == typed_tree.tree->Function_body,
                    i <= body@.len(),
                    node.tree->Function_body.len() == body@.len(),
                    forall|j: int| 0 <= j < body@.len() ==> #[trigger] node.tree->Function_body[j] == body@[j]@,
                    run_body(node, 0, fv, s0, fuel as nat) == run_body(node, i as int, fv, view_values(stack@), fuel as nat),
                    run(node, fv, s0, fuel as nat) == run_body(node, 0, fv, s0, fuel as nat),
                    s0 == view_values(old(stack)@),
                decreases body.len() - i,
            {
                proof {
                    assert(node.tree->Function_body[i as int] == body@[i as int]@);
                    assert(decreases_to!(*typed_tree => typed_tree.tree));
                    assert(decreases_to!(typed_tree.tree => (typed_tree.tree)->Function_body));
                    assert(decreases_to!((typed_tree.tree)->Function_body => (typed_tree.tree)->Function_body@));
                    assert(decreases_to!((typed_tree.tree)->Function_body@ => (typed_tree.tree)->Function_body@[i as int]));
                }
                match run_checked(&body[i], fns, stack, fuel) {
                    Some(Ok(())) => {},
                    other => return other,
                }
                i += 1;
            }
            Some(Ok(()))
        },
        TypedTree::Word(wd) => match lookup_fn(fns, wd) {
            Some(node) => if fuel == 0 {
                None
            } else {
                run_checked(node, fns, stack, fuel - 1)
            },
            None => Some(Err(RuntimeError::new(RuntimeErrorKind::FunctionMissingError(owned(wd.as_str())), typed_tree.cursor))),
        },
        TypedTree::Literal { value, .. } => {
            let ghost s0 = view_values(stack@);
            let v = clone_value(value);
            stack.push(v);
            proof {
                assert(view_values(stack@) =~= s0.push(v@));
            }
            Some(Ok(()))
        },
        TypedTree::Constructor { ty, .. } => if construct_value(ty, stack) {
            Some(Ok(()))
        } else {
            None
        },
        TypedTree::FieldAccess { name } => access_field(name, stack, typed_tree.cursor),
        _ => None,
    }
}

/// Runs the `main` function of the module `typed_tree` on an empty stack, allowing at most
/// `fuel` nested calls: the stack it leaves, or its error; `None` where the run needs more
/// calls or reaches a case the interpreter does not handle. Where it gives a result, that is
/// what `interp` gives.
pub fn interp_checked(typed_tree: TypedTreeNode, fuel: u64) -> (r: Option<Result<Vec<Value>, RuntimeError>>)
    ensures
        match interp_run(typed_tree@, fuel as nat) {
            Run::Done(s) => r matches Some(Ok(v)) && view_values(v@) == s,
            Run::Failed(e) => r matches Some(Err(x)) && x@ == e,
            _ => r is None,
        },
        r is Some ==> interp_finishes(typed_tree@) && interp_outcome(typed_tree@) == interp_run(typed_tree@, fuel as nat),
{
    let fns = module_functions(&typed_tree);
    let r = match fns {
        Some(fns) => {
            let main_name = owned("main");
            proof {
                reveal_strlit("main");
                assert(main_name@ =~= seq!['m', 'a', 'i', 'n']);
            }
            match lookup_fn(&fns, &main_name) {
                Some(f) => {
                    let mut stack: Vec<Value> = Vec::new();
                    proof {
                        assert(view_values(stack@) =~= Seq::<SpecValue>::empty());
                    }
                    match run_checked(f, &fns, &mut stack, fuel) {
                        Some(Ok(())) => Some(Ok(stack)),
                        Some(Err(e)) => Some(Err(e)),
                        None => None,
                    }
                },
                None => Some(Err(RuntimeError::new(RuntimeErrorKind::FunctionMissingError(main_name), typed_tree.cursor))),
            }
        },
        None => Some(Err(RuntimeError::new(RuntimeErrorKind::ModuleNotFoundError, typed_tree.cursor))),
    };
    proof {
        if r is Some {
            assert(finished(interp_run(typed_tree@, fuel as nat)));
            law_interp_outcome(typed_tree@, fuel as nat);
        }
    }
    r
}

proof fn lemma_run_fuel(node: SpecTypedTreeNode, fns: TypedElems, stack: Seq<SpecValue>, f: nat, g: nat)
    requires
        f <= g,
        finished(run(node, fns, stack, f)),
    ensures
        run(node, fns, stack, g) == run(node, fns, stack, f),
    decreases f, node, 1nat, 0nat,
{
    match node.tree {
        SpecTypedTree::Function { .. } => {
            lemma_run_body_fuel(node, 0, fns, stack, f, g);
        },
        SpecTypedTree::Word(wd) => {
            if let Some(func) = typed_lookup(fns, wd) {
                lemma_run_fuel(func, fns, stack, (f - 1) as nat, (g - 1) as nat);
            }
        },
        _ => {},
    }
}

proof fn lemma_run_body_fuel(node: SpecTypedTreeNode, i: int, fns: TypedElems, stack: Seq<SpecValue>, f: nat, g: nat)
    requires
        f <= g,
        finished(run_body(node, i, fns, stack, f)),
    ensures
        run_body(node, i, fns, stack, g) == run_body(node, i, fns, stack, f),
    decreases f, node, 0nat, node.tree->Function_body.len() - i,
{
    if node.tree is Function && 0 <= i < node.tree->Function_body.len() {
        let elem = node.tree->Function_body[i];
        lemma_run_fuel(elem, fns, stack, f, g);
        if let Run::Done(s) = run(elem, fns, stack, f) {
            lemma_run_body_fuel(node, i + 1, fns, s, f, g);
        }
    }
}

/// Running a program does not depend on how many nested calls are allowed, once they are
/// enough for it to finish: with any larger allowance it ends the same way.
pub proof fn law_interp_fuel_independent(t: SpecTypedTreeNode, f: nat, g: nat)
    requires
        f <= g,
        finished(interp_run(t, f)),
    ensures
        interp_run(t, g) == interp_run(t, f),
{
    if let SpecTypedTree::Module { elems, .. } = t.tree {
        if let Some(func) = typed_lookup(functions_of(elems), seq!['m', 'a', 'i', 'n']) {
            lemma_run_fuel(func, functions_of(elems), Seq::empty(), f, g);
        }
    }
}

/// How a finishing program ends is how it ends with any allowance of nested calls that is
/// enough for it to finish.
pub proof fn law_interp_outcome(t: SpecTypedTreeNode, f: nat)
    requires
        finished(interp_run(t, f)),
    ensures
        interp_outcome(t) == interp_run(t, f),
{
    let c = choose|fuel: nat| finished(#[trigger] interp_run(t, fuel));
    if c <= f {
        law_interp_fuel_independent(t, c, f);
    } else {
        law_interp_fuel_independent(t, f, c);
    }
}

} // verus!
