use vstd::prelude::*;

use super::stack_effect::{SpecStackEffect, StackEffect};
use super::ttype::{effect_showable, effect_string, showable, type_string, SpecType, Type};
use crate::utils::{append, owned};
use super::value::{SpecValue, Value};

verus! {

/// A node of the typed tree: the tree itself, and where in which file it starts.
#[derive(Debug, PartialEq)]
pub struct TypedTreeNode {
    pub file_path: String,
    pub cursor: usize,
    pub tree: TypedTree,
}

/// The typed tree. A module's elements are kept as a list of pairs sorted by name, with
/// each name once.
#[derive(Debug, PartialEq)]
pub enum TypedTree {
    Module { name: String, elems: Vec<(String, TypedTreeNode)> },
    Function { name: String, effect: StackEffect, body: Vec<TypedTreeNode> },
    Type(Type),
    Word(String),
    Literal { ty: Type, value: Value },
    Constructor { ty: Type, effect: StackEffect },
    FieldAccess { name: String },
}

/// The mathematical value of a typed tree node.
pub struct SpecTypedTreeNode {
    pub file_path: Seq<char>,
    pub cursor: int,
    pub tree: SpecTypedTree,
}

/// The mathematical value of a typed tree.
pub enum SpecTypedTree {
    Module { name: Seq<char>, elems: Seq<(Seq<char>, SpecTypedTreeNode)> },
    Function { name: Seq<char>, effect: SpecStackEffect, body: Seq<SpecTypedTreeNode> },
    Type(SpecType),
    Word(Seq<char>),
    Literal { ty: SpecType, value: SpecValue },
    Constructor { ty: SpecType, effect: SpecStackEffect },
    FieldAccess { name: Seq<char> },
}

/// A placeholder node, the value of out-of-range positions.
pub open spec fn no_typed_node() -> SpecTypedTreeNode {
    SpecTypedTreeNode { file_path: Seq::empty(), cursor: 0, tree: SpecTypedTree::Word(Seq::empty()) }
}

pub open spec fn view_typed_node(n: TypedTreeNode) -> SpecTypedTreeNode
    decreases n,
{
    SpecTypedTreeNode { file_path: n.file_path@, cursor: n.cursor as int, tree: view_typed_tree(n.tree) }
}

pub open spec fn view_typed_tree(t: TypedTree) -> SpecTypedTree
    decreases t,
{
    match t {
        TypedTree::Module { name, elems } => SpecTypedTree::Module {
            name: name@,
            elems: Seq::new(
                elems.len() as nat,
                |i: int| if 0 <= i < elems.len() {
                    (elems@[i].0@, view_typed_node(elems@[i].1))
                } else {
                    (Seq::empty(), no_typed_node())
                },
            ),
        },
        TypedTree::Function { name, effect, body } => SpecTypedTree::Function {
            name: name@,
            effect: effect@,
            body: Seq::new(
                body.len() as nat,
                |i: int| if 0 <= i < body.len() { view_typed_node(body@[i]) } else { no_typed_node() },
            ),
        },
        TypedTree::Type(ty) => SpecTypedTree::Type(ty@),
        TypedTree::Word(s) => SpecTypedTree::Word(s@),
        TypedTree::Literal { ty, value } => SpecTypedTree::Literal { ty: ty@, value: value@ },
        TypedTree::Constructor { ty, effect } => SpecTypedTree::Constructor { ty: ty@, effect: effect@ },
        TypedTree::FieldAccess { name } => SpecTypedTree::FieldAccess { name: name@ },
    }
}

impl View for TypedTreeNode {
    type V = SpecTypedTreeNode;

    open spec fn view(&self) -> SpecTypedTreeNode {
        view_typed_node(*self)
    }
}

impl View for TypedTree {
    type V = SpecTypedTree;

    open spec fn view(&self) -> SpecTypedTree {
        view_typed_tree(*self)
    }
}

/// The views of a list of typed nodes.
pub open spec fn view_typed_nodes(v: Seq<TypedTreeNode>) -> Seq<SpecTypedTreeNode> {
    Seq::new(v.len(), |i: int| view_typed_node(v[i]))
}

impl TypedTree {
    /// Attaches the file and position the tree was analysed from.
    pub fn wrap(self, file_path: &str, cursor: usize) -> (r: TypedTreeNode)
        ensures
            r@ == (SpecTypedTreeNode { file_path: file_path@, cursor: cursor as int, tree: self@ }),
    {
        TypedTreeNode { file_path: crate::utils::owned(file_path), cursor, tree: self }
    }
}


// ---------------------------------------------------------------- showing a typed tree

/// How deep the tree goes: 0 for a leaf, one more than its deepest child otherwise.
pub open spec fn typed_height(n: SpecTypedTreeNode) -> nat
    decreases n, 1nat, 0int,
{
    match n.tree {
        SpecTypedTree::Module { elems, .. } => 1 + elems_height(elems, elems.len() as int),
        SpecTypedTree::Function { body, .. } => 1 + body_height(body, body.len() as int),
        _ => 0,
    }
}

/// The greatest height among the first `k` definitions.
pub open spec fn elems_height(elems: Seq<(Seq<char>, SpecTypedTreeNode)>, k: int) -> nat
    decreases elems, 0nat, k,
{
    if k <= 0 || k > elems.len() {
        0
    } else {
        let a = elems_height(elems, k - 1);
        let b = typed_height(elems[k - 1].1);
        if a < b { b } else { a }
    }
}

/// The greatest height among the first `k` nodes.
pub open spec fn body_height(body: Seq<SpecTypedTreeNode>, k: int) -> nat
    decreases body, 0nat, k,
{
    if k <= 0 || k > body.len() {
        0
    } else {
        let a = body_height(body, k - 1);
        let b = typed_height(body[k - 1]);
        if a < b { b } else { a }
    }
}

/// Whether every type and stack effect in the tree can be shown; see `showable`.
pub open spec fn tree_showable(n: SpecTypedTreeNode) -> bool
    decreases n, 1nat, 0int,
{
    match n.tree {
        SpecTypedTree::Module { elems, .. } => elems_showable(elems, elems.len() as int),
        SpecTypedTree::Function { effect, body, .. } => effect_showable(effect) && body_showable(body, body.len() as int),
        SpecTypedTree::Type(ty) => showable(ty),
        SpecTypedTree::Literal { ty, .. } => showable(ty),
        SpecTypedTree::Constructor { ty, effect } => showable(ty) && effect_showable(effect),
        _ => true,
    }
}

pub open spec fn elems_showable(elems: Seq<(Seq<char>, SpecTypedTreeNode)>, k: int) -> bool
    decreases elems, 0nat, k,
{
    if k <= 0 || k > elems.len() {
        true
    } else {
        elems_showable(elems, k - 1) && tree_showable(elems[k - 1].1)
    }
}

pub open spec fn body_showable(body: Seq<SpecTypedTreeNode>, k: int) -> bool
    decreases body, 0nat, k,
{
    if k <= 0 || k > body.len() {
        true
    } else {
        body_showable(body, k - 1) && tree_showable(body[k - 1])
    }
}

/// How a typed tree is shown, one definition or body node per line: a module as
/// `Module(name: ..., elems: [` and a line `\t<name>: <definition>,` for each definition,
/// then `])`; a function as `Function(name: ..., effect: ..., body: [`, a line
/// `\t\t<node>,` for each node and `\t])`; the others on one line (a literal's value is not
/// shown).
pub open spec fn dump_text(n: SpecTypedTreeNode) -> Seq<char>
    decreases n, 1nat, 0int,
{
    match n.tree {
        SpecTypedTree::Module { name, elems } => "Module(name: "@ + name + ", elems: [\n"@ + elems_text(elems, elems.len() as int) + "])"@,
        SpecTypedTree::Function { name, effect, body } => "Function(name: "@ + name + ", effect: "@ + effect_string(effect)
            + ", body: [\n"@ + body_text(body, body.len() as int) + "\t])"@,
        SpecTypedTree::Type(ty) => "Type("@ + type_string(ty) + ")"@,
        SpecTypedTree::Word(w) => "Word("@ + w + ")"@,
        SpecTypedTree::Literal { ty, .. } => "Literal(type: "@ + type_string(ty) + ", value: (unable to be displayed))"@,
        SpecTypedTree::Constructor { ty, effect } => "Constructor(of: "@ + type_string(ty) + ", effect: "@ + effect_string(effect) + ")"@,
        SpecTypedTree::FieldAccess { name } => "FieldAccess(field: "@ + name + ")"@,
    }
}

/// The lines of the first `k` definitions of a module.
pub open spec fn elems_text(elems: Seq<(Seq<char>, SpecTypedTreeNode)>, k: int) -> Seq<char>
    decreases elems, 0nat, k,
{
    if k <= 0 || k > elems.len() {
        Seq::empty()
    } else {
        elems_text(elems, k - 1) + "\t"@ + elems[k - 1].0 + ": "@ + dump_text(elems[k - 1].1) + ",\n"@
    }
}

/// The lines of the first `k` nodes of a function body.
pub open spec fn body_text(body: Seq<SpecTypedTreeNode>, k: int) -> Seq<char>
    decreases body, 0nat, k,
{
    if k <= 0 || k > body.len() {
        Seq::empty()
    } else {
        body_text(body, k - 1) + "\t\t"@ + dump_text(body[k - 1]) + ",\n"@
    }
}

proof fn lemma_elems_prefix(elems: Seq<(Seq<char>, SpecTypedTreeNode)>, n: int, m: int)
    requires
        0 <= m <= n <= elems.len(),
    ensures
        elems_showable(elems, n) ==> elems_showable(elems, m),
        elems_height(elems, m) <= elems_height(elems, n),
        m < n ==> typed_height(elems[m].1) <= elems_height(elems, n),
        m < n ==> (elems_showable(elems, n) ==> tree_showable(elems[m].1)),
    decreases n - m,
{
    if m < n {
        lemma_elems_prefix(elems, n - 1, m);
    }
}

proof fn lemma_body_prefix(body: Seq<SpecTypedTreeNode>, n: int, m: int)
    requires
        0 <= m <= n <= body.len(),
    ensures
        body_showable(body, n) ==> body_showable(body, m),
        body_height(body, m) <= body_height(body, n),
        m < n ==> typed_height(body[m]) <= body_height(body, n),
        m < n ==> (body_showable(body, n) ==> tree_showable(body[m])),
    decreases n - m,
{
    if m < n {
        lemma_body_prefix(body, n - 1, m);
    }
}

/// Shows a typed tree; see `dump_text`. `depth` is how deep the tree stands in the one
/// shown (it does not change the text).
pub fn dump_typed_tree(tree: &TypedTreeNode, depth: u32) -> (r: String)
    requires
        tree_showable(tree@),
        depth + typed_height(tree@) <= u32::MAX,
    ensures
        r@ == dump_text(tree@),
    decreases tree,
{
    proof {
        reveal_strlit("Module(name: ");
        reveal_strlit(", elems: [\n");
        reveal_strlit("])");
        reveal_strlit("Function(name: ");
        reveal_strlit(", effect: ");
        reveal_strlit(", body: [\n");
        reveal_strlit("\t])");
        reveal_strlit("Type(");
        reveal_strlit(")");
        reveal_strlit("Word(");
        reveal_strlit("Literal(type: ");
        reveal_strlit(", value: (unable to be displayed))");
        reveal_strlit("Constructor(of: ");
        reveal_strlit("FieldAccess(field: ");
        reveal_strlit("\t");
        reveal_strlit(": ");
        reveal_strlit(",\n");
        reveal_strlit("\t\t");
    }
    let ghost vt = tree@;
    match &tree.tree {
        TypedTree::Module { name, elems } => {
            let ghost ve = vt.tree->Module_elems;
            let mut out = owned("Module(name: ");
            append(&mut out, name.as_str());
            append(&mut out, ", elems: [\n");
            let ghost head = out@;
            let mut i: usize = 0;
            while i < elems.len()
                invariant
                    tree.tree == (TypedTree::Module { name: *name, elems: *elems }),
                    vt == tree@,
                    ve == vt.tree->Module_elems,
                    ve.len() == elems@.len(),
                    tree_showable(vt),
                    depth + typed_height(vt) <= u32::MAX,
                    i <= elems@.len(),
                    out@ == head + elems_text(ve, i as int),
                decreases elems.len() - i,
            {
                proof {
                    assert(ve[i as int] == (elems@[i as int].0@, elems@[i as int].1@));
                    lemma_elems_prefix(ve, ve.len() as int, i as int);
                    assert(decreases_to!(*tree => tree.tree));
                    assert(decreases_to!(tree.tree => *elems));
                    assert(decreases_to!(*elems => elems@));
                    assert(decreases_to!(elems@ => elems@[i as int]));
                    assert(decreases_to!(elems@[i as int] => elems@[i as int].1));
                }
                append(&mut out, "\t");
                append(&mut out, elems[i].0.as_str());
                append(&mut out, ": ");
                let d = dump_typed_tree(&elems[i].1, depth + 1);
                append(&mut out, d.as_str());
                append(&mut out, ",\n");
                proof {
                    assert(out@ =~= head + elems_text(ve, i + 1));
                }
                i += 1;
            }
            append(&mut out, "])");
            out
        },
        TypedTree::Function { name, effect, body } => {
            let ghost vb = vt.tree->Function_body;
            let mut out = owned("Function(name: ");
            append(&mut out, name.as_str());
            append(&mut out, ", effect: ");
            let e = crate::analyser::ttype::show_effect(effect);
            append(&mut out, e.as_str());
            append(&mut out, ", body: [\n");
            let ghost head = out@;
            let mut i: usize = 0;
            while i < body.len()
                invariant
                    tree.tree == (TypedTree::Function { name: *name, effect: *effect, body: *body }),
                    vt == tree@,
                    vb == vt.tree->Function_body,
                    vb.len() == body@.len(),
                    tree_showable(vt),
                    depth + typed_height(vt) <= u32::MAX,
                    i <= body@.len(),
                    out@ == head + body_text(vb, i as int),
                decreases body.len() - i,
            {
                proof {
                    assert(vb[i as int] == body@[i as int]@);
                    lemma_body_prefix(vb, vb.len() as int, i as int);
                    assert(decreases_to!(*tree => tree.tree));
                    assert(decreases_to!(tree.tree => *body));
                    assert(decreases_to!(*body => body@));
                    assert(decreases_to!(body@ => body@[i as int]));
                }
                append(&mut out, "\t\t");
                let d = dump_typed_tree(&body[i], depth + 1);
                append(&mut out, d.as_str());
                append(&mut out, ",\n");
                proof {
                    assert(out@ =~= head + body_text(vb, i + 1));
                }
                i += 1;
            }
            append(&mut out, "\t])");
            out
        },
        TypedTree::Type(ty) => {
            let mut out = owned("Type(");
            let t = ty.to_string();
            append(&mut out, t.as_str());
            append(&mut out, ")");
            out
        },
        TypedTree::Word(w) => {
            let mut out = owned("Word(");
            append(&mut out, w.as_str());
            append(&mut out, ")");
            out
        },
        TypedTree::Literal { ty, .. } => {
            let mut out = owned("Literal(type: ");
            let t = ty.to_string();
            append(&mut out, t.as_str());
            append(&mut out, ", value: (unable to be displayed))");
            out
        },
        TypedTree::Constructor { ty, effect } => {
            let mut out = owned("Constructor(of: ");
            let t = ty.to_string();
            append(&mut out, t.as_str());
            append(&mut out, ", effect: ");
            let e = crate::analyser::ttype::show_effect(effect);
            append(&mut out, e.as_str());
            append(&mut out, ")");
            out
        },
        TypedTree::FieldAccess { name } => {
            let mut out = owned("FieldAccess(field: ");
            append(&mut out, name.as_str());
            append(&mut out, ")");
            out
        },
    }
}

} // verus!
