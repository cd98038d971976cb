pub mod ttype;
pub mod stack_effect;
pub mod error;
pub mod value;
pub mod tree;

use vstd::prelude::*;

use crate::parser::result::{map_valid, ScanResult};
use crate::parser::tree::{Literal, ParseTree, ParseTreeNode, SpecParseTree, SpecParseTreeNode};
use crate::sorted::{
    find_key, get_named, insert_named, lemma_insert_names, names, insert_sorted, lemma_find_key_found, lemma_find_key_view, lemma_view_insert,
    seq_key, seq_lt, view_pairs,
};
use crate::utils::owned;
use error::{AnalysisError, AnalysisErrorKind, SpecAnalysisError, SpecAnalysisErrorKind};
use stack_effect::{combinable, combined, effect, literal_effect_of, no_effect, SpecStackEffect, StackEffect};
use tree::{view_typed_nodes, SpecTypedTree, SpecTypedTreeNode, TypedTree, TypedTreeNode};
use ttype::{can_name, clone_effect, clone_type, has_name, literal_type, name_of_type, type_named, view_fields, SpecType, Type};
use value::{literal_value, Value};

verus! {

/// The primitive types a literal can be given.
#[derive(PartialEq, Clone, Debug)]
pub enum TowerType {
    U128,
    U64,
    U32,
    U16,
    U8,
    I128,
    I64,
    I32,
    I16,
    I8,
    F64,
    F32,
    Bool,
    StrPtr,
    FnPtr,
    Generic(String),
}

/// The mathematical value of a `TowerType`.
pub enum SpecTowerType {
    U128,
    U64,
    U32,
    U16,
    U8,
    I128,
    I64,
    I32,
    I16,
    I8,
    F64,
    F32,
    Bool,
    StrPtr,
    FnPtr,
    Generic(Seq<char>),
}

impl View for TowerType {
    type V = SpecTowerType;

    open spec fn view(&self) -> SpecTowerType {
        match self {
            TowerType::U128 => SpecTowerType::U128,
            TowerType::U64 => SpecTowerType::U64,
            TowerType::U32 => SpecTowerType::U32,
            TowerType::U16 => SpecTowerType::U16,
            TowerType::U8 => SpecTowerType::U8,
            TowerType::I128 => SpecTowerType::I128,
            TowerType::I64 => SpecTowerType::I64,
            TowerType::I32 => SpecTowerType::I32,
            TowerType::I16 => SpecTowerType::I16,
            TowerType::I8 => SpecTowerType::I8,
            TowerType::F64 => SpecTowerType::F64,
            TowerType::F32 => SpecTowerType::F32,
            TowerType::Bool => SpecTowerType::Bool,
            TowerType::StrPtr => SpecTowerType::StrPtr,
            TowerType::FnPtr => SpecTowerType::FnPtr,
            TowerType::Generic(s) => SpecTowerType::Generic(s@),
        }
    }
}

/// How a primitive type is shown.
pub open spec fn tower_type_string(t: SpecTowerType) -> Seq<char> {
    match t {
        SpecTowerType::U128 => "u128"@,
        SpecTowerType::U64 => "u64"@,
        SpecTowerType::U32 => "u32"@,
        SpecTowerType::U16 => "u16"@,
        SpecTowerType::U8 => "u8"@,
        SpecTowerType::I128 => "i128"@,
        SpecTowerType::I64 => "i64"@,
        SpecTowerType::I32 => "i32"@,
        SpecTowerType::I16 => "i16"@,
        SpecTowerType::I8 => "i8"@,
        SpecTowerType::F64 => "f64"@,
        SpecTowerType::F32 => "f32"@,
        SpecTowerType::Bool => "bool"@,
        SpecTowerType::StrPtr => "strptr"@,
        SpecTowerType::FnPtr => "fnptr"@,
        SpecTowerType::Generic(name) => "<"@ + name + ">"@,
    }
}

impl TowerType {
    /// How the type is shown.
    pub fn to_string(&self) -> (r: String)
        ensures
            r@ == tower_type_string(self@),
    {
        match self {
            TowerType::U128 => owned("u128"),
            TowerType::U64 => owned("u64"),
            TowerType::U32 => owned("u32"),
            TowerType::U16 => owned("u16"),
            TowerType::U8 => owned("u8"),
            TowerType::I128 => owned("i128"),
            TowerType::I64 => owned("i64"),
            TowerType::I32 => owned("i32"),
            TowerType::I16 => owned("i16"),
            TowerType::I8 => owned("i8"),
            TowerType::F64 => owned("f64"),
            TowerType::F32 => owned("f32"),
            TowerType::Bool => owned("bool"),
            TowerType::StrPtr => owned("strptr"),
            TowerType::FnPtr => owned("fnptr"),
            TowerType::Generic(name) => {
                let mut out = owned("<");
                crate::utils::append(&mut out, name.as_str());
                crate::utils::append(&mut out, ">");
                proof {
                    reveal_strlit("<");
                    reveal_strlit(">");
                }
                out
            },
        }
    }
}

// ---------------------------------------------------------------- the rules of analysis

/// Analysed definitions by name.
pub type TypedElems = Seq<(Seq<char>, SpecTypedTreeNode)>;

/// Parsed definitions by name.
pub type ParsedElems = Seq<(Seq<char>, SpecParseTreeNode)>;

/// The outcome of analysing something: `None` where the analysis cannot go on (a case it
/// does not handle yet), otherwise its result.
pub type Analysis<T> = Option<ScanResult<T, SpecAnalysisError>>;

pub open spec fn analysis_error(kind: SpecAnalysisErrorKind) -> SpecAnalysisError {
    SpecAnalysisError { kind, cursor: 0 }
}

/// The analysed definition called `name`, if any.
pub open spec fn typed_lookup(tles: TypedElems, name: Seq<char>) -> Option<SpecTypedTreeNode> {
    match find_key(tles, name, |s: Seq<char>| seq_key(s)) {
        Some(i) => Some(tles[i].1),
        None => None,
    }
}

/// Whether a definition called `name` was parsed.
pub open spec fn declared(ptl: ParsedElems, name: Seq<char>) -> bool {
    find_key(ptl, name, |s: Seq<char>| seq_key(s)) is Some
}

/// The type a type name stands for: a built-in type, else an analysed type definition; not
/// yet known if the definition is not analysed yet; an error if there is no such definition.
pub open spec fn resolve_type(name: Seq<char>, tles: TypedElems, ptl: ParsedElems) -> Analysis<SpecType> {
    match type_named(name) {
        Some(t) => Some(ScanResult::Valid(t)),
        None => match typed_lookup(tles, name) {
            Some(n) => match n.tree {
                SpecTypedTree::Type(t) => Some(ScanResult::Valid(t)),
                _ => None,
            },
            None => if declared(ptl, name) {
                Some(ScanResult::Unrecognised)
            } else {
                Some(ScanResult::WithErr(analysis_error(SpecAnalysisErrorKind::NoSuchType { tname: name })))
            },
        },
    }
}

/// The effect of constructing a value of type `ty`: its fields' types are popped and the
/// value is pushed; only structs and enums can be constructed.
pub open spec fn constructor_effect(ty: SpecType) -> Analysis<SpecStackEffect> {
    match ty {
        SpecType::Transparent { fields, .. } => Some(ScanResult::Valid(
            effect(fields.map_values(|f: (Seq<char>, SpecType)| f.1), seq![ty]),
        )),
        _ => if has_name(ty) {
            Some(ScanResult::WithErr(analysis_error(SpecAnalysisErrorKind::UnconstructableType { tname: name_of_type(ty) })))
        } else {
            None
        },
    }
}

/// The type constructed by `-> name` and the effect of the construction.
pub open spec fn constructor(name: Seq<char>, tles: TypedElems, ptl: ParsedElems) -> Analysis<(SpecType, SpecStackEffect)> {
    match resolve_type(name, tles, ptl) {
        None => None,
        Some(ScanResult::Unrecognised) => Some(ScanResult::Unrecognised),
        Some(ScanResult::WithErr(e)) => Some(ScanResult::WithErr(e)),
        Some(ScanResult::Valid(ty)) => match constructor_effect(ty) {
            None => None,
            Some(ScanResult::Unrecognised) => Some(ScanResult::Unrecognised),
            Some(ScanResult::WithErr(e)) => Some(ScanResult::WithErr(e)),
            Some(ScanResult::Valid(eff)) => Some(ScanResult::Valid((ty, eff))),
        },
    }
}

/// The effect of one element of a function body: a call of an analysed function has that
/// function's effect; a literal pushes its type; a constructor constructs.
pub open spec fn element_effect(elem: SpecParseTree, tles: TypedElems, ptl: ParsedElems) -> Analysis<SpecStackEffect> {
    match elem {
        SpecParseTree::Identifier(ident) => match typed_lookup(tles, ident) {
            Some(n) => match n.tree {
                SpecTypedTree::Function { effect, .. } => Some(ScanResult::Valid(effect)),
                SpecTypedTree::Type(ty) => if has_name(ty) {
                    Some(ScanResult::WithErr(analysis_error(SpecAnalysisErrorKind::TypeIsNotFunction { tname: name_of_type(ty) })))
                } else {
                    None
                },
                _ => None,
            },
            None => if declared(ptl, ident) {
                Some(ScanResult::Unrecognised)
            } else {
                Some(ScanResult::WithErr(analysis_error(SpecAnalysisErrorKind::NoSuchFunction { fname: ident })))
            },
        },
        SpecParseTree::Literal(lit) => match literal_effect_of(lit) {
            Some(e) => Some(ScanResult::Valid(e)),
            None => None,
        },
        SpecParseTree::Constructor(ident) => match constructor(ident, tles, ptl) {
            None => None,
            Some(ScanResult::Unrecognised) => Some(ScanResult::Unrecognised),
            Some(ScanResult::WithErr(e)) => Some(ScanResult::WithErr(e)),
            Some(ScanResult::Valid((_, eff))) => Some(ScanResult::Valid(eff)),
        },
        _ => None,
    }
}

/// Analyses a node of the parse tree, with `tles` the definitions analysed so far and `ptl`
/// all the definitions parsed. `Unrecognised` means that the node uses a definition that is
/// not analysed yet.
pub open spec fn analyse_node(node: SpecParseTreeNode, tles: TypedElems, ptl: ParsedElems) -> Analysis<SpecTypedTreeNode>
    decreases node, 1nat, 0nat,
{
    match node.tree {
        SpecParseTree::Module { name, elems } => match module_rounds(node, Seq::new(elems.len(), |i: int| i), Seq::empty()) {
            None => None,
            Some(ScanResult::Unrecognised) => Some(ScanResult::Unrecognised),
            Some(ScanResult::WithErr(e)) => Some(ScanResult::WithErr(e)),
            Some(ScanResult::Valid(typed)) => Some(ScanResult::Valid(
                SpecTypedTreeNode { file_path: node.file_path, cursor: node.cursor, tree: SpecTypedTree::Module { name, elems: typed } },
            )),
        },
        SpecParseTree::Function { name, body } => match function_body(node, 0, no_effect(), Seq::empty(), tles, ptl) {
            None => None,
            Some(ScanResult::Unrecognised) => Some(ScanResult::Unrecognised),
            Some(ScanResult::WithErr(e)) => Some(ScanResult::WithErr(e)),
            Some(ScanResult::Valid((eff, typed))) => Some(ScanResult::Valid(
                SpecTypedTreeNode { file_path: node.file_path, cursor: node.cursor, tree: SpecTypedTree::Function { name, effect: eff, body: typed } },
            )),
        },
        SpecParseTree::Struct { name, fields } => match struct_fields(node, 0, Seq::empty(), tles, ptl) {
            None => None,
            Some(ScanResult::Unrecognised) => Some(ScanResult::Unrecognised),
            Some(ScanResult::WithErr(e)) => Some(ScanResult::WithErr(e)),
            Some(ScanResult::Valid(typed)) => Some(ScanResult::Valid(SpecTypedTreeNode {
                file_path: node.file_path,
                cursor: node.cursor,
                tree: SpecTypedTree::Type(SpecType::Transparent { name, fields: typed, sum_type: false }),
            })),
        },
        SpecParseTree::Identifier(s) => Some(ScanResult::Valid(
            SpecTypedTreeNode { file_path: node.file_path, cursor: node.cursor, tree: SpecTypedTree::Word(s) },
        )),
        SpecParseTree::Literal(lit) => match (literal_type(lit), literal_value(lit)) {
            (Some(ty), Some(value)) => Some(ScanResult::Valid(
                SpecTypedTreeNode { file_path: node.file_path, cursor: node.cursor, tree: SpecTypedTree::Literal { ty, value } },
            )),
            _ => None,
        },
        SpecParseTree::Constructor(ident) => match constructor(ident, tles, ptl) {
            None => None,
            Some(ScanResult::Unrecognised) => Some(ScanResult::Unrecognised),
            Some(ScanResult::WithErr(e)) => Some(ScanResult::WithErr(e)),
            Some(ScanResult::Valid((ty, eff))) => Some(ScanResult::Valid(
                SpecTypedTreeNode { file_path: node.file_path, cursor: node.cursor, tree: SpecTypedTree::Constructor { ty, effect: eff } },
            )),
        },
        _ => None,
    }
}

/// The rest of a function body from element `i`, with `eff` the effect of the elements
/// before it and `typed` their analysed nodes: the function's effect and analysed body.
pub open spec fn function_body(
    node: SpecParseTreeNode,
    i: int,
    eff: SpecStackEffect,
    typed: Seq<SpecTypedTreeNode>,
    tles: TypedElems,
    ptl: ParsedElems,
) -> Analysis<(SpecStackEffect, Seq<SpecTypedTreeNode>)>
    decreases node, 0nat, node.tree->Function_body.len() - i,
{
    if node.tree is Function && 0 <= i < node.tree->Function_body.len() {
        let elem = node.tree->Function_body[i];
        match element_effect(elem.tree, tles, ptl) {
            None => None,
            Some(ScanResult::Unrecognised) => Some(ScanResult::Unrecognised),
            Some(ScanResult::WithErr(e)) => Some(ScanResult::WithErr(e)),
            Some(ScanResult::Valid(new_effect)) => match analyse_node(elem, tles, ptl) {
                None => None,
                Some(ScanResult::Unrecognised) => Some(ScanResult::Unrecognised),
                Some(ScanResult::WithErr(e)) => Some(ScanResult::WithErr(e)),
                Some(ScanResult::Valid(t)) => if !combinable(eff, new_effect) {
                    None
                } else {
                    match combined(eff, new_effect) {
                        Err(e) => Some(ScanResult::WithErr(e)),
                        Ok(eff2) => function_body(node, i + 1, eff2, typed.push(t), tles, ptl),
                    }
                },
            },
        }
    } else {
        Some(ScanResult::Valid((eff, typed)))
    }
}

/// The rest of a struct's fields from field `i`, with `typed` the fields before it with
/// their types resolved (by name).
pub open spec fn struct_fields(
    node: SpecParseTreeNode,
    i: int,
    typed: Seq<(Seq<char>, SpecType)>,
    tles: TypedElems,
    ptl: ParsedElems,
) -> Analysis<Seq<(Seq<char>, SpecType)>>
    decreases node, 0nat, node.tree->Struct_fields.len() - i,
{
    if node.tree is Struct && 0 <= i < node.tree->Struct_fields.len() {
        let (fname, ftype) = node.tree->Struct_fields[i];
        match resolve_type(ftype, tles, ptl) {
            None => None,
            Some(ScanResult::Unrecognised) => Some(ScanResult::Unrecognised),
            Some(ScanResult::WithErr(e)) => Some(ScanResult::WithErr(e)),
            Some(ScanResult::Valid(t)) => struct_fields(node, i + 1, insert_sorted(typed, fname, t, |s: Seq<char>| seq_key(s)), tles, ptl),
        }
    } else {
        Some(ScanResult::Valid(typed))
    }
}

/// One pass over the module's definitions still to analyse (`pending`, indices into its
/// elements) from position `i`: each that can be analysed now is added to `typed` and leaves
/// `pending`; the others stay.
pub open spec fn module_pass(node: SpecParseTreeNode, pending: Seq<int>, i: int, typed: TypedElems) -> Analysis<(Seq<int>, TypedElems)>
    decreases node, 0nat, pending.len() - i,
{
    if node.tree is Module && 0 <= i < pending.len() && 0 <= pending[i] < node.tree->Module_elems.len() {
        let elems = node.tree->Module_elems;
        let (name, elem) = elems[pending[i]];
        match analyse_node(elem, typed, elems) {
            None => None,
            Some(ScanResult::WithErr(e)) => Some(ScanResult::WithErr(e)),
            Some(ScanResult::Unrecognised) => module_pass(node, pending, i + 1, typed),
            Some(ScanResult::Valid(t)) => module_pass(node, pending.remove(i), i, insert_sorted(typed, name, t, |s: Seq<char>| seq_key(s))),
        }
    } else {
        Some(ScanResult::Valid((pending, typed)))
    }
}

/// Passes over the module's definitions until all are analysed; an error naming the first
/// definition left, at its position, if a pass analyses none of those left (they use each
/// other in a cycle).
pub open spec fn module_rounds(node: SpecParseTreeNode, pending: Seq<int>, typed: TypedElems) -> Analysis<TypedElems>
    decreases node, 0nat, pending.len() + 1,
{
    if pending.len() == 0 {
        Some(ScanResult::Valid(typed))
    } else {
        match module_pass(node, pending, 0, typed) {
            None => None,
            Some(ScanResult::WithErr(e)) => Some(ScanResult::WithErr(e)),
            Some(ScanResult::Unrecognised) => Some(ScanResult::Unrecognised),
            Some(ScanResult::Valid((left, typed2))) => if left.len() < pending.len() {
                module_rounds(node, left, typed2)
            } else if node.tree is Module && 0 <= pending[0] < node.tree->Module_elems.len() {
                let (name, elem) = node.tree->Module_elems[pending[0]];
                Some(ScanResult::WithErr(SpecAnalysisError {
                    kind: SpecAnalysisErrorKind::UnresolvableDefinition { name },
                    cursor: elem.cursor,
                }))
            } else {
                Some(ScanResult::Unrecognised)
            },
        }
    }
}

// ---------------------------------------------------------------- analysis

/// Outcome of analysing one structure.
pub type AnalysisResult<T> = ScanResult<T, AnalysisError>;

/// The view of analysed definitions by name.
pub open spec fn typed_view(m: Seq<(String, TypedTreeNode)>) -> TypedElems {
    view_pairs(m, |n: TypedTreeNode| n@)
}

/// The view of parsed definitions by name.
pub open spec fn parsed_view(m: Seq<(String, ParseTreeNode)>) -> ParsedElems {
    view_pairs(m, |n: ParseTreeNode| n@)
}

/// The analysed definition called `name`.
fn lookup_typed<'a>(tles: &'a Vec<(String, TypedTreeNode)>, name: &String) -> (r: Option<&'a TypedTreeNode>)
    ensures
        match r {
            Some(n) => typed_lookup(typed_view(tles@), name@) == Some(n@),
            None => typed_lookup(typed_view(tles@), name@) is None,
        },
{
    proof {
        lemma_find_key_view(tles@, name@, |n: TypedTreeNode| n@);
        lemma_find_key_found(tles@, name@, |s: String| crate::sorted::string_key(s));
    }
    get_named(tles, name)
}

/// Whether a definition called `name` was parsed.
fn is_declared(ptl: &Vec<(String, ParseTreeNode)>, name: &String) -> (r: bool)
    ensures
        r == declared(parsed_view(ptl@), name@),
{
    proof {
        lemma_find_key_view(ptl@, name@, |n: ParseTreeNode| n@);
    }
    get_named(ptl, name).is_some()
}

/// The type a type name stands for; see `resolve_type`.
fn resolve_type_named(name: &String, tles: &Vec<(String, TypedTreeNode)>, ptl: &Vec<(String, ParseTreeNode)>) -> (r: Option<AnalysisResult<Type>>)
    ensures
        match r {
            Some(x) => resolve_type(name@, typed_view(tles@), parsed_view(ptl@)) == Some(x@),
            None => resolve_type(name@, typed_view(tles@), parsed_view(ptl@)) is None,
        },
{
    if let Some(ty) = Type::from_name(name.as_str()) {
        return Some(ScanResult::Valid(ty));
    }
    match lookup_typed(tles, name) {
        Some(type_node) => match &type_node.tree {
            TypedTree::Type(ty) => Some(ScanResult::Valid(clone_type(ty))),
            _ => None,
        },
        None => {
            if is_declared(ptl, name) {
                // a type that exists but is not analysed yet
                Some(ScanResult::Unrecognised)
            } else {
                Some(ScanResult::WithErr(AnalysisError::new(AnalysisErrorKind::NoSuchType { tname: owned(name.as_str()) }, 0)))
            }
        },
    }
}

/// The type constructed by `-> name` and the effect of the construction; see `constructor`.
fn resolve_constructor(name: &String, tles: &Vec<(String, TypedTreeNode)>, ptl: &Vec<(String, ParseTreeNode)>) -> (r: Option<AnalysisResult<(Type, StackEffect)>>)
    ensures
        match r {
            Some(x) => constructor(name@, typed_view(tles@), parsed_view(ptl@)) == Some(x@),
            None => constructor(name@, typed_view(tles@), parsed_view(ptl@)) is None,
        },
{
    let ctype = match resolve_type_named(name, tles, ptl) {
        Some(ScanResult::Valid(t)) => t,
        Some(ScanResult::WithErr(e)) => return Some(ScanResult::WithErr(e)),
        Some(ScanResult::Unrecognised) => return Some(ScanResult::Unrecognised),
        None => return None,
    };
    let eff = match &ctype {
        Type::Transparent { fields, .. } => {
            let e = StackEffect::new_constructor(clone_type(&ctype), fields);
            proof {
                assert(view_fields(fields@).map_values(|f: (Seq<char>, SpecType)| f.1)
                    =~= ctype@->fields.map_values(|f: (Seq<char>, SpecType)| f.1));
            }
            e
        },
        _ => {
            if !can_name(&ctype) {
                return None;
            }
            let tname = ctype.name();
            return Some(ScanResult::WithErr(AnalysisError::new(AnalysisErrorKind::UnconstructableType { tname }, 0)));
        },
    };
    Some(ScanResult::Valid((ctype, eff)))
}

/// The effect of a literal, which must not need context to know.
fn literal_effect(lit: &Literal) -> (r: Option<StackEffect>)
    ensures
        match r {
            Some(e) => literal_effect_of(lit@) == Some(e@),
            None => literal_effect_of(lit@) is None,
        },
{
    StackEffect::from_lit(lit)
}

/// The effect of one element of a function body; see `element_effect`.
fn body_element_effect(elem: &ParseTree, tles: &Vec<(String, TypedTreeNode)>, ptl: &Vec<(String, ParseTreeNode)>) -> (r: Option<AnalysisResult<StackEffect>>)
    ensures
        match r {
            Some(x) => element_effect(elem@, typed_view(tles@), parsed_view(ptl@)) == Some(x@),
            None => element_effect(elem@, typed_view(tles@), parsed_view(ptl@)) is None,
        },
{
    match elem {
        ParseTree::Identifier(ident) => {
            let func_node = match lookup_typed(tles, ident) {
                Some(n) => n,
                None => {
                    if is_declared(ptl, ident) {
                        // a function that exists but is not analysed yet
                        return Some(ScanResult::Unrecognised);
                    } else {
                        return Some(ScanResult::WithErr(AnalysisError::new(AnalysisErrorKind::NoSuchFunction { fname: owned(ident.as_str()) }, 0)));
                    }
                },
            };
            match &func_node.tree {
                TypedTree::Function { effect, .. } => Some(ScanResult::Valid(clone_effect(effect))),
                TypedTree::Type(ty) => {
                    if !can_name(ty) {
                        return None;
                    }
                    let tname = ty.name();
                    Some(ScanResult::WithErr(AnalysisError::new(AnalysisErrorKind::TypeIsNotFunction { tname }, 0)))
                },
                _ => None,
            }
        },
        ParseTree::Literal(lit) => match literal_effect(lit) {
            Some(e) => Some(ScanResult::Valid(e)),
            None => None,
        },
        ParseTree::Constructor(ident) => match resolve_constructor(ident, tles, ptl) {
            Some(ScanResult::Valid((_, eff))) => Some(ScanResult::Valid(eff)),
            Some(ScanResult::WithErr(e)) => Some(ScanResult::WithErr(e)),
            Some(ScanResult::Unrecognised) => Some(ScanResult::Unrecognised),
            None => None,
        },
        _ => None,
    }
}

/// Analyses the body of the function `parse_tree`: its effect and analysed elements.
fn calc_function(parse_tree: &ParseTreeNode, tles: &Vec<(String, TypedTreeNode)>, ptl: &Vec<(String, ParseTreeNode)>) -> (r: Option<AnalysisResult<(StackEffect, Vec<TypedTreeNode>)>>)
    requires
        parse_tree.tree is Function,
    ensures
        match r {
            Some(x) => function_body(parse_tree@, 0, no_effect(), Seq::empty(), typed_view(tles@), parsed_view(ptl@))
                == Some(map_valid(x@, |p: (SpecStackEffect, Seq<TypedTreeNode>)| (p.0, view_typed_nodes(p.1)))),
            None => function_body(parse_tree@, 0, no_effect(), Seq::empty(), typed_view(tles@), parsed_view(ptl@)) is None,
        },
    decreases parse_tree, 0nat,
{
    let ghost node = parse_tree@;
    let ghost tv = typed_view(tles@);
    let ghost pv = parsed_view(ptl@);
    let body = match &parse_tree.tree {
        ParseTree::Function { body, .. } => body,
        _ => vstd::pervasive::unreached(),
    };
    let mut effect = StackEffect::none();
    let mut typed_body: Vec<TypedTreeNode> = Vec::new();
    let mut i: usize = 0;
    proof {
        assert(view_typed_nodes(typed_body@) =~= Seq::<SpecTypedTreeNode>::empty());
    }
    while i < body.len()
        invariant
            node == parse_tree@,
            tv == typed_view(tles@),
            pv == parsed_view(ptl@),
            parse_tree.tree is Function,
            *body == parse_tree.tree->Function_body,
            i <= body@.len(),
            node.tree->Function_body.len() == body@.len(),
            forall|j: int| 0 <= j < body@.len() ==> #[trigger] node.tree->Function_body[j] == body@[j]@,
            function_body(node, 0, no_effect(), Seq::empty(), tv, pv)
                == function_body(node, i as int, effect@, view_typed_nodes(typed_body@), tv, pv),
        decreases body.len() - i,
    {
        let elem = &body[i];
        proof {
            assert(node.tree->Function_body[i as int] == elem@);
        }
        let new_effect = match body_element_effect(&elem.tree, tles, ptl) {
            Some(ScanResult::Valid(e)) => e,
            Some(ScanResult::WithErr(e)) => return Some(ScanResult::WithErr(e)),
            // a function or type that exists but is not analysed yet
            Some(ScanResult::Unrecognised) => return Some(ScanResult::Unrecognised),
            None => return None,
        };
        proof {
            assert(decreases_to!(*parse_tree => parse_tree.tree));
            assert(decreases_to!(parse_tree.tree => (parse_tree.tree)->Function_body));
            assert(decreases_to!((parse_tree.tree)->Function_body => (parse_tree.tree)->Function_body@));
            assert(decreases_to!((parse_tree.tree)->Function_body@ => (parse_tree.tree)->Function_body@[i as int]));
        }
        let t = match calc_stack_effects(elem, tles, ptl) {
            Some(ScanResult::Valid(t)) => t,
            Some(ScanResult::WithErr(e)) => return Some(ScanResult::WithErr(e)),
            Some(ScanResult::Unrecognised) => return Some(ScanResult::Unrecognised),
            None => return None,
        };
        let ghost old_typed = view_typed_nodes(typed_body@);
        typed_body.push(t);
        proof {
            assert(view_typed_nodes(typed_body@) =~= old_typed.push(t@));
        }
        if !effect.can_combine(&new_effect) {
            return None;
        }
        effect = match effect.combine(&new_effect) {
            Ok(e) => e,
            Err(e) => return Some(ScanResult::WithErr(e)),
        };
        i += 1;
    }
    Some(ScanResult::Valid((effect, typed_body)))
}

/// Analyses the fields of the struct `parse_tree`: each field with its type resolved, by name.
fn calc_struct(parse_tree: &ParseTreeNode, tles: &Vec<(String, TypedTreeNode)>, ptl: &Vec<(String, ParseTreeNode)>) -> (r: Option<AnalysisResult<Vec<(String, Type)>>>)
    requires
        parse_tree.tree is Struct,
    ensures
        match r {
            Some(x) => struct_fields(parse_tree@, 0, Seq::empty(), typed_view(tles@), parsed_view(ptl@))
                == Some(map_valid(x@, |f: Seq<(String, Type)>| view_fields(f))),
            None => struct_fields(parse_tree@, 0, Seq::empty(), typed_view(tles@), parsed_view(ptl@)) is None,
        },
{
    let ghost node = parse_tree@;
    let ghost tv = typed_view(tles@);
    let ghost pv = parsed_view(ptl@);
    let ghost vf = |t: Type| t@;
    let fields = match &parse_tree.tree {
        ParseTree::Struct { fields, .. } => fields,
        _ => vstd::pervasive::unreached(),
    };
    let mut typed_fields: Vec<(String, Type)> = Vec::new();
    let mut i: usize = 0;
    proof {
        assert(view_fields(typed_fields@) =~= Seq::<(Seq<char>, SpecType)>::empty());
    }
    while i < fields.len()
        invariant
            node == parse_tree@,
            tv == typed_view(tles@),
            pv == parsed_view(ptl@),
            vf == |t: Type| t@,
            parse_tree.tree is Struct,
            *fields == parse_tree.tree->Struct_fields,
            i <= fields@.len(),
            node.tree->Struct_fields.len() == fields@.len(),
            forall|j: int| 0 <= j < fields@.len() ==> #[trigger] node.tree->Struct_fields[j] == (fields@[j].0@, fields@[j].1@),
            struct_fields(node, 0, Seq::empty(), tv, pv) == struct_fields(node, i as int, view_fields(typed_fields@), tv, pv),
        decreases fields.len() - i,
    {
        proof {
            assert(node.tree->Struct_fields[i as int] == (fields@[i as int].0@, fields@[i as int].1@));
        }
        let ty = match resolve_type_named(&fields[i].1, tles, ptl) {
            Some(ScanResult::Valid(t)) => t,
            Some(ScanResult::WithErr(e)) => return Some(ScanResult::WithErr(e)),
            // a type that exists but is not analysed yet
            Some(ScanResult::Unrecognised) => return Some(ScanResult::Unrecognised),
            None => return None,
        };
        let ghost before = typed_fields@;
        let fname = owned(fields[i].0.as_str());
        insert_named(&mut typed_fields, fname, ty);
        proof {
            lemma_view_insert(before, fname, ty, vf);
            assert(view_fields(before) =~= view_pairs(before, vf));
            assert(view_fields(typed_fields@) =~= view_pairs(typed_fields@, vf));
        }
        i += 1;
    }
    Some(ScanResult::Valid(typed_fields))
}

/// Analyses the definitions of the module `parse_tree`, in passes, until all are analysed.
fn calc_module(parse_tree: &ParseTreeNode) -> (r: Option<AnalysisResult<Vec<(String, TypedTreeNode)>>>)
    requires
        parse_tree.tree is Module,
    ensures
        match r {
            Some(x) => module_rounds(parse_tree@, Seq::new(parse_tree@.tree->Module_elems.len(), |i: int| i), Seq::empty())
                == Some(map_valid(x@, |m: Seq<(String, TypedTreeNode)>| typed_view(m))),
            None => module_rounds(parse_tree@, Seq::new(parse_tree@.tree->Module_elems.len(), |i: int| i), Seq::empty()) is None,
        },
    decreases parse_tree, 0nat,
{
    let ghost node = parse_tree@;
    let ghost vf = |n: TypedTreeNode| n@;
    let elems = match &parse_tree.tree {
        ParseTree::Module { elems, .. } => elems,
        _ => vstd::pervasive::unreached(),
    };
    proof {
        assert(node.tree->Module_elems =~= parsed_view(elems@));
    }
    let mut typed_elems: Vec<(String, TypedTreeNode)> = Vec::new();
    let mut to_analyse: Vec<usize> = Vec::new();
    let mut k: usize = 0;
    while k < elems.len()
        invariant
            k <= elems@.len(),
            to_analyse@.len() == k,
            forall|j: int| 0 <= j < k ==> #[trigger] to_analyse@[j] == j,
        decreases elems.len() - k,
    {
        to_analyse.push(k);
        k += 1;
    }
    proof {
        assert(to_analyse@.map_values(|x: usize| x as int) =~= Seq::new(node.tree->Module_elems.len(), |i: int| i));
        assert(typed_view(typed_elems@) =~= Seq::<(Seq<char>, SpecTypedTreeNode)>::empty());
    }
    while to_analyse.len() > 0
        invariant
            node == parse_tree@,
            vf == |n: TypedTreeNode| n@,
            parse_tree.tree is Module,
            *elems == parse_tree.tree->Module_elems,
            node.tree->Module_elems == parsed_view(elems@),
            module_rounds(node, Seq::new(node.tree->Module_elems.len(), |i: int| i), Seq::empty())
                == module_rounds(node, to_analyse@.map_values(|x: usize| x as int), typed_view(typed_elems@)),
            forall|j: int| 0 <= j < to_analyse@.len() ==> #[trigger] to_analyse@[j] < elems@.len(),
        decreases to_analyse.len(),
    {
        let before = to_analyse.len();
        let ghost pending0 = to_analyse@.map_values(|x: usize| x as int);
        let ghost typed0 = typed_view(typed_elems@);
        let mut i: usize = 0;
        while i < to_analyse.len()
            invariant
                node == parse_tree@,
                vf == |n: TypedTreeNode| n@,
                parse_tree.tree is Module,
                *elems == parse_tree.tree->Module_elems,
                node.tree->Module_elems == parsed_view(elems@),
                forall|j: int| 0 <= j < to_analyse@.len() ==> #[trigger] to_analyse@[j] < elems@.len(),
                i <= to_analyse@.len() <= before,
                module_pass(node, pending0, 0, typed0)
                    == module_pass(node, to_analyse@.map_values(|x: usize| x as int), i as int, typed_view(typed_elems@)),
                pending0.len() == before > 0,
                to_analyse@.len() == before ==> to_analyse@.map_values(|x: usize| x as int) == pending0,
                module_rounds(node, Seq::new(node.tree->Module_elems.len(), |i: int| i), Seq::empty())
                    == module_rounds(node, pending0, typed0),
            decreases to_analyse.len() - i,
        {
            let idx = to_analyse[i];
            let ghost pend = to_analyse@.map_values(|x: usize| x as int);
            proof {
                assert(pend[i as int] == idx);
                assert(decreases_to!(*parse_tree => parse_tree.tree));
                assert(decreases_to!(parse_tree.tree => (parse_tree.tree)->Module_elems));
                assert(decreases_to!((parse_tree.tree)->Module_elems => (parse_tree.tree)->Module_elems@));
                assert(decreases_to!((parse_tree.tree)->Module_elems@ => (parse_tree.tree)->Module_elems@[idx as int]));
                assert(decreases_to!((parse_tree.tree)->Module_elems@[idx as int] => (parse_tree.tree)->Module_elems@[idx as int].1));
            }
            match calc_stack_effects(&elems[idx].1, &typed_elems, elems) {
                None => return None,
                Some(ScanResult::Valid(n)) => {
                    let ghost old_typed = typed_elems@;
                    let name = owned(elems[idx].0.as_str());
                    insert_named(&mut typed_elems, name, n);
                    to_analyse.remove(i);
                    proof {
                        lemma_view_insert(old_typed, name, n, vf);
                        assert(to_analyse@.map_values(|x: usize| x as int) =~= pend.remove(i as int));
                    }
                },
                Some(ScanResult::Unrecognised) => {
                    i += 1;
                },
                Some(ScanResult::WithErr(e)) => return Some(ScanResult::WithErr(e)),
            }
        }
        if to_analyse.len() == before {
            // none of the definitions left could be analysed: they depend on each other
            let idx = to_analyse[0];
            proof {
                let pend = to_analyse@.map_values(|x: usize| x as int);
                assert(pend == pending0);
                assert(module_pass(node, pend, pend.len() as int, typed_view(typed_elems@))
                    == Some(ScanResult::<(Seq<int>, TypedElems), SpecAnalysisError>::Valid((pend, typed_view(typed_elems@)))));
                assert(pend[0] == idx);
                assert(node.tree->Module_elems[idx as int].1 == elems@[idx as int].1@);
            }
            let name = owned(elems[idx].0.as_str());
            return Some(ScanResult::WithErr(AnalysisError::new(AnalysisErrorKind::UnresolvableDefinition { name }, elems[idx].1.cursor)));
        }
    }
    Some(ScanResult::Valid(typed_elems))
}

/// Walks the parse tree `parse_tree`, calculating stack effects and types, with `tles` the
/// definitions analysed so far and `ptl` all those parsed. `Unrecognised` means that the tree
/// uses a definition that is not analysed yet.
/// `None` where the analysis cannot go on (see `Analysis`).
fn calc_stack_effects(parse_tree: &ParseTreeNode, tles: &Vec<(String, TypedTreeNode)>, ptl: &Vec<(String, ParseTreeNode)>) -> (r: Option<AnalysisResult<TypedTreeNode>>)
    ensures
        match r {
            Some(x) => analyse_node(parse_tree@, typed_view(tles@), parsed_view(ptl@)) == Some(x@),
            None => analyse_node(parse_tree@, typed_view(tles@), parsed_view(ptl@)) is None,
        },
    decreases parse_tree, 1nat,
{
    let tree = match &parse_tree.tree {
        ParseTree::Module { name, .. } => match calc_module(parse_tree) {
            Some(ScanResult::Valid(elems)) => {
                let t = TypedTree::Module { name: owned(name.as_str()), elems };
                proof {
                    assert(t@->Module_elems =~= typed_view(elems@));
                }
                t
            },
            Some(ScanResult::WithErr(e)) => return Some(ScanResult::WithErr(e)),
            Some(ScanResult::Unrecognised) => return Some(ScanResult::Unrecognised),
            None => return None,
        },
        ParseTree::Function { name, .. } => match calc_function(parse_tree, tles, ptl) {
            Some(ScanResult::Valid((effect, body))) => {
                let t = TypedTree::Function { name: owned(name.as_str()), effect, body };
                proof {
                    assert(t@->Function_body =~= view_typed_nodes(body@));
                }
                t
            },
            Some(ScanResult::WithErr(e)) => return Some(ScanResult::WithErr(e)),
            Some(ScanResult::Unrecognised) => return Some(ScanResult::Unrecognised),
            None => return None,
        },
        ParseTree::Struct { name, .. } => match calc_struct(parse_tree, tles, ptl) {
            Some(ScanResult::Valid(fields)) => TypedTree::Type(Type::new_struct(owned(name.as_str()), &fields)),
            Some(ScanResult::WithErr(e)) => return Some(ScanResult::WithErr(e)),
            Some(ScanResult::Unrecognised) => return Some(ScanResult::Unrecognised),
            None => return None,
        },
        ParseTree::Identifier(s) => TypedTree::Word(owned(s.as_str())),
        ParseTree::Literal(literal) => {
            let ty = match Type::from_lit(literal) {
                Some(t) => t,
                None => return None,
            };
            let value = match Value::from_lit(literal) {
                Some(v) => v,
                None => return None,
            };
            TypedTree::Literal { ty, value }
        },
        ParseTree::Constructor(ident) => match resolve_constructor(ident, tles, ptl) {
            Some(ScanResult::Valid((ty, effect))) => TypedTree::Constructor { ty, effect },
            Some(ScanResult::WithErr(e)) => return Some(ScanResult::WithErr(e)),
            Some(ScanResult::Unrecognised) => return Some(ScanResult::Unrecognised),
            None => return None,
        },
        _ => return None,
    };
    Some(ScanResult::Valid(tree.wrap(parse_tree.file_path.as_str(), parse_tree.cursor)))
}


/// Every entry of a map after setting `(k, v)` is that pair or an entry it had before.
proof fn lemma_insert_entries<K, V>(m: Seq<(K, V)>, k: K, v: V, kf: spec_fn(K) -> Seq<char>)
    ensures
        forall|j: int| 0 <= j < insert_sorted(m, k, v, kf).len() ==> {
            ||| #[trigger] insert_sorted(m, k, v, kf)[j] == (k, v)
            ||| exists|i: int| 0 <= i < m.len() && m[i] == insert_sorted(m, k, v, kf)[j]
        },
    decreases m.len(),
{
    let r = insert_sorted(m, k, v, kf);
    if m.len() == 0 {
    } else if kf(m[0].0) == kf(k) {
        assert forall|j: int| 0 <= j < r.len() implies {
            ||| #[trigger] r[j] == (k, v)
            ||| exists|i: int| 0 <= i < m.len() && m[i] == r[j]
        } by {
            if j > 0 {
                assert(r[j] == m[j]);
            }
        }
    } else if seq_lt(kf(k), kf(m[0].0)) {
        assert forall|j: int| 0 <= j < r.len() implies {
            ||| #[trigger] r[j] == (k, v)
            ||| exists|i: int| 0 <= i < m.len() && m[i] == r[j]
        } by {
            if j > 0 {
                assert(r[j] == m[j - 1]);
            }
        }
    } else {
        let t = m.drop_first();
        lemma_insert_entries(t, k, v, kf);
        assert forall|j: int| 0 <= j < r.len() implies {
            ||| #[trigger] r[j] == (k, v)
            ||| exists|i: int| 0 <= i < m.len() && m[i] == r[j]
        } by {
            if j == 0 {
                assert(m[0] == r[0]);
            } else {
                assert(r[j] == insert_sorted(t, k, v, kf)[j - 1]);
                if r[j] != (k, v) {
                    let i = choose|i: int| 0 <= i < t.len() && t[i] == insert_sorted(t, k, v, kf)[j - 1];
                    assert(m[i + 1] == r[j]);
                }
            }
        }
    }
}

/// The fields of a struct whose field types all resolve.
pub open spec fn fields_resolve(fields: Seq<(Seq<char>, Seq<char>)>, tles: TypedElems, ptl: ParsedElems) -> bool {
    forall|i: int| 0 <= i < fields.len() ==> (#[trigger] resolve_type(fields[i].1, tles, ptl)) matches Some(ScanResult::Valid(_))
}

proof fn lemma_struct_fields_resolve(
    node: SpecParseTreeNode,
    i: int,
    typed: Seq<(Seq<char>, SpecType)>,
    tles: TypedElems,
    ptl: ParsedElems,
)
    requires
        node.tree is Struct,
        0 <= i <= node.tree->Struct_fields.len(),
        fields_resolve(node.tree->Struct_fields, tles, ptl),
    ensures
        struct_fields(node, i, typed, tles, ptl) matches Some(ScanResult::Valid(out)) && {
            &&& names(out, |s: Seq<char>| seq_key(s)) == names(typed, |s: Seq<char>| seq_key(s)).union(
                Set::new(|k: Seq<char>| exists|f: int| i <= f < node.tree->Struct_fields.len() && (#[trigger] node.tree->Struct_fields[f]).0 == k),
            )
            &&& forall|j: int| 0 <= j < out.len() ==> {
                ||| exists|t: int| 0 <= t < typed.len() && typed[t] == #[trigger] out[j]
                ||| exists|f: int| i <= f < node.tree->Struct_fields.len() && (#[trigger] node.tree->Struct_fields[f]).0 == out[j].0
                    && resolve_type(node.tree->Struct_fields[f].1, tles, ptl) == Some(ScanResult::<SpecType, SpecAnalysisError>::Valid(out[j].1))
            }
        },
    decreases node.tree->Struct_fields.len() - i,
{
    let fields = node.tree->Struct_fields;
    let kf = |s: Seq<char>| seq_key(s);
    if i < fields.len() {
        let (fname, ftype) = fields[i];
        assert(resolve_type(fields[i].1, tles, ptl) matches Some(ScanResult::Valid(_)));
        let t = resolve_type(ftype, tles, ptl)->0->Valid_0;
        let typed2 = insert_sorted(typed, fname, t, kf);
        lemma_struct_fields_resolve(node, i + 1, typed2, tles, ptl);
        lemma_insert_names(typed, fname, t, kf);
        lemma_insert_entries(typed, fname, t, kf);
        let out = struct_fields(node, i + 1, typed2, tles, ptl)->0->Valid_0;
        assert(struct_fields(node, i, typed, tles, ptl) == struct_fields(node, i + 1, typed2, tles, ptl));
        let later = Set::new(|k: Seq<char>| exists|f: int| i + 1 <= f < fields.len() && (#[trigger] fields[f]).0 == k);
        let here = Set::new(|k: Seq<char>| exists|f: int| i <= f < fields.len() && (#[trigger] fields[f]).0 == k);
        assert forall|k: Seq<char>| #[trigger] here.contains(k) <==> later.insert(fname).contains(k) by {
            if here.contains(k) {
                let f = choose|f: int| i <= f < fields.len() && (#[trigger] fields[f]).0 == k;
                if f > i {
                    assert(later.contains(k));
                }
            }
            if later.contains(k) {
                let f = choose|f: int| i + 1 <= f < fields.len() && (#[trigger] fields[f]).0 == k;
                assert(here.contains(k));
            }
            if k == fname {
                assert(fields[i].0 == k);
            }
        }
        assert(names(out, kf) =~= names(typed, kf).union(here));
        assert forall|j: int| 0 <= j < out.len() implies {
            ||| exists|t2: int| 0 <= t2 < typed.len() && typed[t2] == #[trigger] out[j]
            ||| exists|f: int| i <= f < fields.len() && (#[trigger] fields[f]).0 == out[j].0
                && resolve_type(fields[f].1, tles, ptl) == Some(ScanResult::<SpecType, SpecAnalysisError>::Valid(out[j].1))
        } by {
            if exists|t2: int| 0 <= t2 < typed2.len() && typed2[t2] == out[j] {
                let t2 = choose|t2: int| 0 <= t2 < typed2.len() && typed2[t2] == out[j];
                if typed2[t2] == (fname, t) {
                    assert(fields[i].0 == out[j].0);
                } else {
                    let t3 = choose|t3: int| 0 <= t3 < typed.len() && typed[t3] == typed2[t2];
                    assert(typed[t3] == out[j]);
                }
            } else {
                let f = choose|f: int| i + 1 <= f < fields.len() && (#[trigger] fields[f]).0 == out[j].0
                    && resolve_type(fields[f].1, tles, ptl) == Some(ScanResult::<SpecType, SpecAnalysisError>::Valid(out[j].1));
                assert(fields[f].0 == out[j].0);
            }
        }
    } else {
        let empty = Set::new(|k: Seq<char>| exists|f: int| i <= f < fields.len() && (#[trigger] fields[f]).0 == k);
        assert(empty =~= Set::<Seq<char>>::empty());
        assert(names(typed, kf).union(empty) =~= names(typed, kf));
    }
}

/// A struct whose field types all resolve (to built-in types or to struct types analysed
/// already) is analysed, never put off: it becomes the struct type holding, under each of
/// its field names, the type that field's type name resolves to.
pub proof fn law_struct_with_resolved_fields(node: SpecParseTreeNode, tles: TypedElems, ptl: ParsedElems)
    requires
        node.tree is Struct,
        fields_resolve(node.tree->Struct_fields, tles, ptl),
    ensures
        analyse_node(node, tles, ptl) matches Some(ScanResult::Valid(t)) && t.tree matches SpecTypedTree::Type(
            SpecType::Transparent { name, fields, sum_type },
        ) && {
            &&& name == node.tree->Struct_name
            &&& !sum_type
            &&& names(fields, |s: Seq<char>| seq_key(s))
                == Set::new(|k: Seq<char>| exists|f: int| 0 <= f < node.tree->Struct_fields.len() && (#[trigger] node.tree->Struct_fields[f]).0 == k)
            &&& forall|j: int| 0 <= j < fields.len() ==> exists|f: int| 0 <= f < node.tree->Struct_fields.len()
                && (#[trigger] node.tree->Struct_fields[f]).0 == (#[trigger] fields[j]).0
                && resolve_type(node.tree->Struct_fields[f].1, tles, ptl) == Some(ScanResult::<SpecType, SpecAnalysisError>::Valid(fields[j].1))
        },
{
    let e = Seq::<(Seq<char>, SpecType)>::empty();
    lemma_struct_fields_resolve(node, 0, e, tles, ptl);
    assert(names(e, |s: Seq<char>| seq_key(s)) =~= Set::<Seq<char>>::empty());
    let out = struct_fields(node, 0, e, tles, ptl)->0->Valid_0;
    let all = Set::new(|k: Seq<char>| exists|f: int| 0 <= f < node.tree->Struct_fields.len() && (#[trigger] node.tree->Struct_fields[f]).0 == k);
    assert(Set::<Seq<char>>::empty().union(all) =~= all);
}

// ---------------------------------------------------------------- laws of analysis

/// The names of the module elements at the indices `pending`.
pub open spec fn pending_names(elems: ParsedElems, pending: Seq<int>) -> Set<Seq<char>> {
    Set::new(|k: Seq<char>| exists|j: int| 0 <= j < pending.len() && (#[trigger] elems[pending[j]]).0 == k)
}

proof fn lemma_pending_remove(elems: ParsedElems, pending: Seq<int>, i: int)
    requires
        0 <= i < pending.len(),
    ensures
        pending_names(elems, pending) == pending_names(elems, pending.remove(i)).insert(elems[pending[i]].0),
{
    let r = pending.remove(i);
    assert forall|x: Seq<char>| #[trigger] pending_names(elems, pending).contains(x)
        <==> pending_names(elems, r).insert(elems[pending[i]].0).contains(x) by {
        if pending_names(elems, pending).contains(x) {
            let j = choose|j: int| 0 <= j < pending.len() && (#[trigger] elems[pending[j]]).0 == x;
            if j < i {
                assert(r[j] == pending[j]);
                assert(elems[r[j]].0 == x);
            } else if j > i {
                assert(r[j - 1] == pending[j]);
                assert(elems[r[j - 1]].0 == x);
            }
        }
        if pending_names(elems, r).contains(x) {
            let j = choose|j: int| 0 <= j < r.len() && (#[trigger] elems[r[j]]).0 == x;
            if j < i {
                assert(r[j] == pending[j]);
                assert(elems[pending[j]].0 == x);
            } else {
                assert(r[j] == pending[j + 1]);
                assert(elems[pending[j + 1]].0 == x);
            }
        }
        if x == elems[pending[i]].0 {
            assert(elems[pending[i]].0 == x);
        }
    }
    assert(pending_names(elems, pending) =~= pending_names(elems, r).insert(elems[pending[i]].0));
}

proof fn lemma_module_pass_names(node: SpecParseTreeNode, pending: Seq<int>, i: int, typed: TypedElems)
    requires
        node.tree is Module,
        0 <= i,
        module_pass(node, pending, i, typed) matches Some(ScanResult::Valid(_)),
    ensures
        module_pass(node, pending, i, typed) matches Some(ScanResult::Valid((left, typed2))) && names(typed2, |s: Seq<char>| seq_key(s)).union(
            pending_names(node.tree->Module_elems, left),
        ) == names(typed, |s: Seq<char>| seq_key(s)).union(pending_names(node.tree->Module_elems, pending)),
    decreases pending.len() - i,
{
    let elems = node.tree->Module_elems;
    let kf = |s: Seq<char>| seq_key(s);
    if 0 <= i < pending.len() && 0 <= pending[i] < elems.len() {
        let (name, elem) = elems[pending[i]];
        match analyse_node(elem, typed, elems) {
            Some(ScanResult::Unrecognised) => {
                lemma_module_pass_names(node, pending, i + 1, typed);
            },
            Some(ScanResult::Valid(t)) => {
                let typed1 = insert_sorted(typed, name, t, kf);
                let pending1 = pending.remove(i);
                lemma_module_pass_names(node, pending1, i, typed1);
                lemma_insert_names(typed, name, t, kf);
                lemma_pending_remove(elems, pending, i);
                assert(names(typed1, kf).union(pending_names(elems, pending1)) =~= names(typed, kf).union(
                    pending_names(elems, pending),
                ));
            },
            _ => {},
        }
    }
}

proof fn lemma_module_rounds_names(node: SpecParseTreeNode, pending: Seq<int>, typed: TypedElems)
    requires
        node.tree is Module,
        module_rounds(node, pending, typed) matches Some(ScanResult::Valid(_)),
    ensures
        module_rounds(node, pending, typed) matches Some(ScanResult::Valid(typed2)) && names(typed2, |s: Seq<char>| seq_key(s))
            == names(typed, |s: Seq<char>| seq_key(s)).union(pending_names(node.tree->Module_elems, pending)),
    decreases pending.len(),
{
    let elems = node.tree->Module_elems;
    let kf = |s: Seq<char>| seq_key(s);
    if pending.len() == 0 {
        assert(pending_names(elems, pending) =~= Set::empty());
        assert(names(typed, kf).union(Set::empty()) =~= names(typed, kf));
    } else {
        lemma_module_pass_names(node, pending, 0, typed);
        let (left, typed2) = module_pass(node, pending, 0, typed)->Some_0->Valid_0;
        lemma_module_rounds_names(node, left, typed2);
        let final_typed = module_rounds(node, left, typed2)->Some_0->Valid_0;
        assert(names(final_typed, kf) =~= names(typed, kf).union(pending_names(elems, pending)));
    }
}

/// Analysing a module keeps every definition: where the analysis succeeds, the analysed
/// module defines exactly the names that the parsed module defines.
pub proof fn law_analysis_keeps_definitions(node: SpecParseTreeNode, tles: TypedElems, ptl: ParsedElems)
    requires
        node.tree is Module,
        analyse_node(node, tles, ptl) matches Some(ScanResult::Valid(_)),
    ensures
        analyse_node(node, tles, ptl) matches Some(ScanResult::Valid(t)) && t.tree is Module
            && names(t.tree->Module_elems, |s: Seq<char>| seq_key(s)) == names(node.tree->Module_elems, |s: Seq<char>| seq_key(s)),
{
    let elems = node.tree->Module_elems;
    let kf = |s: Seq<char>| seq_key(s);
    let all = Seq::new(elems.len(), |i: int| i);
    lemma_module_rounds_names(node, all, Seq::empty());
    assert(names(Seq::<(Seq<char>, SpecTypedTreeNode)>::empty(), kf) =~= Set::empty());
    assert forall|x: Seq<char>| #[trigger] pending_names(elems, all).contains(x) <==> names(elems, kf).contains(x) by {
        if names(elems, kf).contains(x) {
            let i = choose|i: int| 0 <= i < elems.len() && kf(#[trigger] elems[i].0) == x;
            assert(all[i] == i);
            assert(elems[all[i]].0 == x);
        }
    }
    assert(pending_names(elems, all) =~= names(elems, kf));
    let typed = module_rounds(node, all, Seq::empty())->Some_0->Valid_0;
    assert(names(typed, kf) =~= names(elems, kf));
}

/// Performs semantic analysis: works out the types and stack effects of every definition.
/// An error if some definitions depend on each other in a cycle.
pub fn analyse(parse_tree: &ParseTreeNode) -> (r: AnalysisResult<TypedTreeNode>)
    requires
        analyse_node(parse_tree@, Seq::empty(), Seq::empty()) is Some,
    ensures
        Some(r@) == analyse_node(parse_tree@, Seq::empty(), Seq::empty()),
{
    match analyse_checked(parse_tree) {
        Some(r) => r,
        None => vstd::pervasive::unreached(),
    }
}

/// Performs semantic analysis, as `analyse` does, on any parse tree: `None` where the tree
/// holds something the analysis cannot handle yet (see `Analysis`), where `analyse` cannot be
/// called.
pub fn analyse_checked(parse_tree: &ParseTreeNode) -> (r: Option<AnalysisResult<TypedTreeNode>>)
    ensures
        match r {
            Some(x) => analyse_node(parse_tree@, Seq::empty(), Seq::empty()) == Some(x@),
            None => analyse_node(parse_tree@, Seq::empty(), Seq::empty()) is None,
        },
{
    let tles: Vec<(String, TypedTreeNode)> = Vec::new();
    let ptl: Vec<(String, ParseTreeNode)> = Vec::new();
    proof {
        assert(typed_view(tles@) =~= Seq::<(Seq<char>, SpecTypedTreeNode)>::empty());
        assert(parsed_view(ptl@) =~= Seq::<(Seq<char>, SpecParseTreeNode)>::empty());
    }
    calc_stack_effects(parse_tree, &tles, &ptl)
}

} // verus!
