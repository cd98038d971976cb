use vstd::prelude::*;

verus! {

/// The kind of structure being parsed when an error occurred.
#[derive(Debug, Clone, Copy, PartialEq, Eq, Structural)]
pub enum ParseTreeType {
    Unspecified,
    Module,
    Function,
    Struct,
    Enum,
    Identifier,
    Literal,
    Constructor,
}

/// The name of a parse tree type, as `{:?}` prints it.
pub open spec fn tree_type_name(t: ParseTreeType) -> Seq<char> {
    match t {
        ParseTreeType::Unspecified => "None"@,
        ParseTreeType::Module => "Module"@,
        ParseTreeType::Function => "Function"@,
        ParseTreeType::Struct => "Struct"@,
        ParseTreeType::Enum => "Enum"@,
        ParseTreeType::Identifier => "Identifier"@,
        ParseTreeType::Literal => "Literal"@,
        ParseTreeType::Constructor => "Constructor"@,
    }
}

impl ParseTreeType {
    /// The variant's name, as `{:?}` prints it.
    pub fn name(&self) -> (r: &'static str)
        ensures
            r@ == tree_type_name(*self),
    {
        match self {
            ParseTreeType::Unspecified => "None",
            ParseTreeType::Module => "Module",
            ParseTreeType::Function => "Function",
            ParseTreeType::Struct => "Struct",
            ParseTreeType::Enum => "Enum",
            ParseTreeType::Identifier => "Identifier",
            ParseTreeType::Literal => "Literal",
            ParseTreeType::Constructor => "Constructor",
        }
    }
}

/// A literal value written in tower source code.
#[derive(Debug, Clone, PartialEq)]
pub enum Literal {
    U128(u128),
    U64(u64),
    U32(u32),
    U16(u16),
    U8(u8),
    I128(i128),
    I64(i64),
    I32(i32),
    I16(i16),
    I8(i8),
    Bool(bool),
    String(String),
    FnPtr(String),
}

/// The mathematical value of a literal.
pub enum SpecLiteral {
    U128(u128),
    U64(u64),
    U32(u32),
    U16(u16),
    U8(u8),
    I128(i128),
    I64(i64),
    I32(i32),
    I16(i16),
    I8(i8),
    Bool(bool),
    String(Seq<char>),
    FnPtr(Seq<char>),
}

impl View for Literal {
    type V = SpecLiteral;

    open spec fn view(&self) -> SpecLiteral {
        match self {
            Literal::U128(v) => SpecLiteral::U128(*v),
            Literal::U64(v) => SpecLiteral::U64(*v),
            Literal::U32(v) => SpecLiteral::U32(*v),
            Literal::U16(v) => SpecLiteral::U16(*v),
            Literal::U8(v) => SpecLiteral::U8(*v),
            Literal::I128(v) => SpecLiteral::I128(*v),
            Literal::I64(v) => SpecLiteral::I64(*v),
            Literal::I32(v) => SpecLiteral::I32(*v),
            Literal::I16(v) => SpecLiteral::I16(*v),
            Literal::I8(v) => SpecLiteral::I8(*v),
            Literal::Bool(v) => SpecLiteral::Bool(*v),
            Literal::String(s) => SpecLiteral::String(s@),
            Literal::FnPtr(s) => SpecLiteral::FnPtr(s@),
        }
    }
}

/// A node of the parse tree: the tree itself, and where in which file it starts.
#[derive(Debug, PartialEq)]
pub struct ParseTreeNode {
    pub file_path: String,
    pub cursor: usize,
    pub tree: ParseTree,
}

/// The parse tree. Named elements (module elements, struct fields) are kept as lists of
/// pairs sorted by name, with each name once.
#[derive(Debug, PartialEq)]
pub enum ParseTree {
    Module { name: String, elems: Vec<(String, ParseTreeNode)> },
    Function { name: String, body: Vec<ParseTreeNode> },
    Struct { name: String, fields: Vec<(String, String)> },
    Enum { name: String, fields: Vec<(String, String)> },
    Identifier(String),
    Literal(Literal),
    Constructor(String),
    FieldAccess(String),
}

/// The mathematical value of a parse tree node.
pub struct SpecParseTreeNode {
    pub file_path: Seq<char>,
    pub cursor: int,
    pub tree: SpecParseTree,
}

/// The mathematical value of a parse tree.
pub enum SpecParseTree {
    Module { name: Seq<char>, elems: Seq<(Seq<char>, SpecParseTreeNode)> },
    Function { name: Seq<char>, body: Seq<SpecParseTreeNode> },
    Struct { name: Seq<char>, fields: Seq<(Seq<char>, Seq<char>)> },
    Enum { name: Seq<char>, fields: Seq<(Seq<char>, Seq<char>)> },
    Identifier(Seq<char>),
    Literal(SpecLiteral),
    Constructor(Seq<char>),
    FieldAccess(Seq<char>),
}

/// The view of a list of named strings.
pub open spec fn view_string_pairs(v: Seq<(String, String)>) -> Seq<(Seq<char>, Seq<char>)> {
    Seq::new(v.len(), |i: int| (v[i].0@, v[i].1@))
}

pub open spec fn view_node(n: ParseTreeNode) -> SpecParseTreeNode
    decreases n,
{
    SpecParseTreeNode { file_path: n.file_path@, cursor: n.cursor as int, tree: view_tree(n.tree) }
}

pub open spec fn view_tree(t: ParseTree) -> SpecParseTree
    decreases t,
{
    match t {
        ParseTree::Module { name, elems } => SpecParseTree::Module {
            name: name@,
            elems: Seq::new(
                elems.len() as nat,
                |i: int|
                    if 0 <= i < elems.len() {
                        (elems@[i].0@, view_node(elems@[i].1))
                    } else {
                        (Seq::empty(), SpecParseTreeNode { file_path: Seq::empty(), cursor: 0, tree: SpecParseTree::Identifier(Seq::empty()) })
                    },
            ),
        },
        ParseTree::Function { name, body } => SpecParseTree::Function {
            name: name@,
            body: Seq::new(
                body.len() as nat,
                |i: int|
                    if 0 <= i < body.len() {
                        view_node(body@[i])
                    } else {
                        SpecParseTreeNode { file_path: Seq::empty(), cursor: 0, tree: SpecParseTree::Identifier(Seq::empty()) }
                    },
            ),
        },
        ParseTree::Struct { name, fields } => SpecParseTree::Struct { name: name@, fields: view_string_pairs(fields@) },
        ParseTree::Enum { name, fields } => SpecParseTree::Enum { name: name@, fields: view_string_pairs(fields@) },
        ParseTree::Identifier(s) => SpecParseTree::Identifier(s@),
        ParseTree::Literal(l) => SpecParseTree::Literal(l@),
        ParseTree::Constructor(s) => SpecParseTree::Constructor(s@),
        ParseTree::FieldAccess(s) => SpecParseTree::FieldAccess(s@),
    }
}

/// The views of a list of nodes.
pub open spec fn view_nodes(v: Seq<ParseTreeNode>) -> Seq<SpecParseTreeNode> {
    Seq::new(v.len(), |i: int| view_node(v[i]))
}

impl View for ParseTreeNode {
    type V = SpecParseTreeNode;

    open spec fn view(&self) -> SpecParseTreeNode {
        view_node(*self)
    }
}

impl View for ParseTree {
    type V = SpecParseTree;

    open spec fn view(&self) -> SpecParseTree {
        view_tree(*self)
    }
}

impl ParseTree {
    /// Attaches the file and position the tree was parsed from.
    pub fn wrap(self, file_path: &str, cursor: usize) -> (r: ParseTreeNode)
        ensures
            r@ == (SpecParseTreeNode { file_path: file_path@, cursor: cursor as int, tree: self@ }),
    {
        ParseTreeNode { file_path: crate::utils::owned(file_path), cursor, tree: self }
    }
}

} // verus!
