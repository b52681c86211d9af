use vstd::prelude::*;

use crate::code::strings_view;

verus! {

/// Where a node stands in its source file.
#[derive(Clone, Copy, Debug, PartialEq, Eq)]
pub struct Info {
    pub line: u32,
    pub col: u32,
}

/// A qualified definition path: scope names from the module root to the binding.
pub type Path = Vec<String>;

pub open spec fn path_view(p: Path) -> Seq<Seq<char>> {
    strings_view(p@)
}

pub open spec fn paths_view(ps: Seq<Path>) -> Seq<Seq<Seq<char>>> {
    Seq::new(ps.len(), |i: int| path_view(ps[i]))
}

/// A typed syntax tree node, as resolved upstream: each symbol carries the path of
/// its definition, and each binding the number of recorded uses of its path
/// (`None` where the binding could not be found).
pub enum Node {
    Sym(Path),
    Int(i32),
    Bool(bool),
    Str(String),
    Lambda(Box<Node>),
    Apply { info: Info, inner: Box<Node>, args: Vec<Arg> },
    Let { info: Info, path: Path, uses: Option<usize>, value: Box<Node>, params: Option<Vec<Path>> },
    UnOp { info: Info, name: String, inner: Box<Node> },
    BinOp { info: Info, name: String, left: Box<Node>, right: Box<Node> },
    Error { info: Info, msg: String },
}

/// An argument of an application; one with parameters is a callback passed by value.
pub struct Arg {
    pub value: Node,
    pub params: Option<Vec<Path>>,
}

/// Why lowering a module failed.
pub enum LowerError {
    UnresolvedSymbol(Path),
    UnknownPrefixOperator(String, Info),
    UnknownInfixOperator(String, Info),
    FailedParse(String, Info),
    CannotApply(Info),
}

/// The model of a `LowerError`, with text as `Seq<char>`.
pub enum ErrorModel {
    UnresolvedSymbol(Seq<Seq<char>>),
    UnknownPrefixOperator(Seq<char>, Info),
    UnknownInfixOperator(Seq<char>, Info),
    FailedParse(Seq<char>, Info),
    CannotApply(Info),
}

impl LowerError {
    pub open spec fn view(&self) -> ErrorModel {
        match self {
            LowerError::UnresolvedSymbol(p) => ErrorModel::UnresolvedSymbol(path_view(*p)),
            LowerError::UnknownPrefixOperator(op, info) => ErrorModel::UnknownPrefixOperator(
                op@,
                *info,
            ),
            LowerError::UnknownInfixOperator(op, info) => ErrorModel::UnknownInfixOperator(
                op@,
                *info,
            ),
            LowerError::FailedParse(msg, info) => ErrorModel::FailedParse(msg@, *info),
            LowerError::CannotApply(info) => ErrorModel::CannotApply(*info),
        }
    }
}

} // verus!
