//! Lowering of a rule-tagged concrete syntax tree of a pipe-oriented query
//! language into a typed abstract syntax tree.
pub mod ast;
pub mod cst;
pub mod laws;
pub mod lower;

pub use ast::{
    Assign, Function, Item, Kind, LoweringError, NamedArg, Node, Shape, Transformation,
    TransformationNode, TransformationType, Violation,
};
pub use cst::{CstNode, PrqlParser, Rule};
pub use lower::{lower_one, lower_pair, lower_query, lower_rule, parse};

