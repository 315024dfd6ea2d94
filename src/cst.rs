use vstd::prelude::*;

verus! {

/// The parser of the language. Its grammar lives with the parse-tree provider;
/// this library receives the trees that grammar yields as `CstNode` values.
pub struct PrqlParser;

/// The grammar rule that a concrete syntax tree node is an instance of.
#[derive(Clone, Copy, Debug, PartialEq, Eq, Structural)]
pub enum Rule {
    List,
    Items,
    NamedArg,
    Assign,
    Transformation,
    Function,
    Ident,
    Idents,
    String,
    Query,
    Pipeline,
    Operator,
    Number,
    /// Any rule without a lowering of its own (whitespace, comments, the
    /// expression wrappers of the grammar, end of input).
    Other,
}

/// One node of a concrete syntax tree: its rule, the exact source text it
/// matched, and its child nodes in source order.
#[derive(Debug, PartialEq)]
pub struct CstNode {
    pub rule: Rule,
    pub text: String,
    pub inner: Vec<CstNode>,
}

impl CstNode {
    /// A node of rule `rule` that matched `text` and holds `inner`.
    pub fn new(rule: Rule, text: String, inner: Vec<CstNode>) -> (r: CstNode)
        ensures
            r.rule == rule,
            r.text == text,
            r.inner == inner,
    {
        CstNode { rule, text, inner }
    }

    /// A node without children, as the rules of identifiers, strings,
    /// operators and numbers produce.
    pub fn leaf(rule: Rule, text: String) -> (r: CstNode)
        ensures
            r.rule == rule,
            r.text == text,
            r.inner@ == Seq::<CstNode>::empty(),
    {
        CstNode { rule, text, inner: Vec::new() }
    }
}

} // verus!
