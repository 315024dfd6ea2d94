use vstd::prelude::*;

use crate::cst::Rule;

verus! {

/// A node of the abstract syntax tree.
#[derive(Debug, PartialEq)]
pub enum Item {
    Transformation(Transformation),
    Ident(String),
    String(String),
    Raw(String),
    Assign(Assign),
    NamedArg(NamedArg),
    Query(Vec<Item>),
    Pipeline(Vec<Transformation>),
    /// Holds the items of a bracketed list directly when an entry is a single
    /// item, else an `Item::Items` per entry.
    List(Vec<Item>),
    /// A group of several sibling items, told apart from a series of
    /// identifiers: `[a, b]` against `[a b]`.
    Items(Vec<Item>),
    Idents(Vec<String>),
    Function(Function),
    /// A node of a rule that has no lowering: it keeps the matched text.
    Unrecognized(String),
}

/// One stage of a pipeline.
#[derive(Debug, PartialEq)]
pub struct Transformation {
    pub name: TransformationType,
    pub args: Vec<Item>,
    pub named_args: Vec<NamedArg>,
}

/// The kind of a transformation, from its name.
#[derive(Debug, PartialEq)]
pub enum TransformationType {
    From,
    Select,
    Filter,
    Derive,
    Aggregate,
    Sort,
    Take,
    Custom { name: String },
}

/// A user-defined function: its name, its parameters and its body.
#[derive(Debug, PartialEq)]
pub struct Function {
    pub name: String,
    pub args: Vec<String>,
    pub body: Vec<Item>,
}

/// `name:value` as an argument of a call.
#[derive(Debug, PartialEq)]
pub struct NamedArg {
    pub lvalue: String,
    pub rvalue: Vec<Item>,
}

/// `name: value` as an element of a list.
#[derive(Debug, PartialEq)]
pub struct Assign {
    pub lvalue: String,
    pub rvalue: Vec<Item>,
}

/// The shape that a rule asks of one of its lowered children.
#[derive(Clone, Copy, Debug, PartialEq, Eq, Structural)]
pub enum Shape {
    /// An identifier.
    Ident,
    /// A non-empty group of identifiers: a function's name, then its parameters.
    NamedIdents,
    /// A group of items.
    Items,
    /// A transformation.
    Transformation,
    /// Exactly one node.
    Single,
    /// A query.
    Query,
}

/// Why lowering failed.
#[derive(Debug, PartialEq)]
pub enum LoweringError {
    /// A node of rule `rule` did not have the shape `expected`; `found` is the
    /// lowered node in the place of that shape, `None` where there was none.
    StructuralViolation { rule: Rule, expected: Shape, found: Option<Item> },
}

// ---------------------------------------------------------------------------
// The mathematical model of the tree: text as `Seq<char>`, vectors as `Seq`.
/// The kind of a transformation, in the model.
pub enum Kind {
    From,
    Select,
    Filter,
    Derive,
    Aggregate,
    Sort,
    Take,
    Custom(Seq<char>),
}

/// A transformation in the model: its kind, its positional arguments and its
/// named arguments (name and value).
pub struct TransformationNode {
    pub kind: Kind,
    pub args: Seq<Node>,
    pub named_args: Seq<(Seq<char>, Seq<Node>)>,
}

/// A node of the abstract syntax tree, in the model.
pub enum Node {
    Transformation(TransformationNode),
    Ident(Seq<char>),
    String(Seq<char>),
    Raw(Seq<char>),
    Assign(Seq<char>, Seq<Node>),
    NamedArg(Seq<char>, Seq<Node>),
    Query(Seq<Node>),
    Pipeline(Seq<TransformationNode>),
    List(Seq<Node>),
    Items(Seq<Node>),
    Idents(Seq<Seq<char>>),
    Function(Seq<char>, Seq<Seq<char>>, Seq<Node>),
    Unrecognized(Seq<char>),
}

/// A failure of lowering, in the model.
pub struct Violation {
    pub rule: Rule,
    pub expected: Shape,
    pub found: Option<Node>,
}

/// The model of a transformation kind.
pub open spec fn kind_model(t: TransformationType) -> Kind {
    match t {
        TransformationType::From => Kind::From,
        TransformationType::Select => Kind::Select,
        TransformationType::Filter => Kind::Filter,
        TransformationType::Derive => Kind::Derive,
        TransformationType::Aggregate => Kind::Aggregate,
        TransformationType::Sort => Kind::Sort,
        TransformationType::Take => Kind::Take,
        TransformationType::Custom { name } => Kind::Custom(name@),
    }
}

/// The model of an item.
pub open spec fn item_model(i: Item) -> Node
    decreases i,
{
    match i {
        Item::Transformation(t) => Node::Transformation(transformation_model(t)),
        Item::Ident(s) => Node::Ident(s@),
        Item::String(s) => Node::String(s@),
        Item::Raw(s) => Node::Raw(s@),
        Item::Assign(a) => Node::Assign(a.lvalue@, items_model(a.rvalue@)),
        Item::NamedArg(n) => Node::NamedArg(n.lvalue@, items_model(n.rvalue@)),
        Item::Query(v) => Node::Query(items_model(v@)),
        Item::Pipeline(v) => Node::Pipeline(transformations_model(v@)),
        Item::List(v) => Node::List(items_model(v@)),
        Item::Items(v) => Node::Items(items_model(v@)),
        Item::Idents(v) => Node::Idents(texts_model(v@)),
        Item::Function(f) => Node::Function(f.name@, texts_model(f.args@), items_model(f.body@)),
        Item::Unrecognized(s) => Node::Unrecognized(s@),
    }
}

/// The model of a sequence of items, item by item.
pub open spec fn items_model(s: Seq<Item>) -> Seq<Node>
    decreases s,
{
    if s.len() == 0 {
        Seq::empty()
    } else {
        items_model(s.drop_last()).push(item_model(s.last()))
    }
}

/// The model of a transformation.
pub open spec fn transformation_model(t: Transformation) -> TransformationNode
    decreases t,
{
    TransformationNode {
        kind: kind_model(t.name),
        args: items_model(t.args@),
        named_args: named_args_model(t.named_args@),
    }
}

/// The model of a sequence of transformations.
pub open spec fn transformations_model(s: Seq<Transformation>) -> Seq<TransformationNode>
    decreases s,
{
    if s.len() == 0 {
        Seq::empty()
    } else {
        transformations_model(s.drop_last()).push(transformation_model(s.last()))
    }
}

/// The model of a named argument: its name and its value.
pub open spec fn named_arg_model(n: NamedArg) -> (Seq<char>, Seq<Node>)
    decreases n,
{
    (n.lvalue@, items_model(n.rvalue@))
}

/// The model of a sequence of named arguments.
pub open spec fn named_args_model(s: Seq<NamedArg>) -> Seq<(Seq<char>, Seq<Node>)>
    decreases s,
{
    if s.len() == 0 {
        Seq::empty()
    } else {
        named_args_model(s.drop_last()).push(named_arg_model(s.last()))
    }
}

/// The texts of a sequence of strings.
pub open spec fn texts_model(s: Seq<String>) -> Seq<Seq<char>> {
    s.map_values(|t: String| t@)
}

/// The model of a lowering error.
pub open spec fn error_model(e: LoweringError) -> Violation {
    match e {
        LoweringError::StructuralViolation { rule, expected, found } => Violation {
            rule,
            expected,
            found: match found {
                Some(i) => Some(item_model(i)),
                None => None,
            },
        },
    }
}

/// The model of the result of lowering one node.
pub open spec fn result_model(r: Result<Item, LoweringError>) -> Result<Node, Violation> {
    match r {
        Ok(i) => Ok(item_model(i)),
        Err(e) => Err(error_model(e)),
    }
}

/// The model of the result of lowering a sequence of nodes.
pub open spec fn results_model(r: Result<Vec<Item>, LoweringError>) -> Result<Seq<Node>, Violation> {
    match r {
        Ok(v) => Ok(items_model(v@)),
        Err(e) => Err(error_model(e)),
    }
}

/// The model of a sequence of items is taken item by item.
pub proof fn lemma_items_model(s: Seq<Item>)
    ensures
        items_model(s).len() == s.len(),
        forall|i: int| 0 <= i < s.len() ==> #[trigger] items_model(s)[i] == item_model(s[i]),
    decreases s.len(),
{
    if s.len() > 0 {
        lemma_items_model(s.drop_last());
    }
}

/// The model of a sequence of items without its first item.
pub proof fn lemma_items_model_skip(s: Seq<Item>)
    requires
        s.len() > 0,
    ensures
        items_model(s.skip(1)) == items_model(s).skip(1),
        items_model(s)[0] == item_model(s[0]),
{
    lemma_items_model(s);
    lemma_items_model(s.skip(1));
    assert(items_model(s.skip(1)) =~= items_model(s).skip(1));
}

/// The model of a sequence of items with one more item at the end.
pub proof fn lemma_items_model_push(s: Seq<Item>, i: Item)
    ensures
        items_model(s.push(i)) == items_model(s).push(item_model(i)),
{
    assert(s.push(i).drop_last() =~= s);
}

/// The model of a sequence of transformations with one more at the end.
pub proof fn lemma_transformations_model_push(s: Seq<Transformation>, t: Transformation)
    ensures
        transformations_model(s.push(t)) == transformations_model(s).push(transformation_model(t)),
{
    assert(s.push(t).drop_last() =~= s);
}

/// The model of a sequence of named arguments with one more at the end.
pub proof fn lemma_named_args_model_push(s: Seq<NamedArg>, n: NamedArg)
    ensures
        named_args_model(s.push(n)) == named_args_model(s).push(named_arg_model(n)),
{
    assert(s.push(n).drop_last() =~= s);
}

} // verus!
