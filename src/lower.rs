use vstd::prelude::*;

use crate::ast::{
    error_model, item_model, items_model, lemma_items_model, lemma_items_model_push,
    lemma_items_model_skip, lemma_named_args_model_push, lemma_transformations_model_push, kind_model, named_args_model, result_model,
    results_model, texts_model, transformation_model, transformations_model, Assign, Function,
    Item, Kind, LoweringError, NamedArg, Node, Shape, Transformation, TransformationNode,
    TransformationType, Violation,
};
use crate::cst::{CstNode, Rule};

verus! {

// ---------------------------------------------------------------------------
// What lowering computes.
/// The kind that a transformation's name stands for.
pub open spec fn kind_of(name: Seq<char>) -> Kind {
    if name == "from"@ {
        Kind::From
    } else if name == "select"@ {
        Kind::Select
    } else if name == "filter"@ {
        Kind::Filter
    } else if name == "derive"@ {
        Kind::Derive
    } else if name == "aggregate"@ {
        Kind::Aggregate
    } else if name == "sort"@ {
        Kind::Sort
    } else if name == "take"@ {
        Kind::Take
    } else {
        Kind::Custom(name)
    }
}

/// The arguments of a transformation that are not named, in order.
pub open spec fn positional(s: Seq<Node>) -> Seq<Node> {
    s.filter(|n: Node| !(n is NamedArg))
}

/// The named arguments of a transformation, in order.
pub open spec fn named(s: Seq<Node>) -> Seq<(Seq<char>, Seq<Node>)> {
    s.filter(|n: Node| n is NamedArg).map_values(|n: Node| (n->NamedArg_0, n->NamedArg_1))
}

/// The texts of `s` if every node of it is an identifier, else the first
/// node, from the left, that is not.
pub open spec fn ident_texts(s: Seq<Node>) -> Result<Seq<Seq<char>>, Node>
    decreases s.len(),
{
    if s.len() == 0 {
        Ok(Seq::empty())
    } else {
        match ident_texts(s.drop_last()) {
            Err(n) => Err(n),
            Ok(pre) => match s.last() {
                Node::Ident(t) => Ok(pre.push(t)),
                n => Err(n),
            },
        }
    }
}

/// The payloads of `s` if every node of it is a transformation, else the
/// first node, from the left, that is not.
pub open spec fn transformation_payloads(s: Seq<Node>) -> Result<Seq<TransformationNode>, Node>
    decreases s.len(),
{
    if s.len() == 0 {
        Ok(Seq::empty())
    } else {
        match transformation_payloads(s.drop_last()) {
            Err(n) => Err(n),
            Ok(pre) => match s.last() {
                Node::Transformation(t) => Ok(pre.push(t)),
                n => Err(n),
            },
        }
    }
}

/// The first node of `s`, if any.
pub open spec fn first(s: Seq<Node>) -> Option<Node> {
    if s.len() > 0 {
        Some(s[0])
    } else {
        None
    }
}

/// The second node of `s`, if any.
pub open spec fn second(s: Seq<Node>) -> Option<Node> {
    if s.len() > 1 {
        Some(s[1])
    } else {
        None
    }
}

/// The rules whose node is built from the node's lowered children.
pub open spec fn is_composite(rule: Rule) -> bool {
    match rule {
        Rule::Ident | Rule::String | Rule::Operator | Rule::Number | Rule::Other => false,
        _ => true,
    }
}

/// How a composite rule builds its node from its lowered children `items`.
pub open spec fn assemble(rule: Rule, items: Seq<Node>) -> Result<Node, Violation>
    recommends
        is_composite(rule),
{
    match rule {
        Rule::List => Ok(Node::List(items)),
        Rule::Items => Ok(Node::Items(items)),
        Rule::Query => Ok(Node::Query(items)),
        Rule::NamedArg => match first(items) {
            Some(Node::Ident(name)) => Ok(Node::NamedArg(name, items.skip(1))),
            f => Err(Violation { rule, expected: Shape::Ident, found: f }),
        },
        Rule::Assign => match first(items) {
            Some(Node::Ident(name)) => Ok(Node::Assign(name, items.skip(1))),
            f => Err(Violation { rule, expected: Shape::Ident, found: f }),
        },
        Rule::Transformation => match first(items) {
            Some(Node::Ident(name)) => Ok(
                Node::Transformation(
                    TransformationNode {
                        kind: kind_of(name),
                        args: positional(items.skip(1)),
                        named_args: named(items.skip(1)),
                    },
                ),
            ),
            f => Err(Violation { rule, expected: Shape::Ident, found: f }),
        },
        Rule::Function => match first(items) {
            Some(Node::Idents(ids)) if ids.len() > 0 => match second(items) {
                Some(Node::Items(body)) => Ok(Node::Function(ids[0], ids.skip(1), body)),
                f => Err(Violation { rule, expected: Shape::Items, found: f }),
            },
            f => Err(Violation { rule, expected: Shape::NamedIdents, found: f }),
        },
        Rule::Idents => match ident_texts(items) {
            Ok(texts) => Ok(Node::Idents(texts)),
            Err(n) => Err(Violation { rule, expected: Shape::Ident, found: Some(n) }),
        },
        Rule::Pipeline => match transformation_payloads(items) {
            Ok(ts) => Ok(Node::Pipeline(ts)),
            Err(n) => Err(Violation { rule, expected: Shape::Transformation, found: Some(n) }),
        },
        _ => arbitrary(),
    }
}

/// The lowering of one node of a concrete syntax tree.
pub open spec fn lower_node(p: CstNode) -> Result<Node, Violation>
    decreases p,
{
    match p.rule {
        Rule::Ident => Ok(Node::Ident(p.text@)),
        Rule::String => Ok(Node::String(p.text@)),
        Rule::Operator | Rule::Number => Ok(Node::Raw(p.text@)),
        Rule::Other => Ok(Node::Unrecognized(p.text@)),
        _ => match lower_nodes(p.inner@) {
            Err(e) => Err(e),
            Ok(items) => assemble(p.rule, items),
        },
    }
}

/// The lowering of a sequence of sibling nodes: the first failure from the
/// left, or every node lowered in order.
pub open spec fn lower_nodes(s: Seq<CstNode>) -> Result<Seq<Node>, Violation>
    decreases s,
{
    if s.len() == 0 {
        Ok(Seq::empty())
    } else {
        match lower_nodes(s.drop_last()) {
            Err(e) => Err(e),
            Ok(pre) => match lower_node(s.last()) {
                Err(e) => Err(e),
                Ok(n) => Ok(pre.push(n)),
            },
        }
    }
}

// ---------------------------------------------------------------------------
// Lemmas on prefixes, for the loops below.
proof fn lemma_lower_nodes_prefix(s: Seq<CstNode>, k: int, e: Violation)
    requires
        0 <= k <= s.len(),
        lower_nodes(s.take(k)) == Err::<Seq<Node>, Violation>(e),
    ensures
        lower_nodes(s) == Err::<Seq<Node>, Violation>(e),
    decreases s.len(),
{
    if k == s.len() {
        assert(s.take(k) =~= s);
    } else {
        assert(s.drop_last().take(k) =~= s.take(k));
        lemma_lower_nodes_prefix(s.drop_last(), k, e);
    }
}

proof fn lemma_ident_texts_prefix(s: Seq<Node>, k: int, n: Node)
    requires
        0 <= k <= s.len(),
        ident_texts(s.take(k)) == Err::<Seq<Seq<char>>, Node>(n),
    ensures
        ident_texts(s) == Err::<Seq<Seq<char>>, Node>(n),
    decreases s.len(),
{
    if k == s.len() {
        assert(s.take(k) =~= s);
    } else {
        assert(s.drop_last().take(k) =~= s.take(k));
        lemma_ident_texts_prefix(s.drop_last(), k, n);
    }
}

proof fn lemma_transformation_payloads_prefix(s: Seq<Node>, k: int, n: Node)
    requires
        0 <= k <= s.len(),
        transformation_payloads(s.take(k)) == Err::<Seq<TransformationNode>, Node>(n),
    ensures
        transformation_payloads(s) == Err::<Seq<TransformationNode>, Node>(n),
    decreases s.len(),
{
    if k == s.len() {
        assert(s.take(k) =~= s);
    } else {
        assert(s.drop_last().take(k) =~= s.take(k));
        lemma_transformation_payloads_prefix(s.drop_last(), k, n);
    }
}

proof fn lemma_positional_push(m: Seq<Node>, x: Node)
    ensures
        positional(m.push(x)) == (if x is NamedArg {
            positional(m)
        } else {
            positional(m).push(x)
        }),
{
    reveal(Seq::filter);
    assert(m.push(x).drop_last() =~= m);
}

proof fn lemma_named_push(m: Seq<Node>, x: Node)
    ensures
        named(m.push(x)) == (if x is NamedArg {
            named(m).push((x->NamedArg_0, x->NamedArg_1))
        } else {
            named(m)
        }),
{
    reveal(Seq::filter);
    assert(m.push(x).drop_last() =~= m);
    let p = |n: Node| n is NamedArg;
    let f = |n: Node| (n->NamedArg_0, n->NamedArg_1);
    if x is NamedArg {
        assert(m.push(x).filter(p) == m.filter(p).push(x));
        assert(m.filter(p).push(x).map_values(f) =~= m.filter(p).map_values(f).push(f(x)));
    } else {
        assert(m.push(x).filter(p) == m.filter(p));
    }
}

// ---------------------------------------------------------------------------
// Lowering.
impl From<String> for TransformationType {
    /// The kind named `name`; a name outside the fixed set is kept as a
    /// custom kind.
    fn from(name: String) -> (r: TransformationType) {
        if name == String::from_str("from") {
            TransformationType::From
        } else if name == String::from_str("select") {
            TransformationType::Select
        } else if name == String::from_str("filter") {
            TransformationType::Filter
        } else if name == String::from_str("derive") {
            TransformationType::Derive
        } else if name == String::from_str("aggregate") {
            TransformationType::Aggregate
        } else if name == String::from_str("sort") {
            TransformationType::Sort
        } else if name == String::from_str("take") {
            TransformationType::Take
        } else {
            TransformationType::Custom { name }
        }
    }
}

impl vstd::std_specs::convert::FromSpecImpl<String> for TransformationType {
    open spec fn obeys_from_spec() -> bool {
        true
    }

    open spec fn from_spec(name: String) -> TransformationType {
        if name@ == "from"@ {
            TransformationType::From
        } else if name@ == "select"@ {
            TransformationType::Select
        } else if name@ == "filter"@ {
            TransformationType::Filter
        } else if name@ == "derive"@ {
            TransformationType::Derive
        } else if name@ == "aggregate"@ {
            TransformationType::Aggregate
        } else if name@ == "sort"@ {
            TransformationType::Sort
        } else if name@ == "take"@ {
            TransformationType::Take
        } else {
            TransformationType::Custom { name }
        }
    }
}

/// Lowers each node of `pairs`, in order; the first failure ends the work.
pub fn parse(pairs: Vec<CstNode>) -> (r: Result<Vec<Item>, LoweringError>)
    ensures
        results_model(r) == lower_nodes(pairs@),
    decreases pairs,
{
    let ghost s = pairs@;
    let mut rest = pairs;
    let mut out: Vec<Item> = Vec::new();
    let ghost mut k: int = 0;
    while rest.len() > 0
        invariant
            0 <= k <= s.len(),
            s == pairs@,
            rest@ == s.skip(k),
            lower_nodes(s.take(k)) == Ok::<Seq<Node>, Violation>(items_model(out@)),
        decreases rest.len(),
    {
        let pair = rest.remove(0);
        proof {
            assert(s.take(k + 1).drop_last() =~= s.take(k));
            assert(s.take(k + 1).last() == s[k]);
            assert(pair == s[k]);
        }
        match lower_pair(pair) {
            Ok(item) => {
                proof {
                    lemma_items_model_push(out@, item);
                }
                out.push(item);
            },
            Err(e) => {
                proof {
                    assert(lower_nodes(s.take(k + 1)) == Err::<Seq<Node>, Violation>(
                        error_model(e),
                    ));
                    lemma_lower_nodes_prefix(s, k + 1, error_model(e));
                }
                return Err(e);
            },
        }
        proof {
            k = k + 1;
        }
    }
    proof {
        assert(s.take(k) =~= s);
    }
    Ok(out)
}

/// Lowers one node of a concrete syntax tree. Identifiers, strings, operators,
/// numbers and rules without a lowering keep the node's text as it is.
pub fn lower_pair(pair: CstNode) -> (r: Result<Item, LoweringError>)
    ensures
        result_model(r) == lower_node(pair),
        pair.rule == Rule::Ident ==> r == Ok::<Item, LoweringError>(Item::Ident(pair.text)),
        pair.rule == Rule::String ==> r == Ok::<Item, LoweringError>(Item::String(pair.text)),
        pair.rule == Rule::Operator || pair.rule == Rule::Number ==> r == Ok::<
            Item,
            LoweringError,
        >(Item::Raw(pair.text)),
        pair.rule == Rule::Other ==> r == Ok::<Item, LoweringError>(
            Item::Unrecognized(pair.text),
        ),
    decreases pair,
{
    let CstNode { rule, text, inner } = pair;
    match rule {
        Rule::Ident => Ok(Item::Ident(text)),
        Rule::String => Ok(Item::String(text)),
        Rule::Operator | Rule::Number => Ok(Item::Raw(text)),
        Rule::Other => Ok(Item::Unrecognized(text)),
        _ => match parse(inner) {
            Ok(items) => build(rule, items),
            Err(e) => Err(e),
        },
    }
}

/// Builds the node of a composite rule from its lowered children.
fn build(rule: Rule, items: Vec<Item>) -> (r: Result<Item, LoweringError>)
    requires
        is_composite(rule),
    ensures
        result_model(r) == assemble(rule, items_model(items@)),
{
    match rule {
        Rule::List => Ok(Item::List(items)),
        Rule::Items => Ok(Item::Items(items)),
        Rule::Query => Ok(Item::Query(items)),
        Rule::NamedArg => match split_name(rule, items) {
            Ok((lvalue, rvalue)) => Ok(Item::NamedArg(NamedArg { lvalue, rvalue })),
            Err(e) => Err(e),
        },
        Rule::Assign => match split_name(rule, items) {
            Ok((lvalue, rvalue)) => Ok(Item::Assign(Assign { lvalue, rvalue })),
            Err(e) => Err(e),
        },
        Rule::Transformation => match split_name(rule, items) {
            Ok((name, rest)) => {
                let (args, named_args) = partition(rest);
                Ok(
                    Item::Transformation(
                        Transformation { name: TransformationType::from(name), args, named_args },
                    ),
                )
            },
            Err(e) => Err(e),
        },
        Rule::Function => build_function(items),
        Rule::Idents => build_idents(items),
        Rule::Pipeline => build_pipeline(items),
        // Not reached: the other rules are lowered from their text.
        _ => Ok(Item::Items(items)),
    }
}

/// Splits the lowered children of a named rule into the leading identifier
/// and the rest.
fn split_name(rule: Rule, items: Vec<Item>) -> (r: Result<(String, Vec<Item>), LoweringError>)
    ensures
        match first(items_model(items@)) {
            Some(Node::Ident(name)) => r is Ok && r->Ok_0.0@ == name && items_model(r->Ok_0.1@)
                == items_model(items@).skip(1),
            f => r is Err && error_model(r->Err_0) == (Violation {
                rule,
                expected: Shape::Ident,
                found: f,
            }),
        },
{
    let mut items = items;
    if items.len() == 0 {
        return Err(LoweringError::StructuralViolation { rule, expected: Shape::Ident, found: None });
    }
    proof {
        lemma_items_model_skip(items@);
        assert(items@.remove(0) =~= items@.skip(1));
    }
    let head = items.remove(0);
    match head {
        Item::Ident(name) => Ok((name, items)),
        other => Err(
            LoweringError::StructuralViolation { rule, expected: Shape::Ident, found: Some(other) },
        ),
    }
}

/// Parts the arguments of a transformation into positional and named ones,
/// each in its order.
fn partition(items: Vec<Item>) -> (r: (Vec<Item>, Vec<NamedArg>))
    ensures
        items_model(r.0@) == positional(items_model(items@)),
        named_args_model(r.1@) == named(items_model(items@)),
{
    let ghost s = items@;
    let ghost m = items_model(s);
    proof {
        lemma_items_model(s);
        reveal(Seq::filter);
        assert(m.take(0) =~= Seq::<Node>::empty());
    }
    let mut rest = items;
    let mut args: Vec<Item> = Vec::new();
    let mut named_args: Vec<NamedArg> = Vec::new();
    let ghost mut k: int = 0;
    while rest.len() > 0
        invariant
            0 <= k <= s.len(),
            s == items@,
            m == items_model(s),
            m.len() == s.len(),
            forall|i: int| 0 <= i < s.len() ==> #[trigger] m[i] == item_model(s[i]),
            rest@ == s.skip(k),
            items_model(args@) == positional(m.take(k)),
            named_args_model(named_args@) == named(m.take(k)),
        decreases rest.len(),
    {
        let item = rest.remove(0);
        proof {
            assert(m.take(k + 1) =~= m.take(k).push(m[k]));
            assert(item == s[k]);
            lemma_positional_push(m.take(k), m[k]);
            lemma_named_push(m.take(k), m[k]);
        }
        match item {
            Item::NamedArg(n) => {
                proof {
                    lemma_named_args_model_push(named_args@, n);
                }
                named_args.push(n);
            },
            other => {
                proof {
                    lemma_items_model_push(args@, other);
                }
                args.push(other);
            },
        }
        proof {
            k = k + 1;
        }
    }
    proof {
        assert(m.take(k) =~= m);
    }
    (args, named_args)
}

/// Builds a function from its lowered children: a group of identifiers (its
/// name, then its parameters) and a group of items (its body).
fn build_function(items: Vec<Item>) -> (r: Result<Item, LoweringError>)
    ensures
        result_model(r) == assemble(Rule::Function, items_model(items@)),
{
    let ghost m = items_model(items@);
    proof {
        lemma_items_model(items@);
    }
    let mut items = items;
    if items.len() == 0 {
        return Err(
            LoweringError::StructuralViolation {
                rule: Rule::Function,
                expected: Shape::NamedIdents,
                found: None,
            },
        );
    }
    let head = items.remove(0);
    let mut ids = match head {
        Item::Idents(ids) => ids,
        other => {
            return Err(
                LoweringError::StructuralViolation {
                    rule: Rule::Function,
                    expected: Shape::NamedIdents,
                    found: Some(other),
                },
            );
        },
    };
    if ids.len() == 0 {
        return Err(
            LoweringError::StructuralViolation {
                rule: Rule::Function,
                expected: Shape::NamedIdents,
                found: Some(Item::Idents(ids)),
            },
        );
    }
    let ghost ids0 = ids@;
    let name = ids.remove(0);
    proof {
        assert(texts_model(ids@) =~= texts_model(ids0).skip(1));
    }
    if items.len() == 0 {
        return Err(
            LoweringError::StructuralViolation {
                rule: Rule::Function,
                expected: Shape::Items,
                found: None,
            },
        );
    }
    let second = items.remove(0);
    match second {
        Item::Items(body) => Ok(Item::Function(Function { name, args: ids, body })),
        other => Err(
            LoweringError::StructuralViolation {
                rule: Rule::Function,
                expected: Shape::Items,
                found: Some(other),
            },
        ),
    }
}

/// Builds a group of identifiers from lowered children that must all be
/// identifiers.
fn build_idents(items: Vec<Item>) -> (r: Result<Item, LoweringError>)
    ensures
        result_model(r) == assemble(Rule::Idents, items_model(items@)),
{
    let ghost s = items@;
    let ghost m = items_model(s);
    proof {
        lemma_items_model(s);
        assert(m.take(0) =~= Seq::<Node>::empty());
        assert(texts_model(Seq::<String>::empty()) =~= Seq::<Seq<char>>::empty());
    }
    let mut rest = items;
    let mut out: Vec<String> = Vec::new();
    let ghost mut k: int = 0;
    while rest.len() > 0
        invariant
            0 <= k <= s.len(),
            s == items@,
            m == items_model(s),
            m.len() == s.len(),
            forall|i: int| 0 <= i < s.len() ==> #[trigger] m[i] == item_model(s[i]),
            rest@ == s.skip(k),
            ident_texts(m.take(k)) == Ok::<Seq<Seq<char>>, Node>(texts_model(out@)),
        decreases rest.len(),
    {
        let item = rest.remove(0);
        proof {
            assert(m.take(k + 1).drop_last() =~= m.take(k));
            assert(m.take(k + 1).last() == m[k]);
            assert(item == s[k]);
        }
        match item {
            Item::Ident(t) => {
                proof {
                    assert(texts_model(out@.push(t)) =~= texts_model(out@).push(t@));
                }
                out.push(t);
            },
            other => {
                proof {
                    assert(!(item_model(other) is Ident));
                    lemma_ident_texts_prefix(m, k + 1, item_model(other));
                }
                return Err(
                    LoweringError::StructuralViolation {
                        rule: Rule::Idents,
                        expected: Shape::Ident,
                        found: Some(other),
                    },
                );
            },
        }
        proof {
            k = k + 1;
        }
    }
    proof {
        assert(m.take(k) =~= m);
    }
    Ok(Item::Idents(out))
}

/// Builds a pipeline from lowered children that must all be transformations.
fn build_pipeline(items: Vec<Item>) -> (r: Result<Item, LoweringError>)
    ensures
        result_model(r) == assemble(Rule::Pipeline, items_model(items@)),
{
    let ghost s = items@;
    let ghost m = items_model(s);
    proof {
        lemma_items_model(s);
        assert(m.take(0) =~= Seq::<Node>::empty());
    }
    let mut rest = items;
    let mut out: Vec<Transformation> = Vec::new();
    let ghost mut k: int = 0;
    while rest.len() > 0
        invariant
            0 <= k <= s.len(),
            s == items@,
            m == items_model(s),
            m.len() == s.len(),
            forall|i: int| 0 <= i < s.len() ==> #[trigger] m[i] == item_model(s[i]),
            rest@ == s.skip(k),
            transformation_payloads(m.take(k)) == Ok::<Seq<TransformationNode>, Node>(
                transformations_model(out@),
            ),
        decreases rest.len(),
    {
        let item = rest.remove(0);
        proof {
            assert(m.take(k + 1).drop_last() =~= m.take(k));
            assert(m.take(k + 1).last() == m[k]);
            assert(item == s[k]);
        }
        match item {
            Item::Transformation(t) => {
                proof {
                    lemma_transformations_model_push(out@, t);
                }
                out.push(t);
            },
            other => {
                proof {
                    assert(!(item_model(other) is Transformation));
                    lemma_transformation_payloads_prefix(m, k + 1, item_model(other));
                }
                return Err(
                    LoweringError::StructuralViolation {
                        rule: Rule::Pipeline,
                        expected: Shape::Transformation,
                        found: Some(other),
                    },
                );
            },
        }
        proof {
            k = k + 1;
        }
    }
    proof {
        assert(m.take(k) =~= m);
    }
    Ok(Item::Pipeline(out))
}

/// The lowering of a node's children that must come to exactly one node.
pub open spec fn lower_single(p: CstNode) -> Result<Node, Violation> {
    match lower_nodes(p.inner@) {
        Err(e) => Err(e),
        Ok(items) => if items.len() == 1 {
            Ok(items[0])
        } else {
            Err(Violation { rule: p.rule, expected: Shape::Single, found: second(items) })
        },
    }
}

/// The lowering of a whole program, whose root must be a query.
pub open spec fn lower_program(p: CstNode) -> Result<Node, Violation> {
    if p.rule == Rule::Query {
        lower_node(p)
    } else {
        Err(Violation { rule: p.rule, expected: Shape::Query, found: None })
    }
}

/// Lowers the children of `node`, in order.
pub fn lower_rule(node: CstNode) -> (r: Result<Vec<Item>, LoweringError>)
    ensures
        results_model(r) == lower_nodes(node.inner@),
{
    parse(node.inner)
}

/// Lowers the children of `node`, which must come to exactly one node.
pub fn lower_one(node: CstNode) -> (r: Result<Item, LoweringError>)
    ensures
        result_model(r) == lower_single(node),
{
    let CstNode { rule, text: _, inner } = node;
    let mut items = match parse(inner) {
        Ok(items) => items,
        Err(e) => return Err(e),
    };
    proof {
        lemma_items_model(items@);
    }
    if items.len() == 1 {
        Ok(items.remove(0))
    } else if items.len() == 0 {
        Err(LoweringError::StructuralViolation { rule, expected: Shape::Single, found: None })
    } else {
        let extra = items.remove(1);
        Err(LoweringError::StructuralViolation { rule, expected: Shape::Single, found: Some(extra) })
    }
}

/// Lowers a whole program: `root` must be a node of the query rule, and the
/// result is then a query node.
pub fn lower_query(root: CstNode) -> (r: Result<Item, LoweringError>)
    ensures
        result_model(r) == lower_program(root),
        r is Ok ==> r->Ok_0 is Query,
{
    if root.rule == Rule::Query {
        lower_pair(root)
    } else {
        Err(LoweringError::StructuralViolation { rule: root.rule, expected: Shape::Query, found: None })
    }
}

} // verus!
