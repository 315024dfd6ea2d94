use vstd::prelude::*;

use crate::ast::{kind_model, Kind, Node, TransformationNode, TransformationType, Violation};
use crate::cst::{CstNode, Rule};
use crate::lower::{
    assemble, kind_of, lower_node, lower_nodes, named, positional, transformation_payloads,
};

verus! {

/// When a sequence of sibling nodes lowers, it lowers node by node.
pub proof fn lemma_lower_nodes_ok(s: Seq<CstNode>)
    requires
        lower_nodes(s) is Ok,
    ensures
        lower_nodes(s)->Ok_0.len() == s.len(),
        forall|i: int|
            0 <= i < s.len() ==> #[trigger] lower_node(s[i]) == Ok::<Node, Violation>(
                lower_nodes(s)->Ok_0[i],
            ),
    decreases s.len(),
{
    if s.len() > 0 {
        lemma_lower_nodes_ok(s.drop_last());
        assert forall|i: int| 0 <= i < s.len() implies #[trigger] lower_node(s[i]) == Ok::<
            Node,
            Violation,
        >(lower_nodes(s)->Ok_0[i]) by {
            if i < s.len() - 1 {
                assert(s[i] == s.drop_last()[i]);
            }
        }
    }
}

/// Only a node of the identifier rule lowers to an identifier, and only a node
/// of the transformation rule lowers to a transformation.
pub proof fn lemma_rule_of_lowered(c: CstNode)
    requires
        lower_node(c) is Ok,
    ensures
        lower_node(c)->Ok_0 is Ident ==> c.rule == Rule::Ident,
        lower_node(c)->Ok_0 is Transformation ==> c.rule == Rule::Transformation,
{
}

proof fn lemma_transformation_payloads_ok(s: Seq<Node>)
    requires
        transformation_payloads(s) is Ok,
    ensures
        transformation_payloads(s)->Ok_0.len() == s.len(),
        forall|i: int|
            0 <= i < s.len() ==> s[i] == Node::Transformation(
                #[trigger] transformation_payloads(s)->Ok_0[i],
            ),
    decreases s.len(),
{
    if s.len() > 0 {
        lemma_transformation_payloads_ok(s.drop_last());
    }
}

/// A pipeline node that lowers gives a pipeline with one transformation per
/// child, in the children's order: child `i` is a node of the transformation
/// rule and lowers to the pipeline's stage `i`.
pub proof fn lemma_pipeline_shape(p: CstNode)
    requires
        p.rule == Rule::Pipeline,
        lower_node(p) is Ok,
    ensures
        lower_node(p)->Ok_0 is Pipeline,
        lower_node(p)->Ok_0->Pipeline_0.len() == p.inner@.len(),
        forall|i: int|
            0 <= i < p.inner@.len() ==> (#[trigger] p.inner@[i]).rule == Rule::Transformation
                && lower_node(p.inner@[i]) == Ok::<Node, Violation>(
                Node::Transformation(lower_node(p)->Ok_0->Pipeline_0[i]),
            ),
{
    let s = p.inner@;
    let items = lower_nodes(s)->Ok_0;
    lemma_lower_nodes_ok(s);
    lemma_transformation_payloads_ok(items);
    assert forall|i: int| 0 <= i < s.len() implies (#[trigger] s[i]).rule
        == Rule::Transformation by {
        assert(lower_node(s[i]) == Ok::<Node, Violation>(items[i]));
        assert(items[i] == Node::Transformation(transformation_payloads(items)->Ok_0[i]));
        lemma_rule_of_lowered(s[i]);
    }
}

/// Parting arguments into positional and named ones loses none and adds none.
pub proof fn lemma_partition_len(s: Seq<Node>)
    ensures
        positional(s).len() + named(s).len() == s.len(),
    decreases s.len(),
{
    reveal(Seq::filter);
    if s.len() > 0 {
        lemma_partition_len(s.drop_last());
    }
}

/// A transformation node that lowers is named by its first lowered child, an
/// identifier; the rest are its arguments, the named ones taken out in their
/// order and the others kept in theirs, and together they are all of the rest.
pub proof fn lemma_transformation_shape(p: CstNode)
    requires
        p.rule == Rule::Transformation,
        lower_node(p) is Ok,
    ensures
        ({
            let items = lower_nodes(p.inner@)->Ok_0;
            &&& lower_nodes(p.inner@) is Ok
            &&& items.len() > 0
            &&& items[0] is Ident
            &&& p.inner@[0].rule == Rule::Ident
            &&& lower_node(p) == Ok::<Node, Violation>(
                Node::Transformation(
                    TransformationNode {
                        kind: kind_of(items[0]->Ident_0),
                        args: positional(items.skip(1)),
                        named_args: named(items.skip(1)),
                    },
                ),
            )
            &&& positional(items.skip(1)).len() + named(items.skip(1)).len() == items.len() - 1
        }),
{
    let items = lower_nodes(p.inner@)->Ok_0;
    lemma_lower_nodes_ok(p.inner@);
    lemma_partition_len(items.skip(1));
    assert(lower_node(p.inner@[0]) == Ok::<Node, Violation>(items[0]));
    lemma_rule_of_lowered(p.inner@[0]);
}

/// The seven fixed names give their kinds, every other name a custom kind of
/// that name; the executable mapping agrees with it.
pub proof fn lemma_kind_names(name: String)
    ensures
        kind_model(<TransformationType as vstd::std_specs::convert::FromSpec<String>>::from_spec(
            name,
        )) == kind_of(name@),
        kind_of(name@) is Custom <==> !(name@ == "from"@ || name@ == "select"@ || name@
            == "filter"@ || name@ == "derive"@ || name@ == "aggregate"@ || name@ == "sort"@
            || name@ == "take"@),
        kind_of(name@) is Custom ==> kind_of(name@)->Custom_0 == name@,
{
}

/// A named-argument node whose first child is not of the identifier rule, or
/// that has no child, fails to lower.
pub proof fn lemma_named_arg_needs_ident(p: CstNode)
    requires
        p.rule == Rule::NamedArg,
        p.inner@.len() == 0 || p.inner@[0].rule != Rule::Ident,
    ensures
        lower_node(p) is Err,
{
    if lower_nodes(p.inner@) is Ok {
        lemma_lower_nodes_ok(p.inner@);
        if p.inner@.len() > 0 {
            lemma_rule_of_lowered(p.inner@[0]);
        }
    }
}

} // verus!
