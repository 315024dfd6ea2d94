use prql::{
    lower_one, lower_pair, lower_query, lower_rule, parse, Assign, CstNode, Function, Item,
    LoweringError, NamedArg, Rule, Shape, Transformation, TransformationType,
};

fn leaf(rule: Rule, text: &str) -> CstNode {
    CstNode::leaf(rule, text.to_string())
}

fn node(rule: Rule, text: &str, inner: Vec<CstNode>) -> CstNode {
    CstNode::new(rule, text.to_string(), inner)
}

fn ident(t: &str) -> CstNode {
    leaf(Rule::Ident, t)
}

fn op(t: &str) -> CstNode {
    leaf(Rule::Operator, t)
}

fn num(t: &str) -> CstNode {
    leaf(Rule::Number, t)
}

fn string(t: &str) -> CstNode {
    leaf(Rule::String, t)
}

fn items(inner: Vec<CstNode>) -> CstNode {
    node(Rule::Items, "", inner)
}

fn list(inner: Vec<CstNode>) -> CstNode {
    node(Rule::List, "", inner)
}

fn transformation(inner: Vec<CstNode>) -> CstNode {
    node(Rule::Transformation, "", inner)
}

fn i(t: &str) -> Item {
    Item::Ident(t.to_string())
}

fn raw(t: &str) -> Item {
    Item::Raw(t.to_string())
}

fn s(t: &str) -> Item {
    Item::String(t.to_string())
}

fn stage(name: TransformationType, args: Vec<Item>, named_args: Vec<NamedArg>) -> Transformation {
    Transformation { name, args, named_args }
}

fn custom(name: &str) -> TransformationType {
    TransformationType::Custom { name: name.to_string() }
}

fn assign_node(name: &str, value: Vec<CstNode>) -> CstNode {
    let mut inner = vec![ident(name)];
    inner.extend(value);
    node(Rule::Assign, "", inner)
}

fn assign(name: &str, rvalue: Vec<Item>) -> Item {
    Item::Assign(Assign { lvalue: name.to_string(), rvalue })
}

fn named_arg_node(name: &str, value: Vec<CstNode>) -> CstNode {
    let mut inner = vec![ident(name)];
    inner.extend(value);
    node(Rule::NamedArg, "", inner)
}

fn named_arg(name: &str, rvalue: Vec<Item>) -> NamedArg {
    NamedArg { lvalue: name.to_string(), rvalue }
}

fn function_node(names: &[&str], body: Vec<CstNode>) -> CstNode {
    let idents = node(Rule::Idents, "", names.iter().map(|n| ident(n)).collect());
    node(Rule::Function, "", vec![idents, items(body)])
}

fn function(name: &str, args: &[&str], body: Vec<Item>) -> Item {
    Item::Function(Function {
        name: name.to_string(),
        args: args.iter().map(|a| a.to_string()).collect(),
        body,
    })
}

fn violation(rule: Rule, expected: Shape, found: Option<Item>) -> LoweringError {
    LoweringError::StructuralViolation { rule, expected, found }
}

#[test]
fn test_parse_expr() {
    // country = "USA"
    let expr = items(vec![ident("country"), op("="), string("\"USA\"")]);
    assert_eq!(
        parse(vec![expr]),
        Ok(vec![Item::Items(vec![i("country"), raw("="), s("\"USA\"")])])
    );

    // aggregate by:[title] [sum salary]
    let t = transformation(vec![
        ident("aggregate"),
        named_arg_node("by", vec![list(vec![ident("title")])]),
        list(vec![items(vec![ident("sum"), ident("salary")])]),
    ]);
    assert_eq!(
        parse(vec![t]),
        Ok(vec![Item::Transformation(stage(
            TransformationType::Aggregate,
            vec![Item::List(vec![Item::Items(vec![i("sum"), i("salary")])])],
            vec![named_arg("by", vec![Item::List(vec![i("title")])])],
        ))])
    );

    // [ gross_salary: salary + payroll_tax, gross_cost: gross_salary + benefits_cost ]
    let l = list(vec![
        assign_node("gross_salary", vec![ident("salary"), op("+"), ident("payroll_tax")]),
        assign_node(
            "gross_cost",
            vec![ident("gross_salary"), op("+"), ident("benefits_cost")],
        ),
    ]);
    assert_eq!(
        parse(vec![l]),
        Ok(vec![Item::List(vec![
            assign("gross_salary", vec![i("salary"), raw("+"), i("payroll_tax")]),
            assign("gross_cost", vec![i("gross_salary"), raw("+"), i("benefits_cost")]),
        ])])
    );
}

#[test]
fn test_parse_query() {
    let derive_list = list(vec![
        assign_node("gross_salary", vec![ident("salary"), op("+"), ident("payroll_tax")]),
        assign_node(
            "gross_cost",
            vec![ident("gross_salary"), op("+"), ident("benefits_cost")],
        ),
    ]);
    let aggregate_list = list(vec![
        items(vec![ident("average"), ident("salary")]),
        items(vec![ident("sum"), ident("salary")]),
        items(vec![ident("average"), ident("gross_salary")]),
        items(vec![ident("sum"), ident("gross_salary")]),
        items(vec![ident("average"), ident("gross_cost")]),
        assign_node("sum_gross_cost", vec![ident("sum"), ident("gross_cost")]),
        ident("count"),
    ]);
    let pipeline = node(
        Rule::Pipeline,
        "",
        vec![
            transformation(vec![ident("from"), ident("employees")]),
            transformation(vec![
                ident("filter"),
                items(vec![ident("country"), op("="), string("\"USA\"")]),
            ]),
            transformation(vec![ident("derive"), derive_list]),
            transformation(vec![
                ident("filter"),
                items(vec![ident("gross_cost"), op(">"), num("0")]),
            ]),
            transformation(vec![
                ident("aggregate"),
                named_arg_node("by", vec![list(vec![ident("title"), ident("country")])]),
                aggregate_list,
            ]),
            transformation(vec![ident("sort"), ident("sum_gross_cost")]),
            transformation(vec![
                ident("filter"),
                items(vec![ident("count"), op(">"), num("200")]),
            ]),
            transformation(vec![ident("take"), num("20")]),
        ],
    );
    let query = node(Rule::Query, "", vec![pipeline]);

    let expected = Item::Query(vec![Item::Pipeline(vec![
        stage(TransformationType::From, vec![i("employees")], vec![]),
        stage(
            TransformationType::Filter,
            vec![Item::Items(vec![i("country"), raw("="), s("\"USA\"")])],
            vec![],
        ),
        stage(
            TransformationType::Derive,
            vec![Item::List(vec![
                assign("gross_salary", vec![i("salary"), raw("+"), i("payroll_tax")]),
                assign("gross_cost", vec![i("gross_salary"), raw("+"), i("benefits_cost")]),
            ])],
            vec![],
        ),
        stage(
            TransformationType::Filter,
            vec![Item::Items(vec![i("gross_cost"), raw(">"), raw("0")])],
            vec![],
        ),
        stage(
            TransformationType::Aggregate,
            vec![Item::List(vec![
                Item::Items(vec![i("average"), i("salary")]),
                Item::Items(vec![i("sum"), i("salary")]),
                Item::Items(vec![i("average"), i("gross_salary")]),
                Item::Items(vec![i("sum"), i("gross_salary")]),
                Item::Items(vec![i("average"), i("gross_cost")]),
                assign("sum_gross_cost", vec![i("sum"), i("gross_cost")]),
                i("count"),
            ])],
            vec![named_arg("by", vec![Item::List(vec![i("title"), i("country")])])],
        ),
        stage(TransformationType::Sort, vec![i("sum_gross_cost")], vec![]),
        stage(
            TransformationType::Filter,
            vec![Item::Items(vec![i("count"), raw(">"), raw("200")])],
            vec![],
        ),
        stage(TransformationType::Take, vec![raw("20")], vec![]),
    ])]);
    assert_eq!(lower_query(query), Ok(expected));
}

#[test]
fn test_parse_function() {
    assert_eq!(
        parse(vec![function_node(&["identity", "x"], vec![ident("x")])]),
        Ok(vec![function("identity", &["x"], vec![i("x")])])
    );
    assert_eq!(
        parse(vec![function_node(
            &["plus_one", "x"],
            vec![ident("x"), op("+"), num("1")]
        )]),
        Ok(vec![function("plus_one", &["x"], vec![i("x"), raw("+"), raw("1")])])
    );
    assert_eq!(
        parse(vec![function_node(&["return_constant"], vec![num("42")])]),
        Ok(vec![function("return_constant", &[], vec![raw("42")])])
    );
}

#[test]
fn pipeline_has_one_stage_per_child_in_order() {
    let p = node(
        Rule::Pipeline,
        "",
        vec![
            transformation(vec![ident("from"), ident("t")]),
            transformation(vec![ident("select"), ident("a")]),
            transformation(vec![ident("window"), ident("b")]),
        ],
    );
    assert_eq!(
        lower_pair(p),
        Ok(Item::Pipeline(vec![
            stage(TransformationType::From, vec![i("t")], vec![]),
            stage(TransformationType::Select, vec![i("a")], vec![]),
            stage(custom("window"), vec![i("b")], vec![]),
        ]))
    );
}

#[test]
fn pipeline_rejects_a_child_that_is_not_a_transformation() {
    let p = node(
        Rule::Pipeline,
        "",
        vec![transformation(vec![ident("from"), ident("t")]), ident("stray"), num("3")],
    );
    assert_eq!(
        lower_pair(p),
        Err(violation(Rule::Pipeline, Shape::Transformation, Some(i("stray"))))
    );
}

#[test]
fn transformation_parts_positional_and_named_arguments() {
    let t = transformation(vec![
        ident("derive"),
        ident("a"),
        ident("b"),
        named_arg_node("x", vec![num("1")]),
        ident("c"),
    ]);
    assert_eq!(
        lower_pair(t),
        Ok(Item::Transformation(stage(
            TransformationType::Derive,
            vec![i("a"), i("b"), i("c")],
            vec![named_arg("x", vec![raw("1")])],
        )))
    );
}

#[test]
fn transformation_needs_a_name() {
    let t = transformation(vec![num("1"), ident("a")]);
    assert_eq!(
        lower_pair(t),
        Err(violation(Rule::Transformation, Shape::Ident, Some(raw("1"))))
    );
    assert_eq!(
        lower_pair(transformation(vec![])),
        Err(violation(Rule::Transformation, Shape::Ident, None))
    );
}

#[test]
fn fixed_names_map_to_their_kinds() {
    let cases = [
        ("from", TransformationType::From),
        ("select", TransformationType::Select),
        ("filter", TransformationType::Filter),
        ("derive", TransformationType::Derive),
        ("aggregate", TransformationType::Aggregate),
        ("sort", TransformationType::Sort),
        ("take", TransformationType::Take),
    ];
    for (name, kind) in cases {
        assert_eq!(TransformationType::from(name.to_string()), kind);
    }
    assert_eq!(TransformationType::from("window".to_string()), custom("window"));
    assert_eq!(TransformationType::from("From".to_string()), custom("From"));
    assert_eq!(TransformationType::from(String::new()), custom(""));
}

#[test]
fn nullary_function_has_no_parameters() {
    let f = function_node(&["return_constant"], vec![num("42")]);
    assert_eq!(lower_pair(f), Ok(function("return_constant", &[], vec![raw("42")])));
}

#[test]
fn function_shape_errors() {
    let no_name = node(
        Rule::Function,
        "",
        vec![node(Rule::Idents, "", vec![]), items(vec![num("1")])],
    );
    assert_eq!(
        lower_pair(no_name),
        Err(violation(Rule::Function, Shape::NamedIdents, Some(Item::Idents(vec![]))))
    );
    let not_idents = node(Rule::Function, "", vec![ident("f"), items(vec![])]);
    assert_eq!(
        lower_pair(not_idents),
        Err(violation(Rule::Function, Shape::NamedIdents, Some(i("f"))))
    );
    let no_body = node(Rule::Function, "", vec![node(Rule::Idents, "", vec![ident("f")])]);
    assert_eq!(lower_pair(no_body), Err(violation(Rule::Function, Shape::Items, None)));
    let bad_body = node(
        Rule::Function,
        "",
        vec![node(Rule::Idents, "", vec![ident("f")]), num("1")],
    );
    assert_eq!(
        lower_pair(bad_body),
        Err(violation(Rule::Function, Shape::Items, Some(raw("1"))))
    );
    assert_eq!(
        lower_pair(node(Rule::Function, "", vec![])),
        Err(violation(Rule::Function, Shape::NamedIdents, None))
    );
}

#[test]
fn idents_reject_a_child_that_is_not_an_identifier() {
    let g = node(Rule::Idents, "", vec![ident("f"), string("\"x\""), num("2")]);
    assert_eq!(
        lower_pair(g),
        Err(violation(Rule::Idents, Shape::Ident, Some(s("\"x\""))))
    );
    let ok = node(Rule::Idents, "", vec![ident("f"), ident("x")]);
    assert_eq!(
        lower_pair(ok),
        Ok(Item::Idents(vec!["f".to_string(), "x".to_string()]))
    );
}

#[test]
fn named_argument_needs_an_identifier_first() {
    let bad = node(Rule::NamedArg, "", vec![string("\"by\""), ident("title")]);
    assert_eq!(
        lower_pair(bad),
        Err(violation(Rule::NamedArg, Shape::Ident, Some(s("\"by\""))))
    );
    assert_eq!(
        lower_pair(node(Rule::NamedArg, "", vec![])),
        Err(violation(Rule::NamedArg, Shape::Ident, None))
    );
    let bad_assign = node(Rule::Assign, "", vec![num("1"), ident("a")]);
    assert_eq!(
        lower_pair(bad_assign),
        Err(violation(Rule::Assign, Shape::Ident, Some(raw("1"))))
    );
}

#[test]
fn failure_deep_in_the_tree_ends_the_whole_lowering() {
    let bad = node(Rule::NamedArg, "", vec![num("5")]);
    let q = node(
        Rule::Query,
        "",
        vec![node(
            Rule::Pipeline,
            "",
            vec![
                transformation(vec![ident("from"), ident("t")]),
                transformation(vec![ident("select"), list(vec![bad])]),
            ],
        )],
    );
    assert_eq!(
        lower_query(q),
        Err(violation(Rule::NamedArg, Shape::Ident, Some(raw("5"))))
    );
}

#[test]
fn literals_keep_their_exact_text() {
    assert_eq!(lower_pair(string("\"USA\"")), Ok(s("\"USA\"")));
    assert_eq!(lower_pair(ident("  a_b ")), Ok(i("  a_b ")));
    assert_eq!(lower_pair(op("==")), Ok(raw("==")));
    assert_eq!(lower_pair(num("007")), Ok(raw("007")));
    assert_eq!(
        lower_pair(leaf(Rule::Other, "# note")),
        Ok(Item::Unrecognized("# note".to_string()))
    );
}

#[test]
fn unrecognized_rule_ignores_its_children() {
    let n = node(Rule::Other, "x y", vec![node(Rule::NamedArg, "", vec![])]);
    assert_eq!(lower_pair(n), Ok(Item::Unrecognized("x y".to_string())));
}

#[test]
fn end_to_end_three_stage_program() {
    let q = node(
        Rule::Query,
        "",
        vec![node(
            Rule::Pipeline,
            "",
            vec![
                transformation(vec![ident("from"), ident("employees")]),
                transformation(vec![
                    ident("filter"),
                    items(vec![ident("country"), op("="), string("\"USA\"")]),
                ]),
                transformation(vec![ident("take"), num("20")]),
            ],
        )],
    );
    assert_eq!(
        lower_query(q),
        Ok(Item::Query(vec![Item::Pipeline(vec![
            stage(TransformationType::From, vec![i("employees")], vec![]),
            stage(
                TransformationType::Filter,
                vec![Item::Items(vec![i("country"), raw("="), s("\"USA\"")])],
                vec![],
            ),
            stage(TransformationType::Take, vec![raw("20")], vec![]),
        ])]))
    );
}

#[test]
fn query_entry_needs_a_query_root() {
    let p = node(Rule::Pipeline, "", vec![]);
    assert_eq!(lower_query(p), Err(violation(Rule::Pipeline, Shape::Query, None)));
    assert_eq!(lower_query(node(Rule::Query, "", vec![])), Ok(Item::Query(vec![])));
}

#[test]
fn lower_rule_lowers_the_children() {
    let t = transformation(vec![ident("sort"), ident("a")]);
    assert_eq!(lower_rule(t), Ok(vec![i("sort"), i("a")]));
    assert_eq!(lower_rule(leaf(Rule::Ident, "z")), Ok(vec![]));
}

#[test]
fn lower_one_needs_exactly_one_child() {
    let one = node(Rule::Other, "", vec![list(vec![ident("a")])]);
    assert_eq!(lower_one(one), Ok(Item::List(vec![i("a")])));
    let none = node(Rule::Other, "", vec![]);
    assert_eq!(lower_one(none), Err(violation(Rule::Other, Shape::Single, None)));
    let two = node(Rule::Other, "", vec![ident("a"), ident("b"), ident("c")]);
    assert_eq!(
        lower_one(two),
        Err(violation(Rule::Other, Shape::Single, Some(i("b"))))
    );
}

#[test]
fn empty_groups_lower_to_empty_nodes() {
    assert_eq!(parse(vec![]), Ok(vec![]));
    assert_eq!(lower_pair(list(vec![])), Ok(Item::List(vec![])));
    assert_eq!(lower_pair(items(vec![])), Ok(Item::Items(vec![])));
    assert_eq!(
        lower_pair(named_arg_node("x", vec![])),
        Ok(Item::NamedArg(named_arg("x", vec![])))
    );
}
