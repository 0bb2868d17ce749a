use sm_ast::{function_map, Integer, Parameters, RenderError, Symbol, AST};
use wolfram_wxf::WolframValue;

fn symbol(name: &str) -> AST {
    AST::Symbol(Symbol { name: name.to_string() })
}

fn integer(negative: bool, digits: &[u8]) -> AST {
    AST::Integer(Integer::new(negative, digits.to_vec()).unwrap())
}

fn function(name: &str, arguments: Vec<AST>, options: Vec<(AST, AST)>) -> AST {
    AST::Function(Symbol { name: name.to_string() }, vec![Parameters { arguments, options }])
}

fn applied(head: &str, arguments: Vec<WolframValue>) -> WolframValue {
    WolframValue::Function(Box::from(head), arguments)
}

fn named(name: &str) -> WolframValue {
    WolframValue::Symbol(Box::from(name))
}

#[test]
fn function_map_maps_factor_and_capitalizes_the_rest() {
    let map = |name: &str| function_map(&Symbol { name: name.to_string() });
    assert_eq!(map("factor"), "FactorInteger");
    assert_eq!(map("foo"), "Foo");
    assert_eq!(map("sin"), "Sin");
    assert_eq!(map("fooBar"), "FooBar");
    assert_eq!(map("Factor"), "Factor");
    assert_eq!(map(""), "");
    assert_eq!(map("ßa"), "SSa");
}

#[test]
fn statements_without_a_value_are_skipped() {
    assert_eq!(AST::EmptyStatement.to_wolfram(), Ok(WolframValue::Skip));
    assert_eq!(AST::NewLine.to_wolfram(), Ok(WolframValue::Skip));
}

#[test]
fn a_program_keeps_a_skip_marker_in_its_place() {
    let program = AST::Program(vec![integer(false, &[1]), AST::NewLine, symbol("x")]);
    let expected = applied(
        "CompoundExpression",
        vec![WolframValue::new_integer(1), WolframValue::Skip, named("x")],
    );
    assert_eq!(program.to_wolfram(), Ok(expected));
    assert_eq!(AST::Program(vec![]).to_wolfram(), Ok(applied("CompoundExpression", vec![])));
}

#[test]
fn an_expression_is_its_base_with_or_without_terminator() {
    let closed = AST::Expression { base: Box::new(symbol("x")), eos: true };
    let open = AST::Expression { base: Box::new(symbol("x")), eos: false };
    assert_eq!(closed.to_wolfram(), Ok(named("x")));
    assert_eq!(open.to_wolfram(), Ok(named("x")));
}

#[test]
fn literals_become_scalars() {
    assert_eq!(AST::Null.to_wolfram(), Ok(named("None")));
    assert_eq!(AST::Boolean(true).to_wolfram(), Ok(named("True")));
    assert_eq!(AST::Boolean(false).to_wolfram(), Ok(named("False")));
    assert_eq!(symbol("alpha").to_wolfram(), Ok(named("alpha")));
    assert_eq!(
        AST::String("a b".to_string()).to_wolfram(),
        Ok(WolframValue::String(Box::from("a b")))
    );
    assert_eq!(
        AST::Decimal("3.140".to_string()).to_wolfram(),
        Ok(WolframValue::BigDecimal(Box::from("3.140")))
    );
}

#[test]
fn integers_keep_their_value() {
    assert_eq!(integer(false, &[0]).to_wolfram(), Ok(WolframValue::new_integer(0)));
    assert_eq!(integer(false, &[4, 2]).to_wolfram(), Ok(WolframValue::new_integer(42)));
    assert_eq!(integer(true, &[4, 2]).to_wolfram(), Ok(WolframValue::new_integer(-42)));
    let digits = [3, 4, 0, 2, 8, 2, 3, 6, 6, 9, 2, 0, 9, 3, 8, 4, 6, 3, 4, 6, 3, 3, 7, 4, 6, 0, 7, 4, 3, 1, 7, 6, 8, 2, 1, 1, 4, 5, 5];
    assert_eq!(
        integer(false, &digits).to_wolfram(),
        Ok(WolframValue::new_integer(u128::MAX))
    );
    let big = integer(true, &[1, 0, 0, 0, 0, 0, 0, 0, 0, 0, 0, 0, 0, 0, 0, 0, 0, 0, 0, 0, 0, 0, 0, 0, 0, 0, 0, 0, 0, 0, 0, 0, 0, 0, 0, 0, 0, 0, 0, 0, 0]);
    assert_eq!(
        big.to_wolfram().unwrap().to_string(),
        "-10000000000000000000000000000000000000000"
    );
}

#[test]
fn a_function_takes_its_head_from_the_name_table() {
    let node = function("factor", vec![integer(false, &[1, 2])], vec![]);
    let expected = applied("FactorInteger", vec![WolframValue::new_integer(12)]);
    assert_eq!(node.to_wolfram(), Ok(expected));
    let node = function("foo", vec![], vec![]);
    assert_eq!(node.to_wolfram(), Ok(applied("Foo", vec![])));
}

#[test]
fn options_follow_arguments_as_rules_in_their_order() {
    let node = function(
        "plot",
        vec![symbol("f"), symbol("x")],
        vec![(symbol("k1"), symbol("v1")), (symbol("k2"), integer(false, &[2]))],
    );
    let expected = applied(
        "Plot",
        vec![
            named("f"),
            named("x"),
            applied("Rule", vec![named("k1"), named("v1")]),
            applied("Rule", vec![named("k2"), WolframValue::new_integer(2)]),
        ],
    );
    assert_eq!(node.to_wolfram(), Ok(expected));
    assert_eq!(node.to_wolfram().unwrap().to_string(), "Plot[f,x,Rule[k1,v1],Rule[k2,2]]");
}

#[test]
fn a_function_needs_exactly_one_group_of_parameters() {
    let group = || Parameters { arguments: vec![symbol("x")], options: vec![] };
    let name = || Symbol { name: "f".to_string() };
    let none = AST::Function(name(), vec![]);
    let two = AST::Function(name(), vec![group(), group()]);
    let one = AST::Function(name(), vec![group()]);
    assert_eq!(none.to_wolfram(), Err(RenderError::UnsupportedConstruct));
    assert_eq!(two.to_wolfram(), Err(RenderError::UnsupportedConstruct));
    assert_eq!(one.to_wolfram(), Ok(applied("F", vec![named("x")])));
}

#[test]
fn shapes_of_the_markup_alone_have_no_value() {
    let unsupported = vec![
        AST::MultiplicativeExpression { terms: vec![symbol("x")] },
        AST::AdditiveExpression { terms: vec![symbol("x")] },
        AST::InfixOperators {
            infix: "+".to_string(),
            lhs: Box::new(symbol("a")),
            rhs: Box::new(symbol("b")),
        },
        AST::UnaryOperators { base: Box::new(symbol("x")), prefix: vec![], suffix: vec![] },
        AST::List(vec![]),
        AST::FunctionCall { name: Box::new(symbol("f")), arguments: vec![], options: vec![] },
    ];
    for node in unsupported {
        assert_eq!(node.to_wolfram(), Err(RenderError::UnsupportedConstruct));
    }
}

#[test]
fn a_failure_inside_leaves_no_partial_value() {
    let program = AST::Program(vec![symbol("x"), AST::List(vec![]), symbol("y")]);
    assert_eq!(program.to_wolfram(), Err(RenderError::UnsupportedConstruct));
    let node = function("f", vec![symbol("x")], vec![(symbol("k"), AST::List(vec![]))]);
    assert_eq!(node.to_wolfram(), Err(RenderError::UnsupportedConstruct));
}

#[test]
fn rendering_twice_gives_the_same_value() {
    let node = function("f", vec![symbol("x")], vec![(symbol("k"), symbol("v"))]);
    assert_eq!(node.to_wolfram(), node.to_wolfram());
}
