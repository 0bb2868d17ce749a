use sm_ast::{BoxArea, Symbol, AST};

fn symbol(name: &str) -> AST {
    AST::Symbol(Symbol { name: name.to_string() })
}

fn infix(lhs: AST, rhs: AST) -> AST {
    AST::InfixOperators { infix: "+".to_string(), lhs: Box::new(lhs), rhs: Box::new(rhs) }
}

#[test]
fn a_leaf_is_one_by_one() {
    for leaf in [AST::NewLine, AST::Null, AST::Boolean(true), symbol("x")] {
        assert_eq!(leaf.height(), 1);
        assert_eq!(leaf.width(), 1);
    }
}

#[test]
fn the_empty_statement_takes_no_room() {
    assert_eq!(AST::EmptyStatement.height(), 0);
    assert_eq!(AST::EmptyStatement.width(), 0);
}

#[test]
fn an_infix_operator_is_as_wide_as_both_operands_and_one_more() {
    assert_eq!(infix(symbol("a"), symbol("b")).width(), 3);
    assert_eq!(infix(infix(symbol("a"), symbol("b")), symbol("c")).width(), 5);
    assert_eq!(infix(AST::EmptyStatement, symbol("c")).width(), 2);
    assert_eq!(infix(symbol("a"), symbol("b")).height(), 1);
}

#[test]
fn a_unary_operator_adds_one_for_each_operator() {
    let node = AST::UnaryOperators {
        base: Box::new(infix(symbol("a"), symbol("b"))),
        prefix: vec!["-".to_string()],
        suffix: vec!["!".to_string(), "!".to_string()],
    };
    assert_eq!(node.width(), 6);
    assert_eq!(node.height(), 1);
}

#[test]
fn a_sum_and_a_list_are_as_wide_as_they_are_long() {
    let terms = vec![infix(symbol("a"), symbol("b")), symbol("c")];
    assert_eq!(AST::AdditiveExpression { terms }.width(), 2);
    assert_eq!(AST::List(vec![symbol("a"), symbol("b"), symbol("c")]).width(), 3);
    assert_eq!(AST::List(vec![]).width(), 0);
    assert_eq!(AST::AdditiveExpression { terms: vec![] }.width(), 0);
}

#[test]
fn a_sum_is_as_high_as_its_lowest_term() {
    // The least height, not the greatest: one empty statement brings a sum down to zero.
    let mixed = AST::AdditiveExpression { terms: vec![symbol("a"), AST::EmptyStatement, symbol("b")] };
    assert_eq!(mixed.height(), 0);
    let plain = AST::AdditiveExpression { terms: vec![symbol("a"), symbol("b")] };
    assert_eq!(plain.height(), 1);
    let nested = AST::AdditiveExpression {
        terms: vec![symbol("a"), AST::AdditiveExpression { terms: vec![AST::EmptyStatement] }],
    };
    assert_eq!(nested.height(), 0);
}

#[test]
fn every_other_node_is_one_by_one() {
    let product = AST::MultiplicativeExpression { terms: vec![symbol("a"), symbol("b")] };
    assert_eq!((product.height(), product.width()), (1, 1));
    let program = AST::Program(vec![symbol("a"), symbol("b")]);
    assert_eq!((program.height(), program.width()), (1, 1));
    let statement = AST::Expression { base: Box::new(infix(symbol("a"), symbol("b"))), eos: true };
    assert_eq!((statement.height(), statement.width()), (1, 1));
    let call = AST::FunctionCall {
        name: Box::new(symbol("f")),
        arguments: vec![symbol("a"), symbol("b")],
        options: vec![],
    };
    assert_eq!((call.height(), call.width()), (1, 1));
}

#[test]
fn a_sum_without_terms_has_no_height() {
    assert!(!AST::AdditiveExpression { terms: vec![] }.measurable());
    let nested = AST::AdditiveExpression {
        terms: vec![symbol("a"), AST::AdditiveExpression { terms: vec![] }],
    };
    assert!(!nested.measurable());
    let under_infix = infix(AST::AdditiveExpression { terms: vec![] }, symbol("b"));
    assert!(under_infix.measurable());
    assert!(AST::AdditiveExpression { terms: vec![symbol("a")] }.measurable());
    assert!(symbol("a").measurable());
}

#[test]
fn checked_width_is_the_width() {
    assert_eq!(infix(symbol("a"), symbol("b")).checked_width(), Some(3));
    assert_eq!(AST::EmptyStatement.checked_width(), Some(0));
    assert_eq!(AST::List(vec![symbol("a"), symbol("b")]).checked_width(), Some(2));
    let node = AST::UnaryOperators {
        base: Box::new(infix(symbol("a"), symbol("b"))),
        prefix: vec!["-".to_string()],
        suffix: vec![],
    };
    assert_eq!(node.checked_width(), Some(4));
    assert_eq!(node.checked_width(), Some(node.width()));
}

struct Dot;

impl BoxArea for Dot {}

#[test]
fn a_value_that_says_nothing_is_one_by_one() {
    assert_eq!(Dot.height(), 1);
    assert_eq!(Dot.width(), 1);
}
