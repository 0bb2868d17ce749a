//! The syntax tree.

use crate::integer::Integer;
use vstd::prelude::*;

verus! {

/// An identifier.
#[derive(Clone, Debug, PartialEq, Eq)]
pub struct Symbol {
    pub name: String,
}

/// One bracketed group of a function application: positional arguments, then
/// options as pairs of key and value.
#[derive(Debug, PartialEq, Eq)]
pub struct Parameters {
    pub arguments: Vec<AST>,
    pub options: Vec<(AST, AST)>,
}

/// A node of the syntax tree. Sequences keep the order in which they were
/// written.
#[derive(Debug, PartialEq, Eq)]
pub enum AST {
    /// A statement that does nothing.
    EmptyStatement,
    /// A line break, which matters to layout only.
    NewLine,
    /// The null literal.
    Null,
    /// A truth value.
    Boolean(bool),
    /// An integer literal of any size.
    Integer(Integer),
    /// A decimal literal, as its decimal text.
    Decimal(String),
    /// A text literal.
    String(String),
    /// A reference to an identifier.
    Symbol(Symbol),
    /// A statement; `eos` says whether a terminator follows it.
    Expression { base: Box<AST>, eos: bool },
    /// A product, written by juxtaposition.
    MultiplicativeExpression { terms: Vec<AST> },
    /// A sum.
    AdditiveExpression { terms: Vec<AST> },
    /// A binary operator between two operands.
    InfixOperators { infix: String, lhs: Box<AST>, rhs: Box<AST> },
    /// Prefix and suffix operators around an operand.
    UnaryOperators { base: Box<AST>, prefix: Vec<String>, suffix: Vec<String> },
    /// A literal collection.
    List(Vec<AST>),
    /// A call with positional arguments and options.
    FunctionCall { name: Box<AST>, arguments: Vec<AST>, options: Vec<(AST, AST)> },
    /// A sequence of statements.
    Program(Vec<AST>),
    /// A named application with its bracketed groups of parameters.
    Function(Symbol, Vec<Parameters>),
}

} // verus!
