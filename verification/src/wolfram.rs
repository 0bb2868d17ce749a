//! The renderer to symbolic values in Wolfram notation.

use crate::ast::{Symbol, AST};
use crate::error::{Failure, RenderError};
use crate::integer::digits_value;
use crate::names::{
    ascii_capital, capitalize, capitalized, is_ascii_char, lemma_capitalized_ascii, reads,
};
use crate::text::{collect, lemma_collect_err, lemma_collect_next, lemma_collect_ok};
use num_bigint::{BigInt, Sign};
use vstd::prelude::*;
use wolfram_wxf::WolframValue;

verus! {

#[verifier::external_type_specification]
#[verifier::external_body]
pub struct ExWolframValue(WolframValue);

/// The shape of a symbolic value, as far as this renderer builds one.
pub ghost enum WolframExpr {
    /// Nothing to show.
    Skip,
    /// A head applied to arguments.
    Function(Seq<char>, Seq<WolframExpr>),
    /// A text.
    String(Seq<char>),
    /// A symbol.
    Symbol(Seq<char>),
    /// An integer of any size.
    BigInteger(int),
    /// A decimal number, as its text.
    BigDecimal(Seq<char>),
}

/// What a symbolic value holds.
pub uninterp spec fn wolfram_expr(value: WolframValue) -> WolframExpr;

/// What each of `values` holds.
pub open spec fn wolfram_exprs(values: Seq<WolframValue>) -> Seq<WolframExpr> {
    values.map_values(|value: WolframValue| wolfram_expr(value))
}

/// `WolframValue::Skip`, the value that stands for nothing.
#[verifier::external_body]
fn wolfram_skip() -> (value: WolframValue)
    ensures
        wolfram_expr(value) == WolframExpr::Skip,
{
    WolframValue::Skip
}

/// `WolframValue::Function`: the application of the head named `head` to
/// `arguments`, which it keeps in their order.
#[verifier::external_body]
fn wolfram_function(head: &str, arguments: Vec<WolframValue>) -> (value: WolframValue)
    ensures
        wolfram_expr(value) == WolframExpr::Function(
            head@,
            arguments@.map_values(|argument: WolframValue| wolfram_expr(argument)),
        ),
{
    WolframValue::Function(Box::from(head), arguments)
}

/// `WolframValue::new_symbol`: the symbol named `name`.
#[verifier::external_body]
fn wolfram_symbol(name: &str) -> (value: WolframValue)
    ensures
        wolfram_expr(value) == WolframExpr::Symbol(name@),
{
    WolframValue::new_symbol(name)
}

/// `WolframValue::String`: the text `text`.
#[verifier::external_body]
fn wolfram_string(text: &str) -> (value: WolframValue)
    ensures
        wolfram_expr(value) == WolframExpr::String(text@),
{
    WolframValue::String(Box::from(text))
}

/// `WolframValue::BigDecimal`: the decimal number written `text`.
#[verifier::external_body]
fn wolfram_big_decimal(text: &str) -> (value: WolframValue)
    ensures
        wolfram_expr(value) == WolframExpr::BigDecimal(text@),
{
    WolframValue::BigDecimal(Box::from(text))
}

/// `WolframValue::BigInteger` of `BigInt::from_radix_be` in radix ten: the
/// integer whose magnitude the decimal digits `digits` write, most
/// significant first, below zero where `negative` is set and the magnitude
/// is not zero. `from_radix_be` panics where there is no digit, and gives
/// nothing for a digit of ten or more: both are left out.
#[verifier::external_body]
fn wolfram_big_integer(negative: bool, digits: &Vec<u8>) -> (value: WolframValue)
    requires
        digits@.len() >= 1,
        forall|i: int| 0 <= i < digits@.len() ==> digits@[i] < 10,
    ensures
        wolfram_expr(value) == WolframExpr::BigInteger(
            if negative {
                -(digits_value(digits@) as int)
            } else {
                digits_value(digits@) as int
            },
        ),
{
    let sign = if negative { Sign::Minus } else { Sign::Plus };
    WolframValue::BigInteger(BigInt::from_radix_be(sign, digits, 10).unwrap())
}

/// The head under which Wolfram notation knows the function `name`:
/// `FactorInteger` for `factor`, and for any other function its name with a
/// capital first letter.
pub open spec fn function_map_spec(name: Seq<char>) -> Seq<char> {
    if name == "factor"@ {
        "FactorInteger"@
    } else {
        capitalized(name)
    }
}

/// The head under which Wolfram notation knows the function `s`.
pub fn function_map(s: &Symbol) -> (head: String)
    ensures
        head@ == function_map_spec(s.name@),
{
    let name = s.name.as_str();
    if reads(name, "factor") {
        String::from_str("FactorInteger")
    } else {
        capitalize(name)
    }
}

/// The head of `factor` is `FactorInteger`. The head of any other function
/// whose name starts with an ASCII character is as long as the name, starts
/// with the capital of the name's first character, and goes on as the name
/// does.
pub proof fn lemma_function_map_names(name: Seq<char>)
    ensures
        name == "factor"@ ==> function_map_spec(name) == "FactorInteger"@,
        name != "factor"@ && name.len() > 0 && is_ascii_char(name[0]) ==> {
            &&& function_map_spec(name).len() == name.len()
            &&& function_map_spec(name)[0] == ascii_capital(name[0])
            &&& function_map_spec(name).skip(1) == name.skip(1)
        },
{
    if name != "factor"@ && name.len() > 0 && is_ascii_char(name[0]) {
        lemma_capitalized_ascii(name);
    }
}

/// The head of `foo` is `Foo`.
pub proof fn lemma_function_map_of_foo()
    ensures
        function_map_spec("foo"@) == "Foo"@,
{
    reveal_strlit("foo");
    reveal_strlit("Foo");
    reveal_strlit("factor");
    assert("foo"@.len() != "factor"@.len());
    assert(function_map_spec("foo"@) =~= "Foo"@);
}

/// What a rendering holds.
pub open spec fn wolfram_outcome(rendering: Result<WolframValue, RenderError>) -> Result<
    WolframExpr,
    Failure,
> {
    match rendering {
        Ok(value) => Ok(wolfram_expr(value)),
        Err(error) => Err(error@),
    }
}

/// What the rendering of a sequence holds.
pub open spec fn wolfram_outcomes(rendering: Result<Vec<WolframValue>, RenderError>) -> Result<
    Seq<WolframExpr>,
    Failure,
> {
    match rendering {
        Ok(values) => Ok(wolfram_exprs(values@)),
        Err(error) => Err(error@),
    }
}

/// The symbolic value of each of `items`, in order.
pub open spec fn wolfram_each(items: Seq<AST>) -> Seq<Result<WolframExpr, Failure>>
    decreases items,
{
    Seq::new(
        items.len(),
        |i: int|
            if 0 <= i < items.len() {
                items[i].wolfram()
            } else {
                Err(Failure::UnsupportedConstruct)
            },
    )
}

/// The symbolic value of an option: `Rule` applied to its key and its value.
pub open spec fn wolfram_rule(option: (AST, AST)) -> Result<WolframExpr, Failure>
    decreases option,
{
    match option.0.wolfram() {
        Err(failure) => Err(failure),
        Ok(key) => match option.1.wolfram() {
            Err(failure) => Err(failure),
            Ok(value) => Ok(WolframExpr::Function("Rule"@, seq![key, value])),
        },
    }
}

/// The symbolic value of each of `options`, in order.
pub open spec fn wolfram_rules(options: Seq<(AST, AST)>) -> Seq<Result<WolframExpr, Failure>>
    decreases options,
{
    Seq::new(
        options.len(),
        |i: int|
            if 0 <= i < options.len() {
                wolfram_rule(options[i])
            } else {
                Err(Failure::UnsupportedConstruct)
            },
    )
}

impl AST {
    /// The symbolic value of the tree in Wolfram notation, or why it has
    /// none. Where more than one part of the tree fails, the failure is that
    /// of the part that comes first.
    pub open spec fn wolfram(self) -> Result<WolframExpr, Failure>
        decreases self,
    {
        match self {
            AST::EmptyStatement => Ok(WolframExpr::Skip),
            AST::NewLine => Ok(WolframExpr::Skip),
            AST::Program(items) => match collect(wolfram_each(items@)) {
                Err(failure) => Err(failure),
                Ok(values) => Ok(WolframExpr::Function("CompoundExpression"@, values)),
            },
            AST::Expression { base, eos } => base.wolfram(),
            AST::Function(name, groups) => if groups@.len() != 1 {
                Err(Failure::UnsupportedConstruct)
            } else {
                match collect(wolfram_each(groups@[0].arguments@)) {
                    Err(failure) => Err(failure),
                    Ok(values) => match collect(wolfram_rules(groups@[0].options@)) {
                        Err(failure) => Err(failure),
                        Ok(rules) => Ok(
                            WolframExpr::Function(function_map_spec(name.name@), values + rules),
                        ),
                    },
                }
            },
            AST::Null => Ok(WolframExpr::Symbol("None"@)),
            AST::Boolean(value) => Ok(
                WolframExpr::Symbol(if value { "True"@ } else { "False"@ }),
            ),
            AST::Integer(value) => Ok(WolframExpr::BigInteger(value@)),
            AST::Decimal(text) => Ok(WolframExpr::BigDecimal(text@)),
            AST::Symbol(symbol) => Ok(WolframExpr::Symbol(symbol.name@)),
            AST::String(text) => Ok(WolframExpr::String(text@)),
            AST::MultiplicativeExpression { .. } => Err(Failure::UnsupportedConstruct),
            AST::AdditiveExpression { .. } => Err(Failure::UnsupportedConstruct),
            AST::InfixOperators { .. } => Err(Failure::UnsupportedConstruct),
            AST::UnaryOperators { .. } => Err(Failure::UnsupportedConstruct),
            AST::List(_) => Err(Failure::UnsupportedConstruct),
            AST::FunctionCall { .. } => Err(Failure::UnsupportedConstruct),
        }
    }

    /// Renders the tree as a symbolic value in Wolfram notation. Only
    /// statements, programs, literals, symbols and functions with one group
    /// of parameters have one.
    pub fn to_wolfram(&self) -> (rendering: Result<WolframValue, RenderError>)
        ensures
            wolfram_outcome(rendering) == self.wolfram(),
        decreases self,
    {
        match self {
            AST::EmptyStatement => Ok(wolfram_skip()),
            AST::NewLine => Ok(wolfram_skip()),
            AST::Program(items) => {
                match values_of(items) {
                    Err(error) => Err(error),
                    Ok(values) => Ok(wolfram_function("CompoundExpression", values)),
                }
            },
            AST::Expression { base, eos } => base.to_wolfram(),
            AST::Function(name, groups) => {
                if groups.len() != 1 {
                    return Err(RenderError::UnsupportedConstruct);
                }
                match values_of(&groups[0].arguments) {
                    Err(error) => Err(error),
                    Ok(mut values) => match rules_of(&groups[0].options) {
                        Err(error) => Err(error),
                        Ok(mut rules) => {
                            let ghost first = wolfram_exprs(values@);
                            let ghost second = wolfram_exprs(rules@);
                            values.append(&mut rules);
                            assert(wolfram_exprs(values@) =~= first + second);
                            Ok(wolfram_function(function_map(name).as_str(), values))
                        },
                    },
                }
            },
            AST::Null => Ok(wolfram_symbol("None")),
            AST::Boolean(value) => {
                if *value {
                    Ok(wolfram_symbol("True"))
                } else {
                    Ok(wolfram_symbol("False"))
                }
            },
            AST::Integer(value) => {
                let negative = value.is_negative();
                let digits = value.digits();
                Ok(wolfram_big_integer(negative, digits))
            },
            AST::Decimal(text) => Ok(wolfram_big_decimal(text.as_str())),
            AST::Symbol(symbol) => Ok(wolfram_symbol(symbol.name.as_str())),
            AST::String(text) => Ok(wolfram_string(text.as_str())),
            AST::MultiplicativeExpression { .. } => Err(RenderError::UnsupportedConstruct),
            AST::AdditiveExpression { .. } => Err(RenderError::UnsupportedConstruct),
            AST::InfixOperators { .. } => Err(RenderError::UnsupportedConstruct),
            AST::UnaryOperators { .. } => Err(RenderError::UnsupportedConstruct),
            AST::List(_) => Err(RenderError::UnsupportedConstruct),
            AST::FunctionCall { .. } => Err(RenderError::UnsupportedConstruct),
        }
    }
}

/// Renders each of `items`, and stops at the first that has no value.
fn values_of(items: &Vec<AST>) -> (rendering: Result<Vec<WolframValue>, RenderError>)
    ensures
        wolfram_outcomes(rendering) == collect(wolfram_each(items@)),
    decreases items,
{
    let ghost results = wolfram_each(items@);
    let mut values: Vec<WolframValue> = Vec::new();
    let mut i: usize = 0;
    assert(results.take(0) =~= Seq::empty());
    assert(wolfram_exprs(values@) =~= Seq::empty());
    while i < items.len()
        invariant
            i <= items.len(),
            results == wolfram_each(items@),
            collect(results.take(i as int)) == Ok::<Seq<WolframExpr>, Failure>(
                wolfram_exprs(values@),
            ),
        decreases items.len() - i,
    {
        proof {
            lemma_collect_next(results, i as int);
        }
        match items[i].to_wolfram() {
            Err(error) => {
                proof {
                    lemma_collect_err(results, i + 1);
                }
                return Err(error);
            },
            Ok(value) => {
                let ghost before = wolfram_exprs(values@);
                values.push(value);
                assert(wolfram_exprs(values@) =~= before.push(wolfram_expr(value)));
            },
        }
        i = i + 1;
    }
    assert(results.take(items.len() as int) =~= results);
    Ok(values)
}

/// Renders each of `options` as a rule from its key to its value, and stops
/// at the first that has no value.
fn rules_of(options: &Vec<(AST, AST)>) -> (rendering: Result<Vec<WolframValue>, RenderError>)
    ensures
        wolfram_outcomes(rendering) == collect(wolfram_rules(options@)),
    decreases options,
{
    let ghost results = wolfram_rules(options@);
    let mut rules: Vec<WolframValue> = Vec::new();
    let mut i: usize = 0;
    assert(results.take(0) =~= Seq::empty());
    assert(wolfram_exprs(rules@) =~= Seq::empty());
    while i < options.len()
        invariant
            i <= options.len(),
            results == wolfram_rules(options@),
            collect(results.take(i as int)) == Ok::<Seq<WolframExpr>, Failure>(
                wolfram_exprs(rules@),
            ),
        decreases options.len() - i,
    {
        proof {
            lemma_collect_next(results, i as int);
        }
        let ghost before = wolfram_exprs(rules@);
        match options[i].0.to_wolfram() {
            Err(error) => {
                proof {
                    lemma_collect_err(results, i + 1);
                }
                return Err(error);
            },
            Ok(key) => match options[i].1.to_wolfram() {
                Err(error) => {
                    proof {
                        lemma_collect_err(results, i + 1);
                    }
                    return Err(error);
                },
                Ok(value) => {
                    let mut pair: Vec<WolframValue> = Vec::new();
                    pair.push(key);
                    pair.push(value);
                    assert(wolfram_exprs(pair@) =~= seq![wolfram_expr(key), wolfram_expr(value)]);
                    let rule = wolfram_function("Rule", pair);
                    rules.push(rule);
                    assert(wolfram_exprs(rules@) =~= before.push(wolfram_expr(rule)));
                },
            },
        }
        i = i + 1;
    }
    assert(results.take(options.len() as int) =~= results);
    Ok(rules)
}

/// Rendering is a function of the tree: any two renderings of one tree hold
/// the same value, or the same failure.
pub proof fn lemma_to_wolfram_deterministic(
    tree: AST,
    first: Result<WolframValue, RenderError>,
    second: Result<WolframValue, RenderError>,
)
    requires
        wolfram_outcome(first) == tree.wolfram(),
        wolfram_outcome(second) == tree.wolfram(),
    ensures
        first is Ok <==> second is Ok,
        first is Ok ==> wolfram_expr(first->Ok_0) == wolfram_expr(second->Ok_0),
        first is Err ==> first->Err_0@ == second->Err_0@,
{
}

/// An integer, a decimal number, a symbol and a text each become the scalar
/// of their kind, with what they hold unchanged.
pub proof fn lemma_wolfram_of_literals(node: AST)
    ensures
        node matches AST::Integer(value) ==> node.wolfram() == Ok::<WolframExpr, Failure>(
            WolframExpr::BigInteger(value@),
        ),
        node matches AST::Decimal(text) ==> node.wolfram() == Ok::<WolframExpr, Failure>(
            WolframExpr::BigDecimal(text@),
        ),
        node matches AST::Symbol(symbol) ==> node.wolfram() == Ok::<WolframExpr, Failure>(
            WolframExpr::Symbol(symbol.name@),
        ),
        node matches AST::String(text) ==> node.wolfram() == Ok::<WolframExpr, Failure>(
            WolframExpr::String(text@),
        ),
{
}

/// What stands around a node does not change its value: where a sequence of
/// nodes has values, each place holds the value of the node there.
pub proof fn lemma_wolfram_each_keeps_value(items: Seq<AST>, i: int)
    requires
        0 <= i < items.len(),
        collect(wolfram_each(items)) is Ok,
    ensures
        collect(wolfram_each(items))->Ok_0.len() == items.len(),
        items[i].wolfram() == Ok::<WolframExpr, Failure>(collect(wolfram_each(items))->Ok_0[i]),
{
    lemma_collect_ok(wolfram_each(items));
    assert(wolfram_each(items)[i] == items[i].wolfram());
}

/// A program becomes `CompoundExpression` applied to the values of its
/// statements, a skip marker in the place of each statement that has no
/// value to show.
pub proof fn lemma_program_keeps_skips(program: AST, i: int)
    requires
        program is Program,
        program.wolfram() is Ok,
        0 <= i < program->Program_0@.len(),
        program->Program_0@[i] is NewLine || program->Program_0@[i] is EmptyStatement,
    ensures
        program.wolfram()->Ok_0 is Function,
        program.wolfram()->Ok_0->Function_0 == "CompoundExpression"@,
        program.wolfram()->Ok_0->Function_1.len() == program->Program_0@.len(),
        program.wolfram()->Ok_0->Function_1[i] == WolframExpr::Skip,
{
    lemma_wolfram_each_keeps_value(program->Program_0@, i);
}

/// The arguments of a function with two options are its positional
/// arguments in their order, then the rule of the first option, then the
/// rule of the second, each rule from the value of the key to the value of
/// the value.
pub proof fn lemma_options_follow_arguments(function: AST)
    requires
        function is Function,
        function->Function_1@.len() == 1,
        function->Function_1@[0].options@.len() == 2,
        function.wolfram() is Ok,
    ensures
        ({
            let group = function->Function_1@[0];
            let positional = collect(wolfram_each(group.arguments@));
            let first = group.options@[0];
            let second = group.options@[1];
            &&& positional is Ok
            &&& first.0.wolfram() is Ok && first.1.wolfram() is Ok
            &&& second.0.wolfram() is Ok && second.1.wolfram() is Ok
            &&& function.wolfram() == Ok::<WolframExpr, Failure>(
                WolframExpr::Function(
                    function_map_spec(function->Function_0.name@),
                    positional->Ok_0 + seq![
                        WolframExpr::Function(
                            "Rule"@,
                            seq![first.0.wolfram()->Ok_0, first.1.wolfram()->Ok_0],
                        ),
                        WolframExpr::Function(
                            "Rule"@,
                            seq![second.0.wolfram()->Ok_0, second.1.wolfram()->Ok_0],
                        ),
                    ],
                ),
            )
        }),
{
    let group = function->Function_1@[0];
    let results = wolfram_rules(group.options@);
    lemma_collect_ok(results);
    assert(results[0] == wolfram_rule(group.options@[0]));
    assert(results[1] == wolfram_rule(group.options@[1]));
    let rules = collect(results)->Ok_0;
    assert(rules =~= seq![rules[0], rules[1]]);
}

} // verus!
