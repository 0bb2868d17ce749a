//! The TeX renderer and its name tables.

use crate::ast::AST;
use crate::error::{Failure, RenderError};
use crate::integer::decimal_text;
use crate::names::{
    ascii_capital, capitalize, capitalized, is_ascii_char, lemma_capitalized_ascii, reads,
};
use crate::text::{
    collect, join, join_spec, lemma_collect_err, lemma_collect_next, lemma_collect_ok,
    lemma_join_concat,
};
use vstd::prelude::*;

verus! {

/// The TeX token of the binary operator `operator`, if the table holds it.
/// A token that is a control word ends in a space, so that what follows it
/// is not read as part of the word.
pub open spec fn binary_token(operator: Seq<char>) -> Option<Seq<char>> {
    if operator == "+"@ {
        Some("+"@)
    } else if operator == "-"@ {
        Some("-"@)
    } else if operator == "*"@ {
        Some("\\times "@)
    } else if operator == "/"@ {
        Some("\\div "@)
    } else if operator == "^"@ {
        Some("^"@)
    } else if operator == "="@ || operator == "=="@ {
        Some("="@)
    } else if operator == "!="@ {
        Some("\\neq "@)
    } else if operator == "<"@ {
        Some("<"@)
    } else if operator == ">"@ {
        Some(">"@)
    } else if operator == "<="@ {
        Some("\\leq "@)
    } else if operator == ">="@ {
        Some("\\geq "@)
    } else {
        None
    }
}

/// Whether `name` is a function for which TeX has a control word of its
/// own. Such a function is written as an operator: by a backslash and its
/// name, and without brackets around a plain argument.
pub open spec fn is_operator_name(name: Seq<char>) -> bool {
    ||| name == "sin"@
    ||| name == "cos"@
    ||| name == "tan"@
    ||| name == "cot"@
    ||| name == "sec"@
    ||| name == "csc"@
    ||| name == "arcsin"@
    ||| name == "arccos"@
    ||| name == "arctan"@
    ||| name == "sinh"@
    ||| name == "cosh"@
    ||| name == "tanh"@
    ||| name == "coth"@
    ||| name == "exp"@
    ||| name == "log"@
    ||| name == "ln"@
}

/// The name under which TeX shows the function `name`: the control word of
/// an operator, `FactorInteger` for `factor`, and for any other function its
/// name with a capital first letter.
pub open spec fn function_name_spec(name: Seq<char>) -> Seq<char> {
    if is_operator_name(name) {
        "\\"@ + name
    } else if name == "factor"@ {
        "FactorInteger"@
    } else {
        capitalized(name)
    }
}

/// TeX shows `factor` as `FactorInteger`. Any other function that is no
/// operator and whose name starts with an ASCII character it shows under a
/// name as long as its own, which starts with the capital of the name's
/// first character and goes on as the name does.
pub proof fn lemma_function_name_names(name: Seq<char>)
    ensures
        name == "factor"@ ==> function_name_spec(name) == "FactorInteger"@,
        !is_operator_name(name) && name != "factor"@ && name.len() > 0 && is_ascii_char(name[0])
            ==> {
            &&& function_name_spec(name).len() == name.len()
            &&& function_name_spec(name)[0] == ascii_capital(name[0])
            &&& function_name_spec(name).skip(1) == name.skip(1)
        },
{
    if name == "factor"@ {
        reveal_strlit("factor");
        reveal_strlit("sin");
        reveal_strlit("cos");
        reveal_strlit("tan");
        reveal_strlit("cot");
        reveal_strlit("sec");
        reveal_strlit("csc");
        reveal_strlit("arcsin");
        reveal_strlit("arccos");
        reveal_strlit("arctan");
        reveal_strlit("sinh");
        reveal_strlit("cosh");
        reveal_strlit("tanh");
        reveal_strlit("coth");
        reveal_strlit("exp");
        reveal_strlit("log");
        reveal_strlit("ln");
        assert("factor"@[0] == 'f');
        assert("arcsin"@[0] == 'a' && "arccos"@[0] == 'a' && "arctan"@[0] == 'a');
        assert(!is_operator_name(name));
    } else if !is_operator_name(name) && name.len() > 0 && is_ascii_char(name[0]) {
        lemma_capitalized_ascii(name);
    }
}

/// The TeX markup of a call of `head` with the given rendered arguments and
/// options. An operator before a single plain argument stands without
/// brackets; every other call lists arguments, then options, in round
/// brackets with `, ` between them.
pub open spec fn function_map_spec(
    head: Seq<char>,
    arguments: Seq<Seq<char>>,
    options: Seq<Seq<char>>,
    plain: bool,
) -> Seq<char> {
    if is_operator_name(head) && arguments.len() == 1 && options.len() == 0 && plain {
        function_name_spec(head) + " "@ + arguments[0]
    } else {
        function_name_spec(head) + "("@ + join_spec(arguments + options, ", "@) + ")"@
    }
}

/// What a rendering holds, with text as a sequence of characters.
pub open spec fn tex_outcome(rendering: Result<String, RenderError>) -> Result<
    Seq<char>,
    Failure,
> {
    match rendering {
        Ok(text) => Ok(text@),
        Err(error) => Err(error@),
    }
}

/// What the rendering of a sequence holds.
pub open spec fn tex_outcomes(rendering: Result<Vec<String>, RenderError>) -> Result<
    Seq<Seq<char>>,
    Failure,
> {
    match rendering {
        Ok(texts) => Ok(texts.deep_view()),
        Err(error) => Err(error@),
    }
}

/// The TeX markup of each of `items`, in order.
pub open spec fn tex_each(items: Seq<AST>) -> Seq<Result<Seq<char>, Failure>>
    decreases items,
{
    Seq::new(
        items.len(),
        |i: int|
            if 0 <= i < items.len() {
                items[i].tex()
            } else {
                Err(Failure::UnsupportedConstruct)
            },
    )
}

/// The TeX markup of an option: its key, ` = `, and its value.
pub open spec fn tex_option(option: (AST, AST)) -> Result<Seq<char>, Failure>
    decreases option,
{
    match option.0.tex() {
        Err(failure) => Err(failure),
        Ok(key) => match option.1.tex() {
            Err(failure) => Err(failure),
            Ok(value) => Ok(key + " = "@ + value),
        },
    }
}

/// The TeX markup of each of `options`, in order.
pub open spec fn tex_options(options: Seq<(AST, AST)>) -> Seq<Result<Seq<char>, Failure>>
    decreases options,
{
    Seq::new(
        options.len(),
        |i: int|
            if 0 <= i < options.len() {
                tex_option(options[i])
            } else {
                Err(Failure::UnsupportedConstruct)
            },
    )
}

impl AST {
    /// Whether the node is a literal or a symbol.
    pub open spec fn is_plain(self) -> bool {
        match self {
            AST::Null => true,
            AST::Boolean(_) => true,
            AST::Integer(_) => true,
            AST::Decimal(_) => true,
            AST::String(_) => true,
            AST::Symbol(_) => true,
            _ => false,
        }
    }

    /// The TeX markup of the tree, or why it has none. Where more than one
    /// part of the tree fails, the failure is that of the part that comes
    /// first; an operand comes before its operator.
    pub open spec fn tex(self) -> Result<Seq<char>, Failure>
        decreases self,
    {
        match self {
            AST::EmptyStatement => Ok(Seq::empty()),
            AST::NewLine => Ok("\n"@),
            AST::Null => Ok("\\\\tt{null}"@),
            AST::Boolean(value) => Ok(if value { "\\\\tt{true}"@ } else { "\\\\tt{false}"@ }),
            AST::Integer(value) => Ok(decimal_text(value@)),
            AST::Decimal(text) => Ok(text@),
            AST::String(text) => Ok("\\text{"@ + text@ + "}"@),
            AST::Symbol(symbol) => Ok(symbol.name@),
            AST::Expression { base, eos } => match base.tex() {
                Err(failure) => Err(failure),
                Ok(text) => Ok(if eos { text + ";"@ } else { text }),
            },
            AST::MultiplicativeExpression { terms } => match collect(tex_each(terms@)) {
                Err(failure) => Err(failure),
                Ok(parts) => Ok(join_spec(parts, " "@)),
            },
            AST::AdditiveExpression { terms } => match collect(tex_each(terms@)) {
                Err(failure) => Err(failure),
                Ok(parts) => Ok(join_spec(parts, " + "@)),
            },
            AST::InfixOperators { infix, lhs, rhs } => match lhs.tex() {
                Err(failure) => Err(failure),
                Ok(left) => match rhs.tex() {
                    Err(failure) => Err(failure),
                    Ok(right) => match binary_token(infix@) {
                        None => Err(Failure::UnknownOperator(infix@)),
                        Some(token) => Ok(left + token + right),
                    },
                },
            },
            AST::UnaryOperators { base, prefix, suffix } => match base.tex() {
                Err(failure) => Err(failure),
                Ok(text) => Ok(
                    join_spec(prefix.deep_view(), " "@) + text + join_spec(
                        suffix.deep_view(),
                        " "@,
                    ),
                ),
            },
            AST::List(items) => match collect(tex_each(items@)) {
                Err(failure) => Err(failure),
                Ok(parts) => Ok("\\\\left\\\\{"@ + join_spec(parts, ", "@) + "\\\\right\\\\}"@),
            },
            AST::FunctionCall { name, arguments, options } => match name.tex() {
                Err(failure) => Err(failure),
                Ok(head) => match collect(tex_each(arguments@)) {
                    Err(failure) => Err(failure),
                    Ok(rendered) => match collect(tex_options(options@)) {
                        Err(failure) => Err(failure),
                        Ok(settings) => Ok(
                            function_map_spec(
                                head,
                                rendered,
                                settings,
                                arguments@.len() == 1 && arguments@[0].is_plain(),
                            ),
                        ),
                    },
                },
            },
            AST::Program(_) => Err(Failure::UnsupportedConstruct),
            AST::Function(_, _) => Err(Failure::UnsupportedConstruct),
        }
    }

    /// Whether the node is a literal or a symbol.
    pub fn plain(&self) -> (plain: bool)
        ensures
            plain == self.is_plain(),
    {
        match self {
            AST::Null => true,
            AST::Boolean(_) => true,
            AST::Integer(_) => true,
            AST::Decimal(_) => true,
            AST::String(_) => true,
            AST::Symbol(_) => true,
            _ => false,
        }
    }

    /// Renders the tree as TeX markup. A tree that holds a program, a
    /// function with groups of parameters, or an operator outside the
    /// operator table has no markup; the failure says which.
    pub fn to_tex(&self) -> (rendering: Result<String, RenderError>)
        ensures
            tex_outcome(rendering) == self.tex(),
        decreases self,
    {
        match self {
            AST::EmptyStatement => Ok(String::new()),
            AST::NewLine => Ok(String::from_str("\n")),
            AST::Null => Ok(String::from_str("\\\\tt{null}")),
            AST::Boolean(value) => {
                if *value {
                    Ok(String::from_str("\\\\tt{true}"))
                } else {
                    Ok(String::from_str("\\\\tt{false}"))
                }
            },
            AST::Integer(value) => Ok(value.to_decimal()),
            AST::Decimal(text) => Ok(text.clone()),
            AST::String(text) => {
                let mut out = String::from_str("\\text{");
                out.append(text.as_str());
                out.append("}");
                Ok(out)
            },
            AST::Symbol(symbol) => Ok(symbol.name.clone()),
            AST::Expression { base, eos } => {
                match base.to_tex() {
                    Err(error) => Err(error),
                    Ok(mut text) => {
                        if *eos {
                            text.append(";");
                        }
                        Ok(text)
                    },
                }
            },
            AST::MultiplicativeExpression { terms } => {
                match render_each(terms) {
                    Err(error) => Err(error),
                    Ok(parts) => Ok(join(&parts, " ")),
                }
            },
            AST::AdditiveExpression { terms } => {
                match render_each(terms) {
                    Err(error) => Err(error),
                    Ok(parts) => Ok(join(&parts, " + ")),
                }
            },
            AST::InfixOperators { infix, lhs, rhs } => {
                match lhs.to_tex() {
                    Err(error) => Err(error),
                    Ok(mut text) => match rhs.to_tex() {
                        Err(error) => Err(error),
                        Ok(right) => match binary_map(infix.as_str()) {
                            Err(error) => Err(error),
                            Ok(token) => {
                                text.append(token.as_str());
                                text.append(right.as_str());
                                Ok(text)
                            },
                        },
                    },
                }
            },
            AST::UnaryOperators { base, prefix, suffix } => {
                match base.to_tex() {
                    Err(error) => Err(error),
                    Ok(text) => {
                        let mut out = join(prefix, " ");
                        out.append(text.as_str());
                        out.append(join(suffix, " ").as_str());
                        Ok(out)
                    },
                }
            },
            AST::List(items) => {
                match render_each(items) {
                    Err(error) => Err(error),
                    Ok(parts) => {
                        let mut out = String::from_str("\\\\left\\\\{");
                        out.append(join(&parts, ", ").as_str());
                        out.append("\\\\right\\\\}");
                        Ok(out)
                    },
                }
            },
            AST::FunctionCall { name, arguments, options } => {
                match name.to_tex() {
                    Err(error) => Err(error),
                    Ok(head) => match render_each(arguments) {
                        Err(error) => Err(error),
                        Ok(rendered) => match render_options(options) {
                            Err(error) => Err(error),
                            Ok(settings) => {
                                let plain = arguments.len() == 1 && arguments[0].plain();
                                Ok(function_map(head.as_str(), &rendered, &settings, plain))
                            },
                        },
                    },
                }
            },
            AST::Program(_) => Err(RenderError::UnsupportedConstruct),
            AST::Function(_, _) => Err(RenderError::UnsupportedConstruct),
        }
    }
}

/// Renders each of `items`, and stops at the first that has no markup.
fn render_each(items: &Vec<AST>) -> (rendering: Result<Vec<String>, RenderError>)
    ensures
        tex_outcomes(rendering) == collect(tex_each(items@)),
    decreases items,
{
    let ghost results = tex_each(items@);
    let mut texts: Vec<String> = Vec::new();
    let mut i: usize = 0;
    assert(results.take(0) =~= Seq::empty());
    assert(texts.deep_view() =~= Seq::empty());
    while i < items.len()
        invariant
            i <= items.len(),
            results == tex_each(items@),
            collect(results.take(i as int)) == Ok::<Seq<Seq<char>>, Failure>(texts.deep_view()),
        decreases items.len() - i,
    {
        proof {
            lemma_collect_next(results, i as int);
        }
        match items[i].to_tex() {
            Err(error) => {
                proof {
                    lemma_collect_err(results, i + 1);
                }
                return Err(error);
            },
            Ok(text) => {
                let ghost before = texts.deep_view();
                texts.push(text);
                assert(texts.deep_view() =~= before.push(text@));
            },
        }
        i = i + 1;
    }
    assert(results.take(items.len() as int) =~= results);
    Ok(texts)
}

/// Renders each of `options` as key, ` = ` and value, and stops at the
/// first that has no markup.
fn render_options(options: &Vec<(AST, AST)>) -> (rendering: Result<Vec<String>, RenderError>)
    ensures
        tex_outcomes(rendering) == collect(tex_options(options@)),
    decreases options,
{
    let ghost results = tex_options(options@);
    let mut texts: Vec<String> = Vec::new();
    let mut i: usize = 0;
    assert(results.take(0) =~= Seq::empty());
    assert(texts.deep_view() =~= Seq::empty());
    while i < options.len()
        invariant
            i <= options.len(),
            results == tex_options(options@),
            collect(results.take(i as int)) == Ok::<Seq<Seq<char>>, Failure>(texts.deep_view()),
        decreases options.len() - i,
    {
        proof {
            lemma_collect_next(results, i as int);
        }
        let ghost before = texts.deep_view();
        match options[i].0.to_tex() {
            Err(error) => {
                proof {
                    lemma_collect_err(results, i + 1);
                }
                return Err(error);
            },
            Ok(mut text) => match options[i].1.to_tex() {
                Err(error) => {
                    proof {
                        lemma_collect_err(results, i + 1);
                    }
                    return Err(error);
                },
                Ok(value) => {
                    text.append(" = ");
                    text.append(value.as_str());
                    texts.push(text);
                    assert(texts.deep_view() =~= before.push(text@));
                },
            },
        }
        i = i + 1;
    }
    assert(results.take(options.len() as int) =~= results);
    Ok(texts)
}

/// Looks the binary operator `operator` up in the operator table.
pub fn binary_map(operator: &str) -> (token: Result<String, RenderError>)
    ensures
        match token {
            Ok(text) => binary_token(operator@) == Some(text@),
            Err(error) => binary_token(operator@) is None && error@ == Failure::UnknownOperator(
                operator@,
            ),
        },
{
    if reads(operator, "+") {
        Ok(String::from_str("+"))
    } else if reads(operator, "-") {
        Ok(String::from_str("-"))
    } else if reads(operator, "*") {
        Ok(String::from_str("\\times "))
    } else if reads(operator, "/") {
        Ok(String::from_str("\\div "))
    } else if reads(operator, "^") {
        Ok(String::from_str("^"))
    } else if reads(operator, "=") || reads(operator, "==") {
        Ok(String::from_str("="))
    } else if reads(operator, "!=") {
        Ok(String::from_str("\\neq "))
    } else if reads(operator, "<") {
        Ok(String::from_str("<"))
    } else if reads(operator, ">") {
        Ok(String::from_str(">"))
    } else if reads(operator, "<=") {
        Ok(String::from_str("\\leq "))
    } else if reads(operator, ">=") {
        Ok(String::from_str("\\geq "))
    } else {
        Err(RenderError::UnknownOperator(String::from_str(operator)))
    }
}

/// Whether TeX writes the function `name` as an operator.
pub fn operator_name(name: &str) -> (found: bool)
    ensures
        found == is_operator_name(name@),
{
    reads(name, "sin") || reads(name, "cos") || reads(name, "tan") || reads(name, "cot") || reads(
        name,
        "sec",
    ) || reads(name, "csc") || reads(name, "arcsin") || reads(name, "arccos") || reads(
        name,
        "arctan",
    ) || reads(name, "sinh") || reads(name, "cosh") || reads(name, "tanh") || reads(name, "coth")
        || reads(name, "exp") || reads(name, "log") || reads(name, "ln")
}

/// The name under which TeX shows the function `name`.
pub fn function_name(name: &str) -> (shown: String)
    ensures
        shown@ == function_name_spec(name@),
{
    if operator_name(name) {
        let mut shown = String::from_str("\\");
        shown.append(name);
        shown
    } else if reads(name, "factor") {
        String::from_str("FactorInteger")
    } else {
        capitalize(name)
    }
}

/// Writes a call of the function `head` in TeX, from the markup of its
/// arguments and of its options. `plain` says whether a single argument is
/// a literal or a symbol.
pub fn function_map(head: &str, arguments: &Vec<String>, options: &Vec<String>, plain: bool) -> (call: String)
    ensures
        call@ == function_map_spec(head@, arguments.deep_view(), options.deep_view(), plain),
{
    let mut call = function_name(head);
    if operator_name(head) && arguments.len() == 1 && options.len() == 0 && plain {
        call.append(" ");
        call.append(arguments[0].as_str());
        call
    } else {
        proof {
            lemma_join_concat(arguments.deep_view(), options.deep_view(), ", "@);
        }
        call.append("(");
        call.append(join(arguments, ", ").as_str());
        if arguments.len() > 0 && options.len() > 0 {
            call.append(", ");
        }
        call.append(join(options, ", ").as_str());
        call.append(")");
        proof {
            let first = join_spec(arguments.deep_view(), ", "@);
            let second = join_spec(options.deep_view(), ", "@);
            if arguments.len() == 0 {
                assert(first =~= Seq::empty());
                assert(function_name_spec(head@) + "("@ + first + second + ")"@ =~= function_name_spec(head@)
                    + "("@ + second + ")"@);
            } else if options.len() == 0 {
                assert(second =~= Seq::empty());
                assert(function_name_spec(head@) + "("@ + first + second + ")"@ =~= function_name_spec(head@)
                    + "("@ + first + ")"@);
            } else {
                assert(function_name_spec(head@) + "("@ + first + ", "@ + second + ")"@
                    =~= function_name_spec(head@) + "("@ + (first + ", "@ + second) + ")"@);
            }
        }
        call
    }
}

/// Rendering is a function of the tree: any two renderings of one tree hold
/// the same markup, or the same failure.
pub proof fn lemma_to_tex_deterministic(
    tree: AST,
    first: Result<String, RenderError>,
    second: Result<String, RenderError>,
)
    requires
        tex_outcome(first) == tree.tex(),
        tex_outcome(second) == tree.tex(),
    ensures
        first is Ok <==> second is Ok,
        first is Ok ==> first->Ok_0@ == second->Ok_0@,
        first is Err ==> first->Err_0@ == second->Err_0@,
{
}

/// An integer is rendered as its canonical decimal text, a decimal number
/// and a symbol as they are written, and a text inside `\text{` and `}`.
pub proof fn lemma_tex_of_literals(node: AST)
    ensures
        node matches AST::Integer(value) ==> node.tex() == Ok::<Seq<char>, Failure>(
            decimal_text(value@),
        ),
        node matches AST::Decimal(text) ==> node.tex() == Ok::<Seq<char>, Failure>(text@),
        node matches AST::Symbol(symbol) ==> node.tex() == Ok::<Seq<char>, Failure>(symbol.name@),
        node matches AST::String(text) ==> node.tex() == Ok::<Seq<char>, Failure>(
            "\\text{"@ + text@ + "}"@,
        ),
{
}

/// What stands around a node does not change its markup: where a sequence
/// of nodes has markup, each place holds the markup of the node there.
pub proof fn lemma_tex_each_keeps_markup(items: Seq<AST>, i: int)
    requires
        0 <= i < items.len(),
        collect(tex_each(items)) is Ok,
    ensures
        collect(tex_each(items))->Ok_0.len() == items.len(),
        items[i].tex() == Ok::<Seq<char>, Failure>(collect(tex_each(items))->Ok_0[i]),
{
    lemma_collect_ok(tex_each(items));
    assert(tex_each(items)[i] == items[i].tex());
}

/// The markup of a sum of three terms is the markup of the first, ` + `,
/// that of the second, ` + `, and that of the third.
pub proof fn lemma_tex_of_sum(sum: AST)
    requires
        sum is AdditiveExpression,
        sum->AdditiveExpression_terms@.len() == 3,
        sum->AdditiveExpression_terms@[0].tex() is Ok,
        sum->AdditiveExpression_terms@[1].tex() is Ok,
        sum->AdditiveExpression_terms@[2].tex() is Ok,
    ensures
        sum.tex() == Ok::<Seq<char>, Failure>(
            sum->AdditiveExpression_terms@[0].tex()->Ok_0 + " + "@
                + sum->AdditiveExpression_terms@[1].tex()->Ok_0 + " + "@
                + sum->AdditiveExpression_terms@[2].tex()->Ok_0,
        ),
{
    let terms = sum->AdditiveExpression_terms@;
    let results = tex_each(terms);
    lemma_collect_ok(results);
    assert(results[0] == terms[0].tex());
    assert(results[1] == terms[1].tex());
    assert(results[2] == terms[2].tex());
    let parts = collect(results)->Ok_0;
    assert(parts.drop_last().drop_last().len() == 1);
    assert(join_spec(parts.drop_last().drop_last(), " + "@) == parts[0]);
    assert(join_spec(parts.drop_last(), " + "@) == parts[0] + " + "@ + parts[1]);
    assert(join_spec(parts, " + "@) == parts[0] + " + "@ + parts[1] + " + "@ + parts[2]);
}

/// A call of `sin` on one plain argument is written `\sin`, a space and the
/// argument; a call on two arguments is written `\sin(`, the arguments with
/// `, ` between them, and `)`.
pub proof fn lemma_calls_of_sin(x: Seq<char>, y: Seq<char>)
    ensures
        function_map_spec("sin"@, seq![x], Seq::empty(), true) == "\\sin "@ + x,
        function_map_spec("sin"@, seq![x, y], Seq::empty(), false) == "\\sin("@ + x + ", "@ + y
            + ")"@,
{
    reveal_strlit("sin");
    reveal_strlit("\\");
    reveal_strlit(" ");
    reveal_strlit("(");
    reveal_strlit("\\sin ");
    reveal_strlit("\\sin(");
    assert(is_operator_name("sin"@));
    assert("\\"@ + "sin"@ + " "@ =~= "\\sin "@);
    assert("\\"@ + "sin"@ + "("@ =~= "\\sin("@);
    assert(function_map_spec("sin"@, seq![x], Seq::empty(), true) =~= "\\sin "@ + x);
    let both = seq![x, y] + Seq::<Seq<char>>::empty();
    assert(both =~= seq![x, y]);
    assert(both.drop_last() =~= seq![x]);
    assert(join_spec(both.drop_last(), ", "@) == x);
    assert(join_spec(both, ", "@) == x + ", "@ + y);
    assert(function_map_spec("sin"@, seq![x, y], Seq::empty(), false) =~= "\\sin("@ + x + ", "@
        + y + ")"@);
}

} // verus!
