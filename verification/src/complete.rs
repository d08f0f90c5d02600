//! Every program of the grammar parses, and parses as the program it means.

use vstd::prelude::*;
use crate::grammar::{
    ExpressionSign, ExpressionSyntax, FactorSyntax, FunctionSyntax, ProgramSyntax,
    StatementSyntax, TermSign, TermSyntax,
};
use crate::lexer::{lex_spec, SpecToken};
use crate::parser::{
    additive_node, behind, expression_rest, is_multiplicative, leading_operator, multiplicative_node, parse_expression_spec,
    parse_factor_spec, parse_function_spec, parse_paren_expression_spec, parse_program_spec,
    parse_statement_spec, parse_term_spec, parse_unary_expression_spec, starts_with, term_rest, AstExpression,
};

verus! {

/// `+` and `-` are neither `*` nor `/`.
proof fn lemma_additive_is_not_multiplicative()
    ensures
        !is_multiplicative("+"@),
        !is_multiplicative("-"@),
{
    reveal_strlit("-");
    reveal_strlit("+");
    reveal_strlit("*");
    reveal_strlit("/");
    assert("-"@[0] == '-' && "+"@[0] == '+' && "*"@[0] == '*' && "/"@[0] == '/');
}

/// What stands behind the front of a concatenation is its back.
proof fn lemma_behind_front(front: Seq<SpecToken>, back: Seq<SpecToken>)
    ensures
        behind(front + back, front.len()) == back,
{
    assert(behind(front + back, front.len()) =~= back);
}

/// A token in front of a list is its first token, and the list stands
/// behind it.
proof fn lemma_behind_first(first: SpecToken, back: Seq<SpecToken>)
    ensures
        starts_with(seq![first] + back, first),
        behind(seq![first] + back, 1) == back,
{
    assert(behind(seq![first] + back, 1) =~= back);
}

/// What stands behind the front and the middle of a concatenation is its
/// back.
proof fn lemma_behind_middle(front: Seq<SpecToken>, middle: Seq<SpecToken>, back: Seq<SpecToken>)
    ensures
        front + middle + back == front + (middle + back),
        behind(front + (middle + back), front.len() + middle.len()) == back,
{
    assert(front + middle + back =~= front + (middle + back));
    assert(behind(front + (middle + back), front.len() + middle.len()) =~= back);
}

/// The parser reads a parenthesized expression as the node that the
/// expression means.
#[verifier::rlimit(50)]
proof fn lemma_reads_paren(inner: ExpressionSyntax, rest: Seq<SpecToken>)
    requires
        parse_expression_spec(inner.tokens() + (seq![SpecToken::CloseParen] + rest)) == Some(
            (inner.node(), inner.tokens().len()),
        ),
    ensures
        parse_paren_expression_spec(
            seq![SpecToken::OpenParen] + inner.tokens() + seq![SpecToken::CloseParen] + rest,
        ) == Some((inner.node(), inner.tokens().len() + 2)),
{
    let open = seq![SpecToken::OpenParen];
    let behind_inner = seq![SpecToken::CloseParen] + rest;
    let tokens = open + inner.tokens() + seq![SpecToken::CloseParen] + rest;
    lemma_behind_middle(open + inner.tokens(), seq![SpecToken::CloseParen], rest);
    lemma_behind_middle(open, inner.tokens(), behind_inner);
    lemma_behind_first(SpecToken::OpenParen, inner.tokens() + behind_inner);
    lemma_behind_first(SpecToken::CloseParen, rest);
    assert(tokens == open + (inner.tokens() + behind_inner));
    assert(behind(tokens, inner.tokens().len() + 1) == behind_inner);
}

/// The parser reads a written factor as the node it means, whatever comes
/// behind it.
#[verifier::rlimit(50)]
pub proof fn lemma_reads_factor(factor: FactorSyntax, rest: Seq<SpecToken>)
    ensures
        parse_factor_spec(factor.tokens() + rest) == Some((factor.node(), factor.tokens().len())),
    decreases factor,
{
    let tokens = factor.tokens() + rest;
    match factor {
        FactorSyntax::Paren { inner } => {
            let behind_inner = seq![SpecToken::CloseParen] + rest;
            lemma_behind_first(SpecToken::CloseParen, rest);
            lemma_reads_expression(*inner, behind_inner);
            assert(leading_operator(behind_inner) is None);
            assert(expression_rest(inner.node(), behind_inner) == Some((inner.node(), 0nat)));
            lemma_reads_paren(*inner, rest);
        },
        FactorSyntax::Unary { sign, operand } => {
            lemma_reads_factor(*operand, rest);
            let operator = SpecToken::Operator(sign.text());
            lemma_behind_middle(seq![operator], operand.tokens(), rest);
            lemma_behind_first(operator, operand.tokens() + rest);
            assert(tokens == seq![operator] + (operand.tokens() + rest));
            assert(parse_paren_expression_spec(tokens) is None);
            assert(leading_operator(tokens) == Some(sign.text()));
            assert(parse_unary_expression_spec(tokens) == Some(
                (factor.node(), factor.tokens().len()),
            ));
        },
        FactorSyntax::Literal { value } => {
            lemma_behind_first(SpecToken::IntegerLiteral(value), rest);
            assert(parse_paren_expression_spec(tokens) is None);
            assert(leading_operator(tokens) is None);
            assert(parse_unary_expression_spec(tokens) is None);
        },
    }
}

/// One more round of `{ ("*" | "/") factor }`: behind a term read as `left`,
/// a sign and a factor are read as the node of the three, and the reading
/// goes on behind them.
proof fn lemma_term_rest_step(
    left: AstExpression,
    sign: TermSign,
    right: FactorSyntax,
    rest: Seq<SpecToken>,
)
    requires
        parse_factor_spec(right.tokens() + rest) == Some((right.node(), right.tokens().len())),
    ensures
        term_rest(left, seq![SpecToken::Operator(sign.text())] + right.tokens() + rest)
            == match term_rest(multiplicative_node(sign.text(), left, right.node()), rest) {
            Some((node, m)) => Some((node, right.tokens().len() + 1 + m)),
            None => None,
        },
{
    let operator = SpecToken::Operator(sign.text());
    let tokens = seq![operator] + right.tokens() + rest;
    lemma_behind_middle(seq![operator], right.tokens(), rest);
    lemma_behind_first(operator, right.tokens() + rest);
    assert(leading_operator(tokens) == Some(sign.text()));
    assert(behind(tokens, right.tokens().len() + 1) == rest);
}

/// A term, a sign and a factor are read as a term, where the parser reads
/// the term in front and the factor behind the sign.
#[verifier::rlimit(50)]
proof fn lemma_reads_product(left: TermSyntax, sign: TermSign, right: FactorSyntax, rest: Seq<SpecToken>)
    requires
        parse_term_spec(
            left.tokens() + (seq![SpecToken::Operator(sign.text())] + right.tokens() + rest),
        ) == match term_rest(
            left.node(),
            seq![SpecToken::Operator(sign.text())] + right.tokens() + rest,
        ) {
            Some((node, m)) => Some((node, left.tokens().len() + m)),
            None => None,
        },
        parse_factor_spec(right.tokens() + rest) == Some((right.node(), right.tokens().len())),
    ensures
        parse_term_spec(
            left.tokens() + seq![SpecToken::Operator(sign.text())] + right.tokens() + rest,
        ) == match term_rest(multiplicative_node(sign.text(), left.node(), right.node()), rest) {
            Some((node, m)) => Some(
                (node, left.tokens().len() + 1 + right.tokens().len() + m),
            ),
            None => None,
        },
{
    let operator = seq![SpecToken::Operator(sign.text())];
    lemma_behind_middle(left.tokens(), operator, right.tokens());
    lemma_behind_middle(left.tokens(), operator + right.tokens(), rest);
    lemma_term_rest_step(left.node(), sign, right, rest);
}

/// The parser reads a written term as the node it means and then goes on
/// with what comes behind it.
pub proof fn lemma_reads_term(term: TermSyntax, rest: Seq<SpecToken>)
    ensures
        parse_term_spec(term.tokens() + rest) == match term_rest(term.node(), rest) {
            Some((node, m)) => Some((node, term.tokens().len() + m)),
            None => None,
        },
    decreases term,
{
    match term {
        TermSyntax::Single { factor } => {
            lemma_reads_factor(factor, rest);
            lemma_behind_front(factor.tokens(), rest);
        },
        TermSyntax::Product { left, sign, right } => {
            lemma_reads_term(
                *left,
                seq![SpecToken::Operator(sign.text())] + right.tokens() + rest,
            );
            lemma_reads_factor(right, rest);
            lemma_reads_product(*left, sign, right, rest);
        },
    }
}

/// One more round of `{ ("+" | "-") term }`: behind an expression read as
/// `left`, a sign and a term are read as the node of the three, and the
/// reading goes on behind them.
proof fn lemma_expression_rest_step(
    left: AstExpression,
    sign: ExpressionSign,
    right: TermSyntax,
    rest: Seq<SpecToken>,
)
    requires
        parse_term_spec(right.tokens() + rest) == Some((right.node(), right.tokens().len())),
    ensures
        expression_rest(left, seq![SpecToken::Operator(sign.text())] + right.tokens() + rest)
            == match expression_rest(additive_node(sign.text(), left, right.node()), rest) {
            Some((node, m)) => Some((node, right.tokens().len() + 1 + m)),
            None => None,
        },
{
    let operator = SpecToken::Operator(sign.text());
    let tokens = seq![operator] + right.tokens() + rest;
    lemma_behind_middle(seq![operator], right.tokens(), rest);
    lemma_behind_first(operator, right.tokens() + rest);
    assert(leading_operator(tokens) == Some(sign.text()));
    assert(behind(tokens, right.tokens().len() + 1) == rest);
}

/// An expression, a sign and a term are read as an expression, where the
/// parser reads the expression in front and the term behind the sign.
#[verifier::rlimit(50)]
proof fn lemma_reads_sum(
    left: ExpressionSyntax,
    sign: ExpressionSign,
    right: TermSyntax,
    rest: Seq<SpecToken>,
)
    requires
        parse_expression_spec(
            left.tokens() + (seq![SpecToken::Operator(sign.text())] + right.tokens() + rest),
        ) == match expression_rest(
            left.node(),
            seq![SpecToken::Operator(sign.text())] + right.tokens() + rest,
        ) {
            Some((node, m)) => Some((node, left.tokens().len() + m)),
            None => None,
        },
        parse_term_spec(right.tokens() + rest) == Some((right.node(), right.tokens().len())),
    ensures
        parse_expression_spec(
            left.tokens() + seq![SpecToken::Operator(sign.text())] + right.tokens() + rest,
        ) == match expression_rest(additive_node(sign.text(), left.node(), right.node()), rest) {
            Some((node, m)) => Some(
                (node, left.tokens().len() + 1 + right.tokens().len() + m),
            ),
            None => None,
        },
{
    let operator = seq![SpecToken::Operator(sign.text())];
    lemma_behind_middle(left.tokens(), operator, right.tokens());
    lemma_behind_middle(left.tokens(), operator + right.tokens(), rest);
    lemma_expression_rest_step(left.node(), sign, right, rest);
}

/// The tokens behind the left operand of a sum start with `+` or `-`.
proof fn lemma_behind_left_of_sum(sign: ExpressionSign, right: TermSyntax, rest: Seq<SpecToken>)
    ensures
        leading_operator(seq![SpecToken::Operator(sign.text())] + right.tokens() + rest) == Some(
            sign.text(),
        ),
        !is_multiplicative(sign.text()),
{
    let operator = SpecToken::Operator(sign.text());
    lemma_behind_middle(seq![operator], right.tokens(), rest);
    lemma_behind_first(operator, right.tokens() + rest);
    lemma_additive_is_not_multiplicative();
}

/// The parser reads a written expression as the node it means and then goes
/// on with what comes behind it, where that does not start with `*` or `/`.
pub proof fn lemma_reads_expression(expression: ExpressionSyntax, rest: Seq<SpecToken>)
    requires
        leading_operator(rest) matches Some(operator) ==> !is_multiplicative(operator),
    ensures
        parse_expression_spec(expression.tokens() + rest) == match expression_rest(
            expression.node(),
            rest,
        ) {
            Some((node, m)) => Some((node, expression.tokens().len() + m)),
            None => None,
        },
    decreases expression,
{
    match expression {
        ExpressionSyntax::Single { term } => {
            lemma_reads_term(term, rest);
            assert(term_rest(term.node(), rest) == Some((term.node(), 0nat)));
            lemma_behind_front(term.tokens(), rest);
        },
        ExpressionSyntax::Sum { left, sign, right } => {
            lemma_behind_left_of_sum(sign, right, rest);
            lemma_reads_expression(
                *left,
                seq![SpecToken::Operator(sign.text())] + right.tokens() + rest,
            );
            lemma_reads_term(right, rest);
            assert(term_rest(right.node(), rest) == Some((right.node(), 0nat)));
            lemma_reads_sum(*left, sign, right, rest);
        },
    }
}

/// The parser reads a written statement as the node it means.
#[verifier::rlimit(50)]
pub proof fn lemma_reads_statement(statement: StatementSyntax, rest: Seq<SpecToken>)
    ensures
        parse_statement_spec(statement.tokens() + rest) == Some(
            (statement.node(), statement.tokens().len()),
        ),
{
    let first = SpecToken::Keyword("return"@);
    let last = SpecToken::Semicolon;
    let written = statement.expression.tokens();
    let tokens = statement.tokens() + rest;
    let behind_expression = seq![last] + rest;
    lemma_behind_first(last, rest);
    assert(leading_operator(behind_expression) is None);
    lemma_reads_expression(statement.expression, behind_expression);
    assert(expression_rest(statement.expression.node(), behind_expression) == Some(
        (statement.expression.node(), 0nat),
    ));
    lemma_behind_middle(seq![first] + written, seq![last], rest);
    lemma_behind_middle(seq![first], written, behind_expression);
    lemma_behind_first(first, written + behind_expression);
    assert(tokens == seq![first] + (written + behind_expression));
    assert(behind(tokens, written.len() + 1) == behind_expression);
}

/// How the tokens of a written function lie: five tokens, then the
/// statement, then the closing brace.
#[verifier::rlimit(50)]
proof fn lemma_function_tokens(function: FunctionSyntax, rest: Seq<SpecToken>)
    ensures
        ({
            let tokens = function.tokens() + rest;
            let written = function.statement.tokens();
            &&& function.tokens().len() == written.len() + 6
            &&& tokens[0] == SpecToken::Keyword("int"@)
            &&& tokens[1] == SpecToken::Identifier(function.name)
            &&& tokens[2] == SpecToken::OpenParen
            &&& tokens[3] == SpecToken::CloseParen
            &&& tokens[4] == SpecToken::OpenBrace
            &&& behind(tokens, 5) == written + (seq![SpecToken::CloseBrace] + rest)
            &&& behind(tokens, written.len() + 5) == seq![SpecToken::CloseBrace] + rest
        }),
{
    let tokens = function.tokens() + rest;
    let written = function.statement.tokens();
    assert(behind(tokens, 5) =~= written + (seq![SpecToken::CloseBrace] + rest));
    assert(behind(tokens, written.len() + 5) =~= seq![SpecToken::CloseBrace] + rest);
}

/// The parser reads a written function as the function it means.
pub proof fn lemma_reads_function(function: FunctionSyntax, rest: Seq<SpecToken>)
    ensures
        parse_function_spec(function.tokens() + rest) == Some(
            (function.node(), function.tokens().len()),
        ),
{
    lemma_function_tokens(function, rest);
    lemma_reads_statement(function.statement, seq![SpecToken::CloseBrace] + rest);
    lemma_behind_first(SpecToken::CloseBrace, rest);
}

/// Every program of the grammar parses, and parses as the program it means:
/// for the tokens that write a program, the parser's result is that
/// program. Binary operators of one level nest to the left, `*` and `/` bind
/// tighter than `+` and `-`, and unary operators nest in the order in which
/// they are written, because the syntax means that.
pub proof fn lemma_parser_reads_all_syntax(program: ProgramSyntax)
    ensures
        parse_program_spec(program.tokens()) == Some(program.node()),
{
    lemma_reads_function(program.function, Seq::empty());
    assert(program.function.tokens() + Seq::<SpecToken>::empty() =~= program.tokens());
}

/// A source whose tokens write a program of the grammar compiles: lexing it
/// and parsing the tokens gives the program that is written.
pub proof fn lemma_grammatical_source_parses(source: Seq<char>, program: ProgramSyntax)
    requires
        lex_spec(source) == program.tokens(),
    ensures
        parse_program_spec(lex_spec(source)) == Some(program.node()),
{
    lemma_parser_reads_all_syntax(program);
}

} // verus!
