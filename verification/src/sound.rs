//! The parser gives a program only for tokens that write a program of the
//! grammar.

use vstd::prelude::*;
use crate::complete::lemma_parser_reads_all_syntax;
use crate::grammar::{
    ExpressionSign, ExpressionSyntax, FactorSyntax, FunctionSyntax, ProgramSyntax,
    StatementSyntax, TermSign, TermSyntax, UnarySign,
};
use crate::lexer::SpecToken;
use crate::parser::{
    behind, expression_rest, is_additive, is_multiplicative, leading_operator,
    parse_expression_spec, parse_factor_spec, parse_function_spec, parse_paren_expression_spec,
    parse_program_spec, parse_statement_spec, parse_term_spec, parse_unary_expression_spec,
    starts_with, term_rest,
};

verus! {

/// A list that starts with `first` and goes on with `inner` starts with the
/// two put together.
proof fn lemma_prefix_behind_first(first: SpecToken, inner: Seq<SpecToken>, tokens: Seq<SpecToken>)
    requires
        starts_with(tokens, first),
        inner.is_prefix_of(behind(tokens, 1)),
    ensures
        (seq![first] + inner).is_prefix_of(tokens),
        behind(tokens, inner.len() + 1) == behind(behind(tokens, 1), inner.len()),
{
    assert(seq![first] + inner =~= tokens.subrange(0, (inner.len() + 1) as int));
    assert(behind(tokens, inner.len() + 1) =~= behind(behind(tokens, 1), inner.len()));
}

/// A list that starts with `front` and goes on with `back` starts with the
/// two put together.
proof fn lemma_prefix_then(front: Seq<SpecToken>, back: Seq<SpecToken>, tokens: Seq<SpecToken>)
    requires
        front.is_prefix_of(tokens),
        back.is_prefix_of(behind(tokens, front.len())),
    ensures
        (front + back).is_prefix_of(tokens),
        behind(tokens, front.len() + back.len()) == behind(
            behind(tokens, front.len()),
            back.len(),
        ),
{
    assert(front + back =~= tokens.subrange(0, (front.len() + back.len()) as int));
    assert(behind(tokens, front.len() + back.len()) =~= behind(
        behind(tokens, front.len()),
        back.len(),
    ));
}

/// A list that starts with `front` and goes on with `last` starts with the
/// two put together.
proof fn lemma_prefix_then_one(front: Seq<SpecToken>, last: SpecToken, tokens: Seq<SpecToken>)
    requires
        front.is_prefix_of(tokens),
        starts_with(behind(tokens, front.len()), last),
    ensures
        (front + seq![last]).is_prefix_of(tokens),
{
    assert(seq![last].is_prefix_of(behind(tokens, front.len()))) by {
        assert(seq![last] =~= behind(tokens, front.len()).subrange(0, 1));
    }
    lemma_prefix_then(front, seq![last], tokens);
}

/// The sign that an operator text of the unary operators stands for.
proof fn lemma_unary_sign(text: Seq<char>) -> (sign: UnarySign)
    requires
        text == "~"@ || text == "!"@ || text == "-"@,
    ensures
        sign.text() == text,
{
    if text == "~"@ {
        UnarySign::Complement
    } else if text == "!"@ {
        UnarySign::Not
    } else {
        UnarySign::Minus
    }
}

/// What the parser reads as a factor is a written factor: gives the syntax
/// whose tokens the parser took and whose node it gave.
#[verifier::rlimit(50)]
pub proof fn lemma_factor_syntax(tokens: Seq<SpecToken>) -> (factor: FactorSyntax)
    requires
        parse_factor_spec(tokens) is Some,
    ensures
        parse_factor_spec(tokens) == Some((factor.node(), factor.tokens().len())),
        factor.tokens().is_prefix_of(tokens),
    decreases tokens.len(), 1int,
{
    if parse_paren_expression_spec(tokens) is Some {
        let inner = lemma_expression_syntax(behind(tokens, 1));
        lemma_prefix_behind_first(SpecToken::OpenParen, inner.tokens(), tokens);
        lemma_prefix_then_one(
            seq![SpecToken::OpenParen] + inner.tokens(),
            SpecToken::CloseParen,
            tokens,
        );
        FactorSyntax::Paren { inner: Box::new(inner) }
    } else if parse_unary_expression_spec(tokens) is Some {
        let operand = lemma_factor_syntax(behind(tokens, 1));
        let text = leading_operator(tokens).unwrap();
        let sign = lemma_unary_sign(text);
        lemma_prefix_behind_first(SpecToken::Operator(text), operand.tokens(), tokens);
        FactorSyntax::Unary { sign, operand: Box::new(operand) }
    } else {
        let value = tokens[0]->IntegerLiteral_0;
        lemma_prefix_behind_first(SpecToken::IntegerLiteral(value), Seq::empty(), tokens);
        assert(seq![SpecToken::IntegerLiteral(value)] + Seq::empty() =~= seq![
            SpecToken::IntegerLiteral(value),
        ]);
        FactorSyntax::Literal { value }
    }
}

/// What the parser reads behind a term, written at the front of `whole`, is
/// what extends that term: gives the syntax of the whole term.
#[verifier::rlimit(50)]
pub proof fn lemma_term_rest_syntax(whole: Seq<SpecToken>, left: TermSyntax) -> (term: TermSyntax)
    requires
        left.tokens().is_prefix_of(whole),
        term_rest(left.node(), behind(whole, left.tokens().len())) is Some,
    ensures
        term.tokens().is_prefix_of(whole),
        term.tokens().len() >= left.tokens().len(),
        term_rest(left.node(), behind(whole, left.tokens().len())) == Some(
            (term.node(), (term.tokens().len() - left.tokens().len()) as nat),
        ),
    decreases behind(whole, left.tokens().len()).len(), 2int,
{
    let tokens = behind(whole, left.tokens().len());
    let more = match leading_operator(tokens) {
        Some(operator) => is_multiplicative(operator),
        None => false,
    };
    if more {
        let text = leading_operator(tokens).unwrap();
        let right = lemma_factor_syntax(behind(tokens, 1));
        let sign = if text == "*"@ {
            TermSign::Times
        } else {
            TermSign::Over
        };
        let product = TermSyntax::Product { left: Box::new(left), sign, right };
        lemma_prefix_behind_first(SpecToken::Operator(text), right.tokens(), tokens);
        lemma_prefix_then(left.tokens(), seq![SpecToken::Operator(text)] + right.tokens(), whole);
        assert(product.tokens() =~= left.tokens() + (seq![SpecToken::Operator(text)]
            + right.tokens()));
        lemma_term_rest_syntax(whole, product)
    } else {
        left
    }
}

/// What the parser reads as a term is a written term.
#[verifier::rlimit(50)]
pub proof fn lemma_term_syntax(tokens: Seq<SpecToken>) -> (term: TermSyntax)
    requires
        parse_term_spec(tokens) is Some,
    ensures
        parse_term_spec(tokens) == Some((term.node(), term.tokens().len())),
        term.tokens().is_prefix_of(tokens),
    decreases tokens.len(), 3int,
{
    let first = lemma_factor_syntax(tokens);
    lemma_term_rest_syntax(tokens, TermSyntax::Single { factor: first })
}

/// What the parser reads behind an expression, written at the front of
/// `whole`, is what extends that expression: gives the syntax of the whole
/// expression.
#[verifier::rlimit(50)]
pub proof fn lemma_expression_rest_syntax(whole: Seq<SpecToken>, left: ExpressionSyntax) -> (expression:
    ExpressionSyntax)
    requires
        left.tokens().is_prefix_of(whole),
        expression_rest(left.node(), behind(whole, left.tokens().len())) is Some,
    ensures
        expression.tokens().is_prefix_of(whole),
        expression.tokens().len() >= left.tokens().len(),
        expression_rest(left.node(), behind(whole, left.tokens().len())) == Some(
            (expression.node(), (expression.tokens().len() - left.tokens().len()) as nat),
        ),
    decreases behind(whole, left.tokens().len()).len(), 4int,
{
    let tokens = behind(whole, left.tokens().len());
    let more = match leading_operator(tokens) {
        Some(operator) => is_additive(operator),
        None => false,
    };
    if more {
        let text = leading_operator(tokens).unwrap();
        let right = lemma_term_syntax(behind(tokens, 1));
        let sign = if text == "+"@ {
            ExpressionSign::Plus
        } else {
            ExpressionSign::Minus
        };
        let sum = ExpressionSyntax::Sum { left: Box::new(left), sign, right };
        lemma_prefix_behind_first(SpecToken::Operator(text), right.tokens(), tokens);
        lemma_prefix_then(left.tokens(), seq![SpecToken::Operator(text)] + right.tokens(), whole);
        assert(sum.tokens() =~= left.tokens() + (seq![SpecToken::Operator(text)]
            + right.tokens()));
        lemma_expression_rest_syntax(whole, sum)
    } else {
        left
    }
}

/// What the parser reads as an expression is a written expression.
#[verifier::rlimit(50)]
pub proof fn lemma_expression_syntax(tokens: Seq<SpecToken>) -> (expression: ExpressionSyntax)
    requires
        parse_expression_spec(tokens) is Some,
    ensures
        parse_expression_spec(tokens) == Some((expression.node(), expression.tokens().len())),
        expression.tokens().is_prefix_of(tokens),
    decreases tokens.len(), 5int,
{
    let first = lemma_term_syntax(tokens);
    lemma_expression_rest_syntax(tokens, ExpressionSyntax::Single { term: first })
}

/// What the parser reads as a statement is a written statement.
#[verifier::rlimit(50)]
pub proof fn lemma_statement_syntax(tokens: Seq<SpecToken>) -> (statement: StatementSyntax)
    requires
        parse_statement_spec(tokens) is Some,
    ensures
        parse_statement_spec(tokens) == Some((statement.node(), statement.tokens().len())),
        statement.tokens().is_prefix_of(tokens),
{
    let expression = lemma_expression_syntax(behind(tokens, 1));
    lemma_prefix_behind_first(SpecToken::Keyword("return"@), expression.tokens(), tokens);
    lemma_prefix_then_one(
        seq![SpecToken::Keyword("return"@)] + expression.tokens(),
        SpecToken::Semicolon,
        tokens,
    );
    StatementSyntax { expression }
}

/// A list that starts with the five tokens of a function's head, goes on
/// with `written` and then with a closing brace starts with all of them put
/// together.
proof fn lemma_prefix_function(name: Seq<char>, written: Seq<SpecToken>, tokens: Seq<SpecToken>)
    requires
        tokens.len() >= 5,
        tokens[0] == SpecToken::Keyword("int"@),
        tokens[1] == SpecToken::Identifier(name),
        tokens[2] == SpecToken::OpenParen,
        tokens[3] == SpecToken::CloseParen,
        tokens[4] == SpecToken::OpenBrace,
        written.is_prefix_of(behind(tokens, 5)),
        starts_with(behind(tokens, written.len() + 5), SpecToken::CloseBrace),
    ensures
        (seq![
            SpecToken::Keyword("int"@),
            SpecToken::Identifier(name),
            SpecToken::OpenParen,
            SpecToken::CloseParen,
            SpecToken::OpenBrace,
        ] + written + seq![SpecToken::CloseBrace]).is_prefix_of(tokens),
{
    let head = seq![
        SpecToken::Keyword("int"@),
        SpecToken::Identifier(name),
        SpecToken::OpenParen,
        SpecToken::CloseParen,
        SpecToken::OpenBrace,
    ];
    assert(head =~= tokens.subrange(0, 5));
    lemma_prefix_then(head, written, tokens);
    lemma_prefix_then_one(head + written, SpecToken::CloseBrace, tokens);
}

/// What the parser reads as a function is a written function.
#[verifier::rlimit(50)]
pub proof fn lemma_function_syntax(tokens: Seq<SpecToken>) -> (function: FunctionSyntax)
    requires
        parse_function_spec(tokens) is Some,
    ensures
        parse_function_spec(tokens) == Some((function.node(), function.tokens().len())),
        function.tokens().is_prefix_of(tokens),
{
    let statement = lemma_statement_syntax(behind(tokens, 5));
    let name = tokens[1]->Identifier_0;
    lemma_prefix_function(name, statement.tokens(), tokens);
    FunctionSyntax { name, statement }
}

/// The parser gives a program only for tokens that write a program of the
/// grammar, and only the program that those tokens mean.
pub proof fn lemma_parser_reads_only_syntax(tokens: Seq<SpecToken>)
    requires
        parse_program_spec(tokens) is Some,
    ensures
        exists|program: ProgramSyntax| #[trigger]
            program.tokens() == tokens && parse_program_spec(tokens) == Some(program.node()),
{
    let program = ProgramSyntax { function: lemma_function_syntax(tokens) };
    assert(program.tokens() =~= tokens);
}

/// Malformed input fails as a whole: where `tokens` is not what writes a
/// program of the grammar, be it for a token that is missing, wrong or left
/// over, the parser gives no result.
pub proof fn lemma_malformed_fails(tokens: Seq<SpecToken>)
    requires
        forall|program: ProgramSyntax| #[trigger] program.tokens() != tokens,
    ensures
        parse_program_spec(tokens) is None,
{
    if parse_program_spec(tokens) is Some {
        lemma_parser_reads_only_syntax(tokens);
    }
}

/// The parser gives a result exactly for the token lists that write a
/// program of the grammar.
pub proof fn lemma_parses_exactly_the_grammar(tokens: Seq<SpecToken>)
    ensures
        parse_program_spec(tokens) is Some <==> exists|program: ProgramSyntax| #[trigger]
            program.tokens() == tokens,
{
    if parse_program_spec(tokens) is Some {
        lemma_parser_reads_only_syntax(tokens);
    }
    if exists|program: ProgramSyntax| #[trigger] program.tokens() == tokens {
        let program = choose|program: ProgramSyntax| #[trigger] program.tokens() == tokens;
        lemma_parser_reads_all_syntax(program);
    }
}

} // verus!
