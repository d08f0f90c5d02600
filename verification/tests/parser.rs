use mini_cc::lexer::{lex, Token};
use mini_cc::parser::{
    parse_constant, parse_expression, parse_factor, parse_function, parse_paren_expression,
    parse_program, parse_statement, parse_term, parse_unary_expression, simple_eat, AstExpression,
    AstFunction, AstProgram, AstStatement, BinaryOperator, UnaryOperator,
};

fn constant(value: u64) -> AstExpression {
    AstExpression::Constant { value }
}

fn unary(operator: UnaryOperator) -> AstExpression {
    AstExpression::UnaryOperator { operator: Box::new(operator) }
}

fn binary(operator: BinaryOperator) -> AstExpression {
    AstExpression::BinaryOperator { operator: Box::new(operator) }
}

fn negation(expression: AstExpression) -> AstExpression {
    unary(UnaryOperator::Negation { expression })
}

fn complement(expression: AstExpression) -> AstExpression {
    unary(UnaryOperator::BitwiseComplement { expression })
}

fn logical_negation(expression: AstExpression) -> AstExpression {
    unary(UnaryOperator::LogicalNegation { expression })
}

fn addition(a: AstExpression, b: AstExpression) -> AstExpression {
    binary(BinaryOperator::Addition { a, b })
}

fn subtraction(a: AstExpression, b: AstExpression) -> AstExpression {
    binary(BinaryOperator::Subtraction { a, b })
}

fn multiplication(a: AstExpression, b: AstExpression) -> AstExpression {
    binary(BinaryOperator::Multiplication { a, b })
}

fn division(a: AstExpression, b: AstExpression) -> AstExpression {
    binary(BinaryOperator::Division { a, b })
}

/// Parses `source` as one expression that takes all the tokens.
fn expression(source: &str) -> Option<AstExpression> {
    let tokens = lex(source);
    match parse_expression(&tokens) {
        Some((rest, expression)) if rest.is_empty() => Some(expression),
        _ => None,
    }
}

fn program(source: &str) -> Option<AstExpression> {
    let tokens = lex(source);
    parse_program(&tokens).map(|program| match program.function.statement {
        AstStatement::Return { expression } => expression,
    })
}

#[test]
fn subtraction_is_left_associative() {
    assert_eq!(
        expression("8 - 4 - 2"),
        Some(subtraction(subtraction(constant(8), constant(4)), constant(2)))
    );
    assert_ne!(
        expression("8 - 4 - 2"),
        Some(subtraction(constant(8), subtraction(constant(4), constant(2))))
    );
}

#[test]
fn division_is_left_associative() {
    assert_eq!(
        expression("8 / 4 / 2"),
        Some(division(division(constant(8), constant(4)), constant(2)))
    );
    assert_eq!(
        expression("8 / 4 * 2"),
        Some(multiplication(division(constant(8), constant(4)), constant(2)))
    );
    assert_eq!(
        expression("1 + 2 - 3 + 4"),
        Some(addition(subtraction(addition(constant(1), constant(2)), constant(3)), constant(4)))
    );
}

#[test]
fn multiplication_binds_tighter_than_addition() {
    assert_eq!(
        expression("2 + 3 * 4"),
        Some(addition(constant(2), multiplication(constant(3), constant(4))))
    );
    assert_eq!(
        expression("2 * 3 + 4"),
        Some(addition(multiplication(constant(2), constant(3)), constant(4)))
    );
    assert_eq!(
        expression("2 - 6 / 3"),
        Some(subtraction(constant(2), division(constant(6), constant(3))))
    );
}

#[test]
fn unary_operators_nest_in_source_order() {
    assert_eq!(
        expression("~-!~!3"),
        Some(complement(negation(logical_negation(complement(logical_negation(constant(3)))))))
    );
}

#[test]
fn unary_operator_binds_tighter_than_binary() {
    assert_eq!(expression("-2 * 3"), Some(multiplication(negation(constant(2)), constant(3))));
    assert_eq!(expression("2 - -3"), Some(subtraction(constant(2), negation(constant(3)))));
    assert_eq!(expression("2--3"), Some(subtraction(constant(2), negation(constant(3)))));
    assert_eq!(expression("!1 + ~2"), Some(addition(logical_negation(constant(1)), complement(constant(2)))));
}

#[test]
fn parentheses_group() {
    assert_eq!(
        expression("(2 + 3) * 4"),
        Some(multiplication(addition(constant(2), constant(3)), constant(4)))
    );
    assert_eq!(
        expression("8 - (4 - 2)"),
        Some(subtraction(constant(8), subtraction(constant(4), constant(2))))
    );
    assert_eq!(expression("((7))"), Some(constant(7)));
    assert_eq!(expression("-(1 + 2)"), Some(negation(addition(constant(1), constant(2)))));
    assert_eq!(
        expression("3 * (3 + 5 * 2)"),
        Some(multiplication(
            constant(3),
            addition(constant(3), multiplication(constant(5), constant(2)))
        ))
    );
}

#[test]
fn parse_return_two() {
    let tokens = lex("int main() { return 2; }");
    assert_eq!(
        parse_program(&tokens),
        Some(AstProgram {
            function: AstFunction {
                name: "main",
                statement: AstStatement::Return { expression: constant(2) },
            },
        })
    );
}

#[test]
fn parse_program_from_tokens() {
    let tokens = [
        Token::Keyword("int"),
        Token::Identifier("f"),
        Token::OpenParen,
        Token::CloseParen,
        Token::OpenBrace,
        Token::Keyword("return"),
        Token::Operator("-"),
        Token::IntegerLiteral(5),
        Token::Semicolon,
        Token::CloseBrace,
    ];
    assert_eq!(
        parse_program(&tokens),
        Some(AstProgram {
            function: AstFunction {
                name: "f",
                statement: AstStatement::Return { expression: negation(constant(5)) },
            },
        })
    );
}

#[test]
fn parsing_is_repeatable() {
    let tokens = lex("int main() { return 3 * (3 + 5 * 2); }");
    assert_eq!(parse_program(&tokens), parse_program(&tokens));
    assert!(parse_program(&tokens).is_some());
}

#[test]
fn tokens_behind_the_function_fail() {
    assert_eq!(program("int main() { return 2; }"), Some(constant(2)));
    assert_eq!(program("int main() { return 2; } int"), None);
    assert_eq!(program("int main() { return 2; } }"), None);
    assert_eq!(program("int main() { return 2; } int main() { return 2; }"), None);
    let tokens = [
        Token::Keyword("int"),
        Token::Identifier("main"),
        Token::OpenParen,
        Token::CloseParen,
        Token::OpenBrace,
        Token::Keyword("return"),
        Token::IntegerLiteral(2),
        Token::Semicolon,
        Token::CloseBrace,
        Token::Semicolon,
    ];
    assert_eq!(parse_program(&tokens), None);
    assert!(parse_program(&tokens[..9]).is_some());
    // The function itself is read; what is left shows behind it.
    assert_eq!(parse_function(&tokens).map(|(rest, _)| rest.len()), Some(1));
}

#[test]
fn missing_semicolon_fails() {
    assert_eq!(program("int main() { return 2 }"), None);
}

#[test]
fn unbalanced_parentheses_fail() {
    assert_eq!(program("int main() { return (2; }"), None);
    assert_eq!(program("int main() { return 2); }"), None);
    assert_eq!(program("int main() { return ((2); }"), None);
    assert_eq!(program("int main( { return 2; }"), None);
}

#[test]
fn missing_return_keyword_fails() {
    assert_eq!(program("int main() { 2; }"), None);
    assert_eq!(program("int main() { returns 2; }"), None);
}

#[test]
fn malformed_function_fails() {
    assert_eq!(program(""), None);
    assert_eq!(program("int"), None);
    assert_eq!(program("main() { return 2; }"), None);
    assert_eq!(program("int () { return 2; }"), None);
    assert_eq!(program("int int() { return 2; }"), None);
    assert_eq!(program("int main) { return 2; }"), None);
    assert_eq!(program("int main() return 2; }"), None);
    assert_eq!(program("int main() { return 2;"), None);
    assert_eq!(program("return main() { return 2; }"), None);
}

#[test]
fn malformed_expression_fails() {
    assert_eq!(program("int main() { return; }"), None);
    assert_eq!(program("int main() { return 2 3; }"), None);
    assert_eq!(program("int main() { return 2 +; }"), None);
    assert_eq!(program("int main() { return 2 * ; }"), None);
    assert_eq!(program("int main() { return * 2; }"), None);
    assert_eq!(program("int main() { return +2; }"), None);
    assert_eq!(program("int main() { return /2; }"), None);
    assert_eq!(program("int main() { return (); }"), None);
    assert_eq!(program("int main() { return x; }"), None);
    assert_eq!(program("int main() { return -; }"), None);
}

#[test]
fn unknown_operator_fails() {
    let tokens = [Token::Operator("%"), Token::IntegerLiteral(2)];
    assert_eq!(parse_unary_expression(&tokens), None);
    assert_eq!(parse_factor(&tokens), None);
    let tokens = [Token::Operator("+"), Token::IntegerLiteral(2)];
    assert_eq!(parse_unary_expression(&tokens), None);
    assert_eq!(parse_expression(&tokens), None);
}

#[test]
fn an_unknown_operator_ends_an_expression() {
    let tokens = [Token::IntegerLiteral(1), Token::Operator("%"), Token::IntegerLiteral(2)];
    let (rest, parsed) = parse_expression(&tokens).unwrap();
    assert_eq!(parsed, constant(1));
    assert_eq!(rest, &tokens[1..]);
}

#[test]
fn whitespace_tokens_are_no_part_of_the_grammar() {
    let tokens = [Token::Whitespace(" "), Token::IntegerLiteral(2)];
    assert_eq!(parse_expression(&tokens), None);
}

#[test]
fn simple_eat_takes_an_equal_token() {
    let tokens = [Token::Keyword("int"), Token::Identifier("main")];
    let (rest, token) = simple_eat(&tokens, Token::Keyword("int")).unwrap();
    assert_eq!(rest, &tokens[1..]);
    assert_eq!(*token, Token::Keyword("int"));
    assert!(simple_eat(&tokens, Token::Keyword("return")).is_none());
    assert!(simple_eat(&tokens, Token::Identifier("int")).is_none());
    assert!(simple_eat(&tokens, Token::OpenParen).is_none());
    assert!(simple_eat(&[], Token::OpenParen).is_none());
}

#[test]
fn parse_constant_takes_one_literal() {
    let tokens = [Token::IntegerLiteral(7), Token::IntegerLiteral(8)];
    assert_eq!(parse_constant(&tokens), Some((&tokens[1..], constant(7))));
    assert_eq!(parse_constant(&tokens[..0]), None);
    assert_eq!(parse_constant(&[Token::Semicolon]), None);
}

#[test]
fn parse_unary_expression_takes_a_sign_and_a_factor() {
    let tokens = [Token::Operator("!"), Token::IntegerLiteral(0), Token::Semicolon];
    assert_eq!(
        parse_unary_expression(&tokens),
        Some((&tokens[2..], logical_negation(constant(0))))
    );
    assert_eq!(parse_unary_expression(&tokens[1..]), None);
    assert_eq!(parse_unary_expression(&tokens[..1]), None);
}

#[test]
fn parse_paren_expression_needs_both_parentheses() {
    let tokens = lex("(1 + 2) * 3");
    assert_eq!(
        parse_paren_expression(&tokens),
        Some((&tokens[5..], addition(constant(1), constant(2))))
    );
    assert_eq!(parse_paren_expression(&tokens[1..]), None);
    assert_eq!(parse_paren_expression(&tokens[..4]), None);
}

#[test]
fn parse_factor_tries_parentheses_then_sign_then_literal() {
    let tokens = lex("(1) -2 3 ;");
    assert_eq!(parse_factor(&tokens), Some((&tokens[3..], constant(1))));
    assert_eq!(parse_factor(&tokens[3..]), Some((&tokens[5..], negation(constant(2)))));
    assert_eq!(parse_factor(&tokens[5..]), Some((&tokens[6..], constant(3))));
    assert_eq!(parse_factor(&tokens[6..]), None);
}

#[test]
fn parse_term_stops_before_an_additive_operator() {
    let tokens = lex("2 * 3 + 4");
    assert_eq!(
        parse_term(&tokens),
        Some((&tokens[3..], multiplication(constant(2), constant(3))))
    );
}

#[test]
fn parse_expression_leaves_what_follows() {
    let tokens = lex("1 + 2 ; 3");
    assert_eq!(
        parse_expression(&tokens),
        Some((&tokens[3..], addition(constant(1), constant(2))))
    );
}

#[test]
fn parse_statement_is_a_return() {
    let tokens = lex("return 1 + 2; }");
    assert_eq!(
        parse_statement(&tokens),
        Some((
            &tokens[5..],
            AstStatement::Return { expression: addition(constant(1), constant(2)) }
        ))
    );
    assert_eq!(parse_statement(&tokens[1..]), None);
}

#[test]
fn parse_function_gives_name_and_body() {
    let tokens = lex("int answer() { return 42; } int");
    assert_eq!(
        parse_function(&tokens),
        Some((
            &tokens[9..],
            AstFunction {
                name: "answer",
                statement: AstStatement::Return { expression: constant(42) },
            }
        ))
    );
}
