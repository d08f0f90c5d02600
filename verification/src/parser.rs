//! The parser: from tokens to the syntax tree, by recursive descent.
//!
//! ```text
//! program    ::= function
//! function   ::= "int" identifier "(" ")" "{" statement "}"
//! statement  ::= "return" expression ";"
//! expression ::= term { ("+" | "-") term }
//! term       ::= factor { ("*" | "/") factor }
//! factor     ::= "(" expression ")" | unary_op factor | integer_literal
//! unary_op   ::= "~" | "!" | "-"
//! ```
//!
//! Each rule has a function that reads it from the front of a token list and
//! gives the tokens behind it together with the node, or `None` where the
//! tokens do not start with the rule. Binary operators of one level group to
//! the left. There is no other error than the absence of a result.

use vstd::prelude::*;
use crate::lexer::{lemma_token_views_skip, token_views, SpecToken, Token};
use crate::text::str_eq;

verus! {

/// A whole program: exactly one function.
#[derive(Debug, PartialEq, Eq)]
pub struct AstProgram<'a> {
    pub function: AstFunction<'a>,
}

/// A function definition: its name and the one statement of its body.
#[derive(Debug, PartialEq, Eq)]
pub struct AstFunction<'a> {
    pub name: &'a str,
    pub statement: AstStatement,
}

/// The application of a unary operator to its operand.
#[derive(Debug, PartialEq, Eq)]
pub enum UnaryOperator {
    Negation { expression: AstExpression },
    BitwiseComplement { expression: AstExpression },
    LogicalNegation { expression: AstExpression },
}

/// The application of a binary operator to its operands, `a` on the left.
#[derive(Debug, PartialEq, Eq)]
pub enum BinaryOperator {
    Addition { a: AstExpression, b: AstExpression },
    Subtraction { a: AstExpression, b: AstExpression },
    Multiplication { a: AstExpression, b: AstExpression },
    Division { a: AstExpression, b: AstExpression },
}

/// An expression: a constant or an operator applied to smaller expressions.
#[allow(inconsistent_fields)]
#[derive(Debug, PartialEq, Eq)]
pub enum AstExpression {
    Constant { value: u64 },
    UnaryOperator { operator: Box<UnaryOperator> },
    BinaryOperator { operator: Box<BinaryOperator> },
}

/// A statement.
#[derive(Debug, PartialEq, Eq)]
pub enum AstStatement {
    Return { expression: AstExpression },
}

/// What a function is, with its name as a sequence of characters.
pub struct SpecFunction {
    pub name: Seq<char>,
    pub statement: AstStatement,
}

/// What a program is: its one function.
pub struct SpecProgram {
    pub function: SpecFunction,
}

impl<'a> View for AstFunction<'a> {
    type V = SpecFunction;

    open spec fn view(&self) -> SpecFunction {
        SpecFunction { name: self.name@, statement: self.statement }
    }
}

impl<'a> View for AstProgram<'a> {
    type V = SpecProgram;

    open spec fn view(&self) -> SpecProgram {
        SpecProgram { function: self.function@ }
    }
}

/// A list of tokens that a parser reads from its front.
pub type TokenStream<'a> = &'a [Token<'a>];

/// What a rule reads from the front of a token list: the node and the number
/// of tokens that it takes.
pub type Parsed<Node> = Option<(Node, nat)>;

/// The tokens behind the first `n`.
pub open spec fn behind(tokens: Seq<SpecToken>, n: nat) -> Seq<SpecToken> {
    if n <= tokens.len() {
        tokens.skip(n as int)
    } else {
        Seq::empty()
    }
}

/// Tells whether `tokens` starts with `token`.
pub open spec fn starts_with(tokens: Seq<SpecToken>, token: SpecToken) -> bool {
    tokens.len() > 0 && tokens[0] == token
}

/// The text of the operator that `tokens` starts with.
pub open spec fn leading_operator(tokens: Seq<SpecToken>) -> Option<Seq<char>> {
    if tokens.len() > 0 {
        match tokens[0] {
            SpecToken::Operator(text) => Some(text),
            _ => None,
        }
    } else {
        None
    }
}

/// Tells whether `operator` is one of the unary operators `~`, `!` and `-`.
pub open spec fn is_unary(operator: Seq<char>) -> bool {
    operator == "~"@ || operator == "!"@ || operator == "-"@
}

/// Tells whether `operator` is `*` or `/`.
pub open spec fn is_multiplicative(operator: Seq<char>) -> bool {
    operator == "*"@ || operator == "/"@
}

/// Tells whether `operator` is `+` or `-`.
pub open spec fn is_additive(operator: Seq<char>) -> bool {
    operator == "+"@ || operator == "-"@
}

/// The node of a unary operator applied to `expression`.
pub open spec fn unary_node(operator: Seq<char>, expression: AstExpression) -> AstExpression
    recommends
        is_unary(operator),
{
    AstExpression::UnaryOperator {
        operator: Box::new(
            if operator == "~"@ {
                UnaryOperator::BitwiseComplement { expression }
            } else if operator == "!"@ {
                UnaryOperator::LogicalNegation { expression }
            } else {
                UnaryOperator::Negation { expression }
            },
        ),
    }
}

/// The node of `*` or `/` applied to `a` on the left and `b` on the right.
pub open spec fn multiplicative_node(
    operator: Seq<char>,
    a: AstExpression,
    b: AstExpression,
) -> AstExpression
    recommends
        is_multiplicative(operator),
{
    AstExpression::BinaryOperator {
        operator: Box::new(
            if operator == "*"@ {
                BinaryOperator::Multiplication { a, b }
            } else {
                BinaryOperator::Division { a, b }
            },
        ),
    }
}

/// The node of `+` or `-` applied to `a` on the left and `b` on the right.
pub open spec fn additive_node(
    operator: Seq<char>,
    a: AstExpression,
    b: AstExpression,
) -> AstExpression
    recommends
        is_additive(operator),
{
    AstExpression::BinaryOperator {
        operator: Box::new(
            if operator == "+"@ {
                BinaryOperator::Addition { a, b }
            } else {
                BinaryOperator::Subtraction { a, b }
            },
        ),
    }
}

/// `constant ::= integer_literal`
pub open spec fn parse_constant_spec(tokens: Seq<SpecToken>) -> Parsed<AstExpression> {
    if tokens.len() > 0 {
        match tokens[0] {
            SpecToken::IntegerLiteral(value) => Some((AstExpression::Constant { value }, 1)),
            _ => None,
        }
    } else {
        None
    }
}

/// `unary_expression ::= ("~" | "!" | "-") factor`. Any other operator in
/// the place of a factor is a failure.
pub open spec fn parse_unary_expression_spec(tokens: Seq<SpecToken>) -> Parsed<AstExpression>
    decreases tokens.len(), 0int,
{
    match leading_operator(tokens) {
        Some(operator) => if is_unary(operator) {
            match parse_factor_spec(behind(tokens, 1)) {
                Some((expression, n)) => Some((unary_node(operator, expression), n + 1)),
                None => None,
            }
        } else {
            None
        },
        None => None,
    }
}

/// `paren_expression ::= "(" expression ")"`
pub open spec fn parse_paren_expression_spec(tokens: Seq<SpecToken>) -> Parsed<AstExpression>
    decreases tokens.len(), 0int,
{
    if starts_with(tokens, SpecToken::OpenParen) {
        match parse_expression_spec(behind(tokens, 1)) {
            Some((expression, n)) => if starts_with(behind(tokens, n + 1), SpecToken::CloseParen) {
                Some((expression, n + 2))
            } else {
                None
            },
            None => None,
        }
    } else {
        None
    }
}

/// `factor ::= paren_expression | unary_expression | constant`, the first
/// of the three that reads anything.
pub open spec fn parse_factor_spec(tokens: Seq<SpecToken>) -> Parsed<AstExpression>
    decreases tokens.len(), 1int,
{
    if parse_paren_expression_spec(tokens) is Some {
        parse_paren_expression_spec(tokens)
    } else if parse_unary_expression_spec(tokens) is Some {
        parse_unary_expression_spec(tokens)
    } else {
        parse_constant_spec(tokens)
    }
}

/// `{ ("*" | "/") factor }` behind a term that has been read as `left`: each
/// further factor becomes the right operand of a node whose left operand is
/// all that was read before it.
pub open spec fn term_rest(left: AstExpression, tokens: Seq<SpecToken>) -> Parsed<AstExpression>
    decreases tokens.len(), 2int,
{
    match leading_operator(tokens) {
        Some(operator) => if is_multiplicative(operator) {
            match parse_factor_spec(behind(tokens, 1)) {
                Some((right, n)) => match term_rest(
                    multiplicative_node(operator, left, right),
                    behind(tokens, n + 1),
                ) {
                    Some((node, m)) => Some((node, n + 1 + m)),
                    None => None,
                },
                None => None,
            }
        } else {
            Some((left, 0))
        },
        None => Some((left, 0)),
    }
}

/// `term ::= factor { ("*" | "/") factor }`
pub open spec fn parse_term_spec(tokens: Seq<SpecToken>) -> Parsed<AstExpression>
    decreases tokens.len(), 3int,
{
    match parse_factor_spec(tokens) {
        Some((first, n)) => match term_rest(first, behind(tokens, n)) {
            Some((node, m)) => Some((node, n + m)),
            None => None,
        },
        None => None,
    }
}

/// `{ ("+" | "-") term }` behind an expression that has been read as `left`.
pub open spec fn expression_rest(left: AstExpression, tokens: Seq<SpecToken>) -> Parsed<
    AstExpression,
>
    decreases tokens.len(), 4int,
{
    match leading_operator(tokens) {
        Some(operator) => if is_additive(operator) {
            match parse_term_spec(behind(tokens, 1)) {
                Some((right, n)) => match expression_rest(
                    additive_node(operator, left, right),
                    behind(tokens, n + 1),
                ) {
                    Some((node, m)) => Some((node, n + 1 + m)),
                    None => None,
                },
                None => None,
            }
        } else {
            Some((left, 0))
        },
        None => Some((left, 0)),
    }
}

/// `expression ::= term { ("+" | "-") term }`
pub open spec fn parse_expression_spec(tokens: Seq<SpecToken>) -> Parsed<AstExpression>
    decreases tokens.len(), 5int,
{
    match parse_term_spec(tokens) {
        Some((first, n)) => match expression_rest(first, behind(tokens, n)) {
            Some((node, m)) => Some((node, n + m)),
            None => None,
        },
        None => None,
    }
}

/// `statement ::= "return" expression ";"`
pub open spec fn parse_statement_spec(tokens: Seq<SpecToken>) -> Parsed<AstStatement> {
    if starts_with(tokens, SpecToken::Keyword("return"@)) {
        match parse_expression_spec(behind(tokens, 1)) {
            Some((expression, n)) => if starts_with(behind(tokens, n + 1), SpecToken::Semicolon) {
                Some((AstStatement::Return { expression }, n + 2))
            } else {
                None
            },
            None => None,
        }
    } else {
        None
    }
}

/// `function ::= "int" identifier "(" ")" "{" statement "}"`
pub open spec fn parse_function_spec(tokens: Seq<SpecToken>) -> Parsed<SpecFunction> {
    if tokens.len() >= 5 && tokens[0] == SpecToken::Keyword("int"@) && tokens[2]
        == SpecToken::OpenParen && tokens[3] == SpecToken::CloseParen && tokens[4]
        == SpecToken::OpenBrace {
        match tokens[1] {
            SpecToken::Identifier(name) => match parse_statement_spec(behind(tokens, 5)) {
                Some((statement, n)) => if starts_with(
                    behind(tokens, n + 5),
                    SpecToken::CloseBrace,
                ) {
                    Some((SpecFunction { name, statement }, n + 6))
                } else {
                    None
                },
                None => None,
            },
            _ => None,
        }
    } else {
        None
    }
}

/// `program ::= function`. The function has to take all the tokens: a
/// function with anything behind it is no program.
pub open spec fn parse_program_spec(tokens: Seq<SpecToken>) -> Option<SpecProgram> {
    match parse_function_spec(tokens) {
        Some((function, n)) => if n == tokens.len() {
            Some(SpecProgram { function })
        } else {
            None
        },
        None => None,
    }
}

/// Tells whether `rest` is what is left of `tokens` behind the first `n`.
#[verifier::opaque]
pub open spec fn left_behind<'a>(tokens: Seq<Token<'a>>, rest: Seq<Token<'a>>, n: nat) -> bool {
    n <= tokens.len() && rest == tokens.skip(n as int)
}

/// Tells whether `parsed`, what a parser gave for `tokens`, is what
/// `expected` asks for: the same node, and behind it the tokens that are left
/// when the first `n` are taken.
pub open spec fn reads<'a, Node>(
    tokens: Seq<Token<'a>>,
    parsed: Option<(TokenStream<'a>, Node)>,
    expected: Parsed<Node>,
) -> bool {
    match expected {
        Some((node, n)) => parsed matches Some((rest, found)) && found == node && left_behind(
            tokens,
            rest@,
            n,
        ),
        None => parsed is None,
    }
}

/// What [`left_behind`] says of lengths and of views.
pub proof fn lemma_left_behind<'a>(tokens: Seq<Token<'a>>, rest: Seq<Token<'a>>, n: nat)
    requires
        left_behind(tokens, rest, n),
    ensures
        n + rest.len() == tokens.len(),
        token_views(rest) == behind(token_views(tokens), n),
        rest.len() > 0 ==> rest[0] == tokens[n as int] && token_views(rest)[0] == token_views(
            tokens,
        )[n as int],
{
    reveal(left_behind);
    lemma_token_views_skip(tokens, n as int);
}

/// Taking `n` tokens and then `m` is taking `n + m`.
pub proof fn lemma_left_behind_twice<'a>(
    tokens: Seq<Token<'a>>,
    middle: Seq<Token<'a>>,
    n: nat,
    rest: Seq<Token<'a>>,
    m: nat,
)
    requires
        left_behind(tokens, middle, n),
        left_behind(middle, rest, m),
    ensures
        left_behind(tokens, rest, n + m),
{
    reveal(left_behind);
    assert(tokens.skip(n as int).skip(m as int) =~= tokens.skip((n + m) as int));
}

/// The tokens behind the first one.
fn behind_first<'a>(tokens: TokenStream<'a>) -> (rest: TokenStream<'a>)
    requires
        tokens@.len() > 0,
    ensures
        left_behind(tokens@, rest@, 1),
{
    reveal(left_behind);
    &tokens[1..tokens.len()]
}

/// Tries to consume a token by equality, yielding that token and the rest of
/// the token stream.
pub fn simple_eat<'a>(tokens: TokenStream<'a>, eat_token: Token<'a>) -> (eaten: Option<
    (TokenStream<'a>, &'a Token<'a>),
>)
    ensures
        starts_with(token_views(tokens@), eat_token@) ==> (eaten matches Some((rest, token))
            && left_behind(tokens@, rest@, 1) && *token == tokens@[0]),
        !starts_with(token_views(tokens@), eat_token@) ==> eaten is None,
{
    match tokens.first() {
        Some(token) => {
            if *token == eat_token {
                Some((behind_first(tokens), token))
            } else {
                None
            }
        },
        None => None,
    }
}

/// `constant ::= integer_literal`
pub fn parse_constant<'a>(tokens: TokenStream<'a>) -> (parsed: Option<
    (TokenStream<'a>, AstExpression),
>)
    ensures
        reads(tokens@, parsed, parse_constant_spec(token_views(tokens@))),
{
    let value = match tokens.first()? {
        Token::IntegerLiteral(value) => *value,
        _ => return None,
    };
    Some((behind_first(tokens), AstExpression::Constant { value }))
}

/// `unary_expression ::= ("~" | "!" | "-") factor`
#[verifier::rlimit(50)]
pub fn parse_unary_expression<'a>(tokens: TokenStream<'a>) -> (parsed: Option<
    (TokenStream<'a>, AstExpression),
>)
    ensures
        reads(tokens@, parsed, parse_unary_expression_spec(token_views(tokens@))),
    decreases tokens@.len(), 0int,
{
    let operator = match tokens.first()? {
        Token::Operator(operator) => *operator,
        _ => return None,
    };
    let operand = behind_first(tokens);
    proof {
        lemma_left_behind(tokens@, operand@, 1);
    }
    let (rest, expression) = parse_factor(operand)?;
    proof {
        lemma_left_behind_twice(
            tokens@,
            operand@,
            1,
            rest@,
            parse_factor_spec(token_views(operand@)).unwrap().1,
        );
    }
    let node = if str_eq(operator, "~") {
        UnaryOperator::BitwiseComplement { expression }
    } else if str_eq(operator, "!") {
        UnaryOperator::LogicalNegation { expression }
    } else if str_eq(operator, "-") {
        UnaryOperator::Negation { expression }
    } else {
        return None;
    };
    Some((rest, AstExpression::UnaryOperator { operator: Box::new(node) }))
}

/// `paren_expression ::= "(" expression ")"`
#[verifier::rlimit(50)]
pub fn parse_paren_expression<'a>(tokens: TokenStream<'a>) -> (parsed: Option<
    (TokenStream<'a>, AstExpression),
>)
    ensures
        reads(tokens@, parsed, parse_paren_expression_spec(token_views(tokens@))),
    decreases tokens@.len(), 0int,
{
    let (inner, _) = simple_eat(tokens, Token::OpenParen)?;
    proof {
        lemma_left_behind(tokens@, inner@, 1);
    }
    let (closing, expression) = parse_expression(inner)?;
    let ghost n = parse_expression_spec(token_views(inner@)).unwrap().1;
    proof {
        lemma_left_behind_twice(tokens@, inner@, 1, closing@, n);
        lemma_left_behind(tokens@, closing@, n + 1);
    }
    let (rest, _) = simple_eat(closing, Token::CloseParen)?;
    proof {
        lemma_left_behind_twice(tokens@, closing@, n + 1, rest@, 1);
    }
    Some((rest, expression))
}

/// `factor ::= paren_expression | unary_expression | constant`
pub fn parse_factor<'a>(tokens: TokenStream<'a>) -> (parsed: Option<
    (TokenStream<'a>, AstExpression),
>)
    ensures
        reads(tokens@, parsed, parse_factor_spec(token_views(tokens@))),
    decreases tokens@.len(), 1int,
{
    let paren = parse_paren_expression(tokens);
    if paren.is_some() {
        return paren;
    }
    let unary = parse_unary_expression(tokens);
    if unary.is_some() {
        return unary;
    }
    parse_constant(tokens)
}

/// `term ::= factor { ("*" | "/") factor }`
#[verifier::rlimit(50)]
pub fn parse_term<'a>(tokens: TokenStream<'a>) -> (parsed: Option<
    (TokenStream<'a>, AstExpression),
>)
    ensures
        reads(tokens@, parsed, parse_term_spec(token_views(tokens@))),
    decreases tokens@.len(), 3int,
{
    let (mut rest, mut node) = parse_factor(tokens)?;
    let ghost mut taken: nat = parse_factor_spec(token_views(tokens@)).unwrap().1;
    proof {
        lemma_left_behind(tokens@, rest@, taken);
    }
    loop
        invariant
            left_behind(tokens@, rest@, taken),
            parse_term_spec(token_views(tokens@)) == match term_rest(node, token_views(rest@)) {
                Some((whole, m)) => Some((whole, taken + m)),
                None => None,
            },
        ensures
            term_rest(node, token_views(rest@)) == Some((node, 0nat)),
        decreases rest@.len(),
    {
        let operator = match rest.first() {
            Some(Token::Operator(operator)) => *operator,
            _ => break ,
        };
        let first = str_eq(operator, "*");
        if !first && !str_eq(operator, "/") {
            break ;
        }
        let operand = behind_first(rest);
        proof {
            lemma_left_behind(rest@, operand@, 1);
            lemma_left_behind(tokens@, rest@, taken);
        }
        let (next, right) = match parse_factor(operand) {
            Some(read) => read,
            None => return None,
        };
        proof {
            let n = parse_factor_spec(token_views(operand@)).unwrap().1;
            lemma_left_behind_twice(rest@, operand@, 1, next@, n);
            lemma_left_behind(rest@, next@, n + 1);
            lemma_left_behind_twice(tokens@, rest@, taken, next@, n + 1);
            taken = taken + n + 1;
        }
        let inner = if first {
            BinaryOperator::Multiplication { a: node, b: right }
        } else {
            BinaryOperator::Division { a: node, b: right }
        };
        node = AstExpression::BinaryOperator { operator: Box::new(inner) };
        rest = next;
    }
    Some((rest, node))
}

/// `expression ::= term { ("+" | "-") term }`
#[verifier::rlimit(50)]
pub fn parse_expression<'a>(tokens: TokenStream<'a>) -> (parsed: Option<
    (TokenStream<'a>, AstExpression),
>)
    ensures
        reads(tokens@, parsed, parse_expression_spec(token_views(tokens@))),
    decreases tokens@.len(), 5int,
{
    let (mut rest, mut node) = parse_term(tokens)?;
    let ghost mut taken: nat = parse_term_spec(token_views(tokens@)).unwrap().1;
    proof {
        lemma_left_behind(tokens@, rest@, taken);
    }
    loop
        invariant
            left_behind(tokens@, rest@, taken),
            parse_expression_spec(token_views(tokens@)) == match expression_rest(node, token_views(rest@)) {
                Some((whole, m)) => Some((whole, taken + m)),
                None => None,
            },
        ensures
            expression_rest(node, token_views(rest@)) == Some((node, 0nat)),
        decreases rest@.len(),
    {
        let operator = match rest.first() {
            Some(Token::Operator(operator)) => *operator,
            _ => break ,
        };
        let first = str_eq(operator, "+");
        if !first && !str_eq(operator, "-") {
            break ;
        }
        let operand = behind_first(rest);
        proof {
            lemma_left_behind(rest@, operand@, 1);
            lemma_left_behind(tokens@, rest@, taken);
        }
        let (next, right) = match parse_term(operand) {
            Some(read) => read,
            None => return None,
        };
        proof {
            let n = parse_term_spec(token_views(operand@)).unwrap().1;
            lemma_left_behind_twice(rest@, operand@, 1, next@, n);
            lemma_left_behind(rest@, next@, n + 1);
            lemma_left_behind_twice(tokens@, rest@, taken, next@, n + 1);
            taken = taken + n + 1;
        }
        let inner = if first {
            BinaryOperator::Addition { a: node, b: right }
        } else {
            BinaryOperator::Subtraction { a: node, b: right }
        };
        node = AstExpression::BinaryOperator { operator: Box::new(inner) };
        rest = next;
    }
    Some((rest, node))
}

/// `statement ::= "return" expression ";"`
#[verifier::rlimit(50)]
pub fn parse_statement<'a>(tokens: TokenStream<'a>) -> (parsed: Option<
    (TokenStream<'a>, AstStatement),
>)
    ensures
        reads(tokens@, parsed, parse_statement_spec(token_views(tokens@))),
{
    let (inner, _) = simple_eat(tokens, Token::Keyword("return"))?;
    proof {
        lemma_left_behind(tokens@, inner@, 1);
    }
    let (closing, expression) = parse_expression(inner)?;
    let ghost n = parse_expression_spec(token_views(inner@)).unwrap().1;
    proof {
        lemma_left_behind_twice(tokens@, inner@, 1, closing@, n);
        lemma_left_behind(tokens@, closing@, n + 1);
    }
    let (rest, _) = simple_eat(closing, Token::Semicolon)?;
    proof {
        lemma_left_behind_twice(tokens@, closing@, n + 1, rest@, 1);
    }
    Some((rest, AstStatement::Return { expression }))
}

/// `function ::= "int" identifier "(" ")" "{" statement "}"`
#[verifier::rlimit(50)]
pub fn parse_function<'a>(tokens: TokenStream<'a>) -> (parsed: Option<
    (TokenStream<'a>, AstFunction<'a>),
>)
    ensures
        match parse_function_spec(token_views(tokens@)) {
            Some((function, n)) => parsed matches Some((rest, found)) && found@ == function
                && left_behind(tokens@, rest@, n),
            None => parsed is None,
        },
{
    let (named, _) = simple_eat(tokens, Token::Keyword("int"))?;
    proof {
        lemma_left_behind(tokens@, named@, 1);
    }
    let name = match named.first()? {
        Token::Identifier(name) => *name,
        _ => return None,
    };
    let opening = behind_first(named);
    proof {
        lemma_left_behind_twice(tokens@, named@, 1, opening@, 1);
        lemma_left_behind(tokens@, opening@, 2);
    }
    let (closing, _) = simple_eat(opening, Token::OpenParen)?;
    proof {
        lemma_left_behind_twice(tokens@, opening@, 2, closing@, 1);
        lemma_left_behind(tokens@, closing@, 3);
    }
    let (brace, _) = simple_eat(closing, Token::CloseParen)?;
    proof {
        lemma_left_behind_twice(tokens@, closing@, 3, brace@, 1);
        lemma_left_behind(tokens@, brace@, 4);
    }
    let (body, _) = simple_eat(brace, Token::OpenBrace)?;
    proof {
        lemma_left_behind_twice(tokens@, brace@, 4, body@, 1);
        lemma_left_behind(tokens@, body@, 5);
    }
    let (end, statement) = parse_statement(body)?;
    let ghost n = parse_statement_spec(token_views(body@)).unwrap().1;
    proof {
        lemma_left_behind_twice(tokens@, body@, 5, end@, n);
        lemma_left_behind(tokens@, end@, n + 5);
    }
    let (rest, _) = simple_eat(end, Token::CloseBrace)?;
    proof {
        lemma_left_behind_twice(tokens@, end@, n + 5, rest@, 1);
    }
    Some((rest, AstFunction { name, statement }))
}

/// `program ::= function`
///
/// Gives the program that the tokens, all of them, write, and `None` where
/// they write none: a token is missing or is not the one that the grammar
/// asks for, the tokens end too early, or tokens are left behind the
/// function's closing brace. There is no partial result.
pub fn parse_program<'a>(tokens: TokenStream<'a>) -> (program: Option<AstProgram<'a>>)
    ensures
        match parse_program_spec(token_views(tokens@)) {
            Some(expected) => program matches Some(found) && found@ == expected,
            None => program is None,
        },
{
    match parse_function(tokens) {
        Some((rest, function)) => {
            proof {
                lemma_left_behind(
                    tokens@,
                    rest@,
                    parse_function_spec(token_views(tokens@)).unwrap().1,
                );
            }
            if rest.len() == 0 {
                Some(AstProgram { function })
            } else {
                None
            }
        },
        None => None,
    }
}

/// Parsing depends on nothing but what the tokens are: token lists with
/// equal views give the same program, or both give none.
pub proof fn lemma_same_tokens_same_program<'a, 'b>(first: Seq<Token<'a>>, second: Seq<Token<'b>>)
    requires
        token_views(first) == token_views(second),
    ensures
        parse_program_spec(token_views(first)) == parse_program_spec(token_views(second)),
{
}

} // verus!
