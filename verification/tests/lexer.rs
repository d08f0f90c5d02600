use mini_cc::lexer::{is_keyword, lex, try_advance, Lexer, Token};
use regex::Regex;

fn lexer() -> Lexer {
    Lexer::new().expect("the patterns compile")
}

#[test]
fn test_try_advance() {
    let pattern = Regex::new(r"^\w+").unwrap();
    let source = "hello world foo";

    let (rest, token) =
        try_advance(source, &pattern, |s| Token::Keyword(s)).expect("Unable to advance pattern!");

    assert_eq!(rest, " world foo");
    assert_eq!(token, Token::Keyword("hello"));
}

#[test]
fn try_advance_gives_nothing_without_a_match() {
    let pattern = Regex::new(r"^[0-9]+").unwrap();
    assert!(try_advance("abc 12", &pattern, |s| Token::Identifier(s)).is_none());
}

#[test]
fn try_advance_takes_the_match_where_it_stands() {
    // Not anchored: the match starts behind the first bytes of the source.
    let pattern = Regex::new(r"[0-9]+").unwrap();
    let (rest, token) = try_advance("ab 12 cd", &pattern, |s| Token::Identifier(s)).unwrap();
    assert_eq!(token, Token::Identifier("12"));
    assert_eq!(rest, " cd");
}

#[test]
fn try_advance_cuts_at_character_boundaries() {
    let pattern = Regex::new(r"^\w+").unwrap();
    let (rest, token) = try_advance("h\u{e9}llo \u{4e16}", &pattern, |s| Token::Identifier(s)).unwrap();
    assert_eq!(token, Token::Identifier("h\u{e9}llo"));
    assert_eq!(rest, " \u{4e16}");
}

#[test]
fn lexer_is_available() {
    assert!(Lexer::new().is_some());
}

#[test]
fn lex_return_two() {
    let tokens = lex("int main() { return 2; }");
    assert_eq!(
        tokens,
        vec![
            Token::Keyword("int"),
            Token::Identifier("main"),
            Token::OpenParen,
            Token::CloseParen,
            Token::OpenBrace,
            Token::Keyword("return"),
            Token::IntegerLiteral(2),
            Token::Semicolon,
            Token::CloseBrace,
        ]
    );
}

#[test]
fn lex_empty_source() {
    assert_eq!(lex(""), Vec::<Token>::new());
    let (tokens, rest) = lexer().tokenize("");
    assert!(tokens.is_empty());
    assert_eq!(rest, "");
}

#[test]
fn lex_drops_whitespace() {
    assert_eq!(lex(" \t\n "), Vec::<Token>::new());
    assert_eq!(
        lex("\n  return\t1 ;\n"),
        vec![Token::Keyword("return"), Token::IntegerLiteral(1), Token::Semicolon]
    );
    let (_, rest) = lexer().tokenize(" \t\n ");
    assert_eq!(rest, "");
}

#[test]
fn lex_all_operators() {
    assert_eq!(
        lex("~!-+/*"),
        vec![
            Token::Operator("~"),
            Token::Operator("!"),
            Token::Operator("-"),
            Token::Operator("+"),
            Token::Operator("/"),
            Token::Operator("*"),
        ]
    );
}

#[test]
fn lex_punctuation() {
    assert_eq!(
        lex("{}();"),
        vec![
            Token::OpenBrace,
            Token::CloseBrace,
            Token::OpenParen,
            Token::CloseParen,
            Token::Semicolon,
        ]
    );
}

#[test]
fn lex_keeps_a_word_whole() {
    assert_eq!(lex("internal"), vec![Token::Identifier("internal")]);
    assert_eq!(lex("returned"), vec![Token::Identifier("returned")]);
    assert_eq!(lex("int2"), vec![Token::Identifier("int2")]);
    assert_eq!(lex("return_"), vec![Token::Identifier("return_")]);
    assert_eq!(lex("int"), vec![Token::Keyword("int")]);
    assert_eq!(lex("return"), vec![Token::Keyword("return")]);
    assert_eq!(lex("Int"), vec![Token::Identifier("Int")]);
}

#[test]
fn lex_splits_adjacent_tokens() {
    assert_eq!(
        lex("return(1+2);"),
        vec![
            Token::Keyword("return"),
            Token::OpenParen,
            Token::IntegerLiteral(1),
            Token::Operator("+"),
            Token::IntegerLiteral(2),
            Token::CloseParen,
            Token::Semicolon,
        ]
    );
    assert_eq!(lex("12ab"), vec![Token::IntegerLiteral(12), Token::Identifier("ab")]);
}

#[test]
fn lex_integer_literals() {
    assert_eq!(lex("0"), vec![Token::IntegerLiteral(0)]);
    assert_eq!(lex("007"), vec![Token::IntegerLiteral(7)]);
    assert_eq!(lex("18446744073709551615"), vec![Token::IntegerLiteral(u64::MAX)]);
}

#[test]
fn lex_stops_at_a_literal_that_does_not_fit() {
    let (tokens, rest) = lexer().tokenize("1 18446744073709551616 2");
    assert_eq!(tokens, vec![Token::IntegerLiteral(1)]);
    assert_eq!(rest, "18446744073709551616 2");
    assert_eq!(lex("1 18446744073709551616 2"), vec![Token::IntegerLiteral(1)]);
}

#[test]
fn lex_stops_at_unknown_input() {
    assert_eq!(lex("return 1 @ 2"), vec![Token::Keyword("return"), Token::IntegerLiteral(1)]);
    assert_eq!(lex("_x"), Vec::<Token>::new());
    assert_eq!(lex("a % b"), vec![Token::Identifier("a")]);
}

#[test]
fn tokenize_reports_what_is_left() {
    let (tokens, rest) = lexer().tokenize("return 1 @ 2");
    assert_eq!(tokens, vec![Token::Keyword("return"), Token::IntegerLiteral(1)]);
    assert_eq!(rest, "@ 2");
    let (tokens, rest) = lexer().tokenize("return 1;");
    assert_eq!(tokens.len(), 3);
    assert_eq!(rest, "");
}

#[test]
fn lex_unicode_words_and_spaces() {
    // `\w` and `\s` are Unicode classes.
    assert_eq!(lex("caf\u{e9}"), vec![Token::Identifier("caf\u{e9}")]);
    assert_eq!(lex("a\u{a0}b"), vec![Token::Identifier("a"), Token::Identifier("b")]);
    // A word has to start with an ASCII letter.
    assert_eq!(lex("\u{e9}t"), Vec::<Token>::new());
}

#[test]
fn next_token_takes_one_token() {
    let lexer = lexer();
    assert_eq!(lexer.next_token("  x"), Some(("x", Token::Whitespace("  "))));
    assert_eq!(lexer.next_token("int x"), Some((" x", Token::Keyword("int"))));
    assert_eq!(lexer.next_token("x1+2"), Some(("+2", Token::Identifier("x1"))));
    assert_eq!(lexer.next_token("-1"), Some(("1", Token::Operator("-"))));
    assert_eq!(lexer.next_token("42;"), Some((";", Token::IntegerLiteral(42))));
    assert_eq!(lexer.next_token("{}"), Some(("}", Token::OpenBrace)));
    assert_eq!(lexer.next_token("}"), Some(("", Token::CloseBrace)));
    assert_eq!(lexer.next_token("()"), Some((")", Token::OpenParen)));
    assert_eq!(lexer.next_token(")"), Some(("", Token::CloseParen)));
    assert_eq!(lexer.next_token(";"), Some(("", Token::Semicolon)));
    assert_eq!(lexer.next_token("#"), None);
    assert_eq!(lexer.next_token(""), None);
}

#[test]
fn lexing_is_repeatable() {
    let source = "int main() { return 3 * (3 + 5 * 2); }";
    assert_eq!(lex(source), lex(source));
    assert_eq!(lexer().tokenize(source), lexer().tokenize(source));
}

#[test]
fn keywords() {
    assert!(is_keyword("int"));
    assert!(is_keyword("return"));
    assert!(!is_keyword("Int"));
    assert!(!is_keyword("in"));
    assert!(!is_keyword("returns"));
    assert!(!is_keyword(""));
}

#[test]
fn token_equality() {
    assert_eq!(Token::Keyword("int"), Token::Keyword("int"));
    assert_ne!(Token::Keyword("int"), Token::Identifier("int"));
    assert_ne!(Token::Keyword("int"), Token::Keyword("return"));
    assert_ne!(Token::Operator("+"), Token::Operator("-"));
    assert_eq!(Token::Whitespace(" "), Token::Whitespace(" "));
    assert_ne!(Token::Whitespace(" "), Token::Whitespace("  "));
    assert_eq!(Token::IntegerLiteral(3), Token::IntegerLiteral(3));
    assert_ne!(Token::IntegerLiteral(3), Token::IntegerLiteral(4));
    assert_ne!(Token::OpenBrace, Token::CloseBrace);
    assert_ne!(Token::OpenParen, Token::CloseParen);
    assert_eq!(Token::Semicolon, Token::Semicolon);
    assert_ne!(Token::Semicolon, Token::OpenParen);
}
