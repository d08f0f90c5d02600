//! The lexer: from source text to tokens.
//!
//! At each position the lexer tries its patterns in a fixed order and takes
//! the first that matches. Whitespace is consumed and dropped. The scan ends
//! where no pattern matches; the tokens found up to there are the result.

use regex::Regex;
use vstd::prelude::*;
use vstd::std_specs::cmp::PartialEqSpecImpl;
use vstd::string::StringSliceAdditionalSpecFns;
use vstd::utf8::is_char_boundary;
use crate::pattern::{compile, compiled, find, leftmost_match};
use crate::text::{byte_len, cut, decimal_value, parse_decimal, str_eq, text_between, text_from};

verus! {

/// One lexical unit of the source text. The text payloads borrow from the
/// source.
#[derive(Debug)]
pub enum Token<'a> {
    Whitespace(&'a str),
    Keyword(&'a str),
    Identifier(&'a str),
    Operator(&'a str),
    IntegerLiteral(u64),
    OpenBrace,
    CloseBrace,
    OpenParen,
    CloseParen,
    Semicolon,
}

/// What a token is, with its text as a sequence of characters.
pub enum SpecToken {
    Whitespace(Seq<char>),
    Keyword(Seq<char>),
    Identifier(Seq<char>),
    Operator(Seq<char>),
    IntegerLiteral(u64),
    OpenBrace,
    CloseBrace,
    OpenParen,
    CloseParen,
    Semicolon,
}

impl<'a> View for Token<'a> {
    type V = SpecToken;

    open spec fn view(&self) -> SpecToken {
        match *self {
            Token::Whitespace(text) => SpecToken::Whitespace(text@),
            Token::Keyword(text) => SpecToken::Keyword(text@),
            Token::Identifier(text) => SpecToken::Identifier(text@),
            Token::Operator(text) => SpecToken::Operator(text@),
            Token::IntegerLiteral(value) => SpecToken::IntegerLiteral(value),
            Token::OpenBrace => SpecToken::OpenBrace,
            Token::CloseBrace => SpecToken::CloseBrace,
            Token::OpenParen => SpecToken::OpenParen,
            Token::CloseParen => SpecToken::CloseParen,
            Token::Semicolon => SpecToken::Semicolon,
        }
    }
}

impl<'a> PartialEq for Token<'a> {
    /// Two tokens are equal where they are of one kind and hold the same
    /// text or value.
    fn eq(&self, other: &Token<'a>) -> (equal: bool) {
        match (self, other) {
            (Token::Whitespace(a), Token::Whitespace(b)) => str_eq(a, b),
            (Token::Keyword(a), Token::Keyword(b)) => str_eq(a, b),
            (Token::Identifier(a), Token::Identifier(b)) => str_eq(a, b),
            (Token::Operator(a), Token::Operator(b)) => str_eq(a, b),
            (Token::IntegerLiteral(a), Token::IntegerLiteral(b)) => *a == *b,
            (Token::OpenBrace, Token::OpenBrace) => true,
            (Token::CloseBrace, Token::CloseBrace) => true,
            (Token::OpenParen, Token::OpenParen) => true,
            (Token::CloseParen, Token::CloseParen) => true,
            (Token::Semicolon, Token::Semicolon) => true,
            _ => false,
        }
    }
}

impl<'a> Eq for Token<'a> {

}

impl<'a> PartialEqSpecImpl for Token<'a> {
    open spec fn obeys_eq_spec() -> bool {
        true
    }

    open spec fn eq_spec(&self, other: &Token<'a>) -> bool {
        self@ == other@
    }
}

/// The views of a sequence of tokens, in order.
pub open spec fn token_views<'a>(tokens: Seq<Token<'a>>) -> Seq<SpecToken> {
    tokens.map_values(|token: Token<'a>| token@)
}

/// Taking views goes through skipping: the views of the tokens behind the
/// first `n` are the views behind the first `n`.
pub proof fn lemma_token_views_skip<'a>(tokens: Seq<Token<'a>>, n: int)
    requires
        0 <= n <= tokens.len(),
    ensures
        token_views(tokens.skip(n)) == token_views(tokens).skip(n),
{
    assert(token_views(tokens.skip(n)) =~= token_views(tokens).skip(n));
}

/// The pattern of a run of whitespace.
pub const PATTERN_WHITESPACE: &'static str = "^\\s+";

/// The pattern of a word: a letter, then letters, digits and underscores.
/// A word is a keyword or an identifier.
pub const PATTERN_WORD: &'static str = "^[a-zA-Z]\\w*";

/// The pattern of an operator.
pub const PATTERN_OPERATOR: &'static str = "^(~|!|-|\\+|/|\\*)";

/// The pattern of an integer literal.
pub const PATTERN_INTEGER_LITERAL: &'static str = "^[0-9]+";

/// The pattern of `{`.
pub const PATTERN_OPEN_BRACE: &'static str = "^\\{";

/// The pattern of `}`.
pub const PATTERN_CLOSE_BRACE: &'static str = "^\\}";

/// The pattern of `(`.
pub const PATTERN_OPEN_PAREN: &'static str = "^\\(";

/// The pattern of `)`.
pub const PATTERN_CLOSE_PAREN: &'static str = "^\\)";

/// The pattern of `;`.
pub const PATTERN_SEMICOLON: &'static str = "^;";

/// Tells whether `word` is one of the reserved words, `int` and `return`.
pub open spec fn is_reserved(word: Seq<char>) -> bool {
    word == "int"@ || word == "return"@
}

/// The token that a word makes: a keyword where the whole word is reserved,
/// an identifier otherwise.
pub open spec fn word_token(word: Seq<char>) -> SpecToken {
    if is_reserved(word) {
        SpecToken::Keyword(word)
    } else {
        SpecToken::Identifier(word)
    }
}

/// The text that `regex` matches first in `text`, and the text behind that
/// match; `None` where the expression does not match.
pub open spec fn advance(regex: Regex, text: Seq<char>) -> Option<(Seq<char>, Seq<char>)> {
    match leftmost_match(regex, text) {
        Some((start, end)) => Some(
            (text_between(text, start as int, end as int), text_from(text, end as int)),
        ),
        None => None,
    }
}

/// [`advance`] with the expression that `pattern` compiles to; `None` also
/// where `pattern` does not compile.
pub open spec fn advance_by(pattern: Seq<char>, text: Seq<char>) -> Option<
    (Seq<char>, Seq<char>),
> {
    match compiled(pattern) {
        Some(regex) => advance(regex, text),
        None => None,
    }
}

/// The token at the start of `text` where whitespace stands there, with the
/// text behind it.
pub open spec fn whitespace_at(text: Seq<char>) -> Option<(SpecToken, Seq<char>)> {
    match advance_by(PATTERN_WHITESPACE@, text) {
        Some((matched, rest)) => Some((SpecToken::Whitespace(matched), rest)),
        None => None,
    }
}

/// The keyword or identifier at the start of `text`, with the text behind
/// it. The whole word is matched before it is told apart: `internal` is one
/// identifier, not the keyword `int` and a rest.
pub open spec fn word_at(text: Seq<char>) -> Option<(SpecToken, Seq<char>)> {
    match advance_by(PATTERN_WORD@, text) {
        Some((matched, rest)) => Some((word_token(matched), rest)),
        None => None,
    }
}

/// The operator at the start of `text`, with the text behind it.
pub open spec fn operator_at(text: Seq<char>) -> Option<(SpecToken, Seq<char>)> {
    match advance_by(PATTERN_OPERATOR@, text) {
        Some((matched, rest)) => Some((SpecToken::Operator(matched), rest)),
        None => None,
    }
}

/// The integer literal at the start of `text`, with the text behind it. A
/// numeral whose value does not fit the token is no integer literal.
pub open spec fn integer_literal_at(text: Seq<char>) -> Option<(SpecToken, Seq<char>)> {
    match advance_by(PATTERN_INTEGER_LITERAL@, text) {
        Some((matched, rest)) => match decimal_value(matched) {
            Some(value) => Some((SpecToken::IntegerLiteral(value), rest)),
            None => None,
        },
        None => None,
    }
}

/// `token` where `pattern`, the pattern of a punctuation mark, matches at
/// the start of `text`, with the text behind the match.
pub open spec fn punctuation_at(pattern: Seq<char>, token: SpecToken, text: Seq<char>) -> Option<
    (SpecToken, Seq<char>),
> {
    match advance_by(pattern, text) {
        Some((_, rest)) => Some((token, rest)),
        None => None,
    }
}

/// The token at the start of `text` and the text behind it: what the first
/// alternative gives that gives anything. The order is whitespace, word,
/// operator, integer literal, `{`, `}`, `(`, `)`, `;`.
pub open spec fn next_token_spec(text: Seq<char>) -> Option<(SpecToken, Seq<char>)> {
    if whitespace_at(text) is Some {
        whitespace_at(text)
    } else if word_at(text) is Some {
        word_at(text)
    } else if operator_at(text) is Some {
        operator_at(text)
    } else if integer_literal_at(text) is Some {
        integer_literal_at(text)
    } else if punctuation_at(PATTERN_OPEN_BRACE@, SpecToken::OpenBrace, text) is Some {
        punctuation_at(PATTERN_OPEN_BRACE@, SpecToken::OpenBrace, text)
    } else if punctuation_at(PATTERN_CLOSE_BRACE@, SpecToken::CloseBrace, text) is Some {
        punctuation_at(PATTERN_CLOSE_BRACE@, SpecToken::CloseBrace, text)
    } else if punctuation_at(PATTERN_OPEN_PAREN@, SpecToken::OpenParen, text) is Some {
        punctuation_at(PATTERN_OPEN_PAREN@, SpecToken::OpenParen, text)
    } else if punctuation_at(PATTERN_CLOSE_PAREN@, SpecToken::CloseParen, text) is Some {
        punctuation_at(PATTERN_CLOSE_PAREN@, SpecToken::CloseParen, text)
    } else {
        punctuation_at(PATTERN_SEMICOLON@, SpecToken::Semicolon, text)
    }
}

/// The tokens of `text` and the text that is left where the scan ends.
///
/// The scan ends where no token starts, or where taking the token would
/// consume nothing. Whitespace is consumed but is no part of the result.
pub open spec fn scan_spec(text: Seq<char>) -> (Seq<SpecToken>, Seq<char>)
    decreases byte_len(text),
{
    match next_token_spec(text) {
        Some((token, rest)) => if byte_len(rest) < byte_len(text) {
            let (tokens, left) = scan_spec(rest);
            if token is Whitespace {
                (tokens, left)
            } else {
                (seq![token] + tokens, left)
            }
        } else {
            (Seq::empty(), text)
        },
        None => (Seq::empty(), text),
    }
}

/// Tells whether all the lexer's patterns compile.
pub open spec fn patterns_compile() -> bool {
    &&& compiled(PATTERN_WHITESPACE@) is Some
    &&& compiled(PATTERN_WORD@) is Some
    &&& compiled(PATTERN_OPERATOR@) is Some
    &&& compiled(PATTERN_INTEGER_LITERAL@) is Some
    &&& compiled(PATTERN_OPEN_BRACE@) is Some
    &&& compiled(PATTERN_CLOSE_BRACE@) is Some
    &&& compiled(PATTERN_OPEN_PAREN@) is Some
    &&& compiled(PATTERN_CLOSE_PAREN@) is Some
    &&& compiled(PATTERN_SEMICOLON@) is Some
}

/// The tokens of `text`: those of the scan, and none where a pattern does
/// not compile.
pub open spec fn lex_spec(text: Seq<char>) -> Seq<SpecToken> {
    if patterns_compile() {
        scan_spec(text).0
    } else {
        Seq::empty()
    }
}

/// Tries to match `pattern` against `source`. Where it matches, gives the
/// source behind the match and the token that `tokenizer`, which has to take
/// any text, makes of the matched text.
///
/// The match lies between two character boundaries of the source, and what
/// is given back is shorter than the source by the bytes up to the end of
/// the match. Where the match starts at the start of the source, as it does
/// for an anchored pattern, the matched text and what is given back make up
/// the source.
pub fn try_advance<'a, F>(source: &'a str, pattern: &Regex, tokenizer: F) -> (advanced: Option<
    (&'a str, Token<'a>),
>) where F: Fn(&'a str) -> Token<'a>
    requires
        forall|matched: &'a str| #[trigger] tokenizer.requires((matched,)),
    ensures
        match advance(*pattern, source@) {
            Some((text, rest)) => advanced matches Some((remaining, token)) && remaining@ == rest
                && exists|matched: &'a str|
                matched@ == text && #[trigger] tokenizer.ensures((matched,), token),
            None => advanced is None,
        },
        match leftmost_match(*pattern, source@) {
            Some((start, end)) => {
                &&& start <= end <= byte_len(source@)
                &&& is_char_boundary(source.spec_bytes(), start as int)
                &&& is_char_boundary(source.spec_bytes(), end as int)
                &&& advanced matches Some((remaining, _)) && byte_len(remaining@) == byte_len(
                    source@,
                ) - end
                &&& start == 0 ==> text_between(source@, 0, end as int) + text_from(
                    source@,
                    end as int,
                ) == source@
            },
            None => true,
        },
{
    match find(pattern, source) {
        Some((start, end)) => {
            let (matched, rest) = cut(source, start, end);
            let token = tokenizer(matched);
            assert(tokenizer.ensures((matched,), token));
            Some((rest, token))
        },
        None => None,
    }
}

/// Tells whether `word` is one of the reserved words.
pub fn is_keyword(word: &str) -> (reserved: bool)
    ensures
        reserved == is_reserved(word@),
{
    str_eq(word, "int") || str_eq(word, "return")
}

/// The lexer's patterns, compiled once.
pub struct Lexer {
    whitespace: Regex,
    word: Regex,
    operator: Regex,
    integer_literal: Regex,
    open_brace: Regex,
    close_brace: Regex,
    open_paren: Regex,
    close_paren: Regex,
    semicolon: Regex,
}

impl Lexer {
    /// Each field holds what its pattern compiles to.
    #[verifier::type_invariant]
    closed spec fn holds_patterns(&self) -> bool {
        &&& compiled(PATTERN_WHITESPACE@) == Some(self.whitespace)
        &&& compiled(PATTERN_WORD@) == Some(self.word)
        &&& compiled(PATTERN_OPERATOR@) == Some(self.operator)
        &&& compiled(PATTERN_INTEGER_LITERAL@) == Some(self.integer_literal)
        &&& compiled(PATTERN_OPEN_BRACE@) == Some(self.open_brace)
        &&& compiled(PATTERN_CLOSE_BRACE@) == Some(self.close_brace)
        &&& compiled(PATTERN_OPEN_PAREN@) == Some(self.open_paren)
        &&& compiled(PATTERN_CLOSE_PAREN@) == Some(self.close_paren)
        &&& compiled(PATTERN_SEMICOLON@) == Some(self.semicolon)
    }

    /// Compiles the patterns. There is a lexer exactly where all of them
    /// compile.
    pub fn new() -> (lexer: Option<Lexer>)
        ensures
            lexer is Some <==> patterns_compile(),
    {
        let whitespace = compile(PATTERN_WHITESPACE)?;
        let word = compile(PATTERN_WORD)?;
        let operator = compile(PATTERN_OPERATOR)?;
        let integer_literal = compile(PATTERN_INTEGER_LITERAL)?;
        let open_brace = compile(PATTERN_OPEN_BRACE)?;
        let close_brace = compile(PATTERN_CLOSE_BRACE)?;
        let open_paren = compile(PATTERN_OPEN_PAREN)?;
        let close_paren = compile(PATTERN_CLOSE_PAREN)?;
        let semicolon = compile(PATTERN_SEMICOLON)?;
        Some(
            Lexer {
                whitespace,
                word,
                operator,
                integer_literal,
                open_brace,
                close_brace,
                open_paren,
                close_paren,
                semicolon,
            },
        )
    }

    /// Takes the integer literal at the start of `source`.
    fn integer_literal<'a>(&self, source: &'a str) -> (next: Option<(&'a str, Token<'a>)>)
        ensures
            match integer_literal_at(source@) {
                Some((token, rest)) => next matches Some((remaining, found)) && remaining@ == rest
                    && found@ == token,
                None => next is None,
            },
    {
        proof {
            use_type_invariant(self);
        }
        match find(&self.integer_literal, source) {
            Some((start, end)) => {
                let (digits, rest) = cut(source, start, end);
                match parse_decimal(digits) {
                    Some(value) => Some((rest, Token::IntegerLiteral(value))),
                    None => None,
                }
            },
            None => None,
        }
    }

    /// Takes the token at the start of `source`: gives the source behind it
    /// and the token, or `None` where no token starts there.
    pub fn next_token<'a>(&self, source: &'a str) -> (next: Option<(&'a str, Token<'a>)>)
        ensures
            match next_token_spec(source@) {
                Some((token, rest)) => next matches Some((remaining, found)) && remaining@ == rest
                    && found@ == token,
                None => next is None,
            },
    {
        proof {
            use_type_invariant(self);
        }
        let make_whitespace = |text: &'a str| -> (token: Token<'a>)
            ensures
                token == Token::Whitespace(text),
            {
                Token::Whitespace(text)
            };
        let whitespace = try_advance(source, &self.whitespace, make_whitespace);
        if whitespace.is_some() {
            return whitespace;
        }
        let make_word = |text: &'a str| -> (token: Token<'a>)
            ensures
                token@ == word_token(text@),
            {
                if is_keyword(text) {
                    Token::Keyword(text)
                } else {
                    Token::Identifier(text)
                }
            };
        let word = try_advance(source, &self.word, make_word);
        if word.is_some() {
            return word;
        }
        let make_operator = |text: &'a str| -> (token: Token<'a>)
            ensures
                token == Token::Operator(text),
            {
                Token::Operator(text)
            };
        let operator = try_advance(source, &self.operator, make_operator);
        if operator.is_some() {
            return operator;
        }
        let integer_literal = self.integer_literal(source);
        if integer_literal.is_some() {
            return integer_literal;
        }
        let make_open_brace = |text: &'a str| -> (token: Token<'a>)
            ensures
                token == Token::OpenBrace::<'a>,
            {
                Token::OpenBrace
            };
        let open_brace = try_advance(source, &self.open_brace, make_open_brace);
        if open_brace.is_some() {
            return open_brace;
        }
        let make_close_brace = |text: &'a str| -> (token: Token<'a>)
            ensures
                token == Token::CloseBrace::<'a>,
            {
                Token::CloseBrace
            };
        let close_brace = try_advance(source, &self.close_brace, make_close_brace);
        if close_brace.is_some() {
            return close_brace;
        }
        let make_open_paren = |text: &'a str| -> (token: Token<'a>)
            ensures
                token == Token::OpenParen::<'a>,
            {
                Token::OpenParen
            };
        let open_paren = try_advance(source, &self.open_paren, make_open_paren);
        if open_paren.is_some() {
            return open_paren;
        }
        let make_close_paren = |text: &'a str| -> (token: Token<'a>)
            ensures
                token == Token::CloseParen::<'a>,
            {
                Token::CloseParen
            };
        let close_paren = try_advance(source, &self.close_paren, make_close_paren);
        if close_paren.is_some() {
            return close_paren;
        }
        let make_semicolon = |text: &'a str| -> (token: Token<'a>)
            ensures
                token == Token::Semicolon::<'a>,
            {
                Token::Semicolon
            };
        try_advance(source, &self.semicolon, make_semicolon)
    }

    /// Scans `source` from its start: gives the tokens found, whitespace left
    /// out, and the source that is left where the scan ends. What is left is
    /// empty exactly where the whole source was recognized.
    pub fn tokenize<'a>(&self, source: &'a str) -> (scanned: (Vec<Token<'a>>, &'a str))
        ensures
            token_views(scanned.0@) == scan_spec(source@).0,
            scanned.1@ == scan_spec(source@).1,
    {
        let mut tokens: Vec<Token<'a>> = Vec::new();
        let mut current = source;
        assert(token_views(tokens@) + scan_spec(current@).0 =~= scan_spec(source@).0);
        loop
            invariant_except_break
                scan_spec(source@).0 == token_views(tokens@) + scan_spec(current@).0,
                scan_spec(source@).1 == scan_spec(current@).1,
            ensures
                scan_spec(source@).0 == token_views(tokens@),
                scan_spec(source@).1 == current@,
            decreases byte_len(current@),
        {
            match self.next_token(current) {
                Some((rest, token)) => {
                    if rest.as_bytes().len() >= current.as_bytes().len() {
                        assert(scan_spec(current@).0 =~= Seq::<SpecToken>::empty());
                        assert(token_views(tokens@) + Seq::<SpecToken>::empty() =~= token_views(
                            tokens@,
                        ));
                        break;
                    }
                    let ghost before = tokens@;
                    let ghost text = current@;
                    current = rest;
                    match token {
                        Token::Whitespace(_) => {},
                        _ => {
                            tokens.push(token);
                            assert(token_views(tokens@) =~= token_views(before) + seq![token@]);
                            assert(scan_spec(text).0 =~= seq![token@] + scan_spec(rest@).0);
                            assert(token_views(before) + (seq![token@] + scan_spec(rest@).0)
                                =~= token_views(tokens@) + scan_spec(rest@).0);
                        },
                    }
                },
                None => {
                    assert(token_views(tokens@) + Seq::<SpecToken>::empty() =~= token_views(
                        tokens@,
                    ));
                    break;
                },
            }
        }
        (tokens, current)
    }
}

/// Transforms `source` into its list of tokens.
///
/// The tokens are those found up to the first place where none starts. With
/// [`Lexer::tokenize`] the caller also learns what was left there.
pub fn lex<'a>(source: &'a str) -> (tokens: Vec<Token<'a>>)
    ensures
        token_views(tokens@) == lex_spec(source@),
{
    match Lexer::new() {
        Some(lexer) => lexer.tokenize(source).0,
        None => {
            let tokens: Vec<Token<'a>> = Vec::new();
            assert(token_views(tokens@) =~= Seq::<SpecToken>::empty());
            tokens
        },
    }
}

} // verus!
