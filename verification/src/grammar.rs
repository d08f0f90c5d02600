//! The grammar, as the trees of what can be written.
//!
//! A syntax tree of this module records how a piece of a program is written,
//! parentheses included. It has the tokens that write it and the node that it
//! means. The modules [`crate::complete`] and [`crate::sound`] show that the
//! parser reads exactly this grammar.

use vstd::prelude::*;
use crate::lexer::SpecToken;
use crate::parser::{
    additive_node, multiplicative_node, unary_node, AstExpression, AstStatement, SpecFunction,
    SpecProgram,
};

verus! {

/// `unary_op ::= "~" | "!" | "-"`
pub enum UnarySign {
    Complement,
    Not,
    Minus,
}

/// `"*" | "/"`
pub enum TermSign {
    Times,
    Over,
}

/// `"+" | "-"`
pub enum ExpressionSign {
    Plus,
    Minus,
}

/// `factor ::= "(" expression ")" | unary_op factor | integer_literal`
pub enum FactorSyntax {
    Paren { inner: Box<ExpressionSyntax> },
    Unary { sign: UnarySign, operand: Box<FactorSyntax> },
    Literal { value: u64 },
}

/// `term ::= factor { ("*" | "/") factor }`, read from the left: a term is a
/// factor, or a term, a sign and one more factor.
pub enum TermSyntax {
    Single { factor: FactorSyntax },
    Product { left: Box<TermSyntax>, sign: TermSign, right: FactorSyntax },
}

/// `expression ::= term { ("+" | "-") term }`, read from the left: an
/// expression is a term, or an expression, a sign and one more term.
pub enum ExpressionSyntax {
    Single { term: TermSyntax },
    Sum { left: Box<ExpressionSyntax>, sign: ExpressionSign, right: TermSyntax },
}

/// `statement ::= "return" expression ";"`
pub struct StatementSyntax {
    pub expression: ExpressionSyntax,
}

/// `function ::= "int" identifier "(" ")" "{" statement "}"`
pub struct FunctionSyntax {
    pub name: Seq<char>,
    pub statement: StatementSyntax,
}

/// `program ::= function`
pub struct ProgramSyntax {
    pub function: FunctionSyntax,
}

impl UnarySign {
    /// The text of the sign.
    pub open spec fn text(self) -> Seq<char> {
        match self {
            UnarySign::Complement => "~"@,
            UnarySign::Not => "!"@,
            UnarySign::Minus => "-"@,
        }
    }
}

impl TermSign {
    /// The text of the sign.
    pub open spec fn text(self) -> Seq<char> {
        match self {
            TermSign::Times => "*"@,
            TermSign::Over => "/"@,
        }
    }
}

impl ExpressionSign {
    /// The text of the sign.
    pub open spec fn text(self) -> Seq<char> {
        match self {
            ExpressionSign::Plus => "+"@,
            ExpressionSign::Minus => "-"@,
        }
    }
}

impl FactorSyntax {
    /// The tokens that write the factor.
    pub open spec fn tokens(self) -> Seq<SpecToken>
        decreases self,
    {
        match self {
            FactorSyntax::Paren { inner } => seq![SpecToken::OpenParen] + inner.tokens()
                + seq![SpecToken::CloseParen],
            FactorSyntax::Unary { sign, operand } => seq![SpecToken::Operator(sign.text())]
                + operand.tokens(),
            FactorSyntax::Literal { value } => seq![SpecToken::IntegerLiteral(value)],
        }
    }

    /// The node that the factor means. Parentheses leave no node.
    pub open spec fn node(self) -> AstExpression
        decreases self,
    {
        match self {
            FactorSyntax::Paren { inner } => inner.node(),
            FactorSyntax::Unary { sign, operand } => unary_node(sign.text(), operand.node()),
            FactorSyntax::Literal { value } => AstExpression::Constant { value },
        }
    }
}

impl TermSyntax {
    /// The tokens that write the term.
    pub open spec fn tokens(self) -> Seq<SpecToken>
        decreases self,
    {
        match self {
            TermSyntax::Single { factor } => factor.tokens(),
            TermSyntax::Product { left, sign, right } => left.tokens() + seq![
                SpecToken::Operator(sign.text()),
            ] + right.tokens(),
        }
    }

    /// The node that the term means: the last sign is the outermost node.
    pub open spec fn node(self) -> AstExpression
        decreases self,
    {
        match self {
            TermSyntax::Single { factor } => factor.node(),
            TermSyntax::Product { left, sign, right } => multiplicative_node(
                sign.text(),
                left.node(),
                right.node(),
            ),
        }
    }
}

impl ExpressionSyntax {
    /// The tokens that write the expression.
    pub open spec fn tokens(self) -> Seq<SpecToken>
        decreases self,
    {
        match self {
            ExpressionSyntax::Single { term } => term.tokens(),
            ExpressionSyntax::Sum { left, sign, right } => left.tokens() + seq![
                SpecToken::Operator(sign.text()),
            ] + right.tokens(),
        }
    }

    /// The node that the expression means: the last sign is the outermost
    /// node.
    pub open spec fn node(self) -> AstExpression
        decreases self,
    {
        match self {
            ExpressionSyntax::Single { term } => term.node(),
            ExpressionSyntax::Sum { left, sign, right } => additive_node(
                sign.text(),
                left.node(),
                right.node(),
            ),
        }
    }
}

impl StatementSyntax {
    /// The tokens that write the statement.
    pub open spec fn tokens(self) -> Seq<SpecToken> {
        seq![SpecToken::Keyword("return"@)] + self.expression.tokens() + seq![SpecToken::Semicolon]
    }

    /// The node that the statement means.
    pub open spec fn node(self) -> AstStatement {
        AstStatement::Return { expression: self.expression.node() }
    }
}

impl FunctionSyntax {
    /// The tokens that write the function.
    pub open spec fn tokens(self) -> Seq<SpecToken> {
        seq![
            SpecToken::Keyword("int"@),
            SpecToken::Identifier(self.name),
            SpecToken::OpenParen,
            SpecToken::CloseParen,
            SpecToken::OpenBrace,
        ] + self.statement.tokens() + seq![SpecToken::CloseBrace]
    }

    /// The function that the syntax means.
    pub open spec fn node(self) -> SpecFunction {
        SpecFunction { name: self.name, statement: self.statement.node() }
    }
}

impl ProgramSyntax {
    /// The tokens that write the program.
    pub open spec fn tokens(self) -> Seq<SpecToken> {
        self.function.tokens()
    }

    /// The program that the syntax means.
    pub open spec fn node(self) -> SpecProgram {
        SpecProgram { function: self.function.node() }
    }
}

} // verus!
