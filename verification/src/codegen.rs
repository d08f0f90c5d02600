//! Generates x86 assembly text, in AT&T syntax, from the syntax tree.
//!
//! The code of an expression leaves its value in `%eax`. A binary operator
//! saves its left operand on the stack while the right one is computed.

use vstd::prelude::*;
use vstd::utf8::encode_utf8;
use crate::parser::{
    AstExpression, AstFunction, AstProgram, AstStatement, BinaryOperator, SpecFunction,
    SpecProgram, UnaryOperator,
};
use crate::text::{append_decimal, decimal};

verus! {

/// The code that leaves the value of `expression` in `%eax`.
pub open spec fn expression_asm(expression: AstExpression) -> Seq<char>
    decreases expression, 0int,
{
    match expression {
        AstExpression::Constant { value } => "movl $"@ + decimal(value as nat) + ", %eax\n"@,
        AstExpression::UnaryOperator { operator } => unary_asm(*operator),
        AstExpression::BinaryOperator { operator } => binary_asm(*operator),
    }
}

/// The code of a unary operation: the operand's code, then the operation on
/// `%eax` in place.
pub open spec fn unary_asm(operator: UnaryOperator) -> Seq<char>
    decreases operator, 0int,
{
    match operator {
        UnaryOperator::Negation { expression } => expression_asm(expression) + "neg %eax\n"@,
        UnaryOperator::BitwiseComplement { expression } => expression_asm(expression)
            + "not %eax\n"@,
        UnaryOperator::LogicalNegation { expression } => expression_asm(expression)
            + "cmpl $0, %eax\n"@ + "movl $0, %eax\n"@ + "sete %al\n"@,
    }
}

/// The code of a binary operation. The left operand is computed first and
/// pushed; after the right operand's code the two are combined so that `a`
/// is the minuend or dividend and `b` the subtrahend or divisor.
pub open spec fn binary_asm(operator: BinaryOperator) -> Seq<char>
    decreases operator, 0int,
{
    match operator {
        BinaryOperator::Addition { a, b } => expression_asm(a) + "push %eax\n"@ + expression_asm(b)
            + "pop %ecx\n"@ + "addl %ecx, %eax\n"@,
        BinaryOperator::Multiplication { a, b } => expression_asm(a) + "push %eax\n"@
            + expression_asm(b) + "pop %ecx\n"@ + "imul %ecx, %eax\n"@,
        BinaryOperator::Subtraction { a, b } => expression_asm(a) + "push %eax\n"@
            + expression_asm(b) + "movl %eax, %ecx\n"@ + "pop %eax\n"@ + "subl %ecx, %eax\n"@,
        BinaryOperator::Division { a, b } => expression_asm(a) + "push %eax\n"@ + expression_asm(b)
            + "movl %eax, %ecx\n"@ + "movl $0, %edx\n"@ + "pop %eax\n"@ + "idivl %ecx\n"@,
    }
}

/// The code of a statement: the returned expression's code, then `ret`.
pub open spec fn statement_asm(statement: AstStatement) -> Seq<char> {
    match statement {
        AstStatement::Return { expression } => expression_asm(expression) + "ret\n"@,
    }
}

/// The code of a function: the declaration of its name as a global symbol,
/// the label of that name, then the body's code.
pub open spec fn function_asm(function: SpecFunction) -> Seq<char> {
    ".globl "@ + function.name + "\n"@ + function.name + ":\n"@ + statement_asm(
        function.statement,
    )
}

/// The assembly text of a program: the code of its function.
pub open spec fn program_asm(program: SpecProgram) -> Seq<char> {
    function_asm(program.function)
}

/// Appends the code of `expression` to `output`.
pub fn generate_expression(expression: &AstExpression, output: &mut String)
    ensures
        final(output)@ == old(output)@ + expression_asm(*expression),
    decreases *expression,
{
    match expression {
        AstExpression::Constant { value } => {
            output.append("movl $");
            append_decimal(output, *value);
            output.append(", %eax\n");
        },
        AstExpression::UnaryOperator { operator } => {
            match &**operator {
                UnaryOperator::Negation { expression } => {
                    generate_expression(expression, output);
                    output.append("neg %eax\n");
                },
                UnaryOperator::BitwiseComplement { expression } => {
                    generate_expression(expression, output);
                    output.append("not %eax\n");
                },
                UnaryOperator::LogicalNegation { expression } => {
                    generate_expression(expression, output);
                    output.append("cmpl $0, %eax\n");
                    output.append("movl $0, %eax\n");
                    output.append("sete %al\n");
                },
            }
        },
        AstExpression::BinaryOperator { operator } => {
            match &**operator {
                BinaryOperator::Addition { a, b } => {
                    generate_expression(a, output);
                    output.append("push %eax\n");
                    generate_expression(b, output);
                    output.append("pop %ecx\n");
                    output.append("addl %ecx, %eax\n");
                },
                BinaryOperator::Multiplication { a, b } => {
                    generate_expression(a, output);
                    output.append("push %eax\n");
                    generate_expression(b, output);
                    output.append("pop %ecx\n");
                    output.append("imul %ecx, %eax\n");
                },
                BinaryOperator::Subtraction { a, b } => {
                    generate_expression(a, output);
                    output.append("push %eax\n");
                    generate_expression(b, output);
                    output.append("movl %eax, %ecx\n");
                    output.append("pop %eax\n");
                    output.append("subl %ecx, %eax\n");
                },
                BinaryOperator::Division { a, b } => {
                    generate_expression(a, output);
                    output.append("push %eax\n");
                    generate_expression(b, output);
                    output.append("movl %eax, %ecx\n");
                    output.append("movl $0, %edx\n");
                    output.append("pop %eax\n");
                    output.append("idivl %ecx\n");
                },
            }
        },
    }
}

/// Appends the code of `statement` to `output`.
pub fn generate_statement(statement: &AstStatement, output: &mut String)
    ensures
        final(output)@ == old(output)@ + statement_asm(*statement),
{
    match statement {
        AstStatement::Return { expression } => {
            generate_expression(expression, output);
            output.append("ret\n");
        },
    }
}

/// Appends the code of `function` to `output`.
pub fn generate_function(function: &AstFunction, output: &mut String)
    ensures
        final(output)@ == old(output)@ + function_asm(function@),
{
    output.append(".globl ");
    output.append(function.name);
    output.append("\n");
    output.append(function.name);
    output.append(":\n");
    generate_statement(&function.statement, output);
}

/// Generates the assembly text of `program`.
///
/// The text depends on the program's view alone: equal programs give equal
/// text.
pub fn generate_program(program: &AstProgram) -> (assembly: String)
    ensures
        assembly@ == program_asm(program@),
{
    let mut result = String::new();
    generate_function(&program.function, &mut result);
    result
}

/// Equal programs have the same assembly text, byte for byte: the text
/// depends on nothing but the program's function name and syntax tree.
pub proof fn lemma_same_program_same_assembly<'a, 'b>(first: AstProgram<'a>, second: AstProgram<'b>)
    requires
        first@ == second@,
    ensures
        program_asm(first@) == program_asm(second@),
        encode_utf8(program_asm(first@)) == encode_utf8(program_asm(second@)),
{
}

} // verus!
