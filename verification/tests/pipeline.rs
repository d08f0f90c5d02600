use mini_cc::codegen::generate_program;
use mini_cc::lexer::{lex, Token};
use mini_cc::parser::{parse_program, AstExpression, AstFunction, AstProgram, AstStatement};

/// The three stages in a row.
fn compile(source: &str) -> Option<String> {
    let tokens = lex(source);
    let program = parse_program(&tokens)?;
    Some(generate_program(&program))
}

/// The number behind `$` in an immediate operand.
fn immediate(operand: &str) -> u32 {
    operand.strip_prefix('$').unwrap().parse::<u64>().unwrap() as u32
}

/// Runs the instructions that the code generator emits, on a machine of three
/// registers and a stack, and gives what `%eax` holds at `ret`.
fn run(assembly: &str) -> u32 {
    let (mut eax, mut ecx, mut edx): (u32, u32, u32) = (0, 0, 0);
    let mut zero_flag = false;
    let mut stack: Vec<u32> = Vec::new();
    for line in assembly.lines() {
        let words: Vec<&str> = line.split(|c| c == ' ' || c == ',').filter(|w| !w.is_empty()).collect();
        match words.as_slice() {
            [".globl", _] => {}
            [label] if label.ends_with(':') => {}
            ["movl", "%eax", "%ecx"] => ecx = eax,
            ["movl", value, "%eax"] => eax = immediate(value),
            ["movl", value, "%edx"] => edx = immediate(value),
            ["neg", "%eax"] => eax = eax.wrapping_neg(),
            ["not", "%eax"] => eax = !eax,
            ["cmpl", value, "%eax"] => zero_flag = eax == immediate(value),
            ["sete", "%al"] => eax = (eax & !0xff) | (zero_flag as u32),
            ["push", "%eax"] => stack.push(eax),
            ["pop", "%ecx"] => ecx = stack.pop().unwrap(),
            ["pop", "%eax"] => eax = stack.pop().unwrap(),
            ["addl", "%ecx", "%eax"] => eax = eax.wrapping_add(ecx),
            ["imul", "%ecx", "%eax"] => eax = eax.wrapping_mul(ecx),
            ["subl", "%ecx", "%eax"] => eax = eax.wrapping_sub(ecx),
            ["idivl", "%ecx"] => {
                let dividend = (((edx as u64) << 32) | eax as u64) as i64;
                let divisor = ecx as i32 as i64;
                eax = (dividend / divisor) as u32;
                edx = (dividend % divisor) as u32;
            }
            ["ret"] => {
                assert!(stack.is_empty());
                return eax;
            }
            _ => panic!("unknown instruction {:?}", line),
        }
    }
    panic!("no ret");
}

#[test]
fn return_two_end_to_end() {
    let source = "int main() { return 2; }";
    let tokens = lex(source);
    assert_eq!(
        tokens,
        vec![
            Token::Keyword("int"),
            Token::Identifier("main"),
            Token::OpenParen,
            Token::CloseParen,
            Token::OpenBrace,
            Token::Keyword("return"),
            Token::IntegerLiteral(2),
            Token::Semicolon,
            Token::CloseBrace,
        ]
    );
    let program = parse_program(&tokens).unwrap();
    assert_eq!(
        program,
        AstProgram {
            function: AstFunction {
                name: "main",
                statement: AstStatement::Return { expression: AstExpression::Constant { value: 2 } },
            },
        }
    );
    let assembly = generate_program(&program);
    let lines: Vec<&str> = assembly.lines().collect();
    assert_eq!(lines, vec![".globl main", "main:", "movl $2, %eax", "ret"]);
    assert!(assembly.ends_with("ret\n"));
    assert_eq!(assembly.matches(".globl").count(), 1);
    assert_eq!(run(&assembly), 2);
}

#[test]
fn three_times_sum_end_to_end() {
    let assembly = compile("int main() { return 3 * (3 + 5 * 2); }").unwrap();
    assert_eq!(
        assembly,
        ".globl main\nmain:\n\
         movl $3, %eax\npush %eax\n\
         movl $3, %eax\npush %eax\n\
         movl $5, %eax\npush %eax\nmovl $2, %eax\npop %ecx\nimul %ecx, %eax\n\
         pop %ecx\naddl %ecx, %eax\n\
         pop %ecx\nimul %ecx, %eax\n\
         ret\n"
    );
    assert_eq!(run(&assembly), 39);
}

#[test]
fn the_driver_source_compiles() {
    let source = r"
        int main() {
            return 3 * (3 + 5 * 2);
        }
    ";
    assert_eq!(run(&compile(source).unwrap()), 39);
}

#[test]
fn operand_roles_end_to_end() {
    assert_eq!(run(&compile("int main() { return 8 - 4 - 2; }").unwrap()), 2);
    assert_eq!(run(&compile("int main() { return 8 - (4 - 2); }").unwrap()), 6);
    assert_eq!(run(&compile("int main() { return 24 / 4 / 2; }").unwrap()), 3);
    assert_eq!(run(&compile("int main() { return 2 + 3 * 4; }").unwrap()), 14);
    assert_eq!(run(&compile("int main() { return (2 + 3) * 4; }").unwrap()), 20);
    assert_eq!(run(&compile("int main() { return 7 / 2; }").unwrap()), 3);
}

#[test]
fn unary_operators_end_to_end() {
    assert_eq!(run(&compile("int main() { return -5; }").unwrap()), 5u32.wrapping_neg());
    assert_eq!(run(&compile("int main() { return ~5; }").unwrap()), !5u32);
    assert_eq!(run(&compile("int main() { return !5; }").unwrap()), 0);
    assert_eq!(run(&compile("int main() { return !0; }").unwrap()), 1);
    assert_eq!(run(&compile("int main() { return ~-!~!3; }").unwrap()), u32::MAX);
    assert_eq!(run(&compile("int main() { return 10 - -3; }").unwrap()), 13);
}

#[test]
fn malformed_source_gives_no_assembly() {
    assert_eq!(compile("int main() { return 2 }"), None);
    assert_eq!(compile("int main() { return (2; }"), None);
    assert_eq!(compile("int main() { 2; }"), None);
    assert_eq!(compile(""), None);
    // The scan ends at `@`; what was found up to there is no program.
    assert_eq!(compile("int main() { return 2 @ 3; }"), None);
    // Tokens behind the closing brace.
    assert_eq!(compile("int main() { return 2; };"), None);
}

#[test]
fn the_whole_pipeline_is_repeatable() {
    let source = "int main() { return ~(1 + 2) * 3 / 4 - !5; }";
    assert_eq!(compile(source), compile(source));
    assert!(compile(source).is_some());
}

#[test]
fn the_function_name_is_the_global_symbol() {
    let assembly = compile("int start() { return 0; }").unwrap();
    assert_eq!(assembly, ".globl start\nstart:\nmovl $0, %eax\nret\n");
}
