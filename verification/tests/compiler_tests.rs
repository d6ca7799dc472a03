use ecc::ast::BinaryOp;
use ecc::ast::Expr;
use ecc::ast::Function;
use ecc::ast::Program;
use ecc::ast::Statement;
use ecc::ast::UnaryOp;
use ecc::compiler::compile_ast;
use ecc::compile_source;

fn program_returning(expr: Expr) -> Program {
    Program {
        function: Function {
            name: "main".to_string(),
            body: vec![Statement::Return(expr)],
        },
    }
}

#[test]
fn compile_constant_return() {
    let assembly = compile_source("int main(void){return 0;}").unwrap();
    assert_eq!(assembly, "\t.globl main\nmain:\n\tmovl\t$0, %eax\n\tret\n");
}

#[test]
fn compile_uses_function_name() {
    let assembly = compile_source("int answer(void){return 42;}").unwrap();
    assert_eq!(assembly, "\t.globl answer\nanswer:\n\tmovl\t$42, %eax\n\tret\n");
}

#[test]
fn compile_sum_of_product() {
    // The emitted code evaluates 2+3*4: run through the accumulator and the
    // operand stack, it leaves 14 in %eax.
    let assembly = compile_source("int main(void){return 2+3*4;}").unwrap();
    let expected = "\t.globl main\nmain:\n\tmovl\t$4, %eax\n\tpush\t%rax\n\tmovl\t$3, %eax\n\tpop\t%rcx\n\timul\t%ecx, %eax\n\tpush\t%rax\n\tmovl\t$2, %eax\n\tpop\t%rcx\n\taddl\t%ecx, %eax\n\tret\n";
    assert_eq!(assembly, expected);
}

#[test]
fn compile_logical_negation_of_zero() {
    // Comparing 0 against zero and setting %al on equality leaves 1 in %eax.
    let assembly = compile_source("int main(void){return !0;}").unwrap();
    let expected = "\t.globl main\nmain:\n\tmovl\t$0, %eax\n\tcmpl\t$0, %eax\n\tmovl\t$0, %eax\n\tsete\t%al\n\tret\n";
    assert_eq!(assembly, expected);
}

#[test]
fn compile_complement_of_zero() {
    // Bitwise complement of 0 leaves -1 in %eax.
    let assembly = compile_source("int main(void){return ~0;}").unwrap();
    let expected = "\t.globl main\nmain:\n\tmovl\t$0, %eax\n\tnot\t%eax\n\tret\n";
    assert_eq!(assembly, expected);
}

#[test]
fn compile_subtraction_keeps_operand_order() {
    // The code evaluates 8-4-2 left-associatively: (8-4)-2 leaves 2 in %eax.
    // The right operand of each subtraction is computed first and popped
    // into %ecx, so subl sees left in %eax and right in %ecx.
    let assembly = compile_source("int main(void){return 8-4-2;}").unwrap();
    let expected = "\t.globl main\nmain:\n\tmovl\t$2, %eax\n\tpush\t%rax\n\tmovl\t$4, %eax\n\tpush\t%rax\n\tmovl\t$8, %eax\n\tpop\t%rcx\n\tsubl\t%ecx, %eax\n\tpop\t%rcx\n\tsubl\t%ecx, %eax\n\tret\n";
    assert_eq!(assembly, expected);
}

#[test]
fn compile_division_sign_extends() {
    let assembly = compile_source("int main(void){return 8/2;}").unwrap();
    let expected = "\t.globl main\nmain:\n\tmovl\t$2, %eax\n\tpush\t%rax\n\tmovl\t$8, %eax\n\tpop\t%rcx\n\tcdq\n\tidivl\t%ecx\n\tret\n";
    assert_eq!(assembly, expected);
}

#[test]
fn compile_negative_literal_directly() {
    let program = program_returning(Expr::Integer(-5));
    let assembly = compile_ast(program);
    assert_eq!(assembly, "\t.globl main\nmain:\n\tmovl\t$-5, %eax\n\tret\n");
}

#[test]
fn compile_extreme_literals() {
    let smallest = compile_ast(program_returning(Expr::Integer(i32::MIN)));
    assert!(smallest.contains("\tmovl\t$-2147483648, %eax\n"));
    let largest = compile_ast(program_returning(Expr::Integer(i32::MAX)));
    assert!(largest.contains("\tmovl\t$2147483647, %eax\n"));
}

#[test]
fn compile_unary_applies_after_operand() {
    let program = program_returning(Expr::Unary {
        operator: UnaryOp::NegateArith,
        operand: Box::new(Expr::Integer(7)),
    });
    let assembly = compile_ast(program);
    assert_eq!(assembly, "\t.globl main\nmain:\n\tmovl\t$7, %eax\n\tneg\t%eax\n\tret\n");
}

#[test]
fn compile_binary_built_by_hand() {
    let program = program_returning(Expr::Binary {
        operator: BinaryOp::Plus,
        left: Box::new(Expr::Integer(1)),
        right: Box::new(Expr::Integer(2)),
    });
    let assembly = compile_ast(program);
    let expected = "\t.globl main\nmain:\n\tmovl\t$2, %eax\n\tpush\t%rax\n\tmovl\t$1, %eax\n\tpop\t%rcx\n\taddl\t%ecx, %eax\n\tret\n";
    assert_eq!(assembly, expected);
}

#[test]
fn compile_source_propagates_parse_errors() {
    let error = compile_source("int main(void){return;}").unwrap_err();
    assert_eq!(error.message, "expected prefix operator");
    assert_eq!(error.token.unwrap().lexeme, ";");
}
