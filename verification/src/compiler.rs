use vstd::prelude::*;

verus! {

use crate::ast::BinaryOp;
use crate::ast::Expr;
use crate::ast::ExprModel;
use crate::ast::Function;
use crate::ast::FunctionModel;
use crate::ast::Program;
use crate::ast::ProgramModel;
use crate::ast::Statement;
use crate::ast::StatementModel;
use crate::ast::UnaryOp;
use vstd::string::StringExecFns;

/// The character of a single decimal digit.
pub open spec fn dec_digit(d: int) -> char {
    if d == 0 {
        '0'
    } else if d == 1 {
        '1'
    } else if d == 2 {
        '2'
    } else if d == 3 {
        '3'
    } else if d == 4 {
        '4'
    } else if d == 5 {
        '5'
    } else if d == 6 {
        '6'
    } else if d == 7 {
        '7'
    } else if d == 8 {
        '8'
    } else {
        '9'
    }
}

/// The decimal digits of a nonnegative number, most significant first,
/// without leading zeros (except for the number zero itself).
pub open spec fn dec_nat(n: int) -> Seq<char>
    decreases n,
    when n >= 0
{
    if n < 10 {
        seq![dec_digit(n)]
    } else {
        dec_nat(n / 10) + seq![dec_digit(n % 10)]
    }
}

/// The decimal rendering of an integer: a minus sign followed by the digits
/// of its magnitude when negative, the digits alone otherwise.
pub open spec fn dec_int(v: int) -> Seq<char> {
    if v < 0 {
        seq!['-'] + dec_nat(-v)
    } else {
        dec_nat(v)
    }
}

/// The instruction loading an integer into the accumulator register.
pub open spec fn asm_integer_line(v: int) -> Seq<char> {
    "\tmovl\t$"@ + dec_int(v) + ", %eax\n"@
}

/// The instructions applying a unary operator to the accumulator in place.
pub open spec fn asm_unary_lines(op: UnaryOp) -> Seq<char> {
    match op {
        UnaryOp::Compliment => "\tnot\t%eax\n"@,
        UnaryOp::NegateArith => "\tneg\t%eax\n"@,
        UnaryOp::NegateLogical => "\tcmpl\t$0, %eax\n"@ + "\tmovl\t$0, %eax\n"@
            + "\tsete\t%al\n"@,
    }
}

/// The instructions combining the accumulator (left operand) with the
/// secondary register (right operand).
pub open spec fn asm_binary_lines(op: BinaryOp) -> Seq<char> {
    match op {
        BinaryOp::Plus => "\taddl\t%ecx, %eax\n"@,
        BinaryOp::Times => "\timul\t%ecx, %eax\n"@,
        BinaryOp::Minus => "\tsubl\t%ecx, %eax\n"@,
        BinaryOp::Divide => "\tcdq\n"@ + "\tidivl\t%ecx\n"@,
    }
}

/// The assembly text that evaluates an expression into the accumulator.
/// The right operand of a binary expression is evaluated first, pushed,
/// and popped into the secondary register once the left operand is in the
/// accumulator, so that the combining instruction sees the operands in
/// order.
pub open spec fn asm_expr(e: ExprModel) -> Seq<char>
    decreases e,
{
    match e {
        ExprModel::Integer(v) => asm_integer_line(v),
        ExprModel::Unary { operator, operand } => asm_expr(*operand) + asm_unary_lines(operator),
        ExprModel::Binary { operator, left, right } => asm_expr(*right) + "\tpush\t%rax\n"@
            + asm_expr(*left) + "\tpop\t%rcx\n"@ + asm_binary_lines(operator),
    }
}

/// The assembly text of a statement.
pub open spec fn asm_statement(s: StatementModel) -> Seq<char> {
    match s {
        StatementModel::Return(e) => asm_expr(e) + "\tret\n"@,
    }
}

/// The assembly text of a sequence of statements, in order.
pub open spec fn asm_statements(ss: Seq<StatementModel>) -> Seq<char>
    decreases ss.len(),
{
    if ss.len() == 0 {
        Seq::empty()
    } else {
        asm_statement(ss[0]) + asm_statements(ss.drop_first())
    }
}

/// The assembly text of a function: a global-visibility directive and a
/// label carrying the function's name, then the code of its body.
pub open spec fn asm_function(f: FunctionModel) -> Seq<char> {
    "\t.globl "@ + f.name + "\n"@ + f.name + ":\n"@ + asm_statements(f.body)
}

/// The assembly text of a whole program.
pub open spec fn asm_program(p: ProgramModel) -> Seq<char> {
    asm_function(p.function)
}

/// Splitting the last statement off a nonempty statement sequence splits its
/// assembly text the same way.
proof fn lemma_asm_statements_snoc(ss: Seq<StatementModel>)
    requires
        ss.len() > 0,
    ensures
        asm_statements(ss) == asm_statements(ss.drop_last()) + asm_statement(ss.last()),
    decreases ss.len(),
{
    if ss.len() == 1 {
        assert(ss.drop_first() =~= Seq::<StatementModel>::empty());
        assert(ss.drop_last() =~= Seq::<StatementModel>::empty());
        assert(asm_statements(ss) =~= asm_statements(ss.drop_last()) + asm_statement(ss.last()));
    } else {
        let tail = ss.drop_first();
        lemma_asm_statements_snoc(tail);
        assert(tail.drop_last() =~= ss.drop_last().drop_first());
        assert(tail.last() == ss.last());
        assert(ss.drop_last()[0] == ss[0]);
        assert(asm_statements(ss.drop_last()) == asm_statement(ss[0]) + asm_statements(
            ss.drop_last().drop_first(),
        ));
        assert(asm_statement(ss[0]) + (asm_statements(tail.drop_last()) + asm_statement(
            tail.last(),
        )) =~= (asm_statement(ss[0]) + asm_statements(tail.drop_last())) + asm_statement(
            ss.last(),
        ));
    }
}

/// A one-character string for each decimal digit.
fn digit_str(d: u8) -> (s: &'static str)
    requires
        d < 10,
    ensures
        s@ == seq![dec_digit(d as int)],
{
    proof {
        reveal_strlit("0");
        reveal_strlit("1");
        reveal_strlit("2");
        reveal_strlit("3");
        reveal_strlit("4");
        reveal_strlit("5");
        reveal_strlit("6");
        reveal_strlit("7");
        reveal_strlit("8");
        reveal_strlit("9");
        assert("0"@ =~= seq!['0']);
        assert("1"@ =~= seq!['1']);
        assert("2"@ =~= seq!['2']);
        assert("3"@ =~= seq!['3']);
        assert("4"@ =~= seq!['4']);
        assert("5"@ =~= seq!['5']);
        assert("6"@ =~= seq!['6']);
        assert("7"@ =~= seq!['7']);
        assert("8"@ =~= seq!['8']);
        assert("9"@ =~= seq!['9']);
    }
    match d {
        0 => "0",
        1 => "1",
        2 => "2",
        3 => "3",
        4 => "4",
        5 => "5",
        6 => "6",
        7 => "7",
        8 => "8",
        _ => "9",
    }
}

/// The digits of `ds`, last first, as characters.
spec fn rev_digit_chars(ds: Seq<u8>) -> Seq<char> {
    Seq::new(ds.len(), |j: int| dec_digit(ds[ds.len() - 1 - j] as int))
}

/// Render a nonnegative number in decimal.
fn nat_to_string(n: u32) -> (s: String)
    ensures
        s@ == dec_nat(n as int),
{
    if n == 0 {
        let s = String::from_str("0");
        proof {
            reveal_strlit("0");
            assert(s@ =~= seq!['0']);
        }
        return s;
    }
    let mut digits: Vec<u8> = Vec::new();
    let mut m: u32 = n;
    while m > 0
        invariant
            forall|i: int| 0 <= i < digits@.len() ==> digits@[i] < 10,
            m > 0 ==> dec_nat(n as int) == dec_nat(m as int) + rev_digit_chars(digits@),
            m == 0 ==> digits@.len() > 0 && dec_nat(n as int) == rev_digit_chars(digits@),
        decreases m,
    {
        let ghost old_digits = digits@;
        let d = (m % 10) as u8;
        digits.push(d);
        proof {
            assert(rev_digit_chars(digits@) =~= seq![dec_digit(d as int)] + rev_digit_chars(
                old_digits,
            ));
            if m >= 10 {
                assert(dec_nat(m as int) == dec_nat(m as int / 10) + seq![
                    dec_digit(m as int % 10),
                ]);
                assert(dec_nat(m as int / 10) + seq![dec_digit(m as int % 10)]
                    + rev_digit_chars(old_digits) =~= dec_nat(m as int / 10) + (seq![
                    dec_digit(m as int % 10),
                ] + rev_digit_chars(old_digits)));
            }
        }
        m = m / 10;
    }
    let mut s = String::new();
    let mut i: usize = digits.len();
    while i > 0
        invariant
            i <= digits@.len(),
            forall|j: int| 0 <= j < digits@.len() ==> digits@[j] < 10,
            s@ == rev_digit_chars(digits@).take(digits@.len() - i),
        decreases i,
    {
        i = i - 1;
        s.append(digit_str(digits[i]));
        proof {
            assert(s@ =~= rev_digit_chars(digits@).take(digits@.len() - i));
        }
    }
    proof {
        assert(rev_digit_chars(digits@).take(digits@.len() as int) =~= rev_digit_chars(digits@));
    }
    s
}

/// Render an integer in decimal, with a leading minus sign when negative.
fn int_to_string(v: i32) -> (s: String)
    ensures
        s@ == dec_int(v as int),
{
    if v >= 0 {
        nat_to_string(v as u32)
    } else {
        let magnitude: u32 = (-(v as i64)) as u32;
        assert(magnitude as int == -(v as int));
        let mut s = String::from_str("-");
        proof {
            reveal_strlit("-");
            assert(s@ =~= seq!['-']);
        }
        let digits = nat_to_string(magnitude);
        s.append(digits.as_str());
        s
    }
}

/// The size of an expression tree, the measure the recursive code
/// generation descends along.
spec fn expr_size(e: Expr) -> nat
    decreases e,
{
    match e {
        Expr::Integer(_) => 0,
        Expr::Unary { operator: _, operand } => 1 + expr_size(*operand),
        Expr::Binary { operator: _, left, right } => 1 + expr_size(*left) + expr_size(*right),
    }
}

/// Compile a program to assembly.
///
/// This function generates a string containing x86-64 assembly code compiled
/// from the given abstract syntax tree. It always succeeds on a well-formed
/// tree.
pub fn compile_ast(program: Program) -> (assembly: String)
    ensures
        assembly@ == asm_program(program@),
{
    let mut compiler = Compiler::new();
    compiler.compile_program(&program);
    compiler.finish()
}

/// The compiler.
///
/// This struct is responsible for turning an abstract syntax tree into
/// assembly, collected in an output buffer.
pub struct Compiler {
    assembly: String,
}

impl Compiler {
    /// Create a new compiler with an empty assembly buffer.
    fn new() -> (compiler: Compiler)
        ensures
            compiler.assembly@ == Seq::<char>::empty(),
    {
        Self { assembly: String::new() }
    }

    /// Hand out the collected assembly text.
    fn finish(self) -> (assembly: String)
        ensures
            assembly@ == self.assembly@,
    {
        self.assembly
    }

    /// Compile a program: its single function.
    fn compile_program(&mut self, program: &Program)
        ensures
            final(self).assembly@ == old(self).assembly@ + asm_program(program@),
    {
        self.compile_function(&program.function);
    }

    /// Compile a function: a global-visibility directive and a label with
    /// the function's name, then the code of every statement of the body in
    /// order.
    fn compile_function(&mut self, function: &Function)
        ensures
            final(self).assembly@ == old(self).assembly@ + asm_function(function@),
    {
        self.assembly.append("\t.globl ");
        self.assembly.append(function.name.as_str());
        self.assembly.append("\n");
        self.assembly.append(function.name.as_str());
        self.assembly.append(":\n");
        let ghost header = "\t.globl "@ + function@.name + "\n"@ + function@.name + ":\n"@;
        proof {
            assert(self.assembly@ =~= old(self).assembly@ + header);
        }
        let mut i: usize = 0;
        while i < function.body.len()
            invariant
                i <= function.body@.len(),
                header == "\t.globl "@ + function@.name + "\n"@ + function@.name + ":\n"@,
                self.assembly@ == old(self).assembly@ + header + asm_statements(
                    function@.body.take(i as int),
                ),
            decreases function.body@.len() - i,
        {
            let ghost before = self.assembly@;
            self.compile_statement(&function.body[i]);
            proof {
                let body = function@.body;
                assert(body.take(i + 1).drop_last() =~= body.take(i as int));
                assert(body.take(i + 1).last() == body[i as int]);
                assert(function.body@[i as int]@ == body[i as int]);
                lemma_asm_statements_snoc(body.take(i + 1));
                assert(self.assembly@ =~= old(self).assembly@ + header + asm_statements(
                    body.take(i + 1),
                ));
            }
            i = i + 1;
        }
        proof {
            assert(function@.body.take(function.body@.len() as int) =~= function@.body);
            assert(old(self).assembly@ + header + asm_statements(function@.body)
                =~= old(self).assembly@ + asm_function(function@));
        }
    }

    /// Compile a single statement.
    fn compile_statement(&mut self, statement: &Statement)
        ensures
            final(self).assembly@ == old(self).assembly@ + asm_statement(statement@),
    {
        match statement {
            Statement::Return(expr) => self.compile_return(expr),
        }
    }

    /// Compile a return statement: evaluate the value into the accumulator,
    /// as the calling convention requires, then return.
    fn compile_return(&mut self, return_value: &Expr)
        ensures
            final(self).assembly@ == old(self).assembly@ + asm_statement(
                StatementModel::Return(return_value@),
            ),
    {
        self.compile_expression(return_value);
        self.assembly.append("\tret\n");
        proof {
            assert(self.assembly@ =~= old(self).assembly@ + (asm_expr(return_value@)
                + "\tret\n"@));
        }
    }

    /// Compile an expression into the accumulator register.
    fn compile_expression(&mut self, expr: &Expr)
        ensures
            final(self).assembly@ == old(self).assembly@ + asm_expr(expr@),
        decreases expr_size(*expr), 0int,
    {
        match expr {
            Expr::Integer(value) => self.compile_integer(*value),
            Expr::Unary { operator, operand } => self.compile_unary(*operator, operand),
            Expr::Binary { operator, left, right } => self.compile_binary(*operator, left, right),
        }
    }

    /// Compile an integer literal: load it into the accumulator.
    fn compile_integer(&mut self, value: i32)
        ensures
            final(self).assembly@ == old(self).assembly@ + asm_integer_line(value as int),
    {
        self.assembly.append("\tmovl\t$");
        let rendered = int_to_string(value);
        self.assembly.append(rendered.as_str());
        self.assembly.append(", %eax\n");
        proof {
            assert(self.assembly@ =~= old(self).assembly@ + ("\tmovl\t$"@ + dec_int(
                value as int,
            ) + ", %eax\n"@));
        }
    }

    /// Compile a unary expression: evaluate the operand into the
    /// accumulator, then apply the operator in place.
    fn compile_unary(&mut self, op: UnaryOp, operand: &Expr)
        ensures
            final(self).assembly@ == old(self).assembly@ + asm_expr(
                ExprModel::Unary { operator: op, operand: Box::new(operand@) },
            ),
        decreases expr_size(*operand), 1int,
    {
        self.compile_expression(operand);
        match op {
            UnaryOp::Compliment => self.assembly.append("\tnot\t%eax\n"),
            UnaryOp::NegateArith => self.assembly.append("\tneg\t%eax\n"),
            UnaryOp::NegateLogical => {
                self.assembly.append("\tcmpl\t$0, %eax\n");
                self.assembly.append("\tmovl\t$0, %eax\n");
                self.assembly.append("\tsete\t%al\n");
            },
        }
        proof {
            assert(self.assembly@ =~= old(self).assembly@ + (asm_expr(operand@)
                + asm_unary_lines(op)));
        }
    }

    /// Compile a binary expression. The right operand is evaluated first and
    /// pushed; once the left operand is in the accumulator, the right value
    /// is popped into the secondary register and the two are combined, so
    /// the combining instruction sees `left` in the accumulator and `right`
    /// in the secondary register. This order is safe because expressions
    /// here are free of side effects.
    fn compile_binary(&mut self, op: BinaryOp, left: &Expr, right: &Expr)
        ensures
            final(self).assembly@ == old(self).assembly@ + asm_expr(
                ExprModel::Binary {
                    operator: op,
                    left: Box::new(left@),
                    right: Box::new(right@),
                },
            ),
        decreases expr_size(*left) + expr_size(*right), 1int,
    {
        self.compile_expression(right);
        self.assembly.append("\tpush\t%rax\n");
        self.compile_expression(left);
        self.assembly.append("\tpop\t%rcx\n");
        match op {
            BinaryOp::Plus => self.assembly.append("\taddl\t%ecx, %eax\n"),
            BinaryOp::Times => self.assembly.append("\timul\t%ecx, %eax\n"),
            BinaryOp::Minus => self.assembly.append("\tsubl\t%ecx, %eax\n"),
            BinaryOp::Divide => {
                self.assembly.append("\tcdq\n");
                self.assembly.append("\tidivl\t%ecx\n");
            },
        }
        proof {
            assert(self.assembly@ =~= old(self).assembly@ + (asm_expr(right@)
                + "\tpush\t%rax\n"@ + asm_expr(left@) + "\tpop\t%rcx\n"@ + asm_binary_lines(
                op,
            )));
        }
    }
}

} // verus!
