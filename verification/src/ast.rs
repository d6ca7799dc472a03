use vstd::prelude::*;

verus! {

use crate::token::TokenKind;

/// An operator that can appear in a unary expression.
#[derive(Clone, Copy, Debug)]
pub enum UnaryOp {
    Compliment,
    NegateArith,
    NegateLogical,
}

/// An operator that can appear in a binary expression.
#[derive(Clone, Copy, Debug)]
pub enum BinaryOp {
    Plus,
    Minus,
    Times,
    Divide,
}

/// The binary operator that corresponds to a token kind, if any.
pub open spec fn binary_op_of_kind(kind: TokenKind) -> Option<BinaryOp> {
    match kind {
        TokenKind::OperatorPlus => Some(BinaryOp::Plus),
        TokenKind::OperatorMinus => Some(BinaryOp::Minus),
        TokenKind::OperatorStar => Some(BinaryOp::Times),
        TokenKind::OperatorSlash => Some(BinaryOp::Divide),
        _ => None,
    }
}

impl BinaryOp {
    /// Get the corresponding operator from the token kind.
    ///
    /// This is a useful function during the parsing stage, since it makes more
    /// sense to pass around token kinds in the parser than to pass around
    /// operators.
    pub(crate) fn from_token_kind(kind: TokenKind) -> (op: Option<Self>)
        ensures
            op == binary_op_of_kind(kind),
    {
        match kind {
            TokenKind::OperatorPlus => Some(Self::Plus),
            TokenKind::OperatorMinus => Some(Self::Minus),
            TokenKind::OperatorStar => Some(Self::Times),
            TokenKind::OperatorSlash => Some(Self::Divide),
            _ => None,
        }
    }
}

/// The mathematical model of an expression: the same tree with the integer
/// literal widened to a mathematical integer.
pub ghost enum ExprModel {
    Integer(int),
    Unary { operator: UnaryOp, operand: Box<ExprModel> },
    Binary { operator: BinaryOp, left: Box<ExprModel>, right: Box<ExprModel> },
}

/// An expression.
///
/// Expressions are any part of the source code which can evaluate to a value:
/// integer literals, unary expressions, and binary expressions.
#[derive(Debug)]
pub enum Expr {
    /// An integer literal.
    Integer(i32),
    /// A unary expression.
    Unary { operator: UnaryOp, operand: Box<Expr> },
    /// A binary expression.
    Binary { operator: BinaryOp, left: Box<Expr>, right: Box<Expr> },
}

/// The model of an expression tree.
pub open spec fn expr_model(e: Expr) -> ExprModel
    decreases e,
{
    match e {
        Expr::Integer(value) => ExprModel::Integer(value as int),
        Expr::Unary { operator, operand } => ExprModel::Unary {
            operator,
            operand: Box::new(expr_model(*operand)),
        },
        Expr::Binary { operator, left, right } => ExprModel::Binary {
            operator,
            left: Box::new(expr_model(*left)),
            right: Box::new(expr_model(*right)),
        },
    }
}

impl View for Expr {
    type V = ExprModel;

    open spec fn view(&self) -> ExprModel {
        expr_model(*self)
    }
}

/// The mathematical model of a statement.
pub ghost enum StatementModel {
    Return(ExprModel),
}

/// A statement.
///
/// As opposed to expressions, statements *do* something. They are like
/// commands.
#[derive(Debug)]
pub enum Statement {
    /// A return statement.
    Return(Expr),
}

impl View for Statement {
    type V = StatementModel;

    open spec fn view(&self) -> StatementModel {
        match self {
            Statement::Return(e) => StatementModel::Return(e@),
        }
    }
}

/// The mathematical model of a function: its name and the models of the
/// statements of its body.
pub ghost struct FunctionModel {
    pub name: Seq<char>,
    pub body: Seq<StatementModel>,
}

/// A function node.
///
/// Functions act as reusable blocks of code. For now, a function consists
/// only of a name and a body; the return type is assumed to be `int` and the
/// parameter list is assumed to be `void`.
#[derive(Debug)]
pub struct Function {
    /// The function's name.
    pub name: String,
    /// The body of the function.
    pub body: Vec<Statement>,
}

impl View for Function {
    type V = FunctionModel;

    open spec fn view(&self) -> FunctionModel {
        FunctionModel {
            name: self.name@,
            body: self.body@.map(|i: int, s: Statement| s@),
        }
    }
}

/// The mathematical model of a program.
pub ghost struct ProgramModel {
    pub function: FunctionModel,
}

/// A program.
///
/// This node represents a C program. For now, a program consists of a single
/// function declaration.
#[derive(Debug)]
pub struct Program {
    /// The single function of the program.
    pub function: Function,
}

impl View for Program {
    type V = ProgramModel;

    open spec fn view(&self) -> ProgramModel {
        ProgramModel { function: self.function@ }
    }
}

} // verus!
