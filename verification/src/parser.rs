use vstd::prelude::*;

verus! {

use crate::ast::BinaryOp;
use crate::ast::Expr;
use crate::ast::ExprModel;
use crate::ast::Function;
use crate::ast::Program;
use crate::ast::Statement;
use crate::ast::FunctionModel;
use crate::ast::ProgramModel;
use crate::ast::StatementModel;
use crate::ast::UnaryOp;
use crate::token::Token;
use crate::token::TokenKind;
use crate::token::TokenModel;
use crate::token::kind_description;
use crate::token::token_views;
use vstd::string::StrSliceExecFns;
use vstd::string::StringExecFns;

/// A level of operator precedence.
///
/// The members further down bind the tightest: prefix (unary) operators bind
/// more tightly than multiplication and division, which bind more tightly
/// than addition and subtraction.
#[derive(Clone, Copy, PartialEq, Eq, Debug)]
pub enum Precedence {
    Lowest,
    Sum,
    Product,
    Prefix,
}

impl Precedence {
    /// The binding strength of this precedence level; greater binds tighter.
    pub open spec fn spec_strength(self) -> int {
        match self {
            Precedence::Lowest => 0,
            Precedence::Sum => 1,
            Precedence::Product => 2,
            Precedence::Prefix => 3,
        }
    }

    /// The binding strength of this precedence level; greater binds tighter.
    pub fn strength(self) -> (n: u8)
        ensures
            n as int == self.spec_strength(),
    {
        match self {
            Precedence::Lowest => 0,
            Precedence::Sum => 1,
            Precedence::Product => 2,
            Precedence::Prefix => 3,
        }
    }
}

/// The precedence a token's kind binds with as a prefix operator.
pub open spec fn spec_prefix_precedence(kind: TokenKind) -> Precedence {
    match kind {
        TokenKind::OperatorBang => Precedence::Prefix,
        TokenKind::OperatorMinus => Precedence::Prefix,
        TokenKind::OperatorTilde => Precedence::Prefix,
        _ => Precedence::Lowest,
    }
}

/// The precedence a token's kind binds with as an infix operator.
pub open spec fn spec_infix_precedence(kind: TokenKind) -> Precedence {
    match kind {
        TokenKind::OperatorPlus => Precedence::Sum,
        TokenKind::OperatorMinus => Precedence::Sum,
        TokenKind::OperatorStar => Precedence::Product,
        TokenKind::OperatorSlash => Precedence::Product,
        _ => Precedence::Lowest,
    }
}

fn get_prefix_precedence(kind: TokenKind) -> (p: Precedence)
    ensures
        p == spec_prefix_precedence(kind),
{
    match kind {
        TokenKind::OperatorBang => Precedence::Prefix,
        TokenKind::OperatorMinus => Precedence::Prefix,
        TokenKind::OperatorTilde => Precedence::Prefix,
        _ => Precedence::Lowest,
    }
}

fn get_infix_precedence(kind: TokenKind) -> (p: Precedence)
    ensures
        p == spec_infix_precedence(kind),
{
    match kind {
        TokenKind::OperatorPlus => Precedence::Sum,
        TokenKind::OperatorMinus => Precedence::Sum,
        TokenKind::OperatorStar => Precedence::Product,
        TokenKind::OperatorSlash => Precedence::Product,
        _ => Precedence::Lowest,
    }
}

/// The outcome of one specification-level parsing step: either a parsed value
/// together with the index of the next unconsumed token, or the error the
/// parser reports, carrying the offending token (`None` at end of input) and
/// the message.
pub ghost enum Parsed<T> {
    Done { value: T, next: int },
    Fail { token: Option<TokenModel>, message: Seq<char> },
}

/// The message of an expected-token error.
pub open spec fn msg_expected(kind: TokenKind) -> Seq<char> {
    "expected "@ + kind_description(kind)
}

/// Expecting one token of the given kind: consume it, or report which kind
/// was expected, at the offending token or at end of input.
pub open spec fn sp_advance_expect(ts: Seq<TokenModel>, pos: int, kind: TokenKind) -> Parsed<
    TokenModel,
> {
    if pos < ts.len() {
        if ts[pos].kind == kind {
            Parsed::Done { value: ts[pos], next: pos + 1 }
        } else {
            Parsed::Fail { token: Some(ts[pos]), message: msg_expected(kind) }
        }
    } else {
        Parsed::Fail { token: None, message: msg_expected(kind) }
    }
}

/// Parsing an integer literal: expect a literal-integer token, then read its
/// lexeme as a decimal number. A lexeme that is not a pure digit run is
/// malformed, and a value beyond the 32-bit signed range is out of range;
/// both are structured errors at that token.
pub open spec fn sp_parse_integer(ts: Seq<TokenModel>, pos: int) -> Parsed<ExprModel> {
    match sp_advance_expect(ts, pos, TokenKind::LiteralInteger) {
        Parsed::Done { value: t, next } => {
            if !(t.text.len() > 0 && all_digits(t.text)) {
                Parsed::Fail { token: Some(t), message: "malformed integer literal"@ }
            } else if digits_val(t.text) > i32::MAX as int {
                Parsed::Fail { token: Some(t), message: "integer literal out of range"@ }
            } else {
                Parsed::Done { value: ExprModel::Integer(digits_val(t.text)), next }
            }
        },
        Parsed::Fail { token, message } => Parsed::Fail { token, message },
    }
}

/// Every character of `s` is a decimal digit.
pub open spec fn all_digits(s: Seq<char>) -> bool {
    forall|i: int| 0 <= i < s.len() ==> crate::lexer::spec_is_digit(s[i])
}

/// The number a run of decimal digits denotes.
pub open spec fn digits_val(s: Seq<char>) -> int
    decreases s.len(),
{
    if s.len() == 0 {
        0
    } else {
        digits_val(s.drop_last()) * 10 + (s.last() as int - '0' as int)
    }
}

/// Parsing a parenthesized group: a `(`, an expression at the lowest
/// precedence, and a `)`.
pub open spec fn sp_parse_group(ts: Seq<TokenModel>, pos: int) -> Parsed<ExprModel>
    decreases ts.len() - pos, 2int,
    when 0 <= pos
{
    if pos < ts.len() {
        if ts[pos].kind == TokenKind::DelimParenLeft {
            match sp_parse_expression(ts, pos + 1, Precedence::Lowest) {
                Parsed::Done { value, next } => {
                    match sp_advance_expect(ts, next, TokenKind::DelimParenRight) {
                        Parsed::Done { value: _, next: next2 } => Parsed::Done { value, next: next2 },
                        Parsed::Fail { token, message } => Parsed::Fail { token, message },
                    }
                },
                Parsed::Fail { token, message } => Parsed::Fail { token, message },
            }
        } else {
            Parsed::Fail {
                token: Some(ts[pos]),
                message: msg_expected(TokenKind::DelimParenLeft),
            }
        }
    } else {
        Parsed::Fail { token: None, message: msg_expected(TokenKind::DelimParenLeft) }
    }
}

/// Parsing a unary expression whose operator token stands at `pos`: consume
/// the operator and parse its operand at the operator's prefix precedence.
pub open spec fn sp_parse_unary(ts: Seq<TokenModel>, pos: int, op: UnaryOp) -> Parsed<ExprModel>
    decreases ts.len() - pos, 2int,
    when 0 <= pos
{
    if pos < ts.len() {
        match sp_parse_expression(ts, pos + 1, spec_prefix_precedence(ts[pos].kind)) {
            Parsed::Done { value, next } => Parsed::Done {
                value: ExprModel::Unary { operator: op, operand: Box::new(value) },
                next,
            },
            Parsed::Fail { token, message } => Parsed::Fail { token, message },
        }
    } else {
        Parsed::Fail { token: None, message: "expected unary operator"@ }
    }
}

/// Parsing the right half of a binary expression whose operator token stands
/// at `pos`: consume the operator and parse the right operand at the
/// operator's infix precedence, folding `left` in on the left.
pub open spec fn sp_parse_binary(
    ts: Seq<TokenModel>,
    pos: int,
    op: BinaryOp,
    left: ExprModel,
) -> Parsed<ExprModel>
    decreases ts.len() - pos, 2int,
    when 0 <= pos
{
    if pos < ts.len() {
        match sp_parse_expression(ts, pos + 1, spec_infix_precedence(ts[pos].kind)) {
            Parsed::Done { value, next } => Parsed::Done {
                value: ExprModel::Binary {
                    operator: op,
                    left: Box::new(left),
                    right: Box::new(value),
                },
                next,
            },
            Parsed::Fail { token, message } => Parsed::Fail { token, message },
        }
    } else {
        Parsed::Fail { token: None, message: "expected binary operator"@ }
    }
}

/// Parsing a prefix term: a parenthesized group, an integer literal, or a
/// unary operator applied to a term. Anything else, identifiers included, is
/// a parse failure at that token.
pub open spec fn sp_parse_prefix(ts: Seq<TokenModel>, pos: int) -> Parsed<ExprModel>
    decreases ts.len() - pos, 3int,
    when 0 <= pos < ts.len()
{
    match ts[pos].kind {
        TokenKind::DelimParenLeft => sp_parse_group(ts, pos),
        TokenKind::LiteralInteger => sp_parse_integer(ts, pos),
        TokenKind::OperatorBang => sp_parse_unary(ts, pos, UnaryOp::NegateLogical),
        TokenKind::OperatorMinus => sp_parse_unary(ts, pos, UnaryOp::NegateArith),
        TokenKind::OperatorTilde => sp_parse_unary(ts, pos, UnaryOp::Compliment),
        _ => Parsed::Fail { token: Some(ts[pos]), message: "expected prefix operator"@ },
    }
}

/// Parsing an infix step: the operator token at `pos` decides which binary
/// operation folds `left` together with the operand to its right.
pub open spec fn sp_parse_infix(ts: Seq<TokenModel>, pos: int, left: ExprModel) -> Parsed<
    ExprModel,
>
    decreases ts.len() - pos, 3int,
    when 0 <= pos < ts.len()
{
    match ts[pos].kind {
        TokenKind::OperatorMinus => sp_parse_binary(ts, pos, BinaryOp::Minus, left),
        TokenKind::OperatorPlus => sp_parse_binary(ts, pos, BinaryOp::Plus, left),
        TokenKind::OperatorSlash => sp_parse_binary(ts, pos, BinaryOp::Divide, left),
        TokenKind::OperatorStar => sp_parse_binary(ts, pos, BinaryOp::Times, left),
        _ => Parsed::Fail { token: Some(ts[pos]), message: "expected infix operator"@ },
    }
}

/// Folding infix operators into `left` for as long as the next token is an
/// infix operator that binds more tightly than `prec`. Operators of equal
/// precedence fold left-associatively.
pub open spec fn sp_infix_chain(
    ts: Seq<TokenModel>,
    pos: int,
    prec: Precedence,
    left: ExprModel,
) -> Parsed<ExprModel>
    decreases ts.len() - pos, 5int,
    when 0 <= pos <= ts.len()
{
    if pos < ts.len() && prec.spec_strength()
        < spec_infix_precedence(ts[pos].kind).spec_strength() {
        match sp_parse_infix(ts, pos, left) {
            Parsed::Done { value, next } => {
                if pos < next <= ts.len() {
                    sp_infix_chain(ts, next, prec, value)
                } else {
                    // never reached (lemma_expression_progress): a parse that succeeds
                    // consumes at least one token
                    Parsed::Fail { token: None, message: Seq::empty() }
                }
            },
            Parsed::Fail { token, message } => Parsed::Fail { token, message },
        }
    } else {
        Parsed::Done { value: left, next: pos }
    }
}

/// Parsing an expression at a minimum precedence `prec`: parse one prefix
/// term, then fold in every following infix operator that binds more tightly
/// than `prec`.
pub open spec fn sp_parse_expression(ts: Seq<TokenModel>, pos: int, prec: Precedence) -> Parsed<
    ExprModel,
>
    decreases ts.len() - pos, 4int,
    when 0 <= pos
{
    if pos < ts.len() {
        match sp_parse_prefix(ts, pos) {
            Parsed::Done { value, next } => {
                if pos < next <= ts.len() {
                    sp_infix_chain(ts, next, prec, value)
                } else {
                    // never reached (lemma_expression_progress): a parse that succeeds
                    // consumes at least one token
                    Parsed::Fail { token: None, message: Seq::empty() }
                }
            },
            Parsed::Fail { token, message } => Parsed::Fail { token, message },
        }
    } else {
        Parsed::Fail { token: None, message: "expected expression"@ }
    }
}

/// A successful expression parse consumes at least one token and never runs
/// past the input: the guard arms inside [`sp_parse_expression`] and
/// [`sp_infix_chain`] are dead. (They are written out only so that each
/// recursive call visibly decreases its measure.)
pub proof fn lemma_expression_progress(ts: Seq<TokenModel>, pos: int, prec: Precedence)
    requires
        0 <= pos <= ts.len(),
    ensures
        match sp_parse_expression(ts, pos, prec) {
            Parsed::Done { value, next } => pos < next <= ts.len(),
            Parsed::Fail { .. } => true,
        },
    decreases ts.len() - pos, 4int,
{
    if pos < ts.len() {
        lemma_prefix_progress(ts, pos);
        match sp_parse_prefix(ts, pos) {
            Parsed::Done { value, next } => {
                lemma_infix_chain_progress(ts, next, prec, value);
            },
            Parsed::Fail { .. } => {},
        }
    }
}

/// As [`lemma_expression_progress`], for the infix-folding stage; a finished
/// chain ends exactly where it stood, never earlier.
pub proof fn lemma_infix_chain_progress(
    ts: Seq<TokenModel>,
    pos: int,
    prec: Precedence,
    left: ExprModel,
)
    requires
        0 <= pos <= ts.len(),
    ensures
        match sp_infix_chain(ts, pos, prec, left) {
            Parsed::Done { value, next } => pos <= next <= ts.len(),
            Parsed::Fail { .. } => true,
        },
    decreases ts.len() - pos, 5int,
{
    if pos < ts.len() && prec.spec_strength() < spec_infix_precedence(
        ts[pos].kind,
    ).spec_strength() {
        lemma_infix_progress(ts, pos, left);
        match sp_parse_infix(ts, pos, left) {
            Parsed::Done { value, next } => {
                lemma_infix_chain_progress(ts, next, prec, value);
            },
            Parsed::Fail { .. } => {},
        }
    }
}

/// As [`lemma_expression_progress`], for prefix terms.
pub proof fn lemma_prefix_progress(ts: Seq<TokenModel>, pos: int)
    requires
        0 <= pos < ts.len(),
    ensures
        match sp_parse_prefix(ts, pos) {
            Parsed::Done { value, next } => pos < next <= ts.len(),
            Parsed::Fail { .. } => true,
        },
    decreases ts.len() - pos, 3int,
{
    match ts[pos].kind {
        TokenKind::DelimParenLeft => {
            lemma_expression_progress(ts, pos + 1, Precedence::Lowest);
        },
        TokenKind::OperatorBang => {
            lemma_expression_progress(ts, pos + 1, spec_prefix_precedence(ts[pos].kind));
        },
        TokenKind::OperatorMinus => {
            lemma_expression_progress(ts, pos + 1, spec_prefix_precedence(ts[pos].kind));
        },
        TokenKind::OperatorTilde => {
            lemma_expression_progress(ts, pos + 1, spec_prefix_precedence(ts[pos].kind));
        },
        _ => {},
    }
}

/// As [`lemma_expression_progress`], for one infix step.
pub proof fn lemma_infix_progress(ts: Seq<TokenModel>, pos: int, left: ExprModel)
    requires
        0 <= pos < ts.len(),
    ensures
        match sp_parse_infix(ts, pos, left) {
            Parsed::Done { value, next } => pos < next <= ts.len(),
            Parsed::Fail { .. } => true,
        },
    decreases ts.len() - pos, 3int,
{
    match ts[pos].kind {
        TokenKind::OperatorMinus => {
            lemma_expression_progress(ts, pos + 1, spec_infix_precedence(ts[pos].kind));
        },
        TokenKind::OperatorPlus => {
            lemma_expression_progress(ts, pos + 1, spec_infix_precedence(ts[pos].kind));
        },
        TokenKind::OperatorSlash => {
            lemma_expression_progress(ts, pos + 1, spec_infix_precedence(ts[pos].kind));
        },
        TokenKind::OperatorStar => {
            lemma_expression_progress(ts, pos + 1, spec_infix_precedence(ts[pos].kind));
        },
        _ => {},
    }
}

/// Parsing an identifier: the name is the lexeme of a literal-identifier
/// token.
pub open spec fn sp_parse_identifier(ts: Seq<TokenModel>, pos: int) -> Parsed<Seq<char>> {
    match sp_advance_expect(ts, pos, TokenKind::LiteralIdentifier) {
        Parsed::Done { value: t, next } => Parsed::Done { value: t.text, next },
        Parsed::Fail { token, message } => Parsed::Fail { token, message },
    }
}

/// Parsing a return statement: the `return` keyword, an expression at the
/// lowest precedence, and a semicolon.
pub open spec fn sp_parse_return(ts: Seq<TokenModel>, pos: int) -> Parsed<StatementModel> {
    match sp_advance_expect(ts, pos, TokenKind::KeywordReturn) {
        Parsed::Done { value: _, next } => {
            match sp_parse_expression(ts, next, Precedence::Lowest) {
                Parsed::Done { value, next: next2 } => {
                    match sp_advance_expect(ts, next2, TokenKind::DelimSemicolon) {
                        Parsed::Done { value: _, next: next3 } => Parsed::Done {
                            value: StatementModel::Return(value),
                            next: next3,
                        },
                        Parsed::Fail { token, message } => Parsed::Fail { token, message },
                    }
                },
                Parsed::Fail { token, message } => Parsed::Fail { token, message },
            }
        },
        Parsed::Fail { token, message } => Parsed::Fail { token, message },
    }
}

/// Parsing a statement: only return statements exist, so anything that does
/// not start with the `return` keyword is an error at that token (or at end
/// of input).
pub open spec fn sp_parse_statement(ts: Seq<TokenModel>, pos: int) -> Parsed<StatementModel> {
    if pos < ts.len() && ts[pos].kind == TokenKind::KeywordReturn {
        sp_parse_return(ts, pos)
    } else {
        Parsed::Fail {
            token: if pos < ts.len() {
                Some(ts[pos])
            } else {
                None
            },
            message: "expected statement"@,
        }
    }
}

/// Parsing a function declaration: `int NAME ( void ) { statement }`, whose
/// body is the single statement.
pub open spec fn sp_parse_function(ts: Seq<TokenModel>, pos: int) -> Parsed<FunctionModel> {
    match sp_advance_expect(ts, pos, TokenKind::KeywordInt) {
        Parsed::Done { value: _, next } => {
            match sp_parse_identifier(ts, next) {
                Parsed::Done { value: name, next } => {
                    match sp_advance_expect(ts, next, TokenKind::DelimParenLeft) {
                        Parsed::Done { value: _, next } => {
                            match sp_advance_expect(ts, next, TokenKind::KeywordVoid) {
                                Parsed::Done { value: _, next } => {
                                    match sp_advance_expect(
                                        ts,
                                        next,
                                        TokenKind::DelimParenRight,
                                    ) {
                                        Parsed::Done { value: _, next } => {
                                            match sp_advance_expect(
                                                ts,
                                                next,
                                                TokenKind::DelimBraceLeft,
                                            ) {
                                                Parsed::Done { value: _, next } => {
                                                    sp_parse_function_tail(ts, next, name)
                                                },
                                                Parsed::Fail { token, message } => Parsed::Fail {
                                                    token,
                                                    message,
                                                },
                                            }
                                        },
                                        Parsed::Fail { token, message } => Parsed::Fail {
                                            token,
                                            message,
                                        },
                                    }
                                },
                                Parsed::Fail { token, message } => Parsed::Fail { token, message },
                            }
                        },
                        Parsed::Fail { token, message } => Parsed::Fail { token, message },
                    }
                },
                Parsed::Fail { token, message } => Parsed::Fail { token, message },
            }
        },
        Parsed::Fail { token, message } => Parsed::Fail { token, message },
    }
}

/// The rest of a function after its opening brace: the body statement and the
/// closing brace.
pub open spec fn sp_parse_function_tail(ts: Seq<TokenModel>, pos: int, name: Seq<char>) -> Parsed<
    FunctionModel,
> {
    match sp_parse_statement(ts, pos) {
        Parsed::Done { value: body, next } => {
            match sp_advance_expect(ts, next, TokenKind::DelimBraceRight) {
                Parsed::Done { value: _, next: next2 } => Parsed::Done {
                    value: FunctionModel { name, body: seq![body] },
                    next: next2,
                },
                Parsed::Fail { token, message } => Parsed::Fail { token, message },
            }
        },
        Parsed::Fail { token, message } => Parsed::Fail { token, message },
    }
}

/// Parsing a program: a single function declaration, after which no token may
/// remain.
pub open spec fn sp_parse_program(ts: Seq<TokenModel>, pos: int) -> Parsed<ProgramModel> {
    match sp_parse_function(ts, pos) {
        Parsed::Done { value: function, next } => {
            if next < ts.len() {
                Parsed::Fail { token: Some(ts[next]), message: "expected end of file"@ }
            } else {
                Parsed::Done { value: ProgramModel { function }, next }
            }
        },
        Parsed::Fail { token, message } => Parsed::Fail { token, message },
    }
}

/// The mathematical model of a parse error: the offending token, if any, and
/// the message.
pub ghost struct ParseErrorModel {
    pub token: Option<TokenModel>,
    pub message: Seq<char>,
}

/// An error that can be generated while parsing.
#[derive(Clone, Debug)]
pub struct ParseError {
    /// The token at which parsing failed; `None` means the input ended where
    /// a token was required.
    pub token: Option<Token>,
    /// A human-readable description of what the parser expected.
    pub message: String,
}

impl View for ParseError {
    type V = ParseErrorModel;

    open spec fn view(&self) -> ParseErrorModel {
        ParseErrorModel {
            token: match self.token {
                Some(t) => Some(t@),
                None => None,
            },
            message: self.message@,
        }
    }
}

impl ParseError {
    /// Create a new parse error.
    fn new(token: Option<Token>, message: String) -> (e: ParseError)
        ensures
            e.token == token,
            e.message == message,
    {
        ParseError { token, message }
    }

    /// Create a new parse error at the specified token.
    fn at_token(token: Token, message: String) -> (e: ParseError)
        ensures
            e.token == Some(token),
            e.message == message,
    {
        Self::new(Some(token), message)
    }

    /// Create a new end of file parse error.
    fn end_of_file(message: String) -> (e: ParseError)
        ensures
            e.token is None,
            e.message == message,
    {
        Self::new(None, message)
    }
}

/// A simple type alias for a [`Result`] whose [`Err`] variant contains a
/// [`ParseError`].
pub type ParseResult<T> = Result<T, ParseError>;

/// An executable token result agrees with a specification-level one: on
/// success the views and the next position coincide, on failure the error
/// carries the same token and message.
pub open spec fn matches_token_result(r: ParseResult<Token>, s: Parsed<TokenModel>, next: int) -> bool {
    match r {
        Ok(t) => s == (Parsed::Done { value: t@, next }),
        Err(e) => s == (Parsed::<TokenModel>::Fail { token: e@.token, message: e@.message }),
    }
}

/// As [`matches_token_result`], for expressions.
pub open spec fn matches_expr_result(r: ParseResult<Expr>, s: Parsed<ExprModel>, next: int) -> bool {
    match r {
        Ok(e) => s == (Parsed::Done { value: e@, next }),
        Err(e) => s == (Parsed::<ExprModel>::Fail { token: e@.token, message: e@.message }),
    }
}

/// As [`matches_token_result`], for statements.
pub open spec fn matches_statement_result(
    r: ParseResult<Statement>,
    s: Parsed<StatementModel>,
    next: int,
) -> bool {
    match r {
        Ok(st) => s == (Parsed::Done { value: st@, next }),
        Err(e) => s == (Parsed::<StatementModel>::Fail { token: e@.token, message: e@.message }),
    }
}

/// As [`matches_token_result`], for parsed names.
pub open spec fn matches_name_result(r: ParseResult<String>, s: Parsed<Seq<char>>, next: int) -> bool {
    match r {
        Ok(name) => s == (Parsed::Done { value: name@, next }),
        Err(e) => s == (Parsed::<Seq<char>>::Fail { token: e@.token, message: e@.message }),
    }
}

/// As [`matches_token_result`], for functions.
pub open spec fn matches_function_result(
    r: ParseResult<Function>,
    s: Parsed<FunctionModel>,
    next: int,
) -> bool {
    match r {
        Ok(f) => s == (Parsed::Done { value: f@, next }),
        Err(e) => s == (Parsed::<FunctionModel>::Fail { token: e@.token, message: e@.message }),
    }
}

/// An executable program result agrees with a specification-level one; a
/// parsed program consumes the whole input, so no next position is compared.
pub open spec fn matches_program_result(r: ParseResult<Program>, s: Parsed<ProgramModel>) -> bool {
    match r {
        Ok(p) => (s matches Parsed::Done { value, next } && value == p@),
        Err(e) => s == (Parsed::<ProgramModel>::Fail { token: e@.token, message: e@.message }),
    }
}

/// The value of an all-digit run is never negative.
proof fn lemma_digits_val_nonneg(s: Seq<char>)
    requires
        all_digits(s),
    ensures
        digits_val(s) >= 0,
    decreases s.len(),
{
    if s.len() > 0 {
        assert(all_digits(s.drop_last()));
        lemma_digits_val_nonneg(s.drop_last());
        assert(crate::lexer::spec_is_digit(s.last()));
    }
}

/// The value of an all-digit run is at least the value of any of its
/// prefixes: appending digits can only grow the value.
proof fn lemma_digits_val_prefix_le(s: Seq<char>, k: int)
    requires
        all_digits(s),
        0 <= k <= s.len(),
    ensures
        digits_val(s.take(k)) <= digits_val(s),
    decreases s.len() - k,
{
    if k < s.len() {
        lemma_digits_val_prefix_le(s, k + 1);
        assert(s.take(k + 1).drop_last() =~= s.take(k));
        assert(s.take(k + 1).last() == s[k]);
        assert(all_digits(s.take(k)));
        lemma_digits_val_nonneg(s.take(k));
        assert(crate::lexer::spec_is_digit(s[k]));
        assert(digits_val(s.take(k)) <= digits_val(s.take(k + 1)));
    } else {
        assert(s.take(k) =~= s);
    }
}

/// Check that a lexeme is a nonempty run of decimal digits.
fn lexeme_digits(s: &str) -> (b: bool)
    ensures
        b == (s@.len() > 0 && all_digits(s@)),
{
    let len = s.unicode_len();
    if len == 0 {
        return false;
    }
    let mut j: usize = 0;
    while j < len
        invariant
            len == s@.len(),
            j <= len,
            forall|i: int| 0 <= i < j ==> crate::lexer::spec_is_digit(s@[i]),
        decreases len - j,
    {
        let c = s.get_char(j);
        if !('0' <= c && c <= '9') {
            return false;
        }
        j += 1;
    }
    true
}

/// Read a nonempty run of decimal digits as a 32-bit signed integer, or
/// report that its value is out of range.
fn decimal_value(s: &str) -> (r: Option<i32>)
    requires
        s@.len() > 0,
        all_digits(s@),
    ensures
        match r {
            Some(v) => v as int == digits_val(s@) && v >= 0,
            None => digits_val(s@) > i32::MAX as int,
        },
{
    let len = s.unicode_len();
    let mut acc: u32 = 0;
    let mut j: usize = 0;
    while j < len
        invariant
            len == s@.len(),
            s@.len() > 0,
            all_digits(s@),
            j <= len,
            acc as int == digits_val(s@.take(j as int)),
            acc <= 2147483647,
        decreases len - j,
    {
        let c = s.get_char(j);
        assert(crate::lexer::spec_is_digit(s@[j as int]));
        let d: u32 = (c as u32) - ('0' as u32);
        proof {
            assert(s@.take(j + 1).drop_last() =~= s@.take(j as int));
            assert(s@.take(j + 1).last() == s@[j as int]);
        }
        if acc > 214748364 || (acc == 214748364 && d > 7) {
            proof {
                assert(digits_val(s@.take(j + 1)) > i32::MAX as int);
                lemma_digits_val_prefix_le(s@, j + 1);
            }
            return None;
        }
        acc = acc * 10 + d;
        j += 1;
    }
    proof {
        assert(s@.take(len as int) =~= s@);
    }
    Some(acc as i32)
}

/// The parser.
struct Parser {
    tokens: Vec<Token>,
    current: usize,
}

impl Parser {
    /// The models of the tokens under the parser.
    spec fn toks(self) -> Seq<TokenModel> {
        token_views(self.tokens@)
    }

    /// The parser's position as a mathematical index.
    spec fn pos(self) -> int {
        self.current as int
    }

    /// The parser never points past the end of its token sequence.
    spec fn wf(self) -> bool {
        self.current <= self.tokens@.len()
    }

    fn new(tokens: Vec<Token>) -> (parser: Parser)
        ensures
            parser.wf(),
            parser.tokens == tokens,
            parser.current == 0,
    {
        Self { tokens, current: 0 }
    }

    /// Advance the parser and return the next token, or `None` at the end of
    /// the token stream.
    fn advance(&mut self) -> (t: Option<Token>)
        requires
            old(self).wf(),
        ensures
            final(self).wf(),
            final(self).tokens == old(self).tokens,
            old(self).current < old(self).tokens@.len() ==> (t matches Some(tok)
                && tok == old(self).tokens@[old(self).pos()] && final(self).current == old(
                self,
            ).current + 1),
            old(self).current >= old(self).tokens@.len() ==> t is None && *final(self) == *old(
                self,
            ),
    {
        if self.current < self.tokens.len() {
            let token = self.tokens[self.current].clone();
            self.current = self.current + 1;
            Some(token)
        } else {
            None
        }
    }

    /// Advance the parser if the next token has the given kind; otherwise
    /// report which kind was expected, at the offending token or at end of
    /// input, without consuming anything.
    fn advance_expect(&mut self, kind: TokenKind) -> (r: ParseResult<Token>)
        requires
            old(self).wf(),
        ensures
            final(self).wf(),
            final(self).tokens == old(self).tokens,
            matches_token_result(r, sp_advance_expect(old(self).toks(), old(self).pos(), kind), final(self).pos()),
            (r matches Ok(_)) ==> final(self).current == old(self).current + 1,
            (r matches Err(_)) ==> *final(self) == *old(self),
    {
        let message = String::from_str("expected ").concat(kind.describe());
        if self.current >= self.tokens.len() {
            return Err(ParseError::end_of_file(message));
        }
        let token = self.tokens[self.current].clone();
        if token.kind != kind {
            return Err(ParseError::at_token(token, message));
        }
        self.current = self.current + 1;
        Ok(token)
    }

    /// Get the next token, or an error with the given message if there is
    /// none.
    fn advance_expect_anything(&mut self, message: &str) -> (r: ParseResult<Token>)
        requires
            old(self).wf(),
        ensures
            final(self).wf(),
            final(self).tokens == old(self).tokens,
            old(self).current < old(self).tokens@.len() ==> (r matches Ok(tok)
                && tok == old(self).tokens@[old(self).pos()] && final(self).current == old(
                self,
            ).current + 1),
            old(self).current >= old(self).tokens@.len() ==> (r matches Err(e)
                && e@.token is None && e@.message == message@ && *final(self) == *old(self)),
    {
        match self.advance() {
            Some(token) => Ok(token),
            None => Err(ParseError::end_of_file(String::from_str(message))),
        }
    }

    /// Get the token the parser is currently pointing to, or `None` at the
    /// end of the token stream.
    fn peek(&self) -> (t: Option<&Token>)
        requires
            self.wf(),
        ensures
            self.current < self.tokens@.len() ==> (t matches Some(tok) && *tok == self.tokens@[
                self.pos()]),
            self.current >= self.tokens@.len() ==> t is None,
    {
        if self.current < self.tokens.len() {
            Some(&self.tokens[self.current])
        } else {
            None
        }
    }

    /// Get the token the parser is currently pointing to, cloned, or an
    /// error with the given message at end of input.
    fn peek_expect_anything(&self, message: &str) -> (r: ParseResult<Token>)
        requires
            self.wf(),
        ensures
            self.current < self.tokens@.len() ==> (r matches Ok(tok) && tok == self.tokens@[
                self.pos()]),
            self.current >= self.tokens@.len() ==> (r matches Err(e) && e@.token is None
                && e@.message == message@),
    {
        if self.current < self.tokens.len() {
            Ok(self.tokens[self.current].clone())
        } else {
            Err(ParseError::end_of_file(String::from_str(message)))
        }
    }

    /// Parse a program: a single function declaration, after which no token
    /// may remain.
    fn parse_program(&mut self) -> (r: ParseResult<Program>)
        requires
            old(self).wf(),
        ensures
            final(self).wf(),
            final(self).tokens == old(self).tokens,
            matches_program_result(r, sp_parse_program(old(self).toks(), old(self).pos())),
    {
        let function = match self.parse_function() {
            Ok(f) => f,
            Err(e) => return Err(e),
        };
        match self.peek() {
            Some(token) => {
                let token = token.clone();
                Err(ParseError::at_token(token, String::from_str("expected end of file")))
            },
            None => Ok(Program { function }),
        }
    }

    /// Parse a function declaration: return type, name, parameter list, and
    /// body.
    fn parse_function(&mut self) -> (r: ParseResult<Function>)
        requires
            old(self).wf(),
        ensures
            final(self).wf(),
            final(self).tokens == old(self).tokens,
            matches_function_result(r, sp_parse_function(old(self).toks(), old(self).pos()), final(self).pos()),
    {
        match self.advance_expect(TokenKind::KeywordInt) {
            Ok(_) => (),
            Err(e) => return Err(e),
        }
        let name = match self.parse_identifier() {
            Ok(n) => n,
            Err(e) => return Err(e),
        };
        match self.advance_expect(TokenKind::DelimParenLeft) {
            Ok(_) => (),
            Err(e) => return Err(e),
        }
        match self.advance_expect(TokenKind::KeywordVoid) {
            Ok(_) => (),
            Err(e) => return Err(e),
        }
        match self.advance_expect(TokenKind::DelimParenRight) {
            Ok(_) => (),
            Err(e) => return Err(e),
        }
        match self.advance_expect(TokenKind::DelimBraceLeft) {
            Ok(_) => (),
            Err(e) => return Err(e),
        }
        let return_statement = match self.parse_statement() {
            Ok(s) => s,
            Err(e) => return Err(e),
        };
        match self.advance_expect(TokenKind::DelimBraceRight) {
            Ok(_) => (),
            Err(e) => return Err(e),
        }
        let mut body: Vec<Statement> = Vec::new();
        body.push(return_statement);
        let function = Function { name, body };
        proof {
            assert(function@.body =~= seq![return_statement@]);
        }
        Ok(function)
    }

    /// Parse the next statement. Only return statements exist in this scope,
    /// so anything else is an error at the offending token.
    fn parse_statement(&mut self) -> (r: ParseResult<Statement>)
        requires
            old(self).wf(),
        ensures
            final(self).wf(),
            final(self).tokens == old(self).tokens,
            matches_statement_result(r, sp_parse_statement(old(self).toks(), old(self).pos()), final(self).pos()),
    {
        if self.current < self.tokens.len() {
            if self.tokens[self.current].kind == TokenKind::KeywordReturn {
                return self.parse_return();
            }
            let token = self.tokens[self.current].clone();
            Err(ParseError::new(Some(token), String::from_str("expected statement")))
        } else {
            Err(ParseError::new(None, String::from_str("expected statement")))
        }
    }

    /// Parse a return statement: the `return` keyword, an expression, and a
    /// semicolon.
    fn parse_return(&mut self) -> (r: ParseResult<Statement>)
        requires
            old(self).wf(),
        ensures
            final(self).wf(),
            final(self).tokens == old(self).tokens,
            matches_statement_result(r, sp_parse_return(old(self).toks(), old(self).pos()), final(self).pos()),
    {
        match self.advance_expect(TokenKind::KeywordReturn) {
            Ok(_) => (),
            Err(e) => return Err(e),
        }
        let return_value = match self.parse_expression(Precedence::Lowest) {
            Ok(e) => e,
            Err(e) => return Err(e),
        };
        match self.advance_expect(TokenKind::DelimSemicolon) {
            Ok(_) => (),
            Err(e) => return Err(e),
        }
        Ok(Statement::Return(return_value))
    }

    /// Parse an expression at a minimum precedence: one prefix term, then
    /// every following infix operator that binds more tightly than `prec`,
    /// folded in left-associatively.
    fn parse_expression(&mut self, prec: Precedence) -> (r: ParseResult<Expr>)
        requires
            old(self).wf(),
        ensures
            final(self).wf(),
            final(self).tokens == old(self).tokens,
            old(self).current <= final(self).current,
            matches_expr_result(r, sp_parse_expression(old(self).toks(), old(self).pos(), prec), final(self).pos()),
            (r matches Ok(_)) ==> final(self).current > old(self).current,
        decreases old(self).tokens@.len() - old(self).current, 4int,
    {
        let ghost ts = self.toks();
        let ghost pos0 = self.pos();
        let token = match self.peek_expect_anything("expected expression") {
            Ok(t) => t,
            Err(e) => return Err(e),
        };
        let mut left = match self.parse_prefix(token) {
            Ok(e) => e,
            Err(e) => return Err(e),
        };
        loop
            invariant
                self.wf(),
                self.tokens == old(self).tokens,
                ts == self.toks(),
                pos0 == old(self).pos(),
                pos0 < self.pos() <= ts.len(),
                sp_parse_expression(ts, pos0, prec) == sp_infix_chain(ts, self.pos(), prec, left@),
            ensures
                self.wf(),
                self.tokens == old(self).tokens,
                pos0 < self.pos() <= ts.len(),
                sp_parse_expression(ts, pos0, prec) == (Parsed::Done {
                    value: left@,
                    next: self.pos(),
                }),
            decreases ts.len() - self.pos(),
        {
            if self.current >= self.tokens.len() {
                break ;
            }
            let token_prec = get_infix_precedence(self.tokens[self.current].kind);
            if !(prec.strength() < token_prec.strength()) {
                break ;
            }
            let token = self.tokens[self.current].clone();
            left = match self.parse_infix(token, left) {
                Ok(e) => e,
                Err(e) => return Err(e),
            };
        }
        Ok(left)
    }

    /// Parse a prefix term: a parenthesized group, an integer literal, or a
    /// unary operator and its operand. `token` is the token at the parser's
    /// position.
    fn parse_prefix(&mut self, token: Token) -> (r: ParseResult<Expr>)
        requires
            old(self).wf(),
            old(self).current < old(self).tokens@.len(),
            token == old(self).tokens@[old(self).pos()],
        ensures
            final(self).wf(),
            final(self).tokens == old(self).tokens,
            old(self).current <= final(self).current,
            matches_expr_result(r, sp_parse_prefix(old(self).toks(), old(self).pos()), final(self).pos()),
            (r matches Ok(_)) ==> final(self).current > old(self).current,
        decreases old(self).tokens@.len() - old(self).current, 3int,
    {
        match token.kind {
            TokenKind::DelimParenLeft => self.parse_group(),
            TokenKind::LiteralInteger => self.parse_integer(),
            TokenKind::OperatorBang => self.parse_unary(UnaryOp::NegateLogical),
            TokenKind::OperatorMinus => self.parse_unary(UnaryOp::NegateArith),
            TokenKind::OperatorTilde => self.parse_unary(UnaryOp::Compliment),
            _ => Err(ParseError::at_token(token, String::from_str("expected prefix operator"))),
        }
    }

    /// Parse an infix step: the operator token at the parser's position
    /// decides which binary operation folds `left` together with the operand
    /// to its right.
    fn parse_infix(&mut self, token: Token, left: Expr) -> (r: ParseResult<Expr>)
        requires
            old(self).wf(),
            old(self).current < old(self).tokens@.len(),
            token == old(self).tokens@[old(self).pos()],
        ensures
            final(self).wf(),
            final(self).tokens == old(self).tokens,
            old(self).current <= final(self).current,
            matches_expr_result(r, sp_parse_infix(old(self).toks(), old(self).pos(), left@), final(self).pos()),
            (r matches Ok(_)) ==> final(self).current > old(self).current,
        decreases old(self).tokens@.len() - old(self).current, 3int,
    {
        match BinaryOp::from_token_kind(token.kind) {
            Some(op) => self.parse_binary(op, left),
            None => Err(ParseError::at_token(token, String::from_str("expected infix operator"))),
        }
    }

    /// Parse a unary expression with the given operator: skip the operator
    /// token and parse the operand at the operator's prefix precedence.
    fn parse_unary(&mut self, op: UnaryOp) -> (r: ParseResult<Expr>)
        requires
            old(self).wf(),
        ensures
            final(self).wf(),
            final(self).tokens == old(self).tokens,
            old(self).current <= final(self).current,
            matches_expr_result(r, sp_parse_unary(old(self).toks(), old(self).pos(), op), final(self).pos()),
            (r matches Ok(_)) ==> final(self).current > old(self).current,
        decreases old(self).tokens@.len() - old(self).current, 2int,
    {
        let token = match self.advance_expect_anything("expected unary operator") {
            Ok(t) => t,
            Err(e) => return Err(e),
        };
        let prec = get_prefix_precedence(token.kind);
        let operand = match self.parse_expression(prec) {
            Ok(e) => e,
            Err(e) => return Err(e),
        };
        Ok(Expr::Unary { operator: op, operand: Box::new(operand) })
    }

    /// Parse the right half of a binary expression: skip the operator token
    /// and parse the right operand at the operator's infix precedence.
    fn parse_binary(&mut self, op: BinaryOp, left: Expr) -> (r: ParseResult<Expr>)
        requires
            old(self).wf(),
        ensures
            final(self).wf(),
            final(self).tokens == old(self).tokens,
            old(self).current <= final(self).current,
            matches_expr_result(r, sp_parse_binary(old(self).toks(), old(self).pos(), op, left@), final(self).pos()),
            (r matches Ok(_)) ==> final(self).current > old(self).current,
        decreases old(self).tokens@.len() - old(self).current, 2int,
    {
        let token = match self.advance_expect_anything("expected binary operator") {
            Ok(t) => t,
            Err(e) => return Err(e),
        };
        let prec = get_infix_precedence(token.kind);
        let right = match self.parse_expression(prec) {
            Ok(e) => e,
            Err(e) => return Err(e),
        };
        Ok(Expr::Binary { operator: op, left: Box::new(left), right: Box::new(right) })
    }

    /// Parse a parenthesized group: an opening parenthesis, an expression at
    /// the lowest precedence, and a closing parenthesis.
    fn parse_group(&mut self) -> (r: ParseResult<Expr>)
        requires
            old(self).wf(),
        ensures
            final(self).wf(),
            final(self).tokens == old(self).tokens,
            old(self).current <= final(self).current,
            matches_expr_result(r, sp_parse_group(old(self).toks(), old(self).pos()), final(self).pos()),
            (r matches Ok(_)) ==> final(self).current > old(self).current,
        decreases old(self).tokens@.len() - old(self).current, 2int,
    {
        match self.advance_expect(TokenKind::DelimParenLeft) {
            Ok(_) => (),
            Err(e) => return Err(e),
        }
        let expr = match self.parse_expression(Precedence::Lowest) {
            Ok(e) => e,
            Err(e) => return Err(e),
        };
        match self.advance_expect(TokenKind::DelimParenRight) {
            Ok(_) => (),
            Err(e) => return Err(e),
        }
        Ok(expr)
    }

    /// Parse the next identifier and return its lexeme.
    fn parse_identifier(&mut self) -> (r: ParseResult<String>)
        requires
            old(self).wf(),
        ensures
            final(self).wf(),
            final(self).tokens == old(self).tokens,
            matches_name_result(r, sp_parse_identifier(old(self).toks(), old(self).pos()), final(self).pos()),
    {
        let ident = match self.advance_expect(TokenKind::LiteralIdentifier) {
            Ok(t) => t,
            Err(e) => return Err(e),
        };
        Ok(ident.lexeme)
    }

    /// Parse the next integer literal. A lexeme that is not a digit run is
    /// reported as malformed; a value beyond the 32-bit signed range is
    /// reported as out of range.
    fn parse_integer(&mut self) -> (r: ParseResult<Expr>)
        requires
            old(self).wf(),
        ensures
            final(self).wf(),
            final(self).tokens == old(self).tokens,
            old(self).current <= final(self).current,
            matches_expr_result(r, sp_parse_integer(old(self).toks(), old(self).pos()), final(self).pos()),
            (r matches Ok(_)) ==> final(self).current > old(self).current,
        decreases old(self).tokens@.len() - old(self).current, 2int,
    {
        let integer = match self.advance_expect(TokenKind::LiteralInteger) {
            Ok(t) => t,
            Err(e) => return Err(e),
        };
        if !lexeme_digits(integer.lexeme.as_str()) {
            return Err(
                ParseError::at_token(integer, String::from_str("malformed integer literal")),
            );
        }
        match decimal_value(integer.lexeme.as_str()) {
            Some(value) => Ok(Expr::Integer(value)),
            None => Err(
                ParseError::at_token(integer, String::from_str("integer literal out of range")),
            ),
        }
    }
}

/// Every well-shaped program parses to the expected tree: for every token
/// sequence of the shape `int NAME ( void ) { return EXPR ; }` — where the
/// tokens between `return` and the semicolon parse as an expression reaching
/// exactly the semicolon — parsing the whole sequence succeeds and yields a
/// program whose function carries `NAME`'s lexeme and whose body is the
/// single return statement wrapping that expression.
pub proof fn lemma_program_shape(ts: Seq<TokenModel>, expr: ExprModel)
    requires
        ts.len() >= 9,
        ts[0].kind == TokenKind::KeywordInt,
        ts[1].kind == TokenKind::LiteralIdentifier,
        ts[2].kind == TokenKind::DelimParenLeft,
        ts[3].kind == TokenKind::KeywordVoid,
        ts[4].kind == TokenKind::DelimParenRight,
        ts[5].kind == TokenKind::DelimBraceLeft,
        ts[6].kind == TokenKind::KeywordReturn,
        sp_parse_expression(ts, 7, Precedence::Lowest) == (Parsed::Done {
            value: expr,
            next: ts.len() - 2,
        }),
        ts[ts.len() - 2].kind == TokenKind::DelimSemicolon,
        ts[ts.len() - 1].kind == TokenKind::DelimBraceRight,
    ensures
        sp_parse_program(ts, 0) == (Parsed::Done {
            value: ProgramModel {
                function: FunctionModel {
                    name: ts[1].text,
                    body: seq![StatementModel::Return(expr)],
                },
            },
            next: ts.len() as int,
        }),
{
    assert(sp_parse_return(ts, 6) == (Parsed::Done {
        value: StatementModel::Return(expr),
        next: ts.len() - 1,
    }));
    assert(sp_parse_function_tail(ts, 6, ts[1].text) == (Parsed::Done {
        value: FunctionModel { name: ts[1].text, body: seq![StatementModel::Return(expr)] },
        next: ts.len() as int,
    }));
}

/// Parse a stream of tokens into a program.
pub fn parse_token_stream(tokens: Vec<Token>) -> (r: ParseResult<Program>)
    ensures
        matches_program_result(r, sp_parse_program(token_views(tokens@), 0)),
{
    let mut parser = Parser::new(tokens);
    parser.parse_program()
}

} // verus!
