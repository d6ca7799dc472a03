use ecc::ast::BinaryOp;
use ecc::ast::Expr;
use ecc::ast::Program;
use ecc::ast::Statement;
use ecc::ast::UnaryOp;
use ecc::lexer::tokenize;
use ecc::parser::parse_token_stream;
use ecc::token::Token;
use ecc::token::TokenKind;

fn parse_source(source: &str) -> Result<Program, ecc::parser::ParseError> {
    parse_token_stream(tokenize(source))
}

fn return_expr(program: &Program) -> &Expr {
    assert_eq!(program.function.body.len(), 1);
    let Statement::Return(expr) = &program.function.body[0];
    expr
}

fn integer_of(expr: &Expr) -> i32 {
    match expr {
        Expr::Integer(value) => *value,
        _ => panic!("expected an integer literal"),
    }
}

#[test]
fn parse_valid_program() {
    let program = parse_source("int main(void){return 0;}").unwrap();
    assert_eq!(program.function.name, "main");
    assert_eq!(integer_of(return_expr(&program)), 0);
}

#[test]
fn parse_keeps_function_name() {
    let program = parse_source("int answer(void){return 42;}").unwrap();
    assert_eq!(program.function.name, "answer");
    assert_eq!(integer_of(return_expr(&program)), 42);
}

#[test]
fn precedence_product_over_sum() {
    let program = parse_source("int main(void){return 1+2*3;}").unwrap();
    match return_expr(&program) {
        Expr::Binary { operator: BinaryOp::Plus, left, right } => {
            assert_eq!(integer_of(left), 1);
            match &**right {
                Expr::Binary { operator: BinaryOp::Times, left, right } => {
                    assert_eq!(integer_of(left), 2);
                    assert_eq!(integer_of(right), 3);
                }
                _ => panic!("expected multiplication on the right"),
            }
        }
        _ => panic!("expected addition at the top"),
    }
}

#[test]
fn subtraction_is_left_associative() {
    let program = parse_source("int main(void){return 8-4-2;}").unwrap();
    match return_expr(&program) {
        Expr::Binary { operator: BinaryOp::Minus, left, right } => {
            assert_eq!(integer_of(right), 2);
            match &**left {
                Expr::Binary { operator: BinaryOp::Minus, left, right } => {
                    assert_eq!(integer_of(left), 8);
                    assert_eq!(integer_of(right), 4);
                }
                _ => panic!("expected subtraction on the left"),
            }
        }
        _ => panic!("expected subtraction at the top"),
    }
}

#[test]
fn unary_binds_tighter_than_binary() {
    let program = parse_source("int main(void){return -2*3;}").unwrap();
    match return_expr(&program) {
        Expr::Binary { operator: BinaryOp::Times, left, right } => {
            assert_eq!(integer_of(right), 3);
            match &**left {
                Expr::Unary { operator: UnaryOp::NegateArith, operand } => {
                    assert_eq!(integer_of(operand), 2);
                }
                _ => panic!("expected arithmetic negation on the left"),
            }
        }
        _ => panic!("expected multiplication at the top"),
    }
}

#[test]
fn parentheses_override_precedence() {
    let program = parse_source("int main(void){return (1+2)*3;}").unwrap();
    match return_expr(&program) {
        Expr::Binary { operator: BinaryOp::Times, left, right } => {
            assert_eq!(integer_of(right), 3);
            match &**left {
                Expr::Binary { operator: BinaryOp::Plus, left, right } => {
                    assert_eq!(integer_of(left), 1);
                    assert_eq!(integer_of(right), 2);
                }
                _ => panic!("expected addition inside the parentheses"),
            }
        }
        _ => panic!("expected multiplication at the top"),
    }
}

#[test]
fn nested_unary_operators() {
    let program = parse_source("int main(void){return !~0;}").unwrap();
    match return_expr(&program) {
        Expr::Unary { operator: UnaryOp::NegateLogical, operand } => match &**operand {
            Expr::Unary { operator: UnaryOp::Compliment, operand } => {
                assert_eq!(integer_of(operand), 0);
            }
            _ => panic!("expected the complement inside"),
        },
        _ => panic!("expected the logical negation outside"),
    }
}

#[test]
fn missing_return_value_fails_at_semicolon() {
    let error = parse_source("int main(void){return;}").unwrap_err();
    let token = error.token.expect("the error should carry the offending token");
    assert_eq!(token.kind, TokenKind::DelimSemicolon);
    assert_eq!(token.lexeme, ";");
    assert_eq!(token.line, 1);
    assert_eq!(token.column, 22);
}

#[test]
fn trailing_tokens_fail() {
    let error = parse_source("int main(void){return 0;} int extra").unwrap_err();
    assert_eq!(error.message, "expected end of file");
    let token = error.token.expect("the error should carry the first trailing token");
    assert_eq!(token.kind, TokenKind::KeywordInt);
    assert_eq!(token.column, 27);
}

#[test]
fn empty_input_fails_at_end_of_input() {
    let error = parse_source("").unwrap_err();
    assert!(error.token.is_none());
    assert_eq!(error.message, "expected 'int'");
}

#[test]
fn missing_void_fails_at_closing_paren() {
    let error = parse_source("int main(){return 0;}").unwrap_err();
    assert_eq!(error.message, "expected 'void'");
    let token = error.token.unwrap();
    assert_eq!(token.kind, TokenKind::DelimParenRight);
}

#[test]
fn missing_closing_brace_fails_at_end_of_input() {
    let error = parse_source("int main(void){return 0;").unwrap_err();
    assert!(error.token.is_none());
    assert_eq!(error.message, "expected '}'");
}

#[test]
fn identifier_operand_fails() {
    let error = parse_source("int main(void){return x;}").unwrap_err();
    assert_eq!(error.message, "expected prefix operator");
    let token = error.token.unwrap();
    assert_eq!(token.lexeme, "x");
}

#[test]
fn unrecognized_character_fails() {
    let error = parse_source("int main(void){return $;}").unwrap_err();
    let token = error.token.unwrap();
    assert_eq!(token.kind, TokenKind::SpecialError);
    assert_eq!(token.lexeme, "$");
}

#[test]
fn statement_must_start_with_return() {
    let error = parse_source("int main(void){5;}").unwrap_err();
    assert_eq!(error.message, "expected statement");
    let token = error.token.unwrap();
    assert_eq!(token.lexeme, "5");
}

#[test]
fn expression_missing_at_end_of_input() {
    let error = parse_source("int main(void){return").unwrap_err();
    assert!(error.token.is_none());
    assert_eq!(error.message, "expected expression");
}

#[test]
fn error_on_later_line_reports_its_position() {
    let error = parse_source("int main(void)\n{\n    return @;\n}").unwrap_err();
    let token = error.token.unwrap();
    assert_eq!(token.kind, TokenKind::SpecialError);
    assert_eq!(token.line, 3);
    assert_eq!(token.column, 12);
}

#[test]
fn largest_integer_parses() {
    let program = parse_source("int main(void){return 2147483647;}").unwrap();
    assert_eq!(integer_of(return_expr(&program)), 2147483647);
}

#[test]
fn integer_overflow_is_reported() {
    let error = parse_source("int main(void){return 2147483648;}").unwrap_err();
    assert_eq!(error.message, "integer literal out of range");
    let token = error.token.unwrap();
    assert_eq!(token.lexeme, "2147483648");
}

#[test]
fn malformed_integer_token_is_reported() {
    let make = |kind: TokenKind, lexeme: &str, column: usize| Token {
        kind,
        lexeme: lexeme.to_string(),
        line: 1,
        column,
    };
    let tokens = vec![
        make(TokenKind::KeywordInt, "int", 1),
        make(TokenKind::LiteralIdentifier, "main", 5),
        make(TokenKind::DelimParenLeft, "(", 9),
        make(TokenKind::KeywordVoid, "void", 10),
        make(TokenKind::DelimParenRight, ")", 14),
        make(TokenKind::DelimBraceLeft, "{", 15),
        make(TokenKind::KeywordReturn, "return", 16),
        make(TokenKind::LiteralInteger, "12x", 23),
        make(TokenKind::DelimSemicolon, ";", 26),
        make(TokenKind::DelimBraceRight, "}", 27),
    ];
    let error = parse_token_stream(tokens).unwrap_err();
    assert_eq!(error.message, "malformed integer literal");
    assert_eq!(error.token.unwrap().lexeme, "12x");
}
