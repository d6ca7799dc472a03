use ecc::lexer::tokenize;
use ecc::token::TokenKind;
use ecc::token::check_keyword;

#[test]
fn tokenize_single_characters() {
    let tokens = tokenize("{}();!-+/*~");
    let kinds: Vec<TokenKind> = tokens.iter().map(|t| t.kind).collect();
    assert_eq!(
        kinds,
        vec![
            TokenKind::DelimBraceLeft,
            TokenKind::DelimBraceRight,
            TokenKind::DelimParenLeft,
            TokenKind::DelimParenRight,
            TokenKind::DelimSemicolon,
            TokenKind::OperatorBang,
            TokenKind::OperatorMinus,
            TokenKind::OperatorPlus,
            TokenKind::OperatorSlash,
            TokenKind::OperatorStar,
            TokenKind::OperatorTilde,
        ]
    );
    for (i, token) in tokens.iter().enumerate() {
        assert_eq!(token.line, 1);
        assert_eq!(token.column, i + 1);
        assert_eq!(token.lexeme.len(), 1);
    }
}

#[test]
fn tokenize_keywords_and_identifiers() {
    let tokens = tokenize("int return void main x_1");
    let kinds: Vec<TokenKind> = tokens.iter().map(|t| t.kind).collect();
    assert_eq!(
        kinds,
        vec![
            TokenKind::KeywordInt,
            TokenKind::KeywordReturn,
            TokenKind::KeywordVoid,
            TokenKind::LiteralIdentifier,
            TokenKind::LiteralIdentifier,
        ]
    );
    assert_eq!(tokens[3].lexeme, "main");
    assert_eq!(tokens[4].lexeme, "x_1");
}

#[test]
fn tokenize_numbers() {
    let tokens = tokenize("42 007");
    assert_eq!(tokens.len(), 2);
    assert_eq!(tokens[0].kind, TokenKind::LiteralInteger);
    assert_eq!(tokens[0].lexeme, "42");
    assert_eq!(tokens[1].kind, TokenKind::LiteralInteger);
    assert_eq!(tokens[1].lexeme, "007");
    assert_eq!(tokens[1].column, 4);
}

#[test]
fn tokenize_skips_comments() {
    let tokens = tokenize("1 // a comment ~!@\n2");
    assert_eq!(tokens.len(), 2);
    assert_eq!(tokens[0].lexeme, "1");
    assert_eq!(tokens[0].line, 1);
    assert_eq!(tokens[1].lexeme, "2");
    assert_eq!(tokens[1].line, 2);
    assert_eq!(tokens[1].column, 1);
}

#[test]
fn tokenize_comment_at_end_of_input() {
    let tokens = tokenize("1 // trailing comment");
    assert_eq!(tokens.len(), 1);
    assert_eq!(tokens[0].lexeme, "1");
}

#[test]
fn tokenize_single_slash_is_an_operator() {
    let tokens = tokenize("/ /");
    assert_eq!(tokens.len(), 2);
    assert_eq!(tokens[0].kind, TokenKind::OperatorSlash);
    assert_eq!(tokens[1].kind, TokenKind::OperatorSlash);
}

#[test]
fn tokenize_error_marker() {
    let tokens = tokenize("@");
    assert_eq!(tokens.len(), 1);
    assert_eq!(tokens[0].kind, TokenKind::SpecialError);
    assert_eq!(tokens[0].lexeme, "@");
}

#[test]
fn tokenize_second_line_reports_line_two() {
    let tokens = tokenize("int\nmain");
    assert_eq!(tokens.len(), 2);
    assert_eq!(tokens[0].line, 1);
    assert_eq!(tokens[0].column, 1);
    assert_eq!(tokens[1].line, 2);
    assert_eq!(tokens[1].column, 1);
}

#[test]
fn tokenize_tracks_columns_across_spaces() {
    let tokens = tokenize("a  b");
    assert_eq!(tokens[0].column, 1);
    assert_eq!(tokens[1].column, 4);
}

#[test]
fn tokenize_empty_and_blank_input() {
    assert!(tokenize("").is_empty());
    assert!(tokenize(" \t\r\n").is_empty());
}

#[test]
fn tokenize_whole_program() {
    let tokens = tokenize("int main(void){return 0;}");
    let kinds: Vec<TokenKind> = tokens.iter().map(|t| t.kind).collect();
    assert_eq!(
        kinds,
        vec![
            TokenKind::KeywordInt,
            TokenKind::LiteralIdentifier,
            TokenKind::DelimParenLeft,
            TokenKind::KeywordVoid,
            TokenKind::DelimParenRight,
            TokenKind::DelimBraceLeft,
            TokenKind::KeywordReturn,
            TokenKind::LiteralInteger,
            TokenKind::DelimSemicolon,
            TokenKind::DelimBraceRight,
        ]
    );
}

#[test]
fn check_keyword_classifies_lexemes() {
    assert_eq!(check_keyword("int"), TokenKind::KeywordInt);
    assert_eq!(check_keyword("return"), TokenKind::KeywordReturn);
    assert_eq!(check_keyword("void"), TokenKind::KeywordVoid);
    assert_eq!(check_keyword("main"), TokenKind::LiteralIdentifier);
    assert_eq!(check_keyword("integer"), TokenKind::LiteralIdentifier);
    assert_eq!(check_keyword(""), TokenKind::LiteralIdentifier);
}
