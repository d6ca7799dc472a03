use vstd::prelude::*;

verus! {

use vstd::string::StrSliceExecFns;

/// The kind of a token.
///
/// While the lexer separates the source code into tokens, it also assigns a
/// kind to each lexeme so that the parser can check at a glance what kind of
/// token it is looking at.
#[derive(Clone, Copy, PartialEq, Eq, Structural, Debug)]
pub enum TokenKind {
    DelimBraceLeft,
    DelimBraceRight,
    DelimParenLeft,
    DelimParenRight,
    DelimSemicolon,
    KeywordInt,
    KeywordReturn,
    KeywordVoid,
    LiteralIdentifier,
    LiteralInteger,
    OperatorBang,
    OperatorMinus,
    OperatorPlus,
    OperatorSlash,
    OperatorStar,
    OperatorTilde,
    SpecialError,
}

/// The mathematical model of a token: its kind, the text of its lexeme, and
/// the line and column of its first character.
pub ghost struct TokenModel {
    pub kind: TokenKind,
    pub text: Seq<char>,
    pub line: int,
    pub column: int,
}

/// A source code token.
///
/// Tokens are the smallest unit of lexical information. A token contains its
/// kind, the corresponding substring of the source code (the lexeme), and the
/// line and column info.
#[derive(Debug)]
pub struct Token {
    /// The kind of token this is. This information is helpful for the parser.
    pub kind: TokenKind,
    /// The corresponding string in the source code from which this token came.
    pub lexeme: String,
    /// The line of the source code that this token was on.
    pub line: usize,
    /// The column of the source code that this token was on.
    pub column: usize,
}

impl View for Token {
    type V = TokenModel;

    open spec fn view(&self) -> TokenModel {
        TokenModel {
            kind: self.kind,
            text: self.lexeme@,
            line: self.line as int,
            column: self.column as int,
        }
    }
}

impl Clone for Token {
    fn clone(&self) -> (t: Token)
        ensures
            t == *self,
    {
        let t = Token {
            kind: self.kind,
            lexeme: self.lexeme.clone(),
            line: self.line,
            column: self.column,
        };
        assert(t == *self);
        t
    }
}

/// The sequence of token models that a sequence of tokens stands for.
pub open spec fn token_views(tokens: Seq<Token>) -> Seq<TokenModel> {
    tokens.map(|i: int, t: Token| t@)
}

/// The kind that `check_keyword` assigns to a lexeme.
pub open spec fn keyword_kind(text: Seq<char>) -> TokenKind {
    if text == "int"@ {
        TokenKind::KeywordInt
    } else if text == "return"@ {
        TokenKind::KeywordReturn
    } else if text == "void"@ {
        TokenKind::KeywordVoid
    } else {
        TokenKind::LiteralIdentifier
    }
}

/// Compare two string slices character by character.
fn str_eq(a: &str, b: &str) -> (r: bool)
    ensures
        r == (a@ == b@),
{
    let a_len = a.unicode_len();
    let b_len = b.unicode_len();
    if a_len != b_len {
        assert(a@ != b@) by {
            assert(a@.len() != b@.len());
        }
        return false;
    }
    let mut i: usize = 0;
    while i < a_len
        invariant
            a_len == a@.len(),
            b_len == b@.len(),
            a_len == b_len,
            i <= a_len,
            forall|j: int| 0 <= j < i ==> a@[j] == b@[j],
        decreases a_len - i,
    {
        if a.get_char(i) != b.get_char(i) {
            return false;
        }
        i += 1;
    }
    assert(a@ =~= b@);
    true
}

/// Check if the given lexeme is a keyword.
///
/// If the lexeme is a keyword, the returned token kind will indicate which one
/// it is. Otherwise, the returned token kind is [`TokenKind::LiteralIdentifier`].
pub fn check_keyword(lexeme: &str) -> (kind: TokenKind)
    ensures
        kind == keyword_kind(lexeme@),
{
    if str_eq(lexeme, "int") {
        TokenKind::KeywordInt
    } else if str_eq(lexeme, "return") {
        TokenKind::KeywordReturn
    } else if str_eq(lexeme, "void") {
        TokenKind::KeywordVoid
    } else {
        TokenKind::LiteralIdentifier
    }
}

/// The text that [`TokenKind::describe`] returns for each kind, used when a
/// parse error reports which token it expected.
pub open spec fn kind_description(kind: TokenKind) -> Seq<char> {
    match kind {
        TokenKind::DelimBraceLeft => "'{'"@,
        TokenKind::DelimBraceRight => "'}'"@,
        TokenKind::DelimParenLeft => "'('"@,
        TokenKind::DelimParenRight => "')'"@,
        TokenKind::DelimSemicolon => "';'"@,
        TokenKind::KeywordInt => "'int'"@,
        TokenKind::KeywordReturn => "'return'"@,
        TokenKind::KeywordVoid => "'void'"@,
        TokenKind::LiteralIdentifier => "identifier"@,
        TokenKind::LiteralInteger => "integer literal"@,
        TokenKind::OperatorBang => "'!'"@,
        TokenKind::OperatorMinus => "'-'"@,
        TokenKind::OperatorPlus => "'+'"@,
        TokenKind::OperatorSlash => "'/'"@,
        TokenKind::OperatorStar => "'*'"@,
        TokenKind::OperatorTilde => "'~'"@,
        TokenKind::SpecialError => "error token"@,
    }
}

impl TokenKind {
    /// A short human-readable description of this kind, as it appears in
    /// parse error messages.
    pub fn describe(&self) -> (s: &'static str)
        ensures
            s@ == kind_description(*self),
    {
        match self {
            TokenKind::DelimBraceLeft => "'{'",
            TokenKind::DelimBraceRight => "'}'",
            TokenKind::DelimParenLeft => "'('",
            TokenKind::DelimParenRight => "')'",
            TokenKind::DelimSemicolon => "';'",
            TokenKind::KeywordInt => "'int'",
            TokenKind::KeywordReturn => "'return'",
            TokenKind::KeywordVoid => "'void'",
            TokenKind::LiteralIdentifier => "identifier",
            TokenKind::LiteralInteger => "integer literal",
            TokenKind::OperatorBang => "'!'",
            TokenKind::OperatorMinus => "'-'",
            TokenKind::OperatorPlus => "'+'",
            TokenKind::OperatorSlash => "'/'",
            TokenKind::OperatorStar => "'*'",
            TokenKind::OperatorTilde => "'~'",
            TokenKind::SpecialError => "error token",
        }
    }
}

} // verus!
