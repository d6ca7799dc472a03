use vstd::prelude::*;

verus! {

use crate::token::Token;
use crate::token::TokenKind;
use crate::token::TokenModel;
use crate::token::check_keyword;
use crate::token::keyword_kind;
use crate::token::token_views;
use vstd::string::StrSliceExecFns;

/// A position in the source text: a character index together with the line
/// and column that index lies on. Lines and columns start at 1; the column
/// resets to 1 right after every newline.
pub ghost struct LexCursor {
    pub pos: int,
    pub line: int,
    pub column: int,
}

impl LexCursor {
    /// The position at the start of a source text.
    pub open spec fn start() -> LexCursor {
        LexCursor { pos: 0, line: 1, column: 1 }
    }

    /// The cursor stays within the source of length `len`.
    pub open spec fn in_bounds(self, len: int) -> bool {
        0 <= self.pos <= len
    }
}

/// Whitespace in the sense of the lexer: the ASCII whitespace characters.
pub open spec fn spec_is_space(c: char) -> bool {
    c == ' ' || c == '\t' || c == '\n' || c == '\x0c' || c == '\r'
}

/// Characters that can start an identifier: letters and the underscore.
pub open spec fn spec_is_ident_start(c: char) -> bool {
    ('A' <= c && c <= 'Z') || ('a' <= c && c <= 'z') || c == '_'
}

/// Characters that can continue an identifier: identifier starts and digits.
pub open spec fn spec_is_ident(c: char) -> bool {
    spec_is_ident_start(c) || spec_is_digit(c)
}

/// Decimal digits.
pub open spec fn spec_is_digit(c: char) -> bool {
    '0' <= c && c <= '9'
}

/// The cursor after consuming the character at `cur.pos`: a newline moves to
/// the next line and resets the column, any other character moves the column.
pub open spec fn advanced(s: Seq<char>, cur: LexCursor) -> LexCursor {
    if s[cur.pos] == '\n' {
        LexCursor { pos: cur.pos + 1, line: cur.line + 1, column: 1 }
    } else {
        LexCursor { pos: cur.pos + 1, line: cur.line, column: cur.column + 1 }
    }
}

/// The cursor after skipping whitespace and `//` line comments, starting from
/// `cur`. While `in_comment` holds the cursor is inside a line comment and
/// consumes everything up to (but not including) the next newline.
pub open spec fn skip_ws_from(s: Seq<char>, cur: LexCursor, in_comment: bool) -> LexCursor
    decreases s.len() - cur.pos, (if in_comment { 1int } else { 0int }),
    when cur.pos >= 0
{
    if cur.pos < s.len() {
        let c = s[cur.pos];
        if in_comment {
            if c == '\n' {
                skip_ws_from(s, cur, false)
            } else {
                skip_ws_from(s, advanced(s, cur), true)
            }
        } else {
            if spec_is_space(c) {
                skip_ws_from(s, advanced(s, cur), false)
            } else if c == '/' && cur.pos + 1 < s.len() && s[cur.pos + 1] == '/' {
                skip_ws_from(s, advanced(s, advanced(s, cur)), true)
            } else {
                cur
            }
        }
    } else {
        cur
    }
}

/// The cursor after skipping whitespace and comments.
pub open spec fn skip_ws(s: Seq<char>, cur: LexCursor) -> LexCursor {
    skip_ws_from(s, cur, false)
}

/// The end of the maximal run of identifier characters starting at `j`.
pub open spec fn ident_end(s: Seq<char>, j: int) -> int
    decreases s.len() - j,
{
    if 0 <= j < s.len() && spec_is_ident(s[j]) {
        ident_end(s, j + 1)
    } else {
        j
    }
}

/// The end of the maximal run of digit characters starting at `j`.
pub open spec fn digit_end(s: Seq<char>, j: int) -> int
    decreases s.len() - j,
{
    if 0 <= j < s.len() && spec_is_digit(s[j]) {
        digit_end(s, j + 1)
    } else {
        j
    }
}

/// The kind of a one-character token; characters that do not begin any token
/// are marked with the error kind.
pub open spec fn single_char_kind(c: char) -> TokenKind {
    if c == '{' {
        TokenKind::DelimBraceLeft
    } else if c == '}' {
        TokenKind::DelimBraceRight
    } else if c == '(' {
        TokenKind::DelimParenLeft
    } else if c == ')' {
        TokenKind::DelimParenRight
    } else if c == ';' {
        TokenKind::DelimSemicolon
    } else if c == '!' {
        TokenKind::OperatorBang
    } else if c == '-' {
        TokenKind::OperatorMinus
    } else if c == '+' {
        TokenKind::OperatorPlus
    } else if c == '/' {
        TokenKind::OperatorSlash
    } else if c == '*' {
        TokenKind::OperatorStar
    } else if c == '~' {
        TokenKind::OperatorTilde
    } else {
        TokenKind::SpecialError
    }
}

/// The token that starts at `cur` (which must point at a non-whitespace
/// character) and the cursor just past it. Identifier and digit runs are
/// maximal; identifier lexemes are classified against the keyword table.
pub open spec fn token_at(s: Seq<char>, cur: LexCursor) -> (TokenModel, LexCursor) {
    let c = s[cur.pos];
    if spec_is_ident_start(c) {
        let end = ident_end(s, cur.pos + 1);
        let text = s.subrange(cur.pos, end);
        (
            TokenModel { kind: keyword_kind(text), text, line: cur.line, column: cur.column },
            LexCursor { pos: end, line: cur.line, column: cur.column + (end - cur.pos) },
        )
    } else if spec_is_digit(c) {
        let end = digit_end(s, cur.pos + 1);
        let text = s.subrange(cur.pos, end);
        (
            TokenModel {
                kind: TokenKind::LiteralInteger,
                text,
                line: cur.line,
                column: cur.column,
            },
            LexCursor { pos: end, line: cur.line, column: cur.column + (end - cur.pos) },
        )
    } else {
        (
            TokenModel {
                kind: single_char_kind(c),
                text: s.subrange(cur.pos, cur.pos + 1),
                line: cur.line,
                column: cur.column,
            },
            advanced(s, cur),
        )
    }
}

/// One step of the lexer: skip whitespace and comments, then read the next
/// token, or report the final cursor when the input is exhausted.
pub open spec fn next_token_from(s: Seq<char>, cur: LexCursor) -> (Option<TokenModel>, LexCursor) {
    let skipped = skip_ws(s, cur);
    if skipped.pos < s.len() {
        let (t, after) = token_at(s, skipped);
        (Some(t), after)
    } else {
        (None, skipped)
    }
}

/// All tokens of the source from `cur` to the end of the input. This is the
/// specification the executable lexer is proved against.
pub open spec fn lex_from(s: Seq<char>, cur: LexCursor) -> Seq<TokenModel>
    decreases s.len() - cur.pos,
    when cur.in_bounds(s.len() as int)
    via lex_from_decreases
{
    let (next, after) = next_token_from(s, cur);
    match next {
        Some(t) => seq![t] + lex_from(s, after),
        None => Seq::empty(),
    }
}

/// The tokens of a whole source text.
pub open spec fn lex(s: Seq<char>) -> Seq<TokenModel> {
    lex_from(s, LexCursor::start())
}

proof fn lemma_skip_ws_from_bounds(s: Seq<char>, cur: LexCursor, in_comment: bool)
    requires
        cur.in_bounds(s.len() as int),
    ensures
        skip_ws_from(s, cur, in_comment).in_bounds(s.len() as int),
        skip_ws_from(s, cur, in_comment).pos >= cur.pos,
    decreases s.len() - cur.pos, (if in_comment { 1int } else { 0int }),
{
    if cur.pos < s.len() {
        let c = s[cur.pos];
        if in_comment {
            if c == '\n' {
                lemma_skip_ws_from_bounds(s, cur, false);
            } else {
                lemma_skip_ws_from_bounds(s, advanced(s, cur), true);
            }
        } else {
            if spec_is_space(c) {
                lemma_skip_ws_from_bounds(s, advanced(s, cur), false);
            } else if c == '/' && cur.pos + 1 < s.len() && s[cur.pos + 1] == '/' {
                lemma_skip_ws_from_bounds(s, advanced(s, advanced(s, cur)), true);
            }
        }
    }
}

proof fn lemma_ident_end_bounds(s: Seq<char>, j: int)
    requires
        0 <= j <= s.len(),
    ensures
        j <= ident_end(s, j) <= s.len(),
    decreases s.len() - j,
{
    if j < s.len() && spec_is_ident(s[j]) {
        lemma_ident_end_bounds(s, j + 1);
    }
}

proof fn lemma_digit_end_bounds(s: Seq<char>, j: int)
    requires
        0 <= j <= s.len(),
    ensures
        j <= digit_end(s, j) <= s.len(),
    decreases s.len() - j,
{
    if j < s.len() && spec_is_digit(s[j]) {
        lemma_digit_end_bounds(s, j + 1);
    }
}

/// A token never starts at or before the cursor it was read from, and the
/// cursor after it stays within the source.
proof fn lemma_token_at_bounds(s: Seq<char>, cur: LexCursor)
    requires
        cur.in_bounds(s.len() as int),
        cur.pos < s.len(),
    ensures
        token_at(s, cur).1.pos > cur.pos,
        token_at(s, cur).1.in_bounds(s.len() as int),
{
    let c = s[cur.pos];
    if spec_is_ident_start(c) {
        lemma_ident_end_bounds(s, cur.pos + 1);
    } else if spec_is_digit(c) {
        lemma_digit_end_bounds(s, cur.pos + 1);
    }
}

#[via_fn]
proof fn lex_from_decreases(s: Seq<char>, cur: LexCursor) {
    lemma_skip_ws_from_bounds(s, cur, false);
    let skipped = skip_ws(s, cur);
    if skipped.pos < s.len() {
        lemma_token_at_bounds(s, skipped);
    }
}

/// A token model with its line moved down by `k` lines.
pub open spec fn shift_line(t: TokenModel, k: int) -> TokenModel {
    TokenModel { kind: t.kind, text: t.text, line: t.line + k, column: t.column }
}

/// A cursor with its line moved down by `k` lines.
pub open spec fn shift_cursor_line(cur: LexCursor, k: int) -> LexCursor {
    LexCursor { pos: cur.pos, line: cur.line + k, column: cur.column }
}

proof fn lemma_skip_ws_from_line_shift(s: Seq<char>, cur: LexCursor, in_comment: bool, k: int)
    requires
        cur.pos >= 0,
    ensures
        skip_ws_from(s, shift_cursor_line(cur, k), in_comment) == shift_cursor_line(
            skip_ws_from(s, cur, in_comment),
            k,
        ),
    decreases s.len() - cur.pos, (if in_comment { 1int } else { 0int }),
{
    if cur.pos < s.len() {
        let c = s[cur.pos];
        if in_comment {
            if c == '\n' {
                lemma_skip_ws_from_line_shift(s, cur, false, k);
            } else {
                assert(advanced(s, shift_cursor_line(cur, k)) == shift_cursor_line(
                    advanced(s, cur),
                    k,
                ));
                lemma_skip_ws_from_line_shift(s, advanced(s, cur), true, k);
            }
        } else {
            if spec_is_space(c) {
                assert(advanced(s, shift_cursor_line(cur, k)) == shift_cursor_line(
                    advanced(s, cur),
                    k,
                ));
                lemma_skip_ws_from_line_shift(s, advanced(s, cur), false, k);
            } else if c == '/' && cur.pos + 1 < s.len() && s[cur.pos + 1] == '/' {
                assert(advanced(s, advanced(s, shift_cursor_line(cur, k)))
                    == shift_cursor_line(advanced(s, advanced(s, cur)), k));
                lemma_skip_ws_from_line_shift(s, advanced(s, advanced(s, cur)), true, k);
            }
        }
    }
}

proof fn lemma_token_at_line_shift(s: Seq<char>, cur: LexCursor, k: int)
    requires
        0 <= cur.pos < s.len(),
    ensures
        token_at(s, shift_cursor_line(cur, k)).0 == shift_line(token_at(s, cur).0, k),
        token_at(s, shift_cursor_line(cur, k)).1 == shift_cursor_line(token_at(s, cur).1, k),
{
}

/// Line numbering is relative bookkeeping: lexing the same text with the
/// starting line moved down by `k` yields the same tokens, each reporting a
/// line `k` further down. Since consuming a newline moves the cursor to the
/// next line and resets the column, a token that follows one newline reports
/// the second line.
pub proof fn lemma_lex_from_line_shift(s: Seq<char>, cur: LexCursor, k: int)
    requires
        cur.in_bounds(s.len() as int),
    ensures
        lex_from(s, shift_cursor_line(cur, k)) == lex_from(s, cur).map(
            |i: int, t: TokenModel| shift_line(t, k),
        ),
    decreases s.len() - cur.pos,
{
    lemma_skip_ws_from_line_shift(s, cur, false, k);
    lemma_skip_ws_from_bounds(s, cur, false);
    let skipped = skip_ws(s, cur);
    if skipped.pos < s.len() {
        lemma_token_at_line_shift(s, skipped, k);
        lemma_token_at_bounds(s, skipped);
        let t = token_at(s, skipped).0;
        let after = token_at(s, skipped).1;
        lemma_lex_from_line_shift(s, after, k);
        assert(lex_from(s, shift_cursor_line(cur, k)) =~= lex_from(s, cur).map(
            |i: int, tok: TokenModel| shift_line(tok, k),
        ));
    } else {
        assert(lex_from(s, shift_cursor_line(cur, k)) =~= lex_from(s, cur).map(
            |i: int, tok: TokenModel| shift_line(tok, k),
        ));
    }
}

/// Leading whitespace never changes what is lexed, only where the cursor
/// stands: the tokens from a whitespace character are the tokens from just
/// past it. Over a newline, `advanced` raises the line by one and resets the
/// column to the first.
pub proof fn lemma_lex_consumes_whitespace(s: Seq<char>, cur: LexCursor)
    requires
        cur.in_bounds(s.len() as int),
        cur.pos < s.len(),
        spec_is_space(s[cur.pos]),
    ensures
        lex_from(s, cur) == lex_from(s, advanced(s, cur)),
{
    assert(skip_ws(s, cur) == skip_ws(s, advanced(s, cur)));
}

/// Tokenize a string of source code.
///
/// This function lexes a string of C source code into individual tokens. It
/// never fails: an unrecognized character becomes an error-marker token that
/// the parser rejects wherever it meets it.
pub fn tokenize(source: &str) -> (tokens: Vec<Token>)
    requires
        source@.len() < usize::MAX,
    ensures
        token_views(tokens@) == lex(source@),
{
    let mut lexer = Lexer::new(source);
    let mut tokens: Vec<Token> = Vec::new();
    loop
        invariant
            lexer.wf(),
            lexer.source@ == source@,
            lex(source@) == token_views(tokens@) + lex_from(source@, lexer.cursor()),
        ensures
            token_views(tokens@) == lex(source@),
        decreases source@.len() - lexer.cursor().pos,
    {
        let ghost before = lexer.cursor();
        let ghost toks_before = tokens@;
        match lexer.next_token() {
            None => {
                proof {
                    assert(lex_from(source@, before) =~= Seq::<TokenModel>::empty());
                    assert(token_views(tokens@) =~= token_views(tokens@)
                        + Seq::<TokenModel>::empty());
                }
                break ;
            },
            Some(token) => {
                tokens.push(token);
                proof {
                    assert(token_views(tokens@) =~= token_views(toks_before) + seq![token@]);
                    assert(lex_from(source@, before) == seq![token@]
                        + lex_from(source@, lexer.cursor()));
                    assert(token_views(toks_before) + lex_from(source@, before)
                        =~= token_views(tokens@) + lex_from(source@, lexer.cursor()));
                }
            },
        }
    }
    tokens
}

/// The lexer: a view of the source together with the cursor (character index,
/// line, column) it has reached.
struct Lexer<'a> {
    source: &'a str,
    length: usize,
    current: usize,
    line: usize,
    column: usize,
}

impl<'a> Lexer<'a> {
    /// The characters of the source under the lexer.
    spec fn src(self) -> Seq<char> {
        self.source@
    }

    /// The lexer's position as a cursor of the lexing specification.
    spec fn cursor(self) -> LexCursor {
        LexCursor { pos: self.current as int, line: self.line as int, column: self.column as int }
    }

    /// Well-formedness: the cached length is the source length, the cursor is
    /// in bounds, and line and column stay within what the consumed prefix
    /// allows (both grow by at most one per consumed character).
    spec fn wf(self) -> bool {
        &&& self.length == self.source@.len()
        &&& self.source@.len() < usize::MAX
        &&& self.current <= self.length
        &&& 1 <= self.line <= self.current + 1
        &&& 1 <= self.column <= self.current + 1
    }

    /// Construct a lexer over `source`, at the first line and column.
    fn new(source: &'a str) -> (lexer: Lexer<'a>)
        requires
            source@.len() < usize::MAX,
        ensures
            lexer.wf(),
            lexer.source@ == source@,
            lexer.cursor() == LexCursor::start(),
    {
        let length = source.unicode_len();
        Lexer { source, length, current: 0, line: 1, column: 1 }
    }

    /// Return true if the given character could be the start of an identifier:
    /// uppercase and lowercase alphabetic characters and underscores.
    fn is_ident_start(c: char) -> (b: bool)
        ensures
            b == spec_is_ident_start(c),
    {
        ('A' <= c && c <= 'Z') || ('a' <= c && c <= 'z') || c == '_'
    }

    /// Return true if the given character could be in the middle of an
    /// identifier: every character from `is_ident_start` as well as digits.
    fn is_ident(c: char) -> (b: bool)
        ensures
            b == spec_is_ident(c),
    {
        Self::is_ident_start(c) || Self::is_digit(c)
    }

    /// Return true if the given character is a digit, e.g. '0' to '9'.
    fn is_digit(c: char) -> (b: bool)
        ensures
            b == spec_is_digit(c),
    {
        '0' <= c && c <= '9'
    }

    /// Return true if the given character is ASCII whitespace.
    fn is_space(c: char) -> (b: bool)
        ensures
            b == spec_is_space(c),
    {
        c == ' ' || c == '\t' || c == '\n' || c == '\x0c' || c == '\r'
    }

    /// Get the current character, or `None` past the end of the source.
    fn peek(&self) -> (c: Option<char>)
        requires
            self.wf(),
        ensures
            self.current < self.length ==> c == Some(self.src()[self.current as int]),
            self.current >= self.length ==> c is None,
    {
        if self.current < self.length {
            Some(self.source.get_char(self.current))
        } else {
            None
        }
    }

    /// Get the character after the current one, if any.
    fn peek_next(&self) -> (c: Option<char>)
        requires
            self.wf(),
        ensures
            self.current + 1 < self.length ==> c == Some(self.src()[self.current + 1]),
            self.current + 1 >= self.length ==> c is None,
    {
        if self.current < self.length && self.current + 1 < self.length {
            Some(self.source.get_char(self.current + 1))
        } else {
            None
        }
    }

    /// Advance the lexer by one character and return that character, keeping
    /// the line and column in step; past the end nothing happens.
    fn advance(&mut self) -> (c: Option<char>)
        requires
            old(self).wf(),
        ensures
            final(self).wf(),
            final(self).source == old(self).source,
            old(self).current < old(self).length ==> {
                &&& c == Some(old(self).src()[old(self).current as int])
                &&& final(self).cursor() == advanced(old(self).src(), old(self).cursor())
            },
            old(self).current >= old(self).length ==> c is None && *final(self) == *old(self),
    {
        if self.current < self.length {
            let ch = self.source.get_char(self.current);
            self.current = self.current + 1;
            self.column = self.column + 1;
            if ch == '\n' {
                self.line = self.line + 1;
                self.column = 1;
            }
            Some(ch)
        } else {
            None
        }
    }

    /// Skip past any whitespace and line comments.
    fn skip_whitespace(&mut self)
        requires
            old(self).wf(),
        ensures
            final(self).wf(),
            final(self).source == old(self).source,
            final(self).cursor() == skip_ws(old(self).src(), old(self).cursor()),
    {
        let ghost orig = *self;
        loop
            invariant
                self.wf(),
                self.source == orig.source,
                orig.wf(),
                skip_ws(orig.src(), orig.cursor()) == skip_ws(self.src(), self.cursor()),
            ensures
                self.wf(),
                self.source == orig.source,
                self.cursor() == skip_ws(orig.src(), orig.cursor()),
            decreases self.src().len() - self.cursor().pos,
        {
            if self.current >= self.length {
                break ;
            }
            let c = self.source.get_char(self.current);
            if Self::is_space(c) {
                self.advance();
            } else if c == '/' && self.current + 1 < self.length && self.source.get_char(
                self.current + 1,
            ) == '/' {
                let ghost at_comment = self.cursor();
                self.advance();
                self.advance();
                assert(skip_ws(orig.src(), orig.cursor()) == skip_ws_from(
                    self.src(),
                    self.cursor(),
                    true,
                ));
                loop
                    invariant
                        self.wf(),
                        self.source == orig.source,
                        orig.wf(),
                        self.cursor().pos >= at_comment.pos + 2,
                        skip_ws(orig.src(), orig.cursor()) == skip_ws_from(
                            self.src(),
                            self.cursor(),
                            true,
                        ),
                    ensures
                        self.wf(),
                        self.source == orig.source,
                        self.cursor().pos >= at_comment.pos + 2,
                        skip_ws(orig.src(), orig.cursor()) == skip_ws(
                            self.src(),
                            self.cursor(),
                        ),
                    decreases self.src().len() - self.cursor().pos,
                {
                    if self.current >= self.length {
                        break ;
                    }
                    let d = self.source.get_char(self.current);
                    if d == '\n' {
                        break ;
                    }
                    self.advance();
                }
            } else {
                break ;
            }
        }
    }

    /// Make a one-character token of the given kind and advance past it.
    fn make_token_and_advance(&mut self, kind: TokenKind) -> (t: Token)
        requires
            old(self).wf(),
            old(self).current < old(self).length,
        ensures
            final(self).wf(),
            final(self).source == old(self).source,
            t@ == (TokenModel {
                kind,
                text: old(self).src().subrange(
                    old(self).current as int,
                    old(self).current + 1,
                ),
                line: old(self).line as int,
                column: old(self).column as int,
            }),
            final(self).cursor() == advanced(old(self).src(), old(self).cursor()),
    {
        let lexeme = self.source.substring_char(self.current, self.current + 1).to_owned();
        let token = Token { kind, lexeme, line: self.line, column: self.column };
        self.advance();
        token
    }

    /// Consume the next identifier from the source: a maximal run of
    /// identifier characters, classified against the keyword table.
    fn make_identifier(&mut self) -> (t: Token)
        requires
            old(self).wf(),
            old(self).current < old(self).length,
            spec_is_ident_start(old(self).src()[old(self).current as int]),
        ensures
            final(self).wf(),
            final(self).source == old(self).source,
            t@ == token_at(old(self).src(), old(self).cursor()).0,
            final(self).cursor() == token_at(old(self).src(), old(self).cursor()).1,
    {
        let ghost orig = *self;
        let start = self.current;
        let column = self.column;
        self.advance();
        loop
            invariant
                self.wf(),
                self.source == orig.source,
                orig.wf(),
                start == orig.current,
                column == orig.column,
                start < self.current <= self.length,
                self.line == orig.line,
                self.column == orig.column + (self.current - start),
                ident_end(self.src(), start + 1) == ident_end(self.src(), self.current as int),
            ensures
                self.wf(),
                self.source == orig.source,
                start < self.current <= self.length,
                self.line == orig.line,
                self.column == orig.column + (self.current - start),
                self.current as int == ident_end(self.src(), start + 1),
            decreases self.src().len() - self.cursor().pos,
        {
            if self.current >= self.length {
                break ;
            }
            let c = self.source.get_char(self.current);
            if !Self::is_ident(c) {
                break ;
            }
            self.advance();
        }
        let lexeme_slice = self.source.substring_char(start, self.current);
        let kind = check_keyword(lexeme_slice);
        let lexeme = lexeme_slice.to_owned();
        Token { kind, lexeme, line: self.line, column }
    }

    /// Consume the next number from the source: a maximal run of digits.
    fn make_number(&mut self) -> (t: Token)
        requires
            old(self).wf(),
            old(self).current < old(self).length,
            spec_is_digit(old(self).src()[old(self).current as int]),
            !spec_is_ident_start(old(self).src()[old(self).current as int]),
        ensures
            final(self).wf(),
            final(self).source == old(self).source,
            t@ == token_at(old(self).src(), old(self).cursor()).0,
            final(self).cursor() == token_at(old(self).src(), old(self).cursor()).1,
    {
        let ghost orig = *self;
        let start = self.current;
        let column = self.column;
        self.advance();
        loop
            invariant
                self.wf(),
                self.source == orig.source,
                orig.wf(),
                start == orig.current,
                column == orig.column,
                start < self.current <= self.length,
                self.line == orig.line,
                self.column == orig.column + (self.current - start),
                digit_end(self.src(), start + 1) == digit_end(self.src(), self.current as int),
            ensures
                self.wf(),
                self.source == orig.source,
                start < self.current <= self.length,
                self.line == orig.line,
                self.column == orig.column + (self.current - start),
                self.current as int == digit_end(self.src(), start + 1),
            decreases self.src().len() - self.cursor().pos,
        {
            if self.current >= self.length {
                break ;
            }
            let c = self.source.get_char(self.current);
            if !Self::is_digit(c) {
                break ;
            }
            self.advance();
        }
        let lexeme = self.source.substring_char(start, self.current).to_owned();
        Token { kind: TokenKind::LiteralInteger, lexeme, line: self.line, column }
    }

    /// Extract the next token from the lexer, or `None` when only whitespace
    /// and comments remain.
    fn next_token(&mut self) -> (t: Option<Token>)
        requires
            old(self).wf(),
        ensures
            final(self).wf(),
            final(self).source == old(self).source,
            final(self).cursor() == next_token_from(old(self).src(), old(self).cursor()).1,
            match (t, next_token_from(old(self).src(), old(self).cursor()).0) {
                (Some(token), Some(model)) => token@ == model,
                (None, None) => true,
                _ => false,
            },
            t is Some ==> final(self).cursor().pos > old(self).cursor().pos,
    {
        self.skip_whitespace();
        proof {
            lemma_skip_ws_from_bounds(old(self).src(), old(self).cursor(), false);
        }
        if self.current >= self.length {
            return None;
        }
        let c = self.source.get_char(self.current);
        proof {
            lemma_token_at_bounds(self.src(), self.cursor());
        }
        let token = match c {
            '{' => self.make_token_and_advance(TokenKind::DelimBraceLeft),
            '}' => self.make_token_and_advance(TokenKind::DelimBraceRight),
            '(' => self.make_token_and_advance(TokenKind::DelimParenLeft),
            ')' => self.make_token_and_advance(TokenKind::DelimParenRight),
            ';' => self.make_token_and_advance(TokenKind::DelimSemicolon),
            '!' => self.make_token_and_advance(TokenKind::OperatorBang),
            '-' => self.make_token_and_advance(TokenKind::OperatorMinus),
            '+' => self.make_token_and_advance(TokenKind::OperatorPlus),
            '/' => self.make_token_and_advance(TokenKind::OperatorSlash),
            '*' => self.make_token_and_advance(TokenKind::OperatorStar),
            '~' => self.make_token_and_advance(TokenKind::OperatorTilde),
            _ => {
                if Self::is_ident_start(c) {
                    self.make_identifier()
                } else if Self::is_digit(c) {
                    self.make_number()
                } else {
                    self.make_token_and_advance(TokenKind::SpecialError)
                }
            },
        };
        Some(token)
    }
}

} // verus!
