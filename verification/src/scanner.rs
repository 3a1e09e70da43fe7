//! What the lexer does, as functions on the bytes of the source text.
//!
//! Every function takes the text, the offset `start` at which the token under
//! construction begins, and the offset `p` of the next unread character.
use crate::lexer::{SourceLocation, Token, TokenType};
use crate::peekable_chars_with_position::{
    char_at, cursor_ok, lemma_ascii_width, lemma_step, peek_at, remaining, step,
};
use crate::text::{range_ok, text_of};
use vstd::prelude::*;

verus! {

/// The token of kind `kind` that covers the bytes `start..end`.
pub open spec fn token(kind: TokenType, start: int, end: int) -> Token {
    Token {
        token_type: kind,
        location: SourceLocation { start: start as usize, end: end as usize },
    }
}

/// The outcome of reading one token: the token, if one is emitted, the offset
/// at which reading goes on, and whether the next token is the first of its line.
pub struct Scan {
    pub token: Option<Token>,
    pub next: int,
    pub first: bool,
}

/// A token of kind `kind` over `start..end` is emitted and reading goes on at `end`.
pub open spec fn emit(kind: TokenType, start: int, end: int) -> Scan {
    Scan { token: Some(token(kind, start, end)), next: end, first: kind == TokenType::NewLine }
}

/// Nothing is emitted and reading goes on at `next`.
pub open spec fn pass(next: int, first: bool) -> Scan {
    Scan { token: None, next, first }
}

pub open spec fn is_digit(c: char) -> bool {
    '0' <= c && c <= '9'
}

pub open spec fn is_identifier_char(c: char) -> bool {
    ('a' <= c && c <= 'z') || ('A' <= c && c <= 'Z') || c == '#' || c == ':' || c == '_'
        || is_digit(c)
}

/// The kind of the token whose text is `text`: a keyword's, or `Ident`.
pub open spec fn keyword(text: Seq<char>) -> TokenType {
    if text == "let"@ {
        TokenType::Let
    } else if text == "function"@ {
        TokenType::Function
    } else if text == "endfunction"@ {
        TokenType::EndFunction
    } else if text == "if"@ {
        TokenType::If
    } else if text == "else"@ {
        TokenType::Else
    } else if text == "elseif"@ {
        TokenType::ElseIf
    } else if text == "endif"@ {
        TokenType::EndIf
    } else if text == "try"@ {
        TokenType::Try
    } else if text == "catch"@ {
        TokenType::Catch
    } else if text == "finally"@ {
        TokenType::Finally
    } else if text == "endtry"@ {
        TokenType::EndTry
    } else if text == "for"@ {
        TokenType::For
    } else if text == "set"@ {
        TokenType::SetOption
    } else if text == "endfor"@ {
        TokenType::EndFor
    } else if text == "while"@ {
        TokenType::While
    } else if text == "endwhile"@ {
        TokenType::EndWhile
    } else if text == "in"@ {
        TokenType::In
    } else if text == "call"@ {
        TokenType::Call
    } else if text == "break"@ {
        TokenType::Break
    } else if text == "execute"@ {
        TokenType::Execute
    } else if text == "return"@ {
        TokenType::Return
    } else if text == "abort"@ {
        TokenType::Abort
    } else {
        TokenType::Ident
    }
}

/// The first offset at or after `p` whose character is not a decimal digit.
pub open spec fn digits_end(src: Seq<u8>, p: int) -> int
    decreases remaining(src, p),
{
    match peek_at(src, p) {
        Some(c) => if is_digit(c) {
            digits_end(src, step(src, p))
        } else {
            p
        },
        None => p,
    }
}

/// The first offset at or after `p` whose character cannot be part of an identifier.
pub open spec fn identifier_end(src: Seq<u8>, p: int) -> int
    decreases remaining(src, p),
{
    match peek_at(src, p) {
        Some(c) => if is_identifier_char(c) {
            identifier_end(src, step(src, p))
        } else {
            p
        },
        None => p,
    }
}

/// The first offset at or after `p` whose character is neither a space nor a tab.
pub open spec fn blanks_end(src: Seq<u8>, p: int) -> int
    decreases remaining(src, p),
{
    if peek_at(src, p) == Some(' ') || peek_at(src, p) == Some('\t') {
        blanks_end(src, step(src, p))
    } else {
        p
    }
}

pub proof fn lemma_digits_end(src: Seq<u8>, p: int)
    requires
        cursor_ok(src, p),
    ensures
        cursor_ok(src, digits_end(src, p)),
        p <= digits_end(src, p),
    decreases src.len() - p,
{
    if p < src.len() {
        lemma_step(src, p);
        if is_digit(char_at(src, p)) {
            lemma_digits_end(src, step(src, p));
        }
    }
}

pub proof fn lemma_identifier_end(src: Seq<u8>, p: int)
    requires
        cursor_ok(src, p),
    ensures
        cursor_ok(src, identifier_end(src, p)),
        p <= identifier_end(src, p),
    decreases src.len() - p,
{
    if p < src.len() {
        lemma_step(src, p);
        if is_identifier_char(char_at(src, p)) {
            lemma_identifier_end(src, step(src, p));
        }
    }
}

pub proof fn lemma_blanks_end(src: Seq<u8>, p: int)
    requires
        cursor_ok(src, p),
    ensures
        cursor_ok(src, blanks_end(src, p)),
        p <= blanks_end(src, p),
    decreases src.len() - p,
{
    if p < src.len() {
        lemma_step(src, p);
        if char_at(src, p) == ' ' || char_at(src, p) == '\t' {
            lemma_blanks_end(src, step(src, p));
        }
    }
}

/// Where a single-quoted literal whose opening quote has been read ends, and
/// whether it is well formed. A doubled quote stands for a quote; a line break
/// is allowed only where the next line starts, after spaces and tabs, with a
/// backslash.
pub open spec fn string_end(src: Seq<u8>, p: int) -> (int, bool)
    decreases remaining(src, p),
{
    match peek_at(src, p) {
        None => (p, false),
        Some(c) => {
            let q = step(src, p);
            if c == '\'' {
                if peek_at(src, q) == Some('\'') {
                    string_end(src, step(src, q))
                } else {
                    (q, true)
                }
            } else if c == '\n' {
                let b = blanks_end(src, q);
                if peek_at(src, b) == Some('\\') {
                    proof {
                        lemma_blanks_end_le(src, q);
                    }
                    string_end(src, step(src, b))
                } else {
                    (b, false)
                }
            } else {
                string_end(src, q)
            }
        },
    }
}

pub proof fn lemma_blanks_end_le(src: Seq<u8>, p: int)
    ensures
        p <= blanks_end(src, p),
    decreases remaining(src, p),
{
    if peek_at(src, p) == Some(' ') || peek_at(src, p) == Some('\t') {
        lemma_blanks_end_le(src, step(src, p));
    }
}

pub proof fn lemma_string_end(src: Seq<u8>, p: int)
    requires
        cursor_ok(src, p),
    ensures
        cursor_ok(src, string_end(src, p).0),
        p <= string_end(src, p).0,
        string_end(src, p).1 ==> p <= string_end(src, p).0 - 1 && cursor_ok(
            src,
            string_end(src, p).0 - 1,
        ),
    decreases remaining(src, p),
{
    if p < src.len() {
        lemma_step(src, p);
        let c = char_at(src, p);
        let q = step(src, p);
        if c == '\'' {
            lemma_ascii_width(src, p);
            if peek_at(src, q) == Some('\'') {
                lemma_step(src, q);
                lemma_string_end(src, step(src, q));
            }
        } else if c == '\n' {
            lemma_blanks_end(src, q);
            let b = blanks_end(src, q);
            if peek_at(src, b) == Some('\\') {
                lemma_step(src, b);
                lemma_string_end(src, step(src, b));
            }
        } else {
            lemma_string_end(src, q);
        }
    }
}

/// A single-quoted literal that starts at `start`, its opening quote read.
pub open spec fn scan_string_literal(src: Seq<u8>, start: int, p: int) -> Scan {
    let (end, closed) = string_end(src, p);
    if closed {
        emit(TokenType::StringLiteral, start, end)
    } else {
        emit(TokenType::Invalid, start, end)
    }
}

/// A double-quoted literal that the end of the line or of the text at `p`
/// cuts short: a malformed literal, unless the quote opened a comment.
pub open spec fn cut_short(start: int, p: int, first: bool) -> Scan {
    if first {
        pass(p, first)
    } else {
        emit(TokenType::Invalid, start, p)
    }
}

/// What follows a double quote at `start`. Where the quote is the first token
/// of its line it opens a comment, which runs up to the end of the line and
/// emits nothing; elsewhere it opens a literal, which a quote that no
/// backslash escapes closes, and which has to close before the line ends. A
/// backslash escapes the character after it, a backslash too.
pub open spec fn scan_quote(src: Seq<u8>, start: int, p: int, escaped: bool, first: bool) -> Scan
    decreases remaining(src, p),
{
    match peek_at(src, p) {
        None => cut_short(start, p, first),
        Some(c) => {
            let q = step(src, p);
            if c == '\\' {
                scan_quote(src, start, q, !escaped, first)
            } else if c == '"' {
                if !first && !escaped {
                    emit(TokenType::StringLiteral, start, q)
                } else {
                    scan_quote(src, start, q, false, first)
                }
            } else if c == '\n' {
                cut_short(start, p, first)
            } else {
                scan_quote(src, start, q, false, first)
            }
        },
    }
}

pub proof fn lemma_scan_quote(src: Seq<u8>, start: int, p: int, escaped: bool, first: bool)
    requires
        cursor_ok(src, p),
    ensures
        cursor_ok(src, scan_quote(src, start, p, escaped, first).next),
        p <= scan_quote(src, start, p, escaped, first).next,
        scan_quote(src, start, p, escaped, first).token matches Some(t) ==> (t == token(
            TokenType::StringLiteral,
            start,
            scan_quote(src, start, p, escaped, first).next,
        ) && p <= scan_quote(src, start, p, escaped, first).next - 1 && cursor_ok(
            src,
            scan_quote(src, start, p, escaped, first).next - 1,
        )) || t == token(
            TokenType::Invalid,
            start,
            scan_quote(src, start, p, escaped, first).next,
        ),
    decreases remaining(src, p),
{
    if p < src.len() {
        lemma_step(src, p);
        let c = char_at(src, p);
        let q = step(src, p);
        if c == '\\' {
            lemma_scan_quote(src, start, q, !escaped, first);
        } else if c == '"' {
            lemma_ascii_width(src, p);
            if !first && !escaped {
            } else {
                lemma_scan_quote(src, start, q, false, first);
            }
        } else if c == '\n' {
        } else {
            lemma_scan_quote(src, start, q, false, first);
        }
    }
}

/// An operator that is `op` alone and `assign` where `=` follows it.
pub open spec fn scan_math_operator(
    src: Seq<u8>,
    start: int,
    p: int,
    op: TokenType,
    assign: TokenType,
) -> Scan {
    if peek_at(src, p) == Some('=') {
        emit(assign, start, step(src, p))
    } else {
        emit(op, start, p)
    }
}

/// A line break at `start..p`. Where the next line starts, after spaces and
/// tabs, with a backslash, the line goes on and nothing is emitted.
pub open spec fn scan_newline(src: Seq<u8>, start: int, p: int, first: bool) -> Scan {
    let b = blanks_end(src, p);
    if peek_at(src, b) == Some('\\') {
        pass(step(src, b), first)
    } else {
        Scan { token: Some(token(TokenType::NewLine, start, p)), next: b, first: true }
    }
}

pub open spec fn scan_less(src: Seq<u8>, start: int, p: int) -> Scan {
    if peek_at(src, p) == Some('=') {
        emit(TokenType::LessOrEqual, start, step(src, p))
    } else {
        emit(TokenType::Less, start, p)
    }
}

pub open spec fn scan_greater(src: Seq<u8>, start: int, p: int) -> Scan {
    if peek_at(src, p) == Some('=') {
        emit(TokenType::GreaterOrEqual, start, step(src, p))
    } else {
        emit(TokenType::Greater, start, p)
    }
}

/// `&&`, or an identifier that starts with `&`, such as an option's name.
pub open spec fn scan_and(src: Seq<u8>, start: int, p: int) -> Scan {
    if peek_at(src, p) == Some('&') {
        emit(TokenType::And, start, step(src, p))
    } else {
        scan_identifier(src, start, p)
    }
}

pub open spec fn scan_equal(src: Seq<u8>, start: int, p: int) -> Scan {
    if peek_at(src, p) == Some('=') {
        let q = step(src, p);
        if peek_at(src, q) == Some('#') {
            emit(TokenType::EqualCaseSensitive, start, step(src, q))
        } else if peek_at(src, q) == Some('?') {
            emit(TokenType::EqualCaseInSensitive, start, step(src, q))
        } else {
            emit(TokenType::Equal, start, q)
        }
    } else {
        emit(TokenType::Assign, start, p)
    }
}

pub open spec fn scan_in_equal(src: Seq<u8>, start: int, p: int) -> Scan {
    if peek_at(src, p) == Some('=') {
        let q = step(src, p);
        if peek_at(src, q) == Some('#') {
            emit(TokenType::InEqualCaseSensitive, start, step(src, q))
        } else if peek_at(src, q) == Some('?') {
            emit(TokenType::InEqualCaseInSensitive, start, step(src, q))
        } else {
            emit(TokenType::InEqual, start, q)
        }
    } else {
        emit(TokenType::Bang, start, p)
    }
}

/// `.`, `.=`, `...`, or two dots, which are no token of the language.
pub open spec fn scan_dot(src: Seq<u8>, start: int, p: int) -> Scan {
    if peek_at(src, p) == Some('.') {
        let q = step(src, p);
        if peek_at(src, q) == Some('.') {
            emit(TokenType::Variadic, start, step(src, q))
        } else {
            emit(TokenType::Invalid, start, q)
        }
    } else if peek_at(src, p) == Some('=') {
        emit(TokenType::DotAssign, start, step(src, p))
    } else {
        emit(TokenType::Dot, start, p)
    }
}

pub open spec fn scan_pipe(src: Seq<u8>, start: int, p: int) -> Scan {
    if peek_at(src, p) == Some('|') {
        emit(TokenType::Or, start, step(src, p))
    } else {
        emit(TokenType::Pipe, start, p)
    }
}

pub open spec fn scan_number(src: Seq<u8>, start: int, p: int) -> Scan {
    emit(TokenType::Number, start, digits_end(src, p))
}

/// An identifier or a keyword: the run of identifier characters from `p` on,
/// together with what was read from `start` to `p`.
pub open spec fn scan_identifier(src: Seq<u8>, start: int, p: int) -> Scan {
    let end = identifier_end(src, p);
    emit(keyword(text_of(src, start, end)), start, end)
}

/// One step of the lexer at `pos`, where the text has not ended.
pub open spec fn read_token(src: Seq<u8>, pos: int, first: bool) -> Scan {
    let c = char_at(src, pos);
    let p = step(src, pos);
    if c == '\n' {
        scan_newline(src, pos, p, first)
    } else if c == '(' {
        emit(TokenType::LeftParenthesis, pos, p)
    } else if c == ')' {
        emit(TokenType::RightParenthesis, pos, p)
    } else if c == '[' {
        emit(TokenType::LeftBracket, pos, p)
    } else if c == ']' {
        emit(TokenType::RightBracket, pos, p)
    } else if c == '{' {
        emit(TokenType::LeftCurlyBrace, pos, p)
    } else if c == '}' {
        emit(TokenType::RightCurlyBrace, pos, p)
    } else if c == ',' {
        emit(TokenType::Comma, pos, p)
    } else if c == ':' {
        emit(TokenType::Colon, pos, p)
    } else if c == '?' {
        emit(TokenType::QuestionMark, pos, p)
    } else if c == '+' {
        scan_math_operator(src, pos, p, TokenType::Plus, TokenType::PlusAssign)
    } else if c == '-' {
        scan_math_operator(src, pos, p, TokenType::Minus, TokenType::MinusAssign)
    } else if c == '*' {
        scan_math_operator(src, pos, p, TokenType::Multiply, TokenType::MultiplyAssign)
    } else if c == '/' {
        scan_math_operator(src, pos, p, TokenType::Divide, TokenType::DivideAssign)
    } else if c == '%' {
        scan_math_operator(src, pos, p, TokenType::Modulo, TokenType::ModuloAssign)
    } else if c == '.' {
        scan_dot(src, pos, p)
    } else if c == '\'' {
        scan_string_literal(src, pos, p)
    } else if c == '=' {
        scan_equal(src, pos, p)
    } else if c == '!' {
        scan_in_equal(src, pos, p)
    } else if c == '<' {
        scan_less(src, pos, p)
    } else if c == '>' {
        scan_greater(src, pos, p)
    } else if c == '&' {
        scan_and(src, pos, p)
    } else if c == '|' {
        scan_pipe(src, pos, p)
    } else if c == '"' {
        scan_quote(src, pos, p, false, first)
    } else if c == ' ' || c == '\t' {
        pass(p, first)
    } else if is_digit(c) {
        scan_number(src, pos, p)
    } else {
        scan_identifier(src, pos, p)
    }
}

/// A token lies within `lo..hi`, is not empty, and starts and ends between
/// characters of the text.
pub open spec fn token_within(src: Seq<u8>, t: Token, lo: int, hi: int) -> bool {
    &&& range_ok(src, t.location.start as int, t.location.end as int)
    &&& lo <= t.location.start < t.location.end <= hi
}

/// A string literal token holds at least its two quotes, a byte each.
pub open spec fn literal_ok(src: Seq<u8>, t: Token) -> bool {
    t.token_type == TokenType::StringLiteral ==> range_ok(
        src,
        t.location.start + 1,
        t.location.end - 1,
    )
}

/// One step of the lexer moves on by at least one character, and the token
/// it emits, if any, starts where the step started and ends where reading
/// goes on or before.
pub proof fn lemma_read_token(src: Seq<u8>, pos: int, first: bool)
    requires
        cursor_ok(src, pos),
        pos < src.len(),
    ensures
        cursor_ok(src, read_token(src, pos, first).next),
        pos < read_token(src, pos, first).next,
        read_token(src, pos, first).token matches Some(t) ==> t.location.start == pos
            && token_within(src, t, pos, read_token(src, pos, first).next) && literal_ok(src, t),
{
    lemma_step(src, pos);
    if char_at(src, pos) == '\'' || char_at(src, pos) == '"' {
        lemma_ascii_width(src, pos);
    }
    let c = char_at(src, pos);
    let p = step(src, pos);
    if p < src.len() {
        lemma_step(src, p);
        let q = step(src, p);
        if q < src.len() {
            lemma_step(src, q);
        }
    }
    if c == '\n' {
        lemma_blanks_end(src, p);
        let b = blanks_end(src, p);
        if b < src.len() {
            lemma_step(src, b);
        }
    } else if c == '\'' {
        lemma_string_end(src, p);
    } else if c == '"' {
        lemma_scan_quote(src, pos, p, false, first);
    } else if is_digit(c) {
        lemma_digits_end(src, p);
    } else {
        lemma_identifier_end(src, p);
    }
}

/// The tokens that the lexer emits from `pos` on.
pub open spec fn lex_from(src: Seq<u8>, pos: int, first: bool) -> Seq<Token>
    decreases remaining(src, pos),
{
    if 0 <= pos < src.len() {
        let scan = read_token(src, pos, first);
        if pos < scan.next {
            let rest = lex_from(src, scan.next, scan.first);
            match scan.token {
                Some(t) => seq![t] + rest,
                None => rest,
            }
        } else {
            seq![]
        }
    } else {
        seq![]
    }
}

/// The tokens of a whole text.
pub open spec fn lex(src: Seq<u8>) -> Seq<Token> {
    lex_from(src, 0, true)
}

/// Tokens are in the order of the text and do not overlap: each lies within
/// `lo..hi`, and each ends before the next begins. A string literal among
/// them holds its two quotes.
pub open spec fn tokens_ordered(src: Seq<u8>, tokens: Seq<Token>, lo: int, hi: int) -> bool {
    &&& forall|i: int|
        0 <= i < tokens.len() ==> token_within(src, #[trigger] tokens[i], lo, hi) && literal_ok(
            src,
            tokens[i],
        )
    &&& forall|i: int, j: int|
        0 <= i < j < tokens.len() ==> (#[trigger] tokens[i]).location.end <= (
        #[trigger] tokens[j]).location.start
}

pub proof fn lemma_lex_from_ordered(src: Seq<u8>, pos: int, first: bool)
    requires
        cursor_ok(src, pos),
    ensures
        tokens_ordered(src, lex_from(src, pos, first), pos, src.len() as int),
    decreases remaining(src, pos),
{
    if pos < src.len() {
        let scan = read_token(src, pos, first);
        lemma_read_token(src, pos, first);
        lemma_lex_from_ordered(src, scan.next, scan.first);
        let rest = lex_from(src, scan.next, scan.first);
        let all = lex_from(src, pos, first);
        match scan.token {
            Some(t) => {
                assert(all == seq![t] + rest);
                assert forall|i: int| 0 <= i < all.len() implies token_within(
                    src,
                    #[trigger] all[i],
                    pos,
                    src.len() as int,
                ) && literal_ok(src, all[i]) by {
                    if i > 0 {
                        assert(all[i] == rest[i - 1]);
                    }
                }
                assert forall|i: int, j: int| 0 <= i < j < all.len() implies (
                #[trigger] all[i]).location.end <= (#[trigger] all[j]).location.start by {
                    assert(all[j] == rest[j - 1]);
                    if i > 0 {
                        assert(all[i] == rest[i - 1]);
                    }
                }
            },
            None => {},
        }
    }
}

} // verus!
