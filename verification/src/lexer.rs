//! Tokens, source positions and the lexer that produces them.
use crate::peekable_chars_with_position::PeekableCharsWithPosition;
use crate::peekable_chars_with_position::{cursor_ok, lemma_step, peek_at, remaining, step};
use crate::scanner::{
    blanks_end, digits_end, emit, identifier_end, lemma_lex_from_ordered, lemma_read_token,
    lex_from, pass, read_token, scan_and, scan_dot, scan_equal, scan_greater, scan_identifier,
    scan_in_equal, scan_less, scan_math_operator, scan_newline, scan_number, scan_pipe,
    scan_quote, scan_string_literal, string_end, token, tokens_ordered, Scan,
};
use crate::text::{decimal, decimal_string, range_ok, same_text, substring, text_of};
use vstd::prelude::*;
use vstd::string::*;
use vstd::utf8::*;

verus! {

#[derive(PartialEq, Eq, Debug, Clone, Copy, Structural)]
pub enum TokenType {
    Let,
    Assign,
    Ident,
    Number,
    // :help string-literal
    // :help expr-quote
    StringLiteral,
    Function,
    EndFunction,
    If,
    Else,
    ElseIf,
    EndIf,
    Try,
    Catch,
    Finally,
    EndTry,
    // ()
    LeftParenthesis,
    RightParenthesis,
    // []
    LeftBracket,
    RightBracket,
    // {}
    LeftCurlyBrace,
    RightCurlyBrace,
    Colon,
    QuestionMark,
    Bang,
    Comma,
    SetOption,
    For,
    EndFor,
    While,
    EndWhile,
    In,
    Dot,
    Variadic,
    Abort,
    Call,
    Break,
    Execute,
    Return,
    EqualCaseSensitive,
    InEqualCaseSensitive,
    EqualCaseInSensitive,
    InEqualCaseInSensitive,
    Equal,
    InEqual,
    Less,
    LessOrEqual,
    Greater,
    GreaterOrEqual,
    And,
    Or,
    Pipe,
    Plus,
    Minus,
    Multiply,
    Divide,
    Modulo,
    PlusAssign,
    MinusAssign,
    MultiplyAssign,
    DivideAssign,
    ModuloAssign,
    DotAssign,
    NewLine,
    Invalid,
    Eof,
}

impl TokenType {
    /// The name under which a token kind is quoted in a diagnostic.
    pub open spec fn name(self) -> Seq<char> {
        match self {
            TokenType::Let => "`let`"@,
            TokenType::Assign => "`=`"@,
            TokenType::Ident => "identifier"@,
            TokenType::Number => "number"@,
            TokenType::StringLiteral => "string literal"@,
            TokenType::Function => "`function`"@,
            TokenType::EndFunction => "`endfunction`"@,
            TokenType::If => "`if`"@,
            TokenType::Else => "`else`"@,
            TokenType::ElseIf => "`elseif`"@,
            TokenType::EndIf => "`endif`"@,
            TokenType::Try => "`try`"@,
            TokenType::Catch => "`catch`"@,
            TokenType::Finally => "`finally`"@,
            TokenType::EndTry => "`endtry`"@,
            TokenType::LeftParenthesis => "`(`"@,
            TokenType::RightParenthesis => "`)`"@,
            TokenType::LeftBracket => "`[`"@,
            TokenType::RightBracket => "`]`"@,
            TokenType::LeftCurlyBrace => "`{`"@,
            TokenType::RightCurlyBrace => "`}`"@,
            TokenType::Colon => "`:`"@,
            TokenType::QuestionMark => "`?`"@,
            TokenType::Bang => "`!`"@,
            TokenType::Comma => "`,`"@,
            TokenType::SetOption => "`set`"@,
            TokenType::For => "`for`"@,
            TokenType::EndFor => "`endfor`"@,
            TokenType::While => "`while`"@,
            TokenType::EndWhile => "`endwhile`"@,
            TokenType::In => "`in`"@,
            TokenType::Dot => "`.`"@,
            TokenType::Variadic => "`...`"@,
            TokenType::Abort => "`abort`"@,
            TokenType::Call => "`call`"@,
            TokenType::Break => "`break`"@,
            TokenType::Execute => "`execute`"@,
            TokenType::Return => "`return`"@,
            TokenType::EqualCaseSensitive => "`==#`"@,
            TokenType::InEqualCaseSensitive => "`!=#`"@,
            TokenType::EqualCaseInSensitive => "`==?`"@,
            TokenType::InEqualCaseInSensitive => "`!=?`"@,
            TokenType::Equal => "`==`"@,
            TokenType::InEqual => "`!=`"@,
            TokenType::Less => "`<`"@,
            TokenType::LessOrEqual => "`<=`"@,
            TokenType::Greater => "`>`"@,
            TokenType::GreaterOrEqual => "`>=`"@,
            TokenType::And => "`&&`"@,
            TokenType::Or => "`||`"@,
            TokenType::Pipe => "`|`"@,
            TokenType::Plus => "`+`"@,
            TokenType::Minus => "`-`"@,
            TokenType::Multiply => "`*`"@,
            TokenType::Divide => "`/`"@,
            TokenType::Modulo => "`%`"@,
            TokenType::PlusAssign => "`+=`"@,
            TokenType::MinusAssign => "`-=`"@,
            TokenType::MultiplyAssign => "`*=`"@,
            TokenType::DivideAssign => "`/=`"@,
            TokenType::ModuloAssign => "`%=`"@,
            TokenType::DotAssign => "`.=`"@,
            TokenType::NewLine => "new line"@,
            TokenType::Invalid => "invalid"@,
            TokenType::Eof => "end of file"@,
        }
    }

    /// As `name`, except that the plain assignment operator is left unquoted.
    pub open spec fn bare_name(self) -> Seq<char> {
        if self == TokenType::Assign {
            "="@
        } else {
            self.name()
        }
    }

    pub fn to_str(&self) -> (r: &'static str)
        ensures
            r@ == self.bare_name(),
    {
        match self {
            TokenType::Let => "`let`",
            TokenType::Assign => "=",
            TokenType::Ident => "identifier",
            TokenType::Number => "number",
            TokenType::StringLiteral => "string literal",
            TokenType::Function => "`function`",
            TokenType::EndFunction => "`endfunction`",
            TokenType::If => "`if`",
            TokenType::Else => "`else`",
            TokenType::ElseIf => "`elseif`",
            TokenType::EndIf => "`endif`",
            TokenType::Try => "`try`",
            TokenType::Catch => "`catch`",
            TokenType::Finally => "`finally`",
            TokenType::EndTry => "`endtry`",
            TokenType::LeftParenthesis => "`(`",
            TokenType::RightParenthesis => "`)`",
            TokenType::LeftBracket => "`[`",
            TokenType::RightBracket => "`]`",
            TokenType::LeftCurlyBrace => "`{`",
            TokenType::RightCurlyBrace => "`}`",
            TokenType::Colon => "`:`",
            TokenType::QuestionMark => "`?`",
            TokenType::Bang => "`!`",
            TokenType::Comma => "`,`",
            TokenType::SetOption => "`set`",
            TokenType::For => "`for`",
            TokenType::EndFor => "`endfor`",
            TokenType::While => "`while`",
            TokenType::EndWhile => "`endwhile`",
            TokenType::In => "`in`",
            TokenType::Dot => "`.`",
            TokenType::Variadic => "`...`",
            TokenType::Abort => "`abort`",
            TokenType::Call => "`call`",
            TokenType::Break => "`break`",
            TokenType::Execute => "`execute`",
            TokenType::Return => "`return`",
            TokenType::EqualCaseSensitive => "`==#`",
            TokenType::InEqualCaseSensitive => "`!=#`",
            TokenType::EqualCaseInSensitive => "`==?`",
            TokenType::InEqualCaseInSensitive => "`!=?`",
            TokenType::Equal => "`==`",
            TokenType::InEqual => "`!=`",
            TokenType::Less => "`<`",
            TokenType::LessOrEqual => "`<=`",
            TokenType::Greater => "`>`",
            TokenType::GreaterOrEqual => "`>=`",
            TokenType::And => "`&&`",
            TokenType::Or => "`||`",
            TokenType::Pipe => "`|`",
            TokenType::Plus => "`+`",
            TokenType::Minus => "`-`",
            TokenType::Multiply => "`*`",
            TokenType::Divide => "`/`",
            TokenType::Modulo => "`%`",
            TokenType::PlusAssign => "`+=`",
            TokenType::MinusAssign => "`-=`",
            TokenType::MultiplyAssign => "`*=`",
            TokenType::DivideAssign => "`/=`",
            TokenType::ModuloAssign => "`%=`",
            TokenType::DotAssign => "`.=`",
            TokenType::NewLine => "new line",
            TokenType::Invalid => "invalid",
            TokenType::Eof => "end of file",
        }
    }

    pub fn as_str(&self) -> (r: &'static str)
        ensures
            r@ == self.name(),
    {
        match self {
            TokenType::Let => "`let`",
            TokenType::Assign => "`=`",
            TokenType::Ident => "identifier",
            TokenType::Number => "number",
            TokenType::StringLiteral => "string literal",
            TokenType::Function => "`function`",
            TokenType::EndFunction => "`endfunction`",
            TokenType::If => "`if`",
            TokenType::Else => "`else`",
            TokenType::ElseIf => "`elseif`",
            TokenType::EndIf => "`endif`",
            TokenType::Try => "`try`",
            TokenType::Catch => "`catch`",
            TokenType::Finally => "`finally`",
            TokenType::EndTry => "`endtry`",
            TokenType::LeftParenthesis => "`(`",
            TokenType::RightParenthesis => "`)`",
            TokenType::LeftBracket => "`[`",
            TokenType::RightBracket => "`]`",
            TokenType::LeftCurlyBrace => "`{`",
            TokenType::RightCurlyBrace => "`}`",
            TokenType::Colon => "`:`",
            TokenType::QuestionMark => "`?`",
            TokenType::Bang => "`!`",
            TokenType::Comma => "`,`",
            TokenType::SetOption => "`set`",
            TokenType::For => "`for`",
            TokenType::EndFor => "`endfor`",
            TokenType::While => "`while`",
            TokenType::EndWhile => "`endwhile`",
            TokenType::In => "`in`",
            TokenType::Dot => "`.`",
            TokenType::Variadic => "`...`",
            TokenType::Abort => "`abort`",
            TokenType::Call => "`call`",
            TokenType::Break => "`break`",
            TokenType::Execute => "`execute`",
            TokenType::Return => "`return`",
            TokenType::EqualCaseSensitive => "`==#`",
            TokenType::InEqualCaseSensitive => "`!=#`",
            TokenType::EqualCaseInSensitive => "`==?`",
            TokenType::InEqualCaseInSensitive => "`!=?`",
            TokenType::Equal => "`==`",
            TokenType::InEqual => "`!=`",
            TokenType::Less => "`<`",
            TokenType::LessOrEqual => "`<=`",
            TokenType::Greater => "`>`",
            TokenType::GreaterOrEqual => "`>=`",
            TokenType::And => "`&&`",
            TokenType::Or => "`||`",
            TokenType::Pipe => "`|`",
            TokenType::Plus => "`+`",
            TokenType::Minus => "`-`",
            TokenType::Multiply => "`*`",
            TokenType::Divide => "`/`",
            TokenType::Modulo => "`%`",
            TokenType::PlusAssign => "`+=`",
            TokenType::MinusAssign => "`-=`",
            TokenType::MultiplyAssign => "`*=`",
            TokenType::DivideAssign => "`/=`",
            TokenType::ModuloAssign => "`%=`",
            TokenType::DotAssign => "`.=`",
            TokenType::NewLine => "new line",
            TokenType::Invalid => "invalid",
            TokenType::Eof => "end of file",
        }
    }
}

/// Location in a source code: the bytes `start..end` of the text.
#[derive(PartialEq, Eq, Debug, Clone, Copy, Structural)]
pub struct SourceLocation {
    pub start: usize,
    pub end: usize,
}

#[derive(PartialEq, Eq, Debug, Clone, Copy, Structural)]
pub struct TokenPosition {
    pub start: SourcePosition,
    pub end: SourcePosition,
}

/// Position with zero based offsets, points to position just before the character.
#[derive(PartialEq, Eq, PartialOrd, Debug, Clone, Copy, Structural)]
pub struct SourcePosition {
    // starting from 0
    pub line: usize,
    // starting from 0
    pub character: usize,
}

#[derive(PartialEq, Eq, Debug, Clone, Copy, Structural)]
pub struct Token {
    pub token_type: TokenType,
    pub location: SourceLocation,
}

/// The position of the byte offset `n` of `src`, where `n` is within the
/// text: as many lines as there are line breaks before `n`, and as many
/// characters as start between the last of them and `n`.
pub open spec fn position_before(src: Seq<u8>, n: int) -> SourcePosition
    decreases n,
{
    if n <= 0 {
        SourcePosition { line: 0, character: 0 }
    } else {
        let p = position_before(src, n - 1);
        if src[n - 1] == 0x0a {
            SourcePosition { line: (p.line + 1) as usize, character: 0 }
        } else if is_continuation_byte(src[n - 1]) {
            p
        } else {
            SourcePosition { line: p.line, character: (p.character + 1) as usize }
        }
    }
}

/// Line and character of a byte offset; an offset past the end of the text
/// has the position of the end.
pub open spec fn source_position(src: Seq<u8>, location: int) -> SourcePosition {
    if location <= src.len() {
        position_before(src, location)
    } else {
        position_before(src, src.len() as int)
    }
}

/// Start and end of a byte range as lines and characters.
pub open spec fn token_position(src: Seq<u8>, location: SourceLocation) -> TokenPosition {
    TokenPosition {
        start: source_position(src, location.start as int),
        end: source_position(src, location.end as int),
    }
}

pub proof fn lemma_position_before_bounds(src: Seq<u8>, n: int)
    requires
        0 <= n <= src.len() <= usize::MAX,
    ensures
        position_before(src, n).line <= n,
        position_before(src, n).character <= n,
    decreases n,
{
    if n > 0 {
        lemma_position_before_bounds(src, n - 1);
    }
}

impl TokenPosition {
    /// The position as text: start and end with `-` between them.
    pub open spec fn text(self) -> Seq<char> {
        self.start.text() + "-"@ + self.end.text()
    }

    pub fn to_string(&self) -> (r: String)
        ensures
            r@ == self.text(),
    {
        self.start.to_string().concat("-").concat(self.end.to_string().as_str())
    }
}

impl SourcePosition {
    /// The position as text: line and character with `:` between them.
    pub open spec fn text(self) -> Seq<char> {
        decimal(self.line as nat) + ":"@ + decimal(self.character as nat)
    }

    pub fn to_string(&self) -> (r: String)
        ensures
            r@ == self.text(),
    {
        decimal_string(self.line).concat(":").concat(decimal_string(self.character).as_str())
    }

    /// Order of positions in a text: by line, then by character.
    pub open spec fn at_or_before(self, other: SourcePosition) -> bool {
        self.line < other.line || (self.line == other.line && self.character <= other.character)
    }

    /// Whether `self` is `other` or comes before it in a text.
    pub fn is_at_or_before(&self, other: &SourcePosition) -> (r: bool)
        ensures
            r == self.at_or_before(*other),
    {
        self.line < other.line || (self.line == other.line && self.character <= other.character)
    }
}

pub struct Lexer<'a> {
    source: &'a str,
    chars: PeekableCharsWithPosition<'a>,
    tokens: Vec<Token>,
    // The position of the start of the current token.
    start: usize,
    first_token_in_line: bool,
}

impl<'a> Lexer<'a> {
    /// The bytes of the text that is lexed.
    pub closed spec fn src(&self) -> Seq<u8> {
        self.source.spec_bytes()
    }

    /// The text that is lexed.
    pub closed spec fn text(&self) -> Seq<char> {
        self.source@
    }

    /// Byte offset of the next character that the lexer reads.
    pub closed spec fn position(&self) -> int {
        self.chars.position()
    }

    /// Whether the next token is the first of its line.
    pub closed spec fn first_in_line(&self) -> bool {
        self.first_token_in_line
    }

    spec fn inv(&self) -> bool {
        &&& self.chars.wf()
        &&& self.chars.source() == self.src()
        &&& cursor_ok(self.src(), self.start as int)
        &&& self.start <= self.chars.position()
    }

    /// The lexer stands between two tokens and holds none.
    pub closed spec fn wf(&self) -> bool {
        &&& self.inv()
        &&& self.start == self.chars.position()
        &&& self.tokens@.len() == 0
    }

    /// `self` is `before` after the step `scan`.
    spec fn stepped(&self, before: Lexer<'a>, scan: Scan) -> bool {
        &&& self.inv()
        &&& self.source == before.source
        &&& self.start == before.start
        &&& self.chars.position() == scan.next
        &&& self.first_token_in_line == scan.first
        &&& self.tokens@ == match scan.token {
            Some(t) => before.tokens@.push(t),
            None => before.tokens@,
        }
    }

    /// `self` is `before` with its cursor moved to `p`.
    spec fn moved(&self, before: Lexer<'a>, p: int) -> bool {
        self.stepped(before, pass(p, before.first_token_in_line))
    }

    pub fn new(source: &'a str) -> (r: Lexer<'a>)
        ensures
            r.wf(),
            r.src() == source.spec_bytes(),
            r.text() == source@,
            r.position() == 0,
            r.first_in_line(),
            cursor_ok(r.src(), 0),
    {
        let chars = PeekableCharsWithPosition::new(source);
        proof {
            chars.lemma_wf();
        }
        return Lexer {
            source: source,
            chars: chars,
            start: 0,
            tokens: Vec::new(),
            first_token_in_line: true,
        };
    }

    /// The text is well-formed UTF-8 and its length fits the machine.
    pub proof fn lemma_src(&self)
        requires
            self.wf(),
        ensures
            cursor_ok(self.src(), 0),
            cursor_ok(self.src(), self.src().len() as int),
            self.src() == encode_utf8(self.text()),
    {
        self.chars.lemma_wf();
        is_char_boundary_start_end_of_seq(self.src());
    }

    pub fn eof_token(&self) -> (r: Token)
        requires
            self.wf(),
        ensures
            r == token(TokenType::Eof, self.src().len() as int, self.src().len() as int),
    {
        proof {
            self.chars.lemma_wf();
        }
        let len = self.source.as_bytes().len();
        return Token {
            token_type: TokenType::Eof,
            location: SourceLocation { start: len, end: len },
        };
    }

    pub fn token_text(&self, location: &SourceLocation) -> (r: &'a str)
        requires
            range_ok(self.src(), location.start as int, location.end as int),
        ensures
            r@ == text_of(self.src(), location.start as int, location.end as int),
    {
        return substring(self.source, location.start, location.end);
    }

    // This is expensive, expected to be called only for errors.
    fn source_position(&self, location: usize) -> (r: SourcePosition)
        ensures
            r == source_position(self.src(), location as int),
    {
        let bytes = self.source.as_bytes();
        let end: usize = if location <= bytes.len() {
            location
        } else {
            bytes.len()
        };
        let mut line: usize = 0;
        let mut character: usize = 0;
        let mut i: usize = 0;
        while i < end
            invariant
                i <= end <= bytes@.len(),
                bytes@ == self.src(),
                bytes@.len() <= usize::MAX,
                position_before(self.src(), i as int) == (SourcePosition { line, character }),
            decreases end - i,
        {
            proof {
                lemma_position_before_bounds(self.src(), i as int);
            }
            let b = bytes[i];
            if b == 0x0a {
                line = line + 1;
                character = 0;
            } else if !(0x80 <= b && b <= 0xbf) {
                character = character + 1;
            }
            i = i + 1;
        }
        return SourcePosition { line: line, character: character };
    }

    // This is expensive, expected to be called only for errors.
    pub fn token_position(&self, location: &SourceLocation) -> (r: TokenPosition)
        ensures
            r == token_position(self.src(), *location),
    {
        return TokenPosition {
            start: self.source_position(location.start),
            end: self.source_position(location.end),
        };
    }

    /// Reads the rest of the text and returns its tokens.
    #[verifier::rlimit(50)]
    pub fn lex(&mut self) -> (r: Vec<Token>)
        requires
            old(self).wf(),
        ensures
            final(self).wf(),
            final(self).src() == old(self).src(),
            final(self).text() == old(self).text(),
            final(self).position() == final(self).src().len(),
            r@ == lex_from(old(self).src(), old(self).position(), old(self).first_in_line()),
            tokens_ordered(
                old(self).src(),
                r@,
                old(self).position(),
                old(self).src().len() as int,
            ),
    {
        loop
            invariant
                self.inv(),
                self.start == self.chars.position(),
                self.source == old(self).source,
                self.tokens@ + lex_from(self.src(), self.position(), self.first_in_line())
                    == lex_from(old(self).src(), old(self).position(), old(self).first_in_line()),
            ensures
                self.position() == self.src().len(),
                self.tokens@ == lex_from(
                    old(self).src(),
                    old(self).position(),
                    old(self).first_in_line(),
                ),
            decreases remaining(self.src(), self.position()),
        {
            let ghost before = *self;
            let more = self.read_token();
            if !more {
                proof {
                    self.chars.lemma_wf();
                    assert(self.tokens@ + Seq::<Token>::empty() =~= self.tokens@);
                }
                break ;
            }
            self.start = self.chars.pos();
            proof {
                lemma_read_token(before.src(), before.position(), before.first_in_line());
                let scan = read_token(before.src(), before.position(), before.first_in_line());
                let rest = lex_from(self.src(), self.position(), self.first_in_line());
                match scan.token {
                    Some(t) => {
                        assert(before.tokens@.push(t) + rest =~= before.tokens@ + (seq![t] + rest));
                    },
                    None => {},
                }
            }
        }
        proof {
            lemma_lex_from_ordered(
                old(self).src(),
                old(self).position(),
                old(self).first_in_line(),
            );
        }
        let mut tokens = Vec::new();
        std::mem::swap(&mut self.tokens, &mut tokens);
        return tokens;
    }

    fn read_token(&mut self) -> (r: bool)
        requires
            old(self).inv(),
            old(self).start == old(self).chars.position(),
        ensures
            r == (old(self).position() < old(self).src().len()),
            !r ==> final(self).moved(*old(self), old(self).position()),
            r ==> final(self).stepped(
                *old(self),
                read_token(old(self).src(), old(self).position(), old(self).first_in_line()),
            ),
    {
        proof {
            self.chars.lemma_wf();
            if self.position() < self.src().len() {
                lemma_step(self.src(), self.position());
            }
        }
        match self.chars.next() {
            None => return false,
            Some(c) => {
                if c == '\n' {
                    self.read_newline();
                } else if c == '(' {
                    self.add_token(TokenType::LeftParenthesis);
                } else if c == ')' {
                    self.add_token(TokenType::RightParenthesis);
                } else if c == '[' {
                    self.add_token(TokenType::LeftBracket);
                } else if c == ']' {
                    self.add_token(TokenType::RightBracket);
                } else if c == '{' {
                    self.add_token(TokenType::LeftCurlyBrace);
                } else if c == '}' {
                    self.add_token(TokenType::RightCurlyBrace);
                } else if c == ',' {
                    self.add_token(TokenType::Comma);
                } else if c == ':' {
                    self.add_token(TokenType::Colon);
                } else if c == '?' {
                    self.add_token(TokenType::QuestionMark);
                } else if c == '+' {
                    self.read_math_operator(TokenType::Plus, TokenType::PlusAssign);
                } else if c == '-' {
                    self.read_math_operator(TokenType::Minus, TokenType::MinusAssign);
                } else if c == '*' {
                    self.read_math_operator(TokenType::Multiply, TokenType::MultiplyAssign);
                } else if c == '/' {
                    self.read_math_operator(TokenType::Divide, TokenType::DivideAssign);
                } else if c == '%' {
                    self.read_math_operator(TokenType::Modulo, TokenType::ModuloAssign);
                } else if c == '.' {
                    self.read_dot();
                } else if c == '\'' {
                    self.read_string_literal();
                } else if c == '=' {
                    self.read_equal();
                } else if c == '!' {
                    self.read_in_equal();
                } else if c == '<' {
                    self.read_less();
                } else if c == '>' {
                    self.read_greater();
                } else if c == '&' {
                    self.read_and();
                } else if c == '|' {
                    self.read_pipe();
                } else if c == '"' {
                    self.read_quote();
                } else if c == ' ' || c == '\t' {
                } else if '0' <= c && c <= '9' {
                    self.read_number();
                } else {
                    self.read_identifier();
                }
            },
        }
        return true;
    }

    fn add_token(&mut self, token_type: TokenType)
        requires
            old(self).inv(),
        ensures
            final(self).stepped(
                *old(self),
                emit(token_type, old(self).start as int, old(self).position()),
            ),
    {
        self.tokens.push(
            Token {
                token_type: token_type,
                location: SourceLocation { start: self.start, end: self.chars.pos() },
            },
        );
        self.first_token_in_line = token_type == TokenType::NewLine
    }

    /// Moves the cursor over one character.
    fn bump(&mut self)
        requires
            old(self).inv(),
        ensures
            final(self).moved(*old(self), step(old(self).src(), old(self).position())),
    {
        proof {
            self.chars.lemma_wf();
            if self.position() < self.src().len() {
                lemma_step(self.src(), self.position());
            }
        }
        self.chars.next();
    }

    fn peek(&self) -> (r: Option<char>)
        requires
            self.inv(),
        ensures
            r == peek_at(self.src(), self.position()),
    {
        self.chars.peek()
    }

    fn read_math_operator(&mut self, op: TokenType, assign: TokenType)
        requires
            old(self).inv(),
        ensures
            final(self).stepped(
                *old(self),
                scan_math_operator(
                    old(self).src(),
                    old(self).start as int,
                    old(self).position(),
                    op,
                    assign,
                ),
            ),
    {
        if Some('=') == self.peek() {
            self.bump();
            self.add_token(assign);
        } else {
            self.add_token(op);
        }
    }

    fn read_newline(&mut self)
        requires
            old(self).inv(),
        ensures
            final(self).stepped(
                *old(self),
                scan_newline(
                    old(self).src(),
                    old(self).start as int,
                    old(self).position(),
                    old(self).first_in_line(),
                ),
            ),
    {
        let new_line = Token {
            token_type: TokenType::NewLine,
            location: SourceLocation { start: self.start, end: self.chars.pos() },
        };
        loop
            invariant
                self.moved(*old(self), self.position()),
                new_line == token(TokenType::NewLine, old(self).start as int, old(self).position()),
                blanks_end(self.src(), self.position()) == blanks_end(
                    old(self).src(),
                    old(self).position(),
                ),
            decreases remaining(self.src(), self.position()),
        {
            let c = self.peek();
            if c == Some(' ') {
                self.bump();
            } else if c == Some('\t') {
                self.bump();
            } else if c == Some('\\') {
                self.bump();
                return ;
            } else {
                self.tokens.push(new_line);
                self.first_token_in_line = true;
                return ;
            }
        }
    }

    fn read_less(&mut self)
        requires
            old(self).inv(),
        ensures
            final(self).stepped(
                *old(self),
                scan_less(old(self).src(), old(self).start as int, old(self).position()),
            ),
    {
        if self.peek() == Some('=') {
            self.bump();
            self.add_token(TokenType::LessOrEqual);
        } else {
            self.add_token(TokenType::Less);
        }
    }

    fn read_greater(&mut self)
        requires
            old(self).inv(),
        ensures
            final(self).stepped(
                *old(self),
                scan_greater(old(self).src(), old(self).start as int, old(self).position()),
            ),
    {
        if self.peek() == Some('=') {
            self.bump();
            self.add_token(TokenType::GreaterOrEqual);
        } else {
            self.add_token(TokenType::Greater);
        }
    }

    fn read_and(&mut self)
        requires
            old(self).inv(),
        ensures
            final(self).stepped(
                *old(self),
                scan_and(old(self).src(), old(self).start as int, old(self).position()),
            ),
    {
        if self.peek() == Some('&') {
            self.bump();
            self.add_token(TokenType::And);
        } else {
            self.read_identifier();
        }
    }

    fn read_equal(&mut self)
        requires
            old(self).inv(),
        ensures
            final(self).stepped(
                *old(self),
                scan_equal(old(self).src(), old(self).start as int, old(self).position()),
            ),
    {
        if self.peek() == Some('=') {
            self.bump();
            let c = self.peek();
            if c == Some('#') {
                self.bump();
                self.add_token(TokenType::EqualCaseSensitive);
            } else if c == Some('?') {
                self.bump();
                self.add_token(TokenType::EqualCaseInSensitive);
            } else {
                self.add_token(TokenType::Equal);
            }
        } else {
            self.add_token(TokenType::Assign);
        }
    }

    fn read_in_equal(&mut self)
        requires
            old(self).inv(),
        ensures
            final(self).stepped(
                *old(self),
                scan_in_equal(old(self).src(), old(self).start as int, old(self).position()),
            ),
    {
        if self.peek() == Some('=') {
            self.bump();
            let c = self.peek();
            if c == Some('#') {
                self.bump();
                self.add_token(TokenType::InEqualCaseSensitive);
            } else if c == Some('?') {
                self.bump();
                self.add_token(TokenType::InEqualCaseInSensitive);
            } else {
                self.add_token(TokenType::InEqual);
            }
        } else {
            self.add_token(TokenType::Bang);
        }
    }

    fn read_dot(&mut self)
        requires
            old(self).inv(),
        ensures
            final(self).stepped(
                *old(self),
                scan_dot(old(self).src(), old(self).start as int, old(self).position()),
            ),
    {
        let c = self.peek();
        if c == Some('.') {
            self.bump();
            if self.peek() == Some('.') {
                self.bump();
                self.add_token(TokenType::Variadic);
            } else {
                self.add_token(TokenType::Invalid);
            }
        } else if c == Some('=') {
            self.bump();
            self.add_token(TokenType::DotAssign);
        } else {
            self.add_token(TokenType::Dot);
        }
    }

    fn read_string_literal(&mut self)
        requires
            old(self).inv(),
        ensures
            final(self).stepped(
                *old(self),
                scan_string_literal(old(self).src(), old(self).start as int, old(self).position()),
            ),
    {
        loop
            invariant_except_break
                string_end(self.src(), self.position()) == string_end(
                    old(self).src(),
                    old(self).position(),
                ),
            invariant
                self.moved(*old(self), self.position()),
            ensures
                string_end(old(self).src(), old(self).position()) == (self.position(), true),
            decreases remaining(self.src(), self.position()),
        {
            let ghost at = self.position();
            let c = self.peek();
            self.bump();
            if c.is_none() {
                self.add_token(TokenType::Invalid);
                return ;
            } else if c == Some('\'') {
                if self.peek() == Some('\'') {
                    self.bump();
                    continue ;
                }
                break ;
            } else if c == Some('\n') {
                // Next line has to start with a backslash (with allowed spaces and tabs
                // before).
                let ghost q = self.position();
                loop
                    invariant_except_break
                        blanks_end(self.src(), self.position()) == blanks_end(self.src(), q),
                    invariant
                        self.moved(*old(self), self.position()),
                        q <= self.position(),
                        peek_at(self.src(), at) == Some('\n'),
                        q == step(self.src(), at),
                        string_end(self.src(), at) == string_end(
                            old(self).src(),
                            old(self).position(),
                        ),
                    ensures
                        peek_at(self.src(), blanks_end(self.src(), q)) == Some('\\'),
                        self.position() == step(self.src(), blanks_end(self.src(), q)),
                    decreases
                            remaining(
                                self.src(),
                                self.position(),
                            ),
                {
                    let d = self.peek();
                    if d == Some(' ') || d == Some('\t') {
                        self.bump();
                    } else if d == Some('\\') {
                        self.bump();
                        break ;
                    } else {
                        self.add_token(TokenType::Invalid);
                        return ;
                    }
                }
            }
        }
        self.add_token(TokenType::StringLiteral)
    }

    fn read_quote(&mut self)
        requires
            old(self).inv(),
        ensures
            final(self).stepped(
                *old(self),
                scan_quote(
                    old(self).src(),
                    old(self).start as int,
                    old(self).position(),
                    false,
                    old(self).first_in_line(),
                ),
            ),
    {
        let mut escaped = false;
        loop
            invariant
                self.moved(*old(self), self.position()),
                scan_quote(
                    self.src(),
                    self.start as int,
                    self.position(),
                    escaped,
                    self.first_token_in_line,
                ) == scan_quote(
                    old(self).src(),
                    old(self).start as int,
                    old(self).position(),
                    false,
                    old(self).first_in_line(),
                ),
            decreases remaining(self.src(), self.position()),
        {
            let c = self.peek();
            if c.is_none() || c == Some('\n') {
                // A literal has to close before the line ends; a comment ends with it.
                if !self.first_token_in_line {
                    self.add_token(TokenType::Invalid);
                }
                return ;
            } else if c == Some('\\') {
                self.bump();
                escaped = !escaped;
            } else if c == Some('"') {
                self.bump();
                if !self.first_token_in_line && !escaped {
                    self.add_token(TokenType::StringLiteral);
                    return ;
                }
                escaped = false;
            } else {
                self.bump();
                escaped = false;
            }
        }
    }

    fn read_pipe(&mut self)
        requires
            old(self).inv(),
        ensures
            final(self).stepped(
                *old(self),
                scan_pipe(old(self).src(), old(self).start as int, old(self).position()),
            ),
    {
        if self.peek() == Some('|') {
            self.bump();
            self.add_token(TokenType::Or);
            return ;
        }
        self.add_token(TokenType::Pipe);
    }

    fn read_number(&mut self)
        requires
            old(self).inv(),
        ensures
            final(self).stepped(
                *old(self),
                scan_number(old(self).src(), old(self).start as int, old(self).position()),
            ),
    {
        loop
            invariant
                self.moved(*old(self), self.position()),
                digits_end(self.src(), self.position()) == digits_end(
                    old(self).src(),
                    old(self).position(),
                ),
            ensures
                self.moved(*old(self), digits_end(old(self).src(), old(self).position())),
            decreases remaining(self.src(), self.position()),
        {
            match self.peek() {
                None => break ,
                Some(c) => {
                    if !('0' <= c && c <= '9') {
                        break ;
                    }
                },
            }
            self.bump();
        }
        self.add_token(TokenType::Number);
    }

    fn read_identifier(&mut self)
        requires
            old(self).inv(),
        ensures
            final(self).stepped(
                *old(self),
                scan_identifier(old(self).src(), old(self).start as int, old(self).position()),
            ),
    {
        loop
            invariant
                self.moved(*old(self), self.position()),
                identifier_end(self.src(), self.position()) == identifier_end(
                    old(self).src(),
                    old(self).position(),
                ),
            ensures
                self.moved(*old(self), identifier_end(old(self).src(), old(self).position())),
            decreases remaining(self.src(), self.position()),
        {
            match self.peek() {
                None => break ,
                Some(c) => {
                    if !(('a' <= c && c <= 'z') || ('A' <= c && c <= 'Z') || c == '#' || c == ':'
                        || c == '_' || ('0' <= c && c <= '9')) {
                        break ;
                    }
                },
            }
            self.bump();
        }
        proof {
            self.chars.lemma_wf();
        }
        let s = substring(self.source, self.start, self.chars.pos());
        let kind = if same_text(s, "let") {
            TokenType::Let
        } else if same_text(s, "function") {
            TokenType::Function
        } else if same_text(s, "endfunction") {
            TokenType::EndFunction
        } else if same_text(s, "if") {
            TokenType::If
        } else if same_text(s, "else") {
            TokenType::Else
        } else if same_text(s, "elseif") {
            TokenType::ElseIf
        } else if same_text(s, "endif") {
            TokenType::EndIf
        } else if same_text(s, "try") {
            TokenType::Try
        } else if same_text(s, "catch") {
            TokenType::Catch
        } else if same_text(s, "finally") {
            TokenType::Finally
        } else if same_text(s, "endtry") {
            TokenType::EndTry
        } else if same_text(s, "for") {
            TokenType::For
        } else if same_text(s, "set") {
            TokenType::SetOption
        } else if same_text(s, "endfor") {
            TokenType::EndFor
        } else if same_text(s, "while") {
            TokenType::While
        } else if same_text(s, "endwhile") {
            TokenType::EndWhile
        } else if same_text(s, "in") {
            TokenType::In
        } else if same_text(s, "call") {
            TokenType::Call
        } else if same_text(s, "break") {
            TokenType::Break
        } else if same_text(s, "execute") {
            TokenType::Execute
        } else if same_text(s, "return") {
            TokenType::Return
        } else if same_text(s, "abort") {
            TokenType::Abort
        } else {
            TokenType::Ident
        };
        self.add_token(kind);
    }
}

} // verus!
