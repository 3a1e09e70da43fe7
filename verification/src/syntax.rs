//! The lossless syntax tree of a text: its tokens, every character of the
//! text in one of them, and the events that build the tree.
use crate::peekable_chars_with_position::PeekableCharsWithPosition;
use crate::peekable_chars_with_position::{char_at, cursor_ok, lemma_step, remaining, step};
use crate::scanner::{
    digits_end, identifier_end, is_digit, lemma_digits_end, lemma_identifier_end,
};
use crate::syntax_kind::SyntaxKind;
use crate::syntax_parser::{
    after, blanks, kind_at, let_readable, root_events, Event, TokenSource, TreeSink,
};
use crate::text::{same_text, substring, text_of};
use vstd::prelude::*;
use vstd::string::*;

verus! {

#[derive(Debug, Clone, Copy, PartialEq, Eq, PartialOrd, Ord, Hash, Structural)]
pub struct Token {
    pub kind: SyntaxKind,
    /// The number of bytes of the token.
    pub len: usize,
}

/// The kind of the token that starts at `pos`, and where it ends.
pub open spec fn token_at(src: Seq<u8>, pos: int) -> (SyntaxKind, int) {
    let c = char_at(src, pos);
    let p = step(src, pos);
    if c == '\n' {
        (SyntaxKind::NEW_LINE, p)
    } else if c == ' ' || c == '\t' {
        (SyntaxKind::WHITESPACE, p)
    } else if c == '=' {
        (SyntaxKind::EQ, p)
    } else if is_digit(c) {
        (SyntaxKind::NUMBER, digits_end(src, p))
    } else {
        let end = identifier_end(src, p);
        (
            if text_of(src, pos, end) == "let"@ {
                SyntaxKind::LET_KW
            } else {
                SyntaxKind::IDENT
            },
            end,
        )
    }
}

/// The tokens of the text from `pos` on.
pub open spec fn tokens_from(src: Seq<u8>, pos: int) -> Seq<Token>
    decreases remaining(src, pos),
{
    if 0 <= pos < src.len() {
        let (kind, end) = token_at(src, pos);
        if pos < end {
            seq![Token { kind, len: (end - pos) as usize }] + tokens_from(src, end)
        } else {
            seq![]
        }
    } else {
        seq![]
    }
}

/// The number of bytes that the tokens cover.
pub open spec fn total_len(tokens: Seq<Token>) -> int
    decreases tokens.len(),
{
    if tokens.len() == 0 {
        0
    } else {
        total_len(tokens.drop_last()) + tokens.last().len
    }
}

proof fn lemma_token_at(src: Seq<u8>, pos: int)
    requires
        cursor_ok(src, pos),
        pos < src.len(),
    ensures
        cursor_ok(src, token_at(src, pos).1),
        pos < token_at(src, pos).1,
{
    lemma_step(src, pos);
    let p = step(src, pos);
    lemma_digits_end(src, p);
    lemma_identifier_end(src, p);
}

pub fn lex(source: &str) -> (r: Vec<Token>)
    ensures
        r@ == tokens_from(source.spec_bytes(), 0),
        total_len(r@) == source.spec_bytes().len(),
{
    let mut lexer = Lexer {
        source: source,
        chars: PeekableCharsWithPosition::new(source),
        tokens: Vec::new(),
        start: 0,
    };
    proof {
        lexer.chars.lemma_wf();
    }
    lexer.lex()
}

struct Lexer<'a> {
    source: &'a str,
    chars: PeekableCharsWithPosition<'a>,
    tokens: Vec<Token>,
    start: usize,
}

impl<'a> Lexer<'a> {
    spec fn src(&self) -> Seq<u8> {
        self.source.spec_bytes()
    }

    spec fn inv(&self) -> bool {
        &&& self.chars.wf()
        &&& self.chars.source() == self.src()
        &&& cursor_ok(self.src(), self.start as int)
        &&& self.start <= self.chars.position()
    }

    fn lex(&mut self) -> (r: Vec<Token>)
        requires
            old(self).inv(),
            old(self).start == old(self).chars.position(),
            old(self).tokens@.len() == 0,
        ensures
            r@ == tokens_from(old(self).src(), old(self).start as int),
            total_len(r@) == old(self).src().len() - old(self).start,
    {
        loop
            invariant
                self.inv(),
                self.source == old(self).source,
                self.start == self.chars.position(),
                self.tokens@ + tokens_from(self.src(), self.start as int) == tokens_from(
                    old(self).src(),
                    old(self).start as int,
                ),
                total_len(self.tokens@) == self.start - old(self).start,
            ensures
                self.tokens@ == tokens_from(old(self).src(), old(self).start as int),
                total_len(self.tokens@) == old(self).src().len() - old(self).start,
            decreases remaining(self.src(), self.start as int),
        {
            proof {
                self.chars.lemma_wf();
                if self.start < self.src().len() {
                    lemma_token_at(self.src(), self.start as int);
                }
            }
            let ghost before = self.tokens@;
            let ghost at = self.start as int;
            match self.read_token() {
                Some(kind) => {
                    let len = self.chars.pos() - self.start;
                    let token = Token { kind: kind, len: len };
                    self.tokens.push(token);
                    self.start = self.chars.pos();
                    proof {
                        let rest = tokens_from(self.src(), self.start as int);
                        assert(before.push(token) + rest =~= before + (seq![token] + rest));
                        assert(self.tokens@.drop_last() =~= before);
                    }
                },
                None => {
                    proof {
                        assert(self.tokens@ + Seq::<Token>::empty() =~= self.tokens@);
                    }
                    break ;
                },
            }
        }
        let mut tokens = Vec::new();
        std::mem::swap(&mut self.tokens, &mut tokens);
        return tokens;
    }

    fn read_token(&mut self) -> (r: Option<SyntaxKind>)
        requires
            old(self).inv(),
            old(self).start == old(self).chars.position(),
        ensures
            final(self).inv(),
            final(self).source == old(self).source,
            final(self).start == old(self).start,
            final(self).tokens == old(self).tokens,
            match r {
                Some(kind) => old(self).start < old(self).src().len() && (
                kind,
                final(self).chars.position(),
                ) == token_at(old(self).src(), old(self).start as int),
                None => old(self).start >= old(self).src().len() && final(self).chars.position()
                    == old(self).start,
            },
    {
        proof {
            self.chars.lemma_wf();
            if self.chars.position() < self.src().len() {
                lemma_step(self.src(), self.chars.position());
            }
        }
        match self.chars.next() {
            None => None,
            Some(c) => {
                if c == '\n' {
                    Some(SyntaxKind::NEW_LINE)
                } else if c == ' ' || c == '\t' {
                    Some(SyntaxKind::WHITESPACE)
                } else if c == '=' {
                    Some(SyntaxKind::EQ)
                } else if '0' <= c && c <= '9' {
                    Some(self.read_number())
                } else {
                    Some(self.read_identifier())
                }
            },
        }
    }

    fn read_identifier(&mut self) -> (r: SyntaxKind)
        requires
            old(self).inv(),
        ensures
            final(self).inv(),
            final(self).source == old(self).source,
            final(self).start == old(self).start,
            final(self).tokens == old(self).tokens,
            final(self).chars.position() == identifier_end(
                old(self).src(),
                old(self).chars.position(),
            ),
            r == if text_of(
                old(self).src(),
                old(self).start as int,
                final(self).chars.position(),
            ) == "let"@ {
                SyntaxKind::LET_KW
            } else {
                SyntaxKind::IDENT
            },
    {
        loop
            invariant_except_break
                identifier_end(self.src(), self.chars.position()) == identifier_end(
                    old(self).src(),
                    old(self).chars.position(),
                ),
            invariant
                self.inv(),
                self.source == old(self).source,
                self.start == old(self).start,
                self.tokens == old(self).tokens,
            ensures
                self.chars.position() == identifier_end(
                    old(self).src(),
                    old(self).chars.position(),
                ),
            decreases remaining(self.src(), self.chars.position()),
        {
            proof {
                self.chars.lemma_wf();
                if self.chars.position() < self.src().len() {
                    lemma_step(self.src(), self.chars.position());
                }
            }
            match self.chars.peek() {
                None => break ,
                Some(c) => {
                    if !(('a' <= c && c <= 'z') || ('A' <= c && c <= 'Z') || c == '#' || c == ':'
                        || c == '_' || ('0' <= c && c <= '9')) {
                        break ;
                    }
                },
            }
            self.chars.next();
        }
        proof {
            self.chars.lemma_wf();
        }
        let s = substring(self.source, self.start, self.chars.pos());
        if same_text(s, "let") {
            SyntaxKind::LET_KW
        } else {
            SyntaxKind::IDENT
        }
    }

    fn read_number(&mut self) -> (r: SyntaxKind)
        requires
            old(self).inv(),
        ensures
            final(self).inv(),
            final(self).source == old(self).source,
            final(self).start == old(self).start,
            final(self).tokens == old(self).tokens,
            final(self).chars.position() == digits_end(old(self).src(), old(self).chars.position()),
            r == SyntaxKind::NUMBER,
    {
        loop
            invariant_except_break
                digits_end(self.src(), self.chars.position()) == digits_end(
                    old(self).src(),
                    old(self).chars.position(),
                ),
            invariant
                self.inv(),
                self.source == old(self).source,
                self.start == old(self).start,
                self.tokens == old(self).tokens,
            ensures
                self.chars.position() == digits_end(old(self).src(), old(self).chars.position()),
            decreases remaining(self.src(), self.chars.position()),
        {
            proof {
                self.chars.lemma_wf();
                if self.chars.position() < self.src().len() {
                    lemma_step(self.src(), self.chars.position());
                }
            }
            match self.chars.peek() {
                None => break ,
                Some(c) => {
                    if !('0' <= c && c <= '9') {
                        break ;
                    }
                },
            }
            self.chars.next();
        }
        return SyntaxKind::NUMBER;
    }
}

/// The kinds of a list of tokens.
pub open spec fn kinds(tokens: Seq<Token>) -> Seq<SyntaxKind> {
    Seq::new(tokens.len(), |i: int| tokens[i].kind)
}

/// A source of the kinds of a list of tokens.
pub struct TextTokenSource {
    pub tokens: Vec<Token>,
    // Index into tokens
    pub current: usize,
}

impl TokenSource for TextTokenSource {
    open spec fn rest(&self) -> Seq<SyntaxKind> {
        after(kinds(self.tokens@), self.current as int)
    }

    fn current(&self) -> (r: SyntaxKind) {
        if self.current >= self.tokens.len() {
            return SyntaxKind::EOF;
        }
        self.tokens[self.current].kind
    }

    fn bump(&mut self) {
        proof {
            assert(after(after(kinds(self.tokens@), self.current as int), 1) =~= after(
                kinds(self.tokens@),
                self.current + 1,
            ));
        }
        if self.current < self.tokens.len() {
            self.current += 1
        }
    }
}

/// A step in the making of a tree, as a sink records it.
#[derive(Debug, Clone, PartialEq, Eq)]
pub enum Step {
    Token(SyntaxKind),
    StartNode(SyntaxKind),
    FinishNode,
    Error(String),
}

impl Step {
    pub open spec fn model(&self) -> Event {
        match self {
            Step::Token(k) => Event::Token(*k),
            Step::StartNode(k) => Event::StartNode(*k),
            Step::FinishNode => Event::FinishNode,
            Step::Error(e) => Event::Error(e@),
        }
    }
}

/// A sink that records the steps it is told.
pub struct TextTreeSink {
    pub steps: Vec<Step>,
}

impl TextTreeSink {
    fn record(&mut self, step: Step)
        ensures
            final(self).events() == old(self).events().push(step.model()),
    {
        proof {
            assert(Seq::new(self.steps@.push(step).len(), |i: int| self.steps@.push(step)[i].model())
                =~= Seq::new(self.steps@.len(), |i: int| self.steps@[i].model()).push(
                step.model(),
            ));
        }
        self.steps.push(step);
    }
}

impl TreeSink for TextTreeSink {
    open spec fn events(&self) -> Seq<Event> {
        Seq::new(self.steps@.len(), |i: int| self.steps@[i].model())
    }

    fn token(&mut self, kind: SyntaxKind) {
        self.record(Step::Token(kind));
    }

    fn start_node(&mut self, kind: SyntaxKind) {
        self.record(Step::StartNode(kind));
    }

    fn finish_node(&mut self) {
        self.record(Step::FinishNode);
    }

    fn error(&mut self, error: String) {
        self.record(Step::Error(error));
    }
}

/// The index of the first token from `from` on that is no white space.
fn skip_blanks(tokens: &Vec<Token>, from: usize) -> (r: usize)
    requires
        from <= tokens@.len(),
    ensures
        r == from + blanks(kinds(tokens@), from as int),
        r <= tokens@.len(),
{
    let mut i = from;
    while i < tokens.len() && tokens[i].kind == SyntaxKind::WHITESPACE
        invariant
            from <= i <= tokens@.len(),
            from + blanks(kinds(tokens@), from as int) == i + blanks(kinds(tokens@), i as int),
        decreases tokens@.len() - i,
    {
        i = i + 1;
    }
    i
}

/// Whether the tokens can be parsed: they do not start with `let`, or the
/// token after the variable of the `let` statement, white space apart, is `=`.
pub fn readable(tokens: &Vec<Token>) -> (r: bool)
    ensures
        r == (kind_at(kinds(tokens@), 0) == SyntaxKind::LET_KW ==> let_readable(kinds(tokens@))),
{
    if tokens.len() == 0 || tokens[0].kind != SyntaxKind::LET_KW {
        return true;
    }
    let variable = skip_blanks(tokens, 1);
    if variable >= tokens.len() {
        proof {
            assert(blanks(kinds(tokens@), variable + 1) == 0);
        }
        return false;
    }
    let operator = skip_blanks(tokens, variable + 1);
    operator < tokens.len() && tokens[operator].kind == SyntaxKind::EQ
}

/// The steps that build the tree of a text, or nothing where the text
/// starts with `let` and what follows is no variable and `=`.
pub fn parse(source: &str) -> (r: Option<Vec<Step>>)
    ensures
        match r {
            Some(steps) => Seq::new(steps@.len(), |i: int| steps@[i].model()) == root_events(
                kinds(tokens_from(source.spec_bytes(), 0)),
            ),
            None => kind_at(kinds(tokens_from(source.spec_bytes(), 0)), 0) == SyntaxKind::LET_KW
                && !let_readable(kinds(tokens_from(source.spec_bytes(), 0))),
        },
{
    let tokens = lex(source);
    if !readable(&tokens) {
        return None;
    }
    let mut source = TextTokenSource { tokens: tokens, current: 0 };
    let mut sink = TextTreeSink { steps: Vec::new() };
    proof {
        assert(after(kinds(source.tokens@), 0) =~= kinds(source.tokens@));
        assert(sink.events() =~= Seq::<Event>::empty());
    }
    crate::syntax_parser::parse(&mut source, &mut sink);
    proof {
        assert(Seq::<Event>::empty() + root_events(kinds(source.tokens@)) =~= root_events(
            kinds(source.tokens@),
        ));
    }
    Some(sink.steps)
}

} // verus!
