//! The parser / grammar of the lossless syntax tree: from a source of token
//! kinds to the events that build the tree.
use crate::syntax_kind::SyntaxKind;
use vstd::prelude::*;

verus! {

/// A step in the making of a tree.
pub enum Event {
    Token(SyntaxKind),
    StartNode(SyntaxKind),
    FinishNode,
    Error(Seq<char>),
}

pub trait TokenSource {
    /// The kinds of the tokens that have not been read.
    spec fn rest(&self) -> Seq<SyntaxKind>;

    /// The kind of the next token, or `EOF` where none is left.
    fn current(&self) -> (r: SyntaxKind)
        ensures
            r == kind_at(self.rest(), 0),
    ;

    /// Moves on to the token after the next.
    fn bump(&mut self)
        ensures
            final(self).rest() == after(old(self).rest(), 1),
    ;
}

pub trait TreeSink {
    /// The steps taken so far.
    spec fn events(&self) -> Seq<Event>;

    fn token(&mut self, kind: SyntaxKind)
        ensures
            final(self).events() == old(self).events().push(Event::Token(kind)),
    ;

    fn start_node(&mut self, kind: SyntaxKind)
        ensures
            final(self).events() == old(self).events().push(Event::StartNode(kind)),
    ;

    fn finish_node(&mut self)
        ensures
            final(self).events() == old(self).events().push(Event::FinishNode),
    ;

    fn error(&mut self, error: String)
        ensures
            final(self).events() == old(self).events().push(Event::Error(error@)),
    ;
}

/// The tokens that follow the first `i`; none where there are no more than `i`.
pub open spec fn after(tokens: Seq<SyntaxKind>, i: int) -> Seq<SyntaxKind> {
    if 0 <= i <= tokens.len() {
        tokens.subrange(i, tokens.len() as int)
    } else {
        seq![]
    }
}

/// The kind of the token at `i`, or `EOF` past the last token.
pub open spec fn kind_at(tokens: Seq<SyntaxKind>, i: int) -> SyntaxKind {
    if 0 <= i < tokens.len() {
        tokens[i]
    } else {
        SyntaxKind::EOF
    }
}

/// The number of white space tokens from `i` on.
pub open spec fn blanks(tokens: Seq<SyntaxKind>, i: int) -> nat
    decreases tokens.len() - i,
{
    if 0 <= i < tokens.len() && tokens[i] == SyntaxKind::WHITESPACE {
        1 + blanks(tokens, i + 1)
    } else {
        0
    }
}

/// The events of the `n` tokens from `i` on; past the last token `EOF` stands.
pub open spec fn token_events(tokens: Seq<SyntaxKind>, i: int, n: nat) -> Seq<Event> {
    Seq::new(n, |k: int| Event::Token(kind_at(tokens, i + k)))
}

/// The events of the token at `i` and of the white space that follows it.
pub open spec fn token_and_blanks(tokens: Seq<SyntaxKind>, i: int) -> Seq<Event> {
    token_events(tokens, i, 1 + blanks(tokens, i + 1))
}

/// The index of the variable of a `let` statement that starts at 0.
pub open spec fn variable_at(tokens: Seq<SyntaxKind>) -> int {
    1 + blanks(tokens, 1) as int
}

/// The index of the operator of a `let` statement that starts at 0.
pub open spec fn operator_at(tokens: Seq<SyntaxKind>) -> int {
    variable_at(tokens) + 1 + blanks(tokens, variable_at(tokens) + 1) as int
}

/// The index of the expression of a `let` statement that starts at 0.
pub open spec fn value_at(tokens: Seq<SyntaxKind>) -> int {
    operator_at(tokens) + 1 + blanks(tokens, operator_at(tokens) + 1) as int
}

/// The index after a `let` statement that starts at 0.
pub open spec fn let_end(tokens: Seq<SyntaxKind>) -> int {
    value_at(tokens) + 1 + blanks(tokens, value_at(tokens) + 1) as int
}

/// The tokens start a `let` statement that can be read: the operator that
/// follows the variable is `=`.
pub open spec fn let_readable(tokens: Seq<SyntaxKind>) -> bool {
    kind_at(tokens, 0) == SyntaxKind::LET_KW && kind_at(tokens, operator_at(tokens))
        == SyntaxKind::EQ
}

/// The events of a `let` statement: `let`, a variable, `=` and an
/// expression of one token, with the white space after each.
pub open spec fn let_events(tokens: Seq<SyntaxKind>) -> Seq<Event> {
    seq![Event::StartNode(SyntaxKind::LET_STMT)] + token_and_blanks(tokens, 0)
        + seq![Event::StartNode(SyntaxKind::LET_VAR)] + token_events(
        tokens,
        variable_at(tokens),
        1,
    ) + seq![Event::FinishNode] + token_events(
        tokens,
        variable_at(tokens) + 1,
        blanks(tokens, variable_at(tokens) + 1),
    ) + token_and_blanks(tokens, operator_at(tokens)) + token_and_blanks(tokens, value_at(tokens))
        + seq![Event::FinishNode]
}

/// The events of a text: a root that holds a `let` statement, if the text
/// starts with `let`, and nothing else.
pub open spec fn root_events(tokens: Seq<SyntaxKind>) -> Seq<Event> {
    if kind_at(tokens, 0) == SyntaxKind::LET_KW {
        seq![Event::StartNode(SyntaxKind::ROOT)] + let_events(tokens) + seq![Event::FinishNode]
    } else {
        seq![Event::StartNode(SyntaxKind::ROOT), Event::FinishNode]
    }
}

pub fn parse<S: TokenSource, T: TreeSink>(source: &mut S, sink: &mut T)
    requires
        kind_at(old(source).rest(), 0) == SyntaxKind::LET_KW ==> let_readable(old(source).rest()),
    ensures
        final(sink).events() == old(sink).events() + root_events(old(source).rest()),
        final(source).rest() == if kind_at(old(source).rest(), 0) == SyntaxKind::LET_KW {
            after(old(source).rest(), let_end(old(source).rest()))
        } else {
            old(source).rest()
        },
{
    sink.start_node(SyntaxKind::ROOT);
    match source.current() {
        SyntaxKind::LET_KW => parse_let_stmt(source, sink),
        _ => {},
    }
    sink.finish_node();
    proof {
        let t = old(source).rest();
        if kind_at(t, 0) == SyntaxKind::LET_KW {
            assert(sink.events() =~= old(sink).events() + root_events(t));
        } else {
            assert(sink.events() =~= old(sink).events() + root_events(t));
        }
    }
}

#[verifier::rlimit(50)]
pub fn parse_let_stmt<S: TokenSource, T: TreeSink>(source: &mut S, sink: &mut T)
    requires
        let_readable(old(source).rest()),
    ensures
        final(sink).events() == old(sink).events() + let_events(old(source).rest()),
        final(source).rest() == after(old(source).rest(), let_end(old(source).rest())),
{
    let ghost t = source.rest();
    let ghost e0 = sink.events();
    proof {
        assert(after(t, 0) =~= t);
    }
    sink.start_node(SyntaxKind::LET_STMT);
    bump_token_and_ws(source, sink, Ghost(t), Ghost(0));
    sink.start_node(SyntaxKind::LET_VAR);
    bump_token(source, sink, Ghost(t), Ghost(variable_at(t)));
    sink.finish_node();
    skip_ws(source, sink, Ghost(t), Ghost(variable_at(t) + 1));
    bump_token_and_ws(source, sink, Ghost(t), Ghost(operator_at(t)));
    parse_expr(source, sink, Ghost(t), Ghost(value_at(t)));
    sink.finish_node();
    proof {
        assert(sink.events() =~= e0 + let_events(t));
    }
}

/// An expression: one token and the white space after it.
fn parse_expr<S: TokenSource, T: TreeSink>(
    source: &mut S,
    sink: &mut T,
    Ghost(t): Ghost<Seq<SyntaxKind>>,
    Ghost(i): Ghost<int>,
)
    requires
        0 <= i,
        old(source).rest() == after(t, i),
    ensures
        final(sink).events() == old(sink).events() + token_and_blanks(t, i),
        final(source).rest() == after(t, i + 1 + blanks(t, i + 1)),
{
    bump_token_and_ws(source, sink, Ghost(t), Ghost(i));
}

fn bump_token_and_ws<S: TokenSource, T: TreeSink>(
    source: &mut S,
    sink: &mut T,
    Ghost(t): Ghost<Seq<SyntaxKind>>,
    Ghost(i): Ghost<int>,
)
    requires
        0 <= i,
        old(source).rest() == after(t, i),
    ensures
        final(sink).events() == old(sink).events() + token_and_blanks(t, i),
        final(source).rest() == after(t, i + 1 + blanks(t, i + 1)),
{
    bump_token(source, sink, Ghost(t), Ghost(i));
    skip_ws(source, sink, Ghost(t), Ghost(i + 1));
    proof {
        assert(sink.events() =~= old(sink).events() + token_and_blanks(t, i));
    }
}

fn skip_ws<S: TokenSource, T: TreeSink>(
    source: &mut S,
    sink: &mut T,
    Ghost(t): Ghost<Seq<SyntaxKind>>,
    Ghost(i): Ghost<int>,
)
    requires
        0 <= i,
        old(source).rest() == after(t, i),
    ensures
        final(sink).events() == old(sink).events() + token_events(t, i, blanks(t, i)),
        final(source).rest() == after(t, i + blanks(t, i)),
{
    let ghost mut n: nat = 0;
    proof {
        assert(sink.events() =~= old(sink).events() + token_events(t, i, 0));
    }
    loop
        invariant_except_break
            blanks(t, i) == n + blanks(t, i + n),
        invariant
            0 <= i,
            n <= blanks(t, i),
            sink.events() == old(sink).events() + token_events(t, i, n),
            source.rest() == after(t, i + n),
        ensures
            n == blanks(t, i),
        decreases blanks(t, i) - n,
    {
        proof {
            lemma_skip_first(t, i + n);
        }
        if source.current() != SyntaxKind::WHITESPACE {
            break ;
        }
        bump_token(source, sink, Ghost(t), Ghost(i + n));
        proof {
            assert(sink.events() =~= old(sink).events() + token_events(t, i, n + 1));
            n = n + 1;
        }
    }
}

/// The first of the tokens from `i` on is the token at `i`.
proof fn lemma_skip_first(t: Seq<SyntaxKind>, i: int)
    requires
        0 <= i,
    ensures
        kind_at(after(t, i), 0) == kind_at(t, i),
        after(after(t, i), 1) == after(t, i + 1),
{
    assert(after(after(t, i), 1) =~= after(t, i + 1));
}

fn bump_token<S: TokenSource, T: TreeSink>(
    source: &mut S,
    sink: &mut T,
    Ghost(t): Ghost<Seq<SyntaxKind>>,
    Ghost(i): Ghost<int>,
)
    requires
        0 <= i,
        old(source).rest() == after(t, i),
    ensures
        final(sink).events() == old(sink).events() + token_events(t, i, 1),
        final(source).rest() == after(t, i + 1),
{
    proof {
        lemma_skip_first(t, i);
    }
    sink.token(source.current());
    source.bump();
    proof {
        assert(sink.events() =~= old(sink).events() + token_events(t, i, 1));
    }
}

} // verus!
