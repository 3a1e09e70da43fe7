//! What the parser does, as functions from a token sequence and a parser
//! state to a syntax tree and the state that follows.
//!
//! Every function takes the input (the source text and its tokens) and the
//! state in which parsing starts, and gives back a `Parsed`: the value, if
//! parsing succeeded, and what the parser's state has become.
use crate::ast_model::{
    ElseModel, EntryModel, ExprKindModel, ExprModel, IfModel, LoopVariableModel, StmtKindModel,
    StmtModel, SubscriptModel,
};
use crate::lexer::{token_position, Token, TokenPosition, TokenType};
use crate::scanner::token;
use crate::span::{BytePos, Span};
use crate::text::{decoded, text_of};
use vstd::prelude::*;

verus! {

/// What is parsed: a source text and the tokens that the lexer made of it.
pub struct Input {
    pub src: Seq<u8>,
    pub tokens: Seq<Token>,
}

/// A recorded error: what was expected and found, and where.
pub struct ParseErrorModel {
    pub message: Seq<char>,
    pub position: TokenPosition,
}

/// The state of a parser: the index of the next token, the end of the last
/// token that became part of a node, the errors recorded so far, and the
/// number of nodes completed so far.
pub struct State {
    pub pos: nat,
    pub last_pos: BytePos,
    pub errors: Seq<ParseErrorModel>,
    pub id: nat,
}

/// The outcome of a parsing step: its value, unless it failed, the number of
/// tokens that it consumed, and the rest of the state after it.
pub struct Parsed<T> {
    pub value: Option<T>,
    pub used: nat,
    pub last_pos: BytePos,
    pub errors: Seq<ParseErrorModel>,
    pub id: nat,
}

/// Which kind of item a comma-separated list holds.
#[derive(PartialEq, Eq, Debug, Clone, Copy, Structural)]
pub enum ListKind {
    Expressions,
    Names,
    Entries,
}

/// The items of a comma-separated list; only the field of the list's kind is filled.
pub struct ItemsModel {
    pub exprs: Seq<ExprModel>,
    pub names: Seq<Seq<char>>,
    pub entries: Seq<EntryModel>,
}

impl State {
    /// The state that a step which started in `self` and gave `r` leaves.
    pub open spec fn after<T>(self, r: Parsed<T>) -> State {
        State { pos: self.pos + r.used, last_pos: r.last_pos, errors: r.errors, id: r.id }
    }

    /// The outcome of a step that started in `from`, ends in `self` and gives `value`.
    pub open spec fn done<T>(self, from: State, value: Option<T>) -> Parsed<T> {
        Parsed {
            value,
            used: (self.pos - from.pos) as nat,
            last_pos: self.last_pos,
            errors: self.errors,
            id: self.id,
        }
    }

    /// The state after one more node has been completed.
    pub open spec fn numbered(self) -> State {
        State { id: self.id + 1, ..self }
    }
}

/// The number of tokens that a parser in state `st` has still before it.
pub open spec fn left(inp: Input, st: State) -> nat {
    if st.pos <= inp.tokens.len() {
        (inp.tokens.len() - st.pos) as nat
    } else {
        0
    }
}

/// The token that stands for the end of the text.
pub open spec fn eof_token(inp: Input) -> Token {
    token(TokenType::Eof, inp.src.len() as int, inp.src.len() as int)
}

/// The next token, or the end-of-text token where there is none.
pub open spec fn peek(inp: Input, st: State) -> Token {
    if st.pos < inp.tokens.len() {
        inp.tokens[st.pos as int]
    } else {
        eof_token(inp)
    }
}

/// The state after the next token, if there is one, has been consumed.
pub open spec fn advance(inp: Input, st: State) -> State {
    if st.pos < inp.tokens.len() {
        State {
            pos: st.pos + 1,
            last_pos: BytePos(inp.tokens[st.pos as int].location.end),
            ..st
        }
    } else {
        st
    }
}

/// A token that ends a statement.
pub open spec fn ends_statement(kind: TokenType) -> bool {
    kind == TokenType::NewLine || kind == TokenType::Eof || kind == TokenType::Pipe
}

/// An operator that assigns.
pub open spec fn assigns(kind: TokenType) -> bool {
    kind == TokenType::Assign || kind == TokenType::PlusAssign || kind == TokenType::MinusAssign
        || kind == TokenType::MultiplyAssign || kind == TokenType::DivideAssign || kind
        == TokenType::ModuloAssign || kind == TokenType::DotAssign
}

/// An operator that can stand between two expressions.
pub open spec fn joins_expressions(kind: TokenType) -> bool {
    kind == TokenType::Equal || kind == TokenType::InEqual || kind
        == TokenType::InEqualCaseSensitive || kind == TokenType::InEqualCaseInSensitive || kind
        == TokenType::EqualCaseSensitive || kind == TokenType::EqualCaseInSensitive || kind
        == TokenType::Less || kind == TokenType::LessOrEqual || kind == TokenType::Greater || kind
        == TokenType::GreaterOrEqual || kind == TokenType::Dot || kind == TokenType::And || kind
        == TokenType::Or || kind == TokenType::Plus || kind == TokenType::Minus || kind
        == TokenType::Multiply || kind == TokenType::Divide || kind == TokenType::Modulo
}

/// The index after the next token that ends a statement, from `pos` on, or
/// the number of tokens where none does.
pub open spec fn statement_end(inp: Input, pos: nat) -> nat
    decreases inp.tokens.len() - pos,
{
    if pos >= inp.tokens.len() {
        pos
    } else if ends_statement(inp.tokens[pos as int].token_type) {
        pos + 1
    } else {
        statement_end(inp, pos + 1)
    }
}

pub proof fn lemma_statement_end(inp: Input, pos: nat)
    ensures
        pos <= statement_end(inp, pos),
        pos <= inp.tokens.len() ==> statement_end(inp, pos) <= inp.tokens.len(),
        pos < inp.tokens.len() ==> pos < statement_end(inp, pos),
    decreases inp.tokens.len() - pos,
{
    if pos < inp.tokens.len() && !ends_statement(inp.tokens[pos as int].token_type) {
        lemma_statement_end(inp, pos + 1);
    }
}

/// The state after the rest of the current statement has been discarded.
#[verifier::opaque]
pub open spec fn recover(inp: Input, st: State) -> State {
    State { pos: statement_end(inp, st.pos), ..st }
}

/// How a token is quoted in a message.
#[verifier::opaque]
pub open spec fn token_text(inp: Input, t: Token) -> Seq<char> {
    if t.token_type == TokenType::NewLine {
        "new line"@
    } else {
        "`"@ + text_of(inp.src, t.location.start as int, t.location.end as int) + "`"@
    }
}

/// The message of an error.
pub open spec fn message(expected: Seq<char>, found: Seq<char>) -> Seq<char> {
    "expected "@ + expected + ", found "@ + found
}

/// The error that `found` stands where `expected` should.
#[verifier::opaque]
pub open spec fn error_at(inp: Input, expected: Seq<char>, found: Token) -> ParseErrorModel {
    ParseErrorModel {
        message: message(expected, token_text(inp, found)),
        position: token_position(inp.src, found.location),
    }
}

/// The state after an error has been recorded.
pub open spec fn with_error(inp: Input, st: State, expected: Seq<char>, found: Token) -> State {
    State { errors: st.errors.push(error_at(inp, expected, found)), ..st }
}

/// The state after an error has been recorded and the rest of the statement
/// discarded.
pub open spec fn error_and_recover(
    inp: Input,
    st: State,
    expected: Seq<char>,
    found: Token,
) -> State {
    recover(inp, with_error(inp, st, expected, found))
}

pub open spec fn expect_end_of_statement(inp: Input, st: State) -> Parsed<()> {
    let t = peek(inp, st);
    if ends_statement(t.token_type) {
        advance(inp, st).done(st, Some(()))
    } else {
        error_and_recover(inp, st, "new line"@, t).done(st, None)
    }
}

pub open spec fn expect_token(inp: Input, st: State, kind: TokenType) -> Parsed<()> {
    let t = peek(inp, st);
    if t.token_type == kind {
        advance(inp, st).done(st, Some(()))
    } else {
        error_and_recover(inp, st, kind.name(), t).done(st, None)
    }
}

pub open spec fn expect_identifier(inp: Input, st: State) -> Parsed<Seq<char>> {
    let t = peek(inp, st);
    if t.token_type == TokenType::Ident {
        advance(inp, st).done(
            st,
            Some(text_of(inp.src, t.location.start as int, t.location.end as int)),
        )
    } else {
        error_and_recover(inp, st, "identifier"@, t).done(st, None)
    }
}

/// What a string literal token stands for: what the text between its
/// quotes stands for in a single-quoted literal, if it opens with a
/// single quote, and in a double-quoted literal otherwise.
#[verifier::opaque]
pub open spec fn literal(inp: Input, t: Token) -> Seq<char> {
    decoded(
        text_of(inp.src, t.location.start + 1, t.location.end - 1),
        text_of(inp.src, t.location.start as int, t.location.start + 1) == "'"@,
    )
}

/// The node of kind `kind` over `start..st.last_pos`, completed in state `st`.
pub open spec fn expr_node(st: State, start: usize, kind: ExprKindModel) -> ExprModel {
    ExprModel { id: st.id + 1, span: Span { start: BytePos(start), end: st.last_pos }, kind }
}

/// No items.
pub open spec fn no_items() -> ItemsModel {
    ItemsModel { exprs: seq![], names: seq![], entries: seq![] }
}

/// An expression: a prefix expression, followed by any number of operators
/// with a prefix expression each, which associate to the left whatever the
/// operators are, or by `?`, an expression, `:` and an expression.
#[verifier::opaque]
pub open spec fn expression(inp: Input, st: State) -> Parsed<ExprModel>
    decreases left(inp, st), 5nat,
{
    let r = prefix(inp, st);
    let st1 = st.after(r);
    match r.value {
        None => st1.done(st, None),
        Some(e) => {
            let r2 = infix_rest(inp, st1, e);
            st1.after(r2).done(st, r2.value)
        },
    }
}

/// What follows the expression `first`: see `expression`.
#[verifier::opaque]
pub open spec fn infix_rest(inp: Input, st: State, first: ExprModel) -> Parsed<ExprModel>
    decreases left(inp, st), 4nat,
{
    let kind = peek(inp, st).token_type;
    let st1 = advance(inp, st);
    if kind == TokenType::QuestionMark {
        let r1 = expression(inp, st1);
        let st2 = st1.after(r1);
        match r1.value {
            None => st2.done(st, None),
            Some(lhs) => {
                let r2 = expect_token(inp, st2, TokenType::Colon);
                let st3 = st2.after(r2);
                match r2.value {
                    None => st3.done(st, None),
                    Some(_) => {
                        let r3 = expression(inp, st3);
                        let st4 = st3.after(r3);
                        match r3.value {
                            None => st4.done(st, None),
                            Some(rhs) => st4.numbered().done(
                                st,
                                Some(
                                    ExprModel {
                                        id: st4.id + 1,
                                        span: Span { start: first.span.start, end: rhs.span.end },
                                        kind: ExprKindModel::Choose {
                                            cond: Box::new(first),
                                            lhs: Box::new(lhs),
                                            rhs: Box::new(rhs),
                                        },
                                    },
                                ),
                            ),
                        }
                    },
                }
            },
        }
    } else if !joins_expressions(kind) {
        st.done(st, Some(first))
    } else {
        let r1 = prefix(inp, st1);
        let st2 = st1.after(r1);
        match r1.value {
            None => st2.done(st, None),
            Some(right) => {
                let node = ExprModel {
                    id: st2.id + 1,
                    span: Span { start: first.span.start, end: right.span.end },
                    kind: ExprKindModel::Infix {
                        left: Box::new(first),
                        operator: kind,
                        right: Box::new(right),
                    },
                };
                let r2 = infix_rest(inp, st2.numbered(), node);
                st2.numbered().after(r2).done(st, r2.value)
            },
        }
    }
}

/// A prefix expression: a number, a string literal, an identifier with what
/// follows it, a dictionary or array literal, an expression in parentheses,
/// or `-` or `!` before a prefix expression.
#[verifier::opaque]
pub open spec fn prefix(inp: Input, st: State) -> Parsed<ExprModel>
    decreases left(inp, st), 3nat,
{
    let t = peek(inp, st);
    let kind = t.token_type;
    let start = t.location.start;
    let st1 = advance(inp, st);
    if kind == TokenType::Number {
        st1.numbered().done(
            st,
            Some(
                expr_node(
                    st1,
                    start,
                    ExprKindModel::Number {
                        digits: text_of(inp.src, t.location.start as int, t.location.end as int),
                    },
                ),
            ),
        )
    } else if kind == TokenType::StringLiteral {
        st1.numbered().done(
            st,
            Some(expr_node(st1, start, ExprKindModel::StringLiteral { value: literal(inp, t) })),
        )
    } else if kind == TokenType::Ident {
        ident_expression(inp, st)
    } else if kind == TokenType::LeftCurlyBrace {
        let r = list(inp, st1, ListKind::Entries, TokenType::RightCurlyBrace);
        let st2 = st1.after(r);
        match r.value {
            None => st2.done(st, None),
            Some(items) => st2.numbered().done(
                st,
                Some(
                    expr_node(st2, start, ExprKindModel::Dictionary { entries: items.entries }),
                ),
            ),
        }
    } else if kind == TokenType::LeftBracket {
        let r = list(inp, st1, ListKind::Expressions, TokenType::RightBracket);
        let st2 = st1.after(r);
        match r.value {
            None => st2.done(st, None),
            Some(items) => st2.numbered().done(
                st,
                Some(expr_node(st2, start, ExprKindModel::Array { elements: items.exprs })),
            ),
        }
    } else if kind == TokenType::LeftParenthesis {
        let r1 = expression(inp, st1);
        let st2 = st1.after(r1);
        match r1.value {
            None => st2.done(st, None),
            Some(e) => {
                let r2 = expect_token(inp, st2, TokenType::RightParenthesis);
                let st3 = st2.after(r2);
                match r2.value {
                    None => st3.done(st, None),
                    Some(_) => st3.numbered().done(
                        st,
                        Some(expr_node(st3, start, ExprKindModel::Paren { expr: Box::new(e) })),
                    ),
                }
            },
        }
    } else if kind == TokenType::Minus || kind == TokenType::Bang {
        let r = prefix(inp, st1);
        let st2 = st1.after(r);
        match r.value {
            None => st2.done(st, None),
            Some(e) => st2.numbered().done(
                st,
                Some(
                    expr_node(
                        st2,
                        start,
                        ExprKindModel::Unary { operator: kind, expr: Box::new(e) },
                    ),
                ),
            ),
        }
    } else {
        error_and_recover(inp, st, "expression"@, t).done(st, None)
    }
}

/// An identifier and the calls and subscripts that follow it.
#[verifier::opaque]
pub open spec fn ident_expression(inp: Input, st: State) -> Parsed<ExprModel>
    decreases left(inp, st), 2nat,
{
    let t = peek(inp, st);
    let r = expect_identifier(inp, st);
    let st1 = st.after(r);
    match r.value {
        None => st1.done(st, None),
        Some(name) => {
            let node = expr_node(
                st1,
                t.location.start,
                ExprKindModel::Identifier { name, name_location: t.location },
            );
            let r2 = ident_rest(inp, st1.numbered(), t.location.start, node);
            st1.numbered().after(r2).done(st, r2.value)
        },
    }
}

/// The call of `first`, which started at `start`: the arguments and the
/// closing parenthesis, the opening one read.
#[verifier::opaque]
pub open spec fn call_suffix(inp: Input, st: State, start: usize, first: ExprModel) -> Parsed<
    ExprModel,
>
    decreases left(inp, st), 11nat,
{
    let r = list(inp, st, ListKind::Expressions, TokenType::RightParenthesis);
    let st1 = st.after(r);
    match r.value {
        None => st1.done(st, None),
        Some(items) => st1.numbered().done(
            st,
            Some(
                expr_node(
                    st1,
                    start,
                    ExprKindModel::Function { callee: Box::new(first), arguments: items.exprs },
                ),
            ),
        ),
    }
}

/// The subscript of `first`, which started at `start`: what stands between
/// the brackets and the closing bracket, the opening one read.
#[verifier::opaque]
pub open spec fn subscript_suffix(inp: Input, st: State, start: usize, first: ExprModel) -> Parsed<
    ExprModel,
>
    decreases left(inp, st), 11nat,
{
    let r1 = subscript(inp, st);
    let st1 = st.after(r1);
    match r1.value {
        None => st1.done(st, None),
        Some(idx) => {
            let r2 = expect_token(inp, st1, TokenType::RightBracket);
            let st2 = st1.after(r2);
            match r2.value {
                None => st2.done(st, None),
                Some(_) => st2.numbered().done(
                    st,
                    Some(
                        expr_node(
                            st2,
                            start,
                            ExprKindModel::ArraySubscript {
                                base: Box::new(first),
                                idx: Box::new(idx),
                            },
                        ),
                    ),
                ),
            }
        },
    }
}

/// The calls and subscripts that follow the expression `first`, which
/// started at `start`. A call does not follow a call directly.
#[verifier::opaque]
pub open spec fn ident_rest(inp: Input, st: State, start: usize, first: ExprModel) -> Parsed<
    ExprModel,
>
    decreases left(inp, st), 1nat,
{
    let kind = peek(inp, st).token_type;
    let st1 = advance(inp, st);
    if kind == TokenType::LeftParenthesis && !(first.kind is Function) {
        let r = call_suffix(inp, st1, start, first);
        let st2 = st1.after(r);
        match r.value {
            None => st2.done(st, None),
            Some(node) => {
                let r2 = ident_rest(inp, st2, start, node);
                st2.after(r2).done(st, r2.value)
            },
        }
    } else if kind == TokenType::LeftBracket {
        let r = subscript_suffix(inp, st1, start, first);
        let st2 = st1.after(r);
        match r.value {
            None => st2.done(st, None),
            Some(node) => {
                let r2 = ident_rest(inp, st2, start, node);
                st2.after(r2).done(st, r2.value)
            },
        }
    } else {
        st.done(st, Some(first))
    }
}

/// What stands between the brackets of a subscript: an index, or a sublist
/// `from:to` of which either bound may be left out.
#[verifier::opaque]
pub open spec fn subscript(inp: Input, st: State) -> Parsed<SubscriptModel>
    decreases left(inp, st), 7nat,
{
    if peek(inp, st).token_type != TokenType::Colon {
        let r = expression(inp, st);
        let st1 = st.after(r);
        match r.value {
            None => st1.done(st, None),
            Some(e) => {
                let r2 = subscript_tail(inp, st1, Some(e));
                st1.after(r2).done(st, r2.value)
            },
        }
    } else {
        subscript_tail(inp, st, None)
    }
}

/// What follows the first bound `first` of a subscript.
#[verifier::opaque]
pub open spec fn subscript_tail(inp: Input, st: State, first: Option<ExprModel>) -> Parsed<
    SubscriptModel,
>
    decreases left(inp, st), 6nat,
{
    if peek(inp, st).token_type == TokenType::Colon {
        let st1 = advance(inp, st);
        if peek(inp, st1).token_type != TokenType::RightBracket {
            let r = expression(inp, st1);
            let st2 = st1.after(r);
            match r.value {
                None => st2.done(st, None),
                Some(e) => st2.done(
                    st,
                    Some(SubscriptModel::Sublist { left: first, right: Some(e) }),
                ),
            }
        } else {
            st1.done(st, Some(SubscriptModel::Sublist { left: first, right: None }))
        }
    } else {
        match first {
            Some(e) => st.done(st, Some(SubscriptModel::Index(e))),
            None => st.done(st, None),
        }
    }
}

/// An entry of a dictionary literal: a string literal, `:` and an expression.
#[verifier::opaque]
pub open spec fn entry(inp: Input, st: State) -> Parsed<EntryModel>
    decreases left(inp, st), 7nat,
{
    let t = peek(inp, st);
    if t.token_type != TokenType::StringLiteral {
        error_and_recover(inp, st, TokenType::StringLiteral.name(), t).done(st, None)
    } else {
        let st1 = advance(inp, st);
        let r1 = expect_token(inp, st1, TokenType::Colon);
        let st2 = st1.after(r1);
        match r1.value {
            None => st2.done(st, None),
            Some(_) => {
                let r2 = expression(inp, st2);
                let st3 = st2.after(r2);
                match r2.value {
                    None => st3.done(st, None),
                    Some(v) => st3.done(st, Some(EntryModel { key: literal(inp, t), value: v })),
                }
            },
        }
    }
}

/// One item of a list of kind `kind`, added to the items `acc`.
#[verifier::opaque]
pub open spec fn item(inp: Input, st: State, kind: ListKind, acc: ItemsModel) -> Parsed<ItemsModel>
    decreases left(inp, st), 8nat,
{
    match kind {
        ListKind::Expressions => {
            let r = expression(inp, st);
            match r.value {
                None => st.after(r).done(st, None),
                Some(e) => st.after(r).done(
                    st,
                    Some(ItemsModel { exprs: acc.exprs.push(e), ..acc }),
                ),
            }
        },
        ListKind::Names => {
            let r = expect_identifier(inp, st);
            match r.value {
                None => st.after(r).done(st, None),
                Some(n) => st.after(r).done(
                    st,
                    Some(ItemsModel { names: acc.names.push(n), ..acc }),
                ),
            }
        },
        ListKind::Entries => {
            let r = entry(inp, st);
            match r.value {
                None => st.after(r).done(st, None),
                Some(e) => st.after(r).done(
                    st,
                    Some(ItemsModel { entries: acc.entries.push(e), ..acc }),
                ),
            }
        },
    }
}

/// A list of items of kind `kind`, separated by commas and closed by a
/// token of kind `end`, before which one more comma may stand. The list may
/// be empty.
#[verifier::opaque]
pub open spec fn list(inp: Input, st: State, kind: ListKind, end: TokenType) -> Parsed<ItemsModel>
    decreases left(inp, st), 10nat,
{
    if peek(inp, st).token_type == end {
        advance(inp, st).done(st, Some(no_items()))
    } else {
        let r = item(inp, st, kind, no_items());
        let st1 = st.after(r);
        match r.value {
            None => st1.done(st, None),
            Some(acc) => {
                let r2 = list_rest(inp, st1, kind, end, acc);
                st1.after(r2).done(st, r2.value)
            },
        }
    }
}

/// What follows the items `acc` of a list: see `list`.
#[verifier::opaque]
pub open spec fn list_rest(
    inp: Input,
    st: State,
    kind: ListKind,
    end: TokenType,
    acc: ItemsModel,
) -> Parsed<ItemsModel>
    decreases left(inp, st), 9nat,
{
    let t = peek(inp, st);
    let st1 = advance(inp, st);
    if t.token_type == end {
        st1.done(st, Some(acc))
    } else if t.token_type == TokenType::Comma {
        if peek(inp, st1).token_type == end {
            advance(inp, st1).done(st, Some(acc))
        } else {
            let r = item(inp, st1, kind, acc);
            let st2 = st1.after(r);
            match r.value {
                None => st2.done(st, None),
                Some(more) => {
                    let r2 = list_rest(inp, st2, kind, end, more);
                    st2.after(r2).done(st, r2.value)
                },
            }
        }
    } else {
        error_and_recover(inp, st, "`,` or `)`"@, t).done(st, None)
    }
}

/// The arguments of an `execute` statement: expressions up to the end of
/// the statement, which is left in place.
#[verifier::opaque]
pub open spec fn execute_args(inp: Input, st: State) -> Parsed<Seq<ExprModel>>
    decreases left(inp, st), 11nat,
{
    if ends_statement(peek(inp, st).token_type) {
        st.done(st, Some(seq![]))
    } else {
        let r = expression(inp, st);
        let st1 = st.after(r);
        match r.value {
            None => st1.done(st, None),
            Some(e) => {
                proof {
                    crate::laws::consumption::expression_consumes(inp, st);
                }
                let r2 = execute_args(inp, st1);
                match r2.value {
                    None => st1.after(r2).done(st, None),
                    Some(es) => st1.after(r2).done(st, Some(seq![e] + es)),
                }
            },
        }
    }
}

/// Statements up to a token of kind `a`, `b` or `c` at the start of a
/// statement, or up to the end of the text. A statement that fails leaves
/// its errors and no statement.
#[verifier::opaque]
pub open spec fn block(inp: Input, st: State, a: TokenType, b: TokenType, c: TokenType) -> Parsed<
    Seq<StmtModel>,
>
    decreases left(inp, st), 12nat,
{
    let t = peek(inp, st);
    let kind = t.token_type;
    if kind == TokenType::Eof || kind == a || kind == b || kind == c {
        st.done(st, Some(seq![]))
    } else {
        let st1 = advance(inp, st);
        let r = statement_of(inp, t, st1);
        let st2 = st1.after(r);
        let rest = block(inp, st2, a, b, c);
        let others = match rest.value {
            Some(others) => others,
            None => seq![],
        };
        st2.after(rest).done(
            st,
            Some(
                match r.value {
                    Some(s) => seq![s] + others,
                    None => others,
                },
            ),
        )
    }
}

/// Statements up to a statement that starts with `end`, then `end` and the
/// end of a statement.
#[verifier::opaque]
pub open spec fn statements_until(inp: Input, st: State, end: TokenType) -> Parsed<Seq<StmtModel>>
    decreases left(inp, st), 13nat,
{
    let r = block(inp, st, end, end, end);
    let st1 = st.after(r);
    let r1 = expect_token(inp, st1, end);
    let st2 = st1.after(r1);
    match r1.value {
        None => st2.done(st, None),
        Some(_) => {
            let r2 = expect_end_of_statement(inp, st2);
            match r2.value {
                None => st2.after(r2).done(st, None),
                Some(_) => st2.after(r2).done(st, r.value),
            }
        },
    }
}

/// The statement node that the payload `r`, parsed from state `st` on, is
/// part of, where the statement started at `start`.
pub open spec fn finish(st: State, start: usize, r: Parsed<StmtKindModel>) -> Parsed<StmtModel> {
    let st1 = st.after(r);
    match r.value {
        None => st1.done(st, None),
        Some(kind) => st1.numbered().done(
            st,
            Some(
                StmtModel {
                    id: st1.id + 1,
                    span: Span { start: BytePos(start), end: st1.last_pos },
                    kind,
                },
            ),
        ),
    }
}

/// The statement that starts with the token `t`, where `st` is the state
/// after `t`. A line break or `|` alone is no statement and no error.
#[verifier::opaque]
pub open spec fn statement_of(inp: Input, t: Token, st: State) -> Parsed<StmtModel>
    decreases left(inp, st), 15nat,
{
    let start = t.location.start;
    let kind = t.token_type;
    if kind == TokenType::Let {
        finish(st, start, let_statement(inp, st))
    } else if kind == TokenType::Break {
        finish(st, start, break_statement(inp, st))
    } else if kind == TokenType::Call {
        finish(st, start, call_statement(inp, st))
    } else if kind == TokenType::Return {
        finish(st, start, return_statement(inp, st))
    } else if kind == TokenType::Try {
        finish(st, start, try_statement(inp, st))
    } else if kind == TokenType::SetOption {
        finish(st, start, set_statement(inp, st))
    } else if kind == TokenType::Execute {
        finish(st, start, execute_statement(inp, st))
    } else if kind == TokenType::If {
        let r = if_statement(inp, st);
        finish(
            st,
            start,
            st.after(r).done(
                st,
                match r.value {
                    Some(s) => Some(StmtKindModel::If(s)),
                    None => None,
                },
            ),
        )
    } else if kind == TokenType::Function {
        finish(st, start, function_statement(inp, st))
    } else if kind == TokenType::For {
        finish(st, start, for_statement(inp, st))
    } else if kind == TokenType::While {
        finish(st, start, while_statement(inp, st))
    } else if kind == TokenType::NewLine || kind == TokenType::Pipe {
        st.done(st, None)
    } else {
        error_and_recover(inp, st, "keyword"@, t).done(st, None)
    }
}

/// `break` has been read: the end of the statement.
#[verifier::opaque]
pub open spec fn break_statement(inp: Input, st: State) -> Parsed<StmtKindModel> {
    let r = expect_end_of_statement(inp, st);
    match r.value {
        None => st.after(r).done(st, None),
        Some(_) => st.after(r).done(st, Some(StmtKindModel::Break)),
    }
}

/// `let` has been read: an expression, an assigning operator, an expression
/// and the end of the statement.
#[verifier::opaque]
pub open spec fn let_statement(inp: Input, st: State) -> Parsed<StmtKindModel>
    decreases left(inp, st), 14nat,
{
    let r1 = expression(inp, st);
    let st1 = st.after(r1);
    match r1.value {
        None => st1.done(st, None),
        Some(var) => {
            let operator = peek(inp, st1);
            if !assigns(operator.token_type) {
                error_and_recover(inp, st1, "assign operator"@, operator).done(st, None)
            } else {
                let st2 = advance(inp, st1);
                let r2 = expression(inp, st2);
                let st3 = st2.after(r2);
                match r2.value {
                    None => st3.done(st, None),
                    Some(value) => {
                        let r3 = expect_end_of_statement(inp, st3);
                        match r3.value {
                            None => st3.after(r3).done(st, None),
                            Some(_) => st3.after(r3).done(
                                st,
                                Some(
                                    StmtKindModel::Let {
                                        var,
                                        operator: operator.token_type,
                                        value,
                                    },
                                ),
                            ),
                        }
                    },
                }
            }
        },
    }
}

/// `call` has been read: a name, arguments in parentheses and the end of
/// the statement.
#[verifier::opaque]
pub open spec fn call_statement(inp: Input, st: State) -> Parsed<StmtKindModel>
    decreases left(inp, st), 14nat,
{
    let r1 = expect_identifier(inp, st);
    let st1 = st.after(r1);
    match r1.value {
        None => st1.done(st, None),
        Some(name) => {
            let r2 = expect_token(inp, st1, TokenType::LeftParenthesis);
            let st2 = st1.after(r2);
            match r2.value {
                None => st2.done(st, None),
                Some(_) => {
                    let r3 = list(inp, st2, ListKind::Expressions, TokenType::RightParenthesis);
                    let st3 = st2.after(r3);
                    match r3.value {
                        None => st3.done(st, None),
                        Some(items) => {
                            let r4 = expect_end_of_statement(inp, st3);
                            match r4.value {
                                None => st3.after(r4).done(st, None),
                                Some(_) => st3.after(r4).done(
                                    st,
                                    Some(StmtKindModel::Call { name, arguments: items.exprs }),
                                ),
                            }
                        },
                    }
                },
            }
        },
    }
}

/// `execute` has been read: its arguments.
#[verifier::opaque]
pub open spec fn execute_statement(inp: Input, st: State) -> Parsed<StmtKindModel>
    decreases left(inp, st), 14nat,
{
    let r = execute_args(inp, st);
    match r.value {
        None => st.after(r).done(st, None),
        Some(arguments) => st.after(r).done(st, Some(StmtKindModel::Execute { arguments })),
    }
}

/// `return` has been read: the end of the statement, or an expression and
/// the end of the statement.
#[verifier::opaque]
pub open spec fn return_statement(inp: Input, st: State) -> Parsed<StmtKindModel>
    decreases left(inp, st), 14nat,
{
    if ends_statement(peek(inp, st).token_type) {
        advance(inp, st).done(st, Some(StmtKindModel::Return { value: None }))
    } else {
        let r1 = expression(inp, st);
        let st1 = st.after(r1);
        match r1.value {
            None => st1.done(st, None),
            Some(e) => {
                let r2 = expect_end_of_statement(inp, st1);
                match r2.value {
                    None => st1.after(r2).done(st, None),
                    Some(_) => st1.after(r2).done(
                        st,
                        Some(StmtKindModel::Return { value: Some(e) }),
                    ),
                }
            },
        }
    }
}

/// `set` has been read: an option's name and the end of the statement, or
/// a name, `=` and a name.
#[verifier::opaque]
pub open spec fn set_statement(inp: Input, st: State) -> Parsed<StmtKindModel> {
    let r1 = expect_identifier(inp, st);
    let st1 = st.after(r1);
    match r1.value {
        None => st1.done(st, None),
        Some(option) => if peek(inp, st1).token_type != TokenType::Assign {
            let r2 = expect_end_of_statement(inp, st1);
            match r2.value {
                None => st1.after(r2).done(st, None),
                Some(_) => st1.after(r2).done(
                    st,
                    Some(StmtKindModel::SetOption { option, value: None }),
                ),
            }
        } else {
            let st2 = advance(inp, st1);
            let r2 = expect_identifier(inp, st2);
            match r2.value {
                None => st2.after(r2).done(st, None),
                Some(value) => st2.after(r2).done(
                    st,
                    Some(StmtKindModel::SetOption { option, value: Some(value) }),
                ),
            }
        },
    }
}

/// `try` has been read: the end of the statement, a body, and `endtry` or
/// `finally` with a second body up to `endtry`.
#[verifier::opaque]
pub open spec fn try_statement(inp: Input, st: State) -> Parsed<StmtKindModel>
    decreases left(inp, st), 14nat,
{
    let r1 = expect_end_of_statement(inp, st);
    let st1 = st.after(r1);
    match r1.value {
        None => st1.done(st, None),
        Some(_) => {
            let r2 = block(inp, st1, TokenType::EndTry, TokenType::Finally, TokenType::Finally);
            let st2 = st1.after(r2);
            let body = match r2.value {
                Some(body) => body,
                None => seq![],
            };
            let kind = peek(inp, st2).token_type;
            let st3 = advance(inp, st2);
            if kind == TokenType::EndTry {
                let r3 = expect_end_of_statement(inp, st3);
                match r3.value {
                    None => st3.after(r3).done(st, None),
                    Some(_) => st3.after(r3).done(
                        st,
                        Some(StmtKindModel::Try { body, finally: None }),
                    ),
                }
            } else if kind == TokenType::Finally {
                let r3 = expect_end_of_statement(inp, st3);
                let st4 = st3.after(r3);
                match r3.value {
                    None => st4.done(st, None),
                    Some(_) => {
                        let r4 = statements_until(inp, st4, TokenType::EndTry);
                        match r4.value {
                            None => st4.after(r4).done(st, None),
                            Some(finally) => st4.after(r4).done(
                                st,
                                Some(StmtKindModel::Try { body, finally: Some(finally) }),
                            ),
                        }
                    },
                }
            } else {
                let r3 = expect_token(inp, st2, TokenType::EndTry);
                st2.after(r3).done(st, None)
            }
        },
    }
}

/// `if` or `elseif` has been read: a condition, the end of the statement,
/// a body, and `endif`, or `else` with a body up to `endif`, or `elseif`
/// with what follows an `if`. Where the text ends first, the statement
/// fails without an error of its own.
#[verifier::opaque]
pub open spec fn if_statement(inp: Input, st: State) -> Parsed<IfModel>
    decreases left(inp, st), 14nat,
{
    let r1 = expression(inp, st);
    let st1 = st.after(r1);
    match r1.value {
        None => st1.done(st, None),
        Some(condition) => {
            let r2 = expect_end_of_statement(inp, st1);
            let st2 = st1.after(r2);
            match r2.value {
                None => st2.done(st, None),
                Some(_) => {
                    let r3 = block(
                        inp,
                        st2,
                        TokenType::EndIf,
                        TokenType::Else,
                        TokenType::ElseIf,
                    );
                    let st3 = st2.after(r3);
                    let then_branch = match r3.value {
                        Some(body) => body,
                        None => seq![],
                    };
                    let kind = peek(inp, st3).token_type;
                    let st4 = advance(inp, st3);
                    if kind == TokenType::EndIf {
                        let r4 = expect_end_of_statement(inp, st4);
                        match r4.value {
                            None => st4.after(r4).done(st, None),
                            Some(_) => st4.after(r4).done(
                                st,
                                Some(
                                    IfModel {
                                        condition,
                                        then_branch,
                                        else_cond: ElseModel::NoElse,
                                    },
                                ),
                            ),
                        }
                    } else if kind == TokenType::Else {
                        let r4 = expect_end_of_statement(inp, st4);
                        let st5 = st4.after(r4);
                        match r4.value {
                            None => st5.done(st, None),
                            Some(_) => {
                                let r5 = statements_until(inp, st5, TokenType::EndIf);
                                match r5.value {
                                    None => st5.after(r5).done(st, None),
                                    Some(body) => st5.after(r5).done(
                                        st,
                                        Some(
                                            IfModel {
                                                condition,
                                                then_branch,
                                                else_cond: ElseModel::Else(body),
                                            },
                                        ),
                                    ),
                                }
                            },
                        }
                    } else if kind == TokenType::ElseIf {
                        let r4 = if_statement(inp, st4);
                        match r4.value {
                            None => st4.after(r4).done(st, None),
                            Some(inner) => st4.after(r4).done(
                                st,
                                Some(
                                    IfModel {
                                        condition,
                                        then_branch,
                                        else_cond: ElseModel::ElseIf(Box::new(inner)),
                                    },
                                ),
                            ),
                        }
                    } else {
                        st3.done(st, None)
                    }
                },
            }
        },
    }
}

/// `function` has been read: `!` or not, a name, parameters in parentheses,
/// `abort` or not, the end of the statement and a body up to `endfunction`.
#[verifier::opaque]
pub open spec fn function_statement(inp: Input, st: State) -> Parsed<StmtKindModel>
    decreases left(inp, st), 14nat,
{
    let overwrite = peek(inp, st).token_type == TokenType::Bang;
    let st0 = if overwrite {
        advance(inp, st)
    } else {
        st
    };
    let r1 = expect_identifier(inp, st0);
    let st1 = st0.after(r1);
    match r1.value {
        None => st1.done(st, None),
        Some(name) => {
            let r2 = expect_token(inp, st1, TokenType::LeftParenthesis);
            let st2 = st1.after(r2);
            match r2.value {
                None => st2.done(st, None),
                Some(_) => {
                    let r3 = list(inp, st2, ListKind::Names, TokenType::RightParenthesis);
                    let st3 = st2.after(r3);
                    match r3.value {
                        None => st3.done(st, None),
                        Some(items) => {
                            let abort = peek(inp, st3).token_type == TokenType::Abort;
                            let st4 = if abort {
                                advance(inp, st3)
                            } else {
                                st3
                            };
                            let r4 = expect_end_of_statement(inp, st4);
                            let st5 = st4.after(r4);
                            match r4.value {
                                None => st5.done(st, None),
                                Some(_) => {
                                    let r5 = statements_until(inp, st5, TokenType::EndFunction);
                                    match r5.value {
                                        None => st5.after(r5).done(st, None),
                                        Some(body) => st5.after(r5).done(
                                            st,
                                            Some(
                                                StmtKindModel::Function {
                                                    name,
                                                    arguments: items.names,
                                                    body,
                                                    overwrite,
                                                    abort,
                                                },
                                            ),
                                        ),
                                    }
                                },
                            }
                        },
                    }
                },
            }
        },
    }
}

/// The variable of a `for` loop: a name, or names in brackets.
#[verifier::opaque]
pub open spec fn loop_variable(inp: Input, st: State) -> Parsed<LoopVariableModel>
    decreases left(inp, st), 11nat,
{
    let t = peek(inp, st);
    if t.token_type == TokenType::LeftBracket {
        let st1 = advance(inp, st);
        let r = list(inp, st1, ListKind::Names, TokenType::RightBracket);
        match r.value {
            None => st1.after(r).done(st, None),
            Some(items) => st1.after(r).done(st, Some(LoopVariableModel::List(items.names))),
        }
    } else if t.token_type == TokenType::Ident {
        let r = expect_identifier(inp, st);
        match r.value {
            None => st.after(r).done(st, None),
            Some(name) => st.after(r).done(st, Some(LoopVariableModel::Single(name))),
        }
    } else {
        error_and_recover(inp, st, "`(` or identifier"@, t).done(st, None)
    }
}

/// `for` has been read: the loop variable, `in`, an expression, the end of
/// the statement and a body up to `endfor`.
#[verifier::opaque]
pub open spec fn for_statement(inp: Input, st: State) -> Parsed<StmtKindModel>
    decreases left(inp, st), 14nat,
{
    let r1 = loop_variable(inp, st);
    let st1 = st.after(r1);
    match r1.value {
        None => st1.done(st, None),
        Some(variable) => {
            let r2 = expect_token(inp, st1, TokenType::In);
            let st2 = st1.after(r2);
            match r2.value {
                None => st2.done(st, None),
                Some(_) => {
                    let r3 = expression(inp, st2);
                    let st3 = st2.after(r3);
                    match r3.value {
                        None => st3.done(st, None),
                        Some(range) => {
                            let r4 = expect_end_of_statement(inp, st3);
                            let st4 = st3.after(r4);
                            match r4.value {
                                None => st4.done(st, None),
                                Some(_) => {
                                    let r5 = statements_until(inp, st4, TokenType::EndFor);
                                    match r5.value {
                                        None => st4.after(r5).done(st, None),
                                        Some(body) => st4.after(r5).done(
                                            st,
                                            Some(
                                                StmtKindModel::For {
                                                    loop_variable: variable,
                                                    range,
                                                    body,
                                                },
                                            ),
                                        ),
                                    }
                                },
                            }
                        },
                    }
                },
            }
        },
    }
}

/// `while` has been read: a condition, the end of the statement and a body
/// up to `endwhile`.
#[verifier::opaque]
pub open spec fn while_statement(inp: Input, st: State) -> Parsed<StmtKindModel>
    decreases left(inp, st), 14nat,
{
    let r1 = expression(inp, st);
    let st1 = st.after(r1);
    match r1.value {
        None => st1.done(st, None),
        Some(condition) => {
            let r2 = expect_end_of_statement(inp, st1);
            let st2 = st1.after(r2);
            match r2.value {
                None => st2.done(st, None),
                Some(_) => {
                    let r3 = statements_until(inp, st2, TokenType::EndWhile);
                    match r3.value {
                        None => st2.after(r3).done(st, None),
                        Some(body) => st2.after(r3).done(
                            st,
                            Some(StmtKindModel::While { condition, body }),
                        ),
                    }
                },
            }
        },
    }
}

/// One statement, if a token is left.
pub open spec fn statement(inp: Input, st: State) -> Parsed<StmtModel> {
    if st.pos < inp.tokens.len() {
        let st1 = advance(inp, st);
        let r = statement_of(inp, inp.tokens[st.pos as int], st1);
        st1.after(r).done(st, r.value)
    } else {
        st.done(st, None)
    }
}

/// The statements of the rest of the text. A statement that fails leaves
/// its errors and no statement.
#[verifier::opaque]
pub open spec fn program(inp: Input, st: State) -> Parsed<Seq<StmtModel>>
    decreases left(inp, st), 16nat,
{
    if st.pos < inp.tokens.len() {
        let st1 = advance(inp, st);
        let r = statement_of(inp, inp.tokens[st.pos as int], st1);
        let st2 = st1.after(r);
        let rest = program(inp, st2);
        let others = match rest.value {
            Some(others) => others,
            None => seq![],
        };
        st2.after(rest).done(
            st,
            Some(
                match r.value {
                    Some(s) => seq![s] + others,
                    None => others,
                },
            ),
        )
    } else {
        st.done(st, Some(seq![]))
    }
}

/// The state in which a parser starts.
pub open spec fn initial() -> State {
    State { pos: 0, last_pos: BytePos(0), errors: seq![], id: 0 }
}

/// The payload of an `if` statement as the payload of a statement.
pub open spec fn if_payload(st: State, r: Parsed<IfModel>) -> Parsed<StmtKindModel> {
    st.after(r).done(
        st,
        match r.value {
            Some(s) => Some(StmtKindModel::If(s)),
            None => None,
        },
    )
}

/// What a statement is, by the token it starts with.
#[verifier::rlimit(50)]
pub proof fn statement_of_cases(inp: Input, t: Token, st: State)
    ensures
        statement_of(inp, t, st) == match t.token_type {
            TokenType::Let => finish(st, t.location.start, let_statement(inp, st)),
            TokenType::Break => finish(st, t.location.start, break_statement(inp, st)),
            TokenType::Call => finish(st, t.location.start, call_statement(inp, st)),
            TokenType::Return => finish(st, t.location.start, return_statement(inp, st)),
            TokenType::Try => finish(st, t.location.start, try_statement(inp, st)),
            TokenType::SetOption => finish(st, t.location.start, set_statement(inp, st)),
            TokenType::Execute => finish(st, t.location.start, execute_statement(inp, st)),
            TokenType::If => finish(
                st,
                t.location.start,
                if_payload(st, if_statement(inp, st)),
            ),
            TokenType::Function => finish(st, t.location.start, function_statement(inp, st)),
            TokenType::For => finish(st, t.location.start, for_statement(inp, st)),
            TokenType::While => finish(st, t.location.start, while_statement(inp, st)),
            TokenType::NewLine => st.done(st, None),
            TokenType::Pipe => st.done(st, None),
            _ => error_and_recover(inp, st, "keyword"@, t).done(st, None),
        },
{
    reveal(statement_of);
    reveal(let_statement);
    reveal(break_statement);
    reveal(call_statement);
    reveal(return_statement);
    reveal(try_statement);
    reveal(set_statement);
    reveal(execute_statement);
    reveal(if_statement);
    reveal(function_statement);
    reveal(for_statement);
    reveal(while_statement);
}

} // verus!
