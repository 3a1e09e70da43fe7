//! Properties of the lexer and of the parser that hold of every input.
use crate::ast_model::{ElseModel, ExprKindModel, ExprModel, IfModel, StmtModel};
use crate::grammar::{
    advance, block, ends_statement, expect_end_of_statement, expr_node, expression,
    ident_expression, ident_rest, if_statement, infix_rest, initial, left, peek, prefix, program,
    statement_of, statements_until, Input, State,
};
use crate::laws::nesting::{behind, in_order};
use crate::laws::one_error::{opens_block, statement_costs_one};
use crate::laws::statement_growth::grows_program;
use crate::laws::statement_nesting::{program_nests, stmt_nested};
use crate::lexer::TokenType;
use crate::peekable_chars_with_position::cursor_ok;
use crate::scanner::{lemma_lex_from_ordered, lex, tokens_ordered};
use crate::text::text_of;
use vstd::prelude::*;
use vstd::utf8::{encode_utf8, encode_utf8_valid_utf8, is_char_boundary_start_end_of_seq};

pub mod chain_text;
pub mod consumption;
pub mod growth;
pub mod nesting;
pub mod one_error;
pub mod spans;
pub mod statement_growth;
pub mod statement_nesting;

verus! {

/// The tokens of any text are ordered by byte offset and do not overlap:
/// each is a non-empty range of the text that starts and ends between
/// characters, and each ends before the next begins.
pub proof fn tokens_in_order(text: Seq<char>)
    requires
        encode_utf8(text).len() <= usize::MAX,
    ensures
        tokens_ordered(
            encode_utf8(text),
            lex(encode_utf8(text)),
            0,
            encode_utf8(text).len() as int,
        ),
{
    let src = encode_utf8(text);
    encode_utf8_valid_utf8(text);
    is_char_boundary_start_end_of_seq(src);
    assert(cursor_ok(src, 0));
    lemma_lex_from_ordered(src, 0, true);
}

/// What follows `if` is a condition and a body, then `n` times `elseif`
/// with a condition and a body, then `else` with a body and `endif`, and
/// each of these parts parses.
pub open spec fn else_if_chain(inp: Input, st: State, n: nat) -> bool
    decreases n,
{
    let r1 = expression(inp, st);
    let st1 = st.after(r1);
    let r2 = expect_end_of_statement(inp, st1);
    let st2 = st1.after(r2);
    let r3 = block(inp, st2, TokenType::EndIf, TokenType::Else, TokenType::ElseIf);
    let st3 = st2.after(r3);
    let kind = peek(inp, st3).token_type;
    let st4 = advance(inp, st3);
    &&& r1.value is Some
    &&& r2.value is Some
    &&& if n == 0 {
        let r4 = expect_end_of_statement(inp, st4);
        &&& kind == TokenType::Else
        &&& r4.value is Some
        &&& statements_until(inp, st4.after(r4), TokenType::EndIf).value is Some
    } else {
        kind == TokenType::ElseIf && else_if_chain(inp, st4, (n - 1) as nat)
    }
}

/// The number of `elseif` parts of an `if` statement.
pub open spec fn else_if_depth(m: IfModel) -> nat
    decreases m,
{
    match m.else_cond {
        ElseModel::ElseIf(inner) => 1 + else_if_depth(*inner),
        _ => 0,
    }
}

/// What the last `elseif` part of an `if` statement, or the statement
/// itself where it has none, holds in place of an `else`.
pub open spec fn last_else(m: IfModel) -> ElseModel
    decreases m,
{
    match m.else_cond {
        ElseModel::ElseIf(inner) => last_else(*inner),
        other => other,
    }
}

/// An `if` with `n` `elseif` parts and an `else` parses into a chain of
/// `ElseIf` of depth `n` that ends in an `Else`.
pub proof fn else_if_chain_nests(inp: Input, st: State, n: nat)
    requires
        else_if_chain(inp, st, n),
    ensures
        if_statement(inp, st).value is Some,
        else_if_depth(if_statement(inp, st).value->0) == n,
        last_else(if_statement(inp, st).value->0) is Else,
    decreases n,
{
    reveal(if_statement);
    reveal(expression);
    reveal(block);
    reveal(statements_until);
    if n > 0 {
        let r1 = expression(inp, st);
        let st1 = st.after(r1);
        let r2 = expect_end_of_statement(inp, st1);
        let st2 = st1.after(r2);
        let r3 = block(inp, st2, TokenType::EndIf, TokenType::Else, TokenType::ElseIf);
        let st3 = st2.after(r3);
        let st4 = advance(inp, st3);
        else_if_chain_nests(inp, st4, (n - 1) as nat);
    }
}

/// The kind of the token at `i`, or `Eof` where there is none.
pub open spec fn kind_at(inp: Input, i: int) -> TokenType {
    if 0 <= i < inp.tokens.len() {
        inp.tokens[i].token_type
    } else {
        TokenType::Eof
    }
}

/// The tokens from `pos` on are those of what follows `if` in a chain:
/// an identifier and a line break, then `n` times `elseif`, an identifier
/// and a line break, then `else`, a line break, `endif` and the end of
/// the statement.
pub open spec fn chain_tokens(inp: Input, pos: int, n: nat) -> bool
    decreases n,
{
    &&& kind_at(inp, pos) == TokenType::Ident
    &&& kind_at(inp, pos + 1) == TokenType::NewLine
    &&& if n == 0 {
        &&& kind_at(inp, pos + 2) == TokenType::Else
        &&& kind_at(inp, pos + 3) == TokenType::NewLine
        &&& kind_at(inp, pos + 4) == TokenType::EndIf
        &&& ends_statement(kind_at(inp, pos + 5))
    } else {
        kind_at(inp, pos + 2) == TokenType::ElseIf && chain_tokens(inp, pos + 3, (n - 1) as nat)
    }
}

/// The `if` statement `m` is the chain of depth `n` whose conditions are
/// the identifiers at `pos`, `pos + 3` and so on: its bodies are empty,
/// each `elseif` part is nested in the one before it, and the last holds
/// the `else`.
pub open spec fn chain_of(inp: Input, pos: int, m: IfModel, n: nat) -> bool
    decreases n,
{
    &&& m.condition.kind == ExprKindModel::Identifier {
        name: text_of(
            inp.src,
            inp.tokens[pos].location.start as int,
            inp.tokens[pos].location.end as int,
        ),
        name_location: inp.tokens[pos].location,
    }
    &&& m.then_branch == Seq::<StmtModel>::empty()
    &&& if n == 0 {
        m.else_cond == ElseModel::Else(Seq::<StmtModel>::empty())
    } else {
        m.else_cond matches ElseModel::ElseIf(inner) && chain_of(
            inp,
            pos + 3,
            *inner,
            (n - 1) as nat,
        )
    }
}

/// The node of the identifier at the state `st`.
pub open spec fn identifier_node(inp: Input, st: State) -> ExprModel {
    let t = inp.tokens[st.pos as int];
    expr_node(
        advance(inp, st),
        t.location.start,
        ExprKindModel::Identifier {
            name: text_of(inp.src, t.location.start as int, t.location.end as int),
            name_location: t.location,
        },
    )
}

/// An identifier before a line break is an identifier expression of one token.
proof fn identifier_alone(inp: Input, st: State)
    requires
        kind_at(inp, st.pos as int) == TokenType::Ident,
        kind_at(inp, st.pos as int + 1) == TokenType::NewLine,
    ensures
        ident_expression(inp, st) == advance(inp, st).numbered().done(
            st,
            Some(identifier_node(inp, st)),
        ),
{
    reveal(ident_expression);
    reveal(ident_rest);
    let st1 = advance(inp, st);
    assert(st1.pos == st.pos + 1);
    assert(peek(inp, st1.numbered()).token_type == TokenType::NewLine);
    assert(ident_rest(
        inp,
        st1.numbered(),
        inp.tokens[st.pos as int].location.start,
        identifier_node(inp, st),
    ) == st1.numbered().done(st1.numbered(), Some(identifier_node(inp, st))));
}

/// An identifier before a line break is an expression of one token.
proof fn identifier_before_line_break(inp: Input, st: State)
    requires
        kind_at(inp, st.pos as int) == TokenType::Ident,
        kind_at(inp, st.pos as int + 1) == TokenType::NewLine,
    ensures
        expression(inp, st) == advance(inp, st).numbered().done(
            st,
            Some(identifier_node(inp, st)),
        ),
        expression(inp, st).used == 1,
        expression(inp, st).errors == st.errors,
{
    identifier_alone(inp, st);
    let e = identifier_node(inp, st);
    let st1 = advance(inp, st).numbered();
    assert(st1.pos == st.pos + 1);
    assert(prefix(inp, st) == ident_expression(inp, st)) by {
        reveal(prefix);
        reveal(ident_expression);
    }
    assert(infix_rest(inp, st1, e) == st1.done(st1, Some(e))) by {
        reveal(infix_rest);
        assert(peek(inp, st1).token_type == TokenType::NewLine);
    }
    assert(expression(inp, st) == st1.done(st, Some(e))) by {
        reveal(expression);
        reveal(prefix);
        reveal(infix_rest);
        assert(st.after(prefix(inp, st)) == st1);
    }
}

/// For every `n`, the tokens of an `if` with `n` `elseif` parts and an
/// `else` parse, without an error, into the chain of depth `n`: each
/// `elseif` part is nested in the part before it, with the identifier of
/// its place as its condition, and the last part ends in the `else`.
#[verifier::rlimit(50)]
pub proof fn chain_tokens_nest(inp: Input, st: State, n: nat)
    requires
        chain_tokens(inp, st.pos as int, n),
    ensures
        if_statement(inp, st).value matches Some(m) && chain_of(inp, st.pos as int, m, n)
            && else_if_depth(m) == n && last_else(m) is Else,
        if_statement(inp, st).errors == st.errors,
        if_statement(inp, st).used >= 3 * n + 5,
    decreases n,
{
    reveal(if_statement);
    reveal(expression);
    reveal(block);
    reveal(statements_until);
    identifier_before_line_break(inp, st);
    let r1 = expression(inp, st);
    let st1 = st.after(r1);
    let r2 = expect_end_of_statement(inp, st1);
    let st2 = st1.after(r2);
    assert(st2.pos == st.pos + 2);
    let r3 = block(inp, st2, TokenType::EndIf, TokenType::Else, TokenType::ElseIf);
    let st3 = st2.after(r3);
    assert(st3.pos == st.pos + 2);
    let st4 = advance(inp, st3);
    assert(st4.pos == st.pos + 3);
    if n > 0 {
        chain_tokens_nest(inp, st4, (n - 1) as nat);
    } else {
        let r4 = expect_end_of_statement(inp, st4);
        let st5 = st4.after(r4);
        assert(st5.pos == st.pos + 4);
        let r5 = statements_until(inp, st5, TokenType::EndIf);
        assert(r5.value == Some(Seq::<StmtModel>::empty()));
    }
}

/// No statement from the state `st` on has a body: none starts with
/// `try`, `if`, `function`, `for` or `while`.
pub open spec fn plain(inp: Input, st: State) -> bool
    decreases left(inp, st),
{
    if st.pos < inp.tokens.len() {
        let t = inp.tokens[st.pos as int];
        let st1 = advance(inp, st);
        !opens_block(t.token_type) && plain(inp, st1.after(statement_of(inp, t, st1)))
    } else {
        true
    }
}

/// The number of statements from the state `st` on that do not parse. A
/// line break or `|` where a statement would start is no statement.
pub open spec fn failures(inp: Input, st: State) -> nat
    decreases left(inp, st),
{
    if st.pos < inp.tokens.len() {
        let t = inp.tokens[st.pos as int];
        let st1 = advance(inp, st);
        let r = statement_of(inp, t, st1);
        failures(inp, st1.after(r)) + if r.value is None && t.token_type != TokenType::NewLine
            && t.token_type != TokenType::Pipe {
            1nat
        } else {
            0nat
        }
    } else {
        0
    }
}

/// The number of statements from the state `st` on that parse.
pub open spec fn successes(inp: Input, st: State) -> nat
    decreases left(inp, st),
{
    if st.pos < inp.tokens.len() {
        let t = inp.tokens[st.pos as int];
        let st1 = advance(inp, st);
        let r = statement_of(inp, t, st1);
        successes(inp, st1.after(r)) + if r.value is Some {
            1nat
        } else {
            0nat
        }
    } else {
        0
    }
}

/// In a text whose statements have no bodies, every statement that does
/// not parse costs exactly one error, whatever stands before and after it,
/// and every statement that parses is in the program.
pub proof fn one_error_for_each_failure(inp: Input, st: State)
    requires
        plain(inp, st),
    ensures
        program(inp, st).errors.len() == st.errors.len() + failures(inp, st),
        program(inp, st).value is Some,
        program(inp, st).value->0.len() == successes(inp, st),
    decreases left(inp, st),
{
    reveal(program);
    reveal(statement_of);
    if st.pos < inp.tokens.len() {
        let t = inp.tokens[st.pos as int];
        let st1 = advance(inp, st);
        let r = statement_of(inp, t, st1);
        if t.token_type != TokenType::NewLine && t.token_type != TokenType::Pipe {
            statement_costs_one(inp, t, st1);
        }
        one_error_for_each_failure(inp, st1.after(r));
    }
}

/// What is parsed where a whole text is: the text and its tokens.
pub open spec fn input_of(text: Seq<char>) -> Input {
    Input { src: encode_utf8(text), tokens: lex(encode_utf8(text)) }
}

/// The statements of a text, whatever errors it holds.
pub open spec fn statements_of(text: Seq<char>) -> Seq<StmtModel> {
    program(input_of(text), initial()).value->0
}

/// The tokens of a text are in the order that nesting asks for.
proof fn tokens_are_in_order(text: Seq<char>)
    requires
        encode_utf8(text).len() <= usize::MAX,
    ensures
        in_order(input_of(text)),
        behind(input_of(text), initial()),
{
    tokens_in_order(text);
    let src = encode_utf8(text);
    let tokens = lex(src);
    assert forall|i: int| 0 <= i < tokens.len() implies (#[trigger] tokens[i]).location.start
        <= tokens[i].location.end by {
        assert(crate::scanner::token_within(src, tokens[i], 0, src.len() as int));
    }
}

/// In the program of any text, every statement's span runs from its first
/// token to the last that was read for it and holds the spans of its
/// parts, which are well nested in turn, down to the last expression.
pub proof fn statements_are_well_nested(text: Seq<char>)
    requires
        encode_utf8(text).len() <= usize::MAX,
    ensures
        forall|i: int|
            0 <= i < statements_of(text).len() ==> stmt_nested(#[trigger] statements_of(text)[i]),
{
    tokens_are_in_order(text);
    program_nests(input_of(text), initial());
}

/// In the program of any text, the statements are numbered from 1 on in
/// their order: each has a lower number than the next.
pub proof fn statements_are_numbered_in_order(text: Seq<char>)
    ensures
        forall|i: int, j: int|
            0 <= i < j < statements_of(text).len() ==> (#[trigger] statements_of(text)[i]).id < (
            #[trigger] statements_of(text)[j]).id,
        forall|i: int|
            0 <= i < statements_of(text).len() ==> 1 <= (#[trigger] statements_of(text)[i]).id,
{
    grows_program(input_of(text), initial());
}

} // verus!
