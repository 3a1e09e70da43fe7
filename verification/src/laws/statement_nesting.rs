//! The span of a statement holds the spans of its parts.
use crate::ast_model::{ElseModel, IfModel, StmtKindModel, StmtModel};
use crate::grammar::{
    advance, assigns, block, break_statement, call_statement, ends_statement, execute_args,
    execute_statement, expect_end_of_statement, expect_identifier, expect_token, expression,
    for_statement, function_statement, if_statement, left, let_statement, list, loop_variable, peek,
    program, return_statement, set_statement, statement_of, statement_of_cases, statements_until,
    try_statement, while_statement, with_error, Input, ListKind, Parsed, State,
};
use crate::lexer::{Token, TokenType};
use crate::laws::nesting::{
    advance_moves_on, behind, expect_identifier_moves_on, expect_token_moves_on, expression_nests,
    in_order, inside, list_nests, moved_on, recover_moves_on, within,
};
use vstd::prelude::*;

verus! {

/// The parts of a statement's payload are well nested and lie within `lo..hi`.
pub open spec fn kind_inside(k: StmtKindModel, lo: usize, hi: usize) -> bool
    decreases k,
{
    match k {
        StmtKindModel::Let { var, operator: _, value } => inside(var, lo, hi) && inside(
            value,
            lo,
            hi,
        ),
        StmtKindModel::Call { name: _, arguments } => forall|i: int|
            0 <= i < arguments.len() ==> inside(#[trigger] arguments[i], lo, hi),
        StmtKindModel::Execute { arguments } => forall|i: int|
            0 <= i < arguments.len() ==> inside(#[trigger] arguments[i], lo, hi),
        StmtKindModel::Return { value } => value matches Some(e) ==> inside(e, lo, hi),
        StmtKindModel::If(m) => if_inside(m, lo, hi),
        StmtKindModel::While { condition, body } => {
            &&& inside(condition, lo, hi)
            &&& forall|i: int|
                0 <= i < body.len() ==> within((#[trigger] body[i]).span, lo, hi)
                    && body[i].span.start.0 <= body[i].span.end.0 && kind_inside(
                    body[i].kind,
                    body[i].span.start.0,
                    body[i].span.end.0,
                )
        },
        StmtKindModel::Function { name: _, arguments: _, body, overwrite: _, abort: _ } => forall|
            i: int,
        |
            0 <= i < body.len() ==> within((#[trigger] body[i]).span, lo, hi)
                && body[i].span.start.0 <= body[i].span.end.0 && kind_inside(
                body[i].kind,
                body[i].span.start.0,
                body[i].span.end.0,
            ),
        StmtKindModel::For { loop_variable: _, range, body } => {
            &&& inside(range, lo, hi)
            &&& forall|i: int|
                0 <= i < body.len() ==> within((#[trigger] body[i]).span, lo, hi)
                    && body[i].span.start.0 <= body[i].span.end.0 && kind_inside(
                    body[i].kind,
                    body[i].span.start.0,
                    body[i].span.end.0,
                )
        },
        StmtKindModel::Try { body, finally } => {
            &&& forall|i: int|
                0 <= i < body.len() ==> within((#[trigger] body[i]).span, lo, hi)
                    && body[i].span.start.0 <= body[i].span.end.0 && kind_inside(
                    body[i].kind,
                    body[i].span.start.0,
                    body[i].span.end.0,
                )
            &&& finally matches Some(f) ==> forall|i: int|
                0 <= i < f.len() ==> within((#[trigger] f[i]).span, lo, hi) && f[i].span.start.0
                    <= f[i].span.end.0 && kind_inside(
                    f[i].kind,
                    f[i].span.start.0,
                    f[i].span.end.0,
                )
        },
        StmtKindModel::SetOption { .. } => true,
        StmtKindModel::Break => true,
        StmtKindModel::Empty => true,
    }
}

/// The parts of an `if` statement, those of its `elseif` parts with them,
/// are well nested and lie within `lo..hi`.
pub open spec fn if_inside(m: IfModel, lo: usize, hi: usize) -> bool
    decreases m,
{
    &&& inside(m.condition, lo, hi)
    &&& forall|i: int|
        0 <= i < m.then_branch.len() ==> within((#[trigger] m.then_branch[i]).span, lo, hi)
            && m.then_branch[i].span.start.0 <= m.then_branch[i].span.end.0 && kind_inside(
            m.then_branch[i].kind,
            m.then_branch[i].span.start.0,
            m.then_branch[i].span.end.0,
        )
    &&& match m.else_cond {
        ElseModel::NoElse => true,
        ElseModel::Else(stmts) => forall|i: int|
            0 <= i < stmts.len() ==> within((#[trigger] stmts[i]).span, lo, hi)
                && stmts[i].span.start.0 <= stmts[i].span.end.0 && kind_inside(
                stmts[i].kind,
                stmts[i].span.start.0,
                stmts[i].span.end.0,
            ),
        ElseModel::ElseIf(inner) => if_inside(*inner, lo, hi),
    }
}

/// The span of a statement does not end before it starts, and holds the
/// spans of its parts, which are well nested in turn.
pub open spec fn stmt_nested(s: StmtModel) -> bool {
    s.span.start.0 <= s.span.end.0 && kind_inside(s.kind, s.span.start.0, s.span.end.0)
}

/// The statements are well nested and lie within `lo..hi`.
pub open spec fn stmts_inside(stmts: Seq<StmtModel>, lo: usize, hi: usize) -> bool {
    forall|i: int|
        0 <= i < stmts.len() ==> within((#[trigger] stmts[i]).span, lo, hi) && stmt_nested(
            stmts[i],
        )
}

/// The payload that the step `r` gave, if it gave one, has its parts well
/// nested between `lo` and the last token that was read.
pub open spec fn payload_nests(inp: Input, st: State, r: Parsed<StmtKindModel>, lo: usize) -> bool {
    &&& moved_on(inp, st, r)
    &&& r.value matches Some(k) ==> kind_inside(k, lo, st.after(r).last_pos.0)
}

pub proof fn expect_end_of_statement_moves_on(inp: Input, st: State)
    requires
        in_order(inp),
        behind(inp, st),
    ensures
        moved_on(inp, st, expect_end_of_statement(inp, st)),
{
    advance_moves_on(inp, st);
    recover_moves_on(inp, with_error(inp, st, "new line"@, peek(inp, st)));
}

pub proof fn let_statement_nests(inp: Input, st: State, lo: usize)
    requires
        in_order(inp),
        behind(inp, st),
        lo <= st.last_pos.0,
    ensures
        payload_nests(inp, st, let_statement(inp, st), lo),
{
    reveal(let_statement);
    reveal(expression);
    expression_nests(inp, st);
    let r1 = expression(inp, st);
    let st1 = st.after(r1);
    if r1.value is Some {
        let operator = peek(inp, st1);
        if assigns(operator.token_type) {
            let st2 = advance(inp, st1);
            advance_moves_on(inp, st1);
            expression_nests(inp, st2);
            let r2 = expression(inp, st2);
            if r2.value is Some {
                expect_end_of_statement_moves_on(inp, st2.after(r2));
            }
        } else {
            recover_moves_on(inp, with_error(inp, st1, "assign operator"@, operator));
        }
    }
}

pub proof fn break_statement_nests(inp: Input, st: State, lo: usize)
    requires
        in_order(inp),
        behind(inp, st),
    ensures
        payload_nests(inp, st, break_statement(inp, st), lo),
{
    reveal(break_statement);
    expect_end_of_statement_moves_on(inp, st);
}

pub proof fn call_statement_nests(inp: Input, st: State, lo: usize)
    requires
        in_order(inp),
        behind(inp, st),
        lo <= st.last_pos.0,
    ensures
        payload_nests(inp, st, call_statement(inp, st), lo),
{
    reveal(call_statement);
    reveal(list);
    expect_identifier_moves_on(inp, st);
    let r1 = expect_identifier(inp, st);
    let st1 = st.after(r1);
    if r1.value is Some {
        expect_token_moves_on(inp, st1, TokenType::LeftParenthesis);
        let r2 = expect_token(inp, st1, TokenType::LeftParenthesis);
        let st2 = st1.after(r2);
        if r2.value is Some {
            list_nests(inp, st2, ListKind::Expressions, TokenType::RightParenthesis, lo);
            let r3 = list(inp, st2, ListKind::Expressions, TokenType::RightParenthesis);
            if r3.value is Some {
                expect_end_of_statement_moves_on(inp, st2.after(r3));
            }
        }
    }
}

pub proof fn execute_args_nests(inp: Input, st: State, lo: usize)
    requires
        in_order(inp),
        behind(inp, st),
        lo <= st.last_pos.0,
    ensures
        moved_on(inp, st, execute_args(inp, st)),
        execute_args(inp, st).value matches Some(args) ==> forall|i: int|
            0 <= i < args.len() ==> inside(
                #[trigger] args[i],
                lo,
                st.after(execute_args(inp, st)).last_pos.0,
            ),
    decreases left(inp, st), 11nat,
{
    reveal(execute_args);
    reveal(expression);
    if !ends_statement(peek(inp, st).token_type) {
        expression_nests(inp, st);
        crate::laws::consumption::expression_consumes(inp, st);
        let r = expression(inp, st);
        let st1 = st.after(r);
        if r.value is Some {
            execute_args_nests(inp, st1, lo);
            let r2 = execute_args(inp, st1);
            if r2.value is Some {
                let e = r.value->0;
                let es = r2.value->0;
                let all = seq![e] + es;
                let hi = st1.after(r2).last_pos.0;
                assert forall|i: int| 0 <= i < all.len() implies inside(
                    #[trigger] all[i],
                    lo,
                    hi,
                ) by {
                    if i > 0 {
                        assert(all[i] == es[i - 1]);
                    }
                }
            }
        }
    }
}

pub proof fn execute_statement_nests(inp: Input, st: State, lo: usize)
    requires
        in_order(inp),
        behind(inp, st),
        lo <= st.last_pos.0,
    ensures
        payload_nests(inp, st, execute_statement(inp, st), lo),
{
    reveal(execute_statement);
    reveal(execute_args);
    execute_args_nests(inp, st, lo);
}

pub proof fn return_statement_nests(inp: Input, st: State, lo: usize)
    requires
        in_order(inp),
        behind(inp, st),
        lo <= st.last_pos.0,
    ensures
        payload_nests(inp, st, return_statement(inp, st), lo),
{
    reveal(return_statement);
    reveal(expression);
    advance_moves_on(inp, st);
    if !ends_statement(peek(inp, st).token_type) {
        expression_nests(inp, st);
        let r1 = expression(inp, st);
        if r1.value is Some {
            expect_end_of_statement_moves_on(inp, st.after(r1));
        }
    }
}

pub proof fn set_statement_nests(inp: Input, st: State, lo: usize)
    requires
        in_order(inp),
        behind(inp, st),
    ensures
        payload_nests(inp, st, set_statement(inp, st), lo),
{
    reveal(set_statement);
    expect_identifier_moves_on(inp, st);
    let r1 = expect_identifier(inp, st);
    let st1 = st.after(r1);
    if r1.value is Some {
        if peek(inp, st1).token_type != TokenType::Assign {
            expect_end_of_statement_moves_on(inp, st1);
        } else {
            advance_moves_on(inp, st1);
            expect_identifier_moves_on(inp, advance(inp, st1));
        }
    }
}

#[verifier::rlimit(50)]
pub proof fn try_statement_nests(inp: Input, st: State, lo: usize)
    requires
        in_order(inp),
        behind(inp, st),
        lo <= st.last_pos.0,
    ensures
        payload_nests(inp, st, try_statement(inp, st), lo),
    decreases left(inp, st), 14nat,
{
    reveal(try_statement);
    reveal(block);
    reveal(statements_until);
    expect_end_of_statement_moves_on(inp, st);
    let r1 = expect_end_of_statement(inp, st);
    let st1 = st.after(r1);
    if r1.value is Some {
        block_nests(inp, st1, TokenType::EndTry, TokenType::Finally, TokenType::Finally, lo);
        let r2 = block(inp, st1, TokenType::EndTry, TokenType::Finally, TokenType::Finally);
        let st2 = st1.after(r2);
        let kind = peek(inp, st2).token_type;
        let st3 = advance(inp, st2);
        advance_moves_on(inp, st2);
        if kind == TokenType::EndTry {
            expect_end_of_statement_moves_on(inp, st3);
        } else if kind == TokenType::Finally {
            expect_end_of_statement_moves_on(inp, st3);
            let r3 = expect_end_of_statement(inp, st3);
            if r3.value is Some {
                statements_until_nests(inp, st3.after(r3), TokenType::EndTry, lo);
            }
        } else {
            expect_token_moves_on(inp, st2, TokenType::EndTry);
        }
    }
}

#[verifier::rlimit(50)]
pub proof fn if_statement_nests(inp: Input, st: State, lo: usize)
    requires
        in_order(inp),
        behind(inp, st),
        lo <= st.last_pos.0,
    ensures
        moved_on(inp, st, if_statement(inp, st)),
        if_statement(inp, st).value matches Some(m) ==> if_inside(
            m,
            lo,
            st.after(if_statement(inp, st)).last_pos.0,
        ),
    decreases left(inp, st), 14nat,
{
    reveal(if_statement);
    reveal(expression);
    reveal(block);
    reveal(statements_until);
    expression_nests(inp, st);
    let r1 = expression(inp, st);
    let st1 = st.after(r1);
    if r1.value is Some {
        expect_end_of_statement_moves_on(inp, st1);
        let r2 = expect_end_of_statement(inp, st1);
        let st2 = st1.after(r2);
        if r2.value is Some {
            block_nests(inp, st2, TokenType::EndIf, TokenType::Else, TokenType::ElseIf, lo);
            let r3 = block(inp, st2, TokenType::EndIf, TokenType::Else, TokenType::ElseIf);
            let st3 = st2.after(r3);
            let kind = peek(inp, st3).token_type;
            let st4 = advance(inp, st3);
            advance_moves_on(inp, st3);
            if kind == TokenType::EndIf {
                expect_end_of_statement_moves_on(inp, st4);
            } else if kind == TokenType::Else {
                expect_end_of_statement_moves_on(inp, st4);
                let r4 = expect_end_of_statement(inp, st4);
                if r4.value is Some {
                    statements_until_nests(inp, st4.after(r4), TokenType::EndIf, lo);
                }
            } else if kind == TokenType::ElseIf {
                if_statement_nests(inp, st4, lo);
            }
        }
    }
}

#[verifier::rlimit(50)]
pub proof fn function_statement_nests(inp: Input, st: State, lo: usize)
    requires
        in_order(inp),
        behind(inp, st),
        lo <= st.last_pos.0,
    ensures
        payload_nests(inp, st, function_statement(inp, st), lo),
    decreases left(inp, st), 14nat,
{
    reveal(function_statement);
    reveal(list);
    reveal(statements_until);
    advance_moves_on(inp, st);
    let st0 = if peek(inp, st).token_type == TokenType::Bang {
        advance(inp, st)
    } else {
        st
    };
    expect_identifier_moves_on(inp, st0);
    let r1 = expect_identifier(inp, st0);
    let st1 = st0.after(r1);
    if r1.value is Some {
        expect_token_moves_on(inp, st1, TokenType::LeftParenthesis);
        let r2 = expect_token(inp, st1, TokenType::LeftParenthesis);
        let st2 = st1.after(r2);
        if r2.value is Some {
            list_nests(inp, st2, ListKind::Names, TokenType::RightParenthesis, lo);
            let r3 = list(inp, st2, ListKind::Names, TokenType::RightParenthesis);
            let st3 = st2.after(r3);
            if r3.value is Some {
                advance_moves_on(inp, st3);
                let st4 = if peek(inp, st3).token_type == TokenType::Abort {
                    advance(inp, st3)
                } else {
                    st3
                };
                expect_end_of_statement_moves_on(inp, st4);
                let r4 = expect_end_of_statement(inp, st4);
                if r4.value is Some {
                    statements_until_nests(inp, st4.after(r4), TokenType::EndFunction, lo);
                }
            }
        }
    }
}

pub proof fn loop_variable_moves_on(inp: Input, st: State)
    requires
        in_order(inp),
        behind(inp, st),
    ensures
        moved_on(inp, st, loop_variable(inp, st)),
{
    reveal(loop_variable);
    reveal(list);
    let t = peek(inp, st);
    advance_moves_on(inp, st);
    if t.token_type == TokenType::LeftBracket {
        list_nests(inp, advance(inp, st), ListKind::Names, TokenType::RightBracket, 0);
    } else if t.token_type == TokenType::Ident {
        expect_identifier_moves_on(inp, st);
    } else {
        recover_moves_on(inp, with_error(inp, st, "`(` or identifier"@, t));
    }
}

#[verifier::rlimit(50)]
pub proof fn for_statement_nests(inp: Input, st: State, lo: usize)
    requires
        in_order(inp),
        behind(inp, st),
        lo <= st.last_pos.0,
    ensures
        payload_nests(inp, st, for_statement(inp, st), lo),
    decreases left(inp, st), 14nat,
{
    reveal(for_statement);
    reveal(loop_variable);
    reveal(expression);
    reveal(statements_until);
    loop_variable_moves_on(inp, st);
    let r1 = loop_variable(inp, st);
    let st1 = st.after(r1);
    if r1.value is Some {
        expect_token_moves_on(inp, st1, TokenType::In);
        let r2 = expect_token(inp, st1, TokenType::In);
        let st2 = st1.after(r2);
        if r2.value is Some {
            expression_nests(inp, st2);
            let r3 = expression(inp, st2);
            let st3 = st2.after(r3);
            if r3.value is Some {
                expect_end_of_statement_moves_on(inp, st3);
                let r4 = expect_end_of_statement(inp, st3);
                if r4.value is Some {
                    statements_until_nests(inp, st3.after(r4), TokenType::EndFor, lo);
                }
            }
        }
    }
}

#[verifier::rlimit(50)]
pub proof fn while_statement_nests(inp: Input, st: State, lo: usize)
    requires
        in_order(inp),
        behind(inp, st),
        lo <= st.last_pos.0,
    ensures
        payload_nests(inp, st, while_statement(inp, st), lo),
    decreases left(inp, st), 14nat,
{
    reveal(while_statement);
    reveal(expression);
    reveal(statements_until);
    expression_nests(inp, st);
    let r1 = expression(inp, st);
    let st1 = st.after(r1);
    if r1.value is Some {
        expect_end_of_statement_moves_on(inp, st1);
        let r2 = expect_end_of_statement(inp, st1);
        if r2.value is Some {
            statements_until_nests(inp, st1.after(r2), TokenType::EndWhile, lo);
        }
    }
}

/// A statement that parses is well nested: its span runs from its first
/// token to the last that was read for it, and holds the spans of its
/// parts.
#[verifier::rlimit(50)]
pub proof fn statement_of_nests(inp: Input, t: Token, st: State)
    requires
        in_order(inp),
        behind(inp, st),
        t.location.start <= st.last_pos.0,
    ensures
        moved_on(inp, st, statement_of(inp, t, st)),
        statement_of(inp, t, st).value matches Some(s) ==> stmt_nested(s) && s.span.start.0
            == t.location.start && s.span.end == st.after(statement_of(inp, t, st)).last_pos,
    decreases left(inp, st), 15nat,
{
    statement_of_cases(inp, t, st);
    let lo = t.location.start;
    let kind = t.token_type;
    if kind == TokenType::Let {
        let_statement_nests(inp, st, lo);
    } else if kind == TokenType::Break {
        break_statement_nests(inp, st, lo);
    } else if kind == TokenType::Call {
        call_statement_nests(inp, st, lo);
    } else if kind == TokenType::Return {
        return_statement_nests(inp, st, lo);
    } else if kind == TokenType::Try {
        try_statement_nests(inp, st, lo);
    } else if kind == TokenType::SetOption {
        set_statement_nests(inp, st, lo);
    } else if kind == TokenType::Execute {
        execute_statement_nests(inp, st, lo);
    } else if kind == TokenType::If {
        if_statement_nests(inp, st, lo);
    } else if kind == TokenType::Function {
        function_statement_nests(inp, st, lo);
    } else if kind == TokenType::For {
        for_statement_nests(inp, st, lo);
    } else if kind == TokenType::While {
        while_statement_nests(inp, st, lo);
    } else if kind == TokenType::NewLine || kind == TokenType::Pipe {
    } else {
        recover_moves_on(inp, with_error(inp, st, "keyword"@, t));
    }
}

#[verifier::rlimit(50)]
pub proof fn block_nests(
    inp: Input,
    st: State,
    a: TokenType,
    b: TokenType,
    c: TokenType,
    lo: usize,
)
    requires
        in_order(inp),
        behind(inp, st),
        lo <= st.last_pos.0,
    ensures
        moved_on(inp, st, block(inp, st, a, b, c)),
        block(inp, st, a, b, c).value is Some,
        stmts_inside(
            block(inp, st, a, b, c).value->0,
            lo,
            st.after(block(inp, st, a, b, c)).last_pos.0,
        ),
    decreases left(inp, st), 12nat,
{
    reveal(block);
    reveal(statement_of);
    let t = peek(inp, st);
    let kind = t.token_type;
    if !(kind == TokenType::Eof || kind == a || kind == b || kind == c) {
        let st1 = advance(inp, st);
        advance_moves_on(inp, st);
        statement_of_nests(inp, t, st1);
        let r = statement_of(inp, t, st1);
        let st2 = st1.after(r);
        block_nests(inp, st2, a, b, c, lo);
        let rest = block(inp, st2, a, b, c);
        let hi = st2.after(rest).last_pos.0;
        let others = rest.value->0;
        match r.value {
            Some(s) => {
                let all = seq![s] + others;
                assert forall|i: int| 0 <= i < all.len() implies within(
                    (#[trigger] all[i]).span,
                    lo,
                    hi,
                ) && stmt_nested(all[i]) by {
                    if i > 0 {
                        assert(all[i] == others[i - 1]);
                    }
                }
            },
            None => {},
        }
    }
}

pub proof fn statements_until_nests(inp: Input, st: State, end: TokenType, lo: usize)
    requires
        in_order(inp),
        behind(inp, st),
        lo <= st.last_pos.0,
    ensures
        moved_on(inp, st, statements_until(inp, st, end)),
        statements_until(inp, st, end).value matches Some(stmts) ==> stmts_inside(
            stmts,
            lo,
            st.after(statements_until(inp, st, end)).last_pos.0,
        ),
    decreases left(inp, st), 13nat,
{
    reveal(statements_until);
    reveal(block);
    block_nests(inp, st, end, end, end, lo);
    let r = block(inp, st, end, end, end);
    let st1 = st.after(r);
    expect_token_moves_on(inp, st1, end);
    let r1 = expect_token(inp, st1, end);
    if r1.value is Some {
        expect_end_of_statement_moves_on(inp, st1.after(r1));
    }
}

/// Every statement of a program is well nested: its span runs from its
/// first token to the last that was read for it, and holds the spans of
/// its parts, each of which is well nested in turn.
#[verifier::rlimit(50)]
pub proof fn program_nests(inp: Input, st: State)
    requires
        in_order(inp),
        behind(inp, st),
    ensures
        moved_on(inp, st, program(inp, st)),
        program(inp, st).value is Some,
        stmts_inside(
            program(inp, st).value->0,
            st.last_pos.0,
            st.after(program(inp, st)).last_pos.0,
        ),
    decreases left(inp, st), 16nat,
{
    reveal(program);
    reveal(statement_of);
    if st.pos < inp.tokens.len() {
        let lo = st.last_pos.0;
        let t = inp.tokens[st.pos as int];
        let st1 = advance(inp, st);
        advance_moves_on(inp, st);
        statement_of_nests(inp, t, st1);
        let r = statement_of(inp, t, st1);
        let st2 = st1.after(r);
        program_nests(inp, st2);
        let rest = program(inp, st2);
        let hi = st2.after(rest).last_pos.0;
        let others = rest.value->0;
        match r.value {
            Some(s) => {
                let all = seq![s] + others;
                assert forall|i: int| 0 <= i < all.len() implies within(
                    (#[trigger] all[i]).span,
                    lo,
                    hi,
                ) && stmt_nested(all[i]) by {
                    if i > 0 {
                        assert(all[i] == others[i - 1]);
                    }
                }
            },
            None => {},
        }
    }
}

} // verus!
