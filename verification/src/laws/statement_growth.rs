//! Parsing statements only ever adds to what a parser has recorded, and
//! the statements of a program are numbered in their order.
use crate::ast_model::StmtModel;
use crate::grammar::{
    advance, block, break_statement, call_statement, execute_args, execute_statement,
    expect_end_of_statement, expect_identifier, expect_token, expression, for_statement,
    function_statement, if_statement, left, let_statement, list, loop_variable, peek, program,
    recover, return_statement, set_statement, statement_of, statements_until, try_statement,
    while_statement, Input, ListKind, State,
};
use crate::laws::growth::{
    grows, grows_expect_end_of_statement, grows_expect_identifier, grows_expect_token,
    grows_expression, grows_list,
};
use crate::lexer::{Token, TokenType};
use vstd::prelude::*;

verus! {

pub proof fn grows_let_statement(inp: Input, st: State)
    ensures
        grows(st, st.after(let_statement(inp, st))),
    decreases left(inp, st), 14nat,
{
    reveal(let_statement);
    reveal(expression);
    reveal(recover);
    grows_expression(inp, st);
    let r1 = expression(inp, st);
    let st1 = st.after(r1);
    if r1.value is Some && crate::grammar::assigns(peek(inp, st1).token_type) {
        let st2 = advance(inp, st1);
        grows_expression(inp, st2);
        let r2 = expression(inp, st2);
        if r2.value is Some {
            grows_expect_end_of_statement(inp, st2.after(r2));
        }
    }
}

pub proof fn grows_break_statement(inp: Input, st: State)
    ensures
        grows(st, st.after(break_statement(inp, st))),
{
    reveal(break_statement);
    grows_expect_end_of_statement(inp, st);
}

pub proof fn grows_call_statement(inp: Input, st: State)
    ensures
        grows(st, st.after(call_statement(inp, st))),
    decreases left(inp, st), 14nat,
{
    reveal(call_statement);
    reveal(list);
    grows_expect_identifier(inp, st);
    let r1 = expect_identifier(inp, st);
    let st1 = st.after(r1);
    if r1.value is Some {
        grows_expect_token(inp, st1, TokenType::LeftParenthesis);
        let r2 = expect_token(inp, st1, TokenType::LeftParenthesis);
        let st2 = st1.after(r2);
        if r2.value is Some {
            grows_list(inp, st2, ListKind::Expressions, TokenType::RightParenthesis);
            let r3 = list(inp, st2, ListKind::Expressions, TokenType::RightParenthesis);
            if r3.value is Some {
                grows_expect_end_of_statement(inp, st2.after(r3));
            }
        }
    }
}

pub proof fn grows_execute_args(inp: Input, st: State)
    ensures
        grows(st, st.after(execute_args(inp, st))),
    decreases left(inp, st), 11nat,
{
    reveal(execute_args);
    reveal(expression);
    if !crate::grammar::ends_statement(peek(inp, st).token_type) {
        grows_expression(inp, st);
        crate::laws::consumption::expression_consumes(inp, st);
        let r = expression(inp, st);
        if r.value is Some {
            grows_execute_args(inp, st.after(r));
        }
    }
}

pub proof fn grows_execute_statement(inp: Input, st: State)
    ensures
        grows(st, st.after(execute_statement(inp, st))),
    decreases left(inp, st), 14nat,
{
    reveal(execute_statement);
    reveal(execute_args);
    grows_execute_args(inp, st);
}

pub proof fn grows_return_statement(inp: Input, st: State)
    ensures
        grows(st, st.after(return_statement(inp, st))),
    decreases left(inp, st), 14nat,
{
    reveal(return_statement);
    reveal(expression);
    if !crate::grammar::ends_statement(peek(inp, st).token_type) {
        grows_expression(inp, st);
        let r1 = expression(inp, st);
        if r1.value is Some {
            grows_expect_end_of_statement(inp, st.after(r1));
        }
    }
}

pub proof fn grows_set_statement(inp: Input, st: State)
    ensures
        grows(st, st.after(set_statement(inp, st))),
{
    reveal(set_statement);
    grows_expect_identifier(inp, st);
    let r1 = expect_identifier(inp, st);
    let st1 = st.after(r1);
    if r1.value is Some {
        if peek(inp, st1).token_type != TokenType::Assign {
            grows_expect_end_of_statement(inp, st1);
        } else {
            grows_expect_identifier(inp, advance(inp, st1));
        }
    }
}

pub proof fn grows_try_statement(inp: Input, st: State)
    ensures
        grows(st, st.after(try_statement(inp, st))),
    decreases left(inp, st), 14nat,
{
    reveal(try_statement);
    reveal(block);
    reveal(statements_until);
    grows_expect_end_of_statement(inp, st);
    let r1 = expect_end_of_statement(inp, st);
    let st1 = st.after(r1);
    if r1.value is Some {
        grows_block(inp, st1, TokenType::EndTry, TokenType::Finally, TokenType::Finally);
        let r2 = block(inp, st1, TokenType::EndTry, TokenType::Finally, TokenType::Finally);
        let st2 = st1.after(r2);
        let kind = peek(inp, st2).token_type;
        let st3 = advance(inp, st2);
        if kind == TokenType::EndTry {
            grows_expect_end_of_statement(inp, st3);
        } else if kind == TokenType::Finally {
            grows_expect_end_of_statement(inp, st3);
            let r3 = expect_end_of_statement(inp, st3);
            if r3.value is Some {
                grows_statements_until(inp, st3.after(r3), TokenType::EndTry);
            }
        } else {
            grows_expect_token(inp, st2, TokenType::EndTry);
        }
    }
}

pub proof fn grows_if_statement(inp: Input, st: State)
    ensures
        grows(st, st.after(if_statement(inp, st))),
    decreases left(inp, st), 14nat,
{
    reveal(if_statement);
    reveal(expression);
    reveal(block);
    reveal(statements_until);
    grows_expression(inp, st);
    let r1 = expression(inp, st);
    let st1 = st.after(r1);
    if r1.value is Some {
        grows_expect_end_of_statement(inp, st1);
        let r2 = expect_end_of_statement(inp, st1);
        let st2 = st1.after(r2);
        if r2.value is Some {
            grows_block(inp, st2, TokenType::EndIf, TokenType::Else, TokenType::ElseIf);
            let r3 = block(inp, st2, TokenType::EndIf, TokenType::Else, TokenType::ElseIf);
            let st3 = st2.after(r3);
            let kind = peek(inp, st3).token_type;
            let st4 = advance(inp, st3);
            if kind == TokenType::EndIf {
                grows_expect_end_of_statement(inp, st4);
            } else if kind == TokenType::Else {
                grows_expect_end_of_statement(inp, st4);
                let r4 = expect_end_of_statement(inp, st4);
                if r4.value is Some {
                    grows_statements_until(inp, st4.after(r4), TokenType::EndIf);
                }
            } else if kind == TokenType::ElseIf {
                grows_if_statement(inp, st4);
            }
        }
    }
}

pub proof fn grows_function_statement(inp: Input, st: State)
    ensures
        grows(st, st.after(function_statement(inp, st))),
    decreases left(inp, st), 14nat,
{
    reveal(function_statement);
    reveal(list);
    reveal(statements_until);
    let st0 = if peek(inp, st).token_type == TokenType::Bang {
        advance(inp, st)
    } else {
        st
    };
    grows_expect_identifier(inp, st0);
    let r1 = expect_identifier(inp, st0);
    let st1 = st0.after(r1);
    if r1.value is Some {
        grows_expect_token(inp, st1, TokenType::LeftParenthesis);
        let r2 = expect_token(inp, st1, TokenType::LeftParenthesis);
        let st2 = st1.after(r2);
        if r2.value is Some {
            grows_list(inp, st2, ListKind::Names, TokenType::RightParenthesis);
            let r3 = list(inp, st2, ListKind::Names, TokenType::RightParenthesis);
            let st3 = st2.after(r3);
            if r3.value is Some {
                let st4 = if peek(inp, st3).token_type == TokenType::Abort {
                    advance(inp, st3)
                } else {
                    st3
                };
                grows_expect_end_of_statement(inp, st4);
                let r4 = expect_end_of_statement(inp, st4);
                if r4.value is Some {
                    grows_statements_until(inp, st4.after(r4), TokenType::EndFunction);
                }
            }
        }
    }
}

pub proof fn grows_loop_variable(inp: Input, st: State)
    ensures
        grows(st, st.after(loop_variable(inp, st))),
    decreases left(inp, st), 11nat,
{
    reveal(loop_variable);
    reveal(list);
    reveal(recover);
    let t = peek(inp, st);
    if t.token_type == TokenType::LeftBracket {
        grows_list(inp, advance(inp, st), ListKind::Names, TokenType::RightBracket);
    } else if t.token_type == TokenType::Ident {
        grows_expect_identifier(inp, st);
    }
}

pub proof fn grows_for_statement(inp: Input, st: State)
    ensures
        grows(st, st.after(for_statement(inp, st))),
    decreases left(inp, st), 14nat,
{
    reveal(for_statement);
    reveal(loop_variable);
    reveal(expression);
    reveal(statements_until);
    grows_loop_variable(inp, st);
    let r1 = loop_variable(inp, st);
    let st1 = st.after(r1);
    if r1.value is Some {
        grows_expect_token(inp, st1, TokenType::In);
        let r2 = expect_token(inp, st1, TokenType::In);
        let st2 = st1.after(r2);
        if r2.value is Some {
            grows_expression(inp, st2);
            let r3 = expression(inp, st2);
            let st3 = st2.after(r3);
            if r3.value is Some {
                grows_expect_end_of_statement(inp, st3);
                let r4 = expect_end_of_statement(inp, st3);
                if r4.value is Some {
                    grows_statements_until(inp, st3.after(r4), TokenType::EndFor);
                }
            }
        }
    }
}

pub proof fn grows_while_statement(inp: Input, st: State)
    ensures
        grows(st, st.after(while_statement(inp, st))),
    decreases left(inp, st), 14nat,
{
    reveal(while_statement);
    reveal(expression);
    reveal(statements_until);
    grows_expression(inp, st);
    let r1 = expression(inp, st);
    let st1 = st.after(r1);
    if r1.value is Some {
        grows_expect_end_of_statement(inp, st1);
        let r2 = expect_end_of_statement(inp, st1);
        if r2.value is Some {
            grows_statements_until(inp, st1.after(r2), TokenType::EndWhile);
        }
    }
}

/// A statement that parses is numbered after every node that was numbered
/// before it, and is the node that was numbered last.
pub proof fn grows_statement_of(inp: Input, t: Token, st: State)
    ensures
        grows(st, st.after(statement_of(inp, t, st))),
        statement_of(inp, t, st).value matches Some(s) ==> st.id < s.id && s.id == st.after(
            statement_of(inp, t, st),
        ).id,
    decreases left(inp, st), 15nat,
{
    crate::grammar::statement_of_cases(inp, t, st);
    reveal(recover);
    let kind = t.token_type;
    if kind == TokenType::Let {
        grows_let_statement(inp, st);
    } else if kind == TokenType::Break {
        grows_break_statement(inp, st);
    } else if kind == TokenType::Call {
        grows_call_statement(inp, st);
    } else if kind == TokenType::Return {
        grows_return_statement(inp, st);
    } else if kind == TokenType::Try {
        grows_try_statement(inp, st);
    } else if kind == TokenType::SetOption {
        grows_set_statement(inp, st);
    } else if kind == TokenType::Execute {
        grows_execute_statement(inp, st);
    } else if kind == TokenType::If {
        grows_if_statement(inp, st);
    } else if kind == TokenType::Function {
        grows_function_statement(inp, st);
    } else if kind == TokenType::For {
        grows_for_statement(inp, st);
    } else if kind == TokenType::While {
        grows_while_statement(inp, st);
    }
}

/// The numbers of the statements lie between `lo` and `hi`, `hi` included,
/// and each statement has a lower number than the next.
pub open spec fn numbered_in_order(stmts: Seq<StmtModel>, lo: nat, hi: nat) -> bool {
    &&& forall|i: int| 0 <= i < stmts.len() ==> lo < (#[trigger] stmts[i]).id <= hi
    &&& forall|i: int, j: int|
        0 <= i < j < stmts.len() ==> (#[trigger] stmts[i]).id < (#[trigger] stmts[j]).id
}

/// The statement `s`, numbered between `lo` and `mid`, before statements
/// numbered between `mid` and `hi`.
proof fn lemma_numbered_cons(s: StmtModel, rest: Seq<StmtModel>, lo: nat, mid: nat, hi: nat)
    requires
        lo < s.id <= mid,
        numbered_in_order(rest, mid, hi),
        mid <= hi,
    ensures
        numbered_in_order(seq![s] + rest, lo, hi),
{
    let all = seq![s] + rest;
    assert forall|i: int| 0 <= i < all.len() implies lo < (#[trigger] all[i]).id <= hi by {
        if i > 0 {
            assert(all[i] == rest[i - 1]);
        }
    }
    assert forall|i: int, j: int| 0 <= i < j < all.len() implies (#[trigger] all[i]).id < (
    #[trigger] all[j]).id by {
        assert(all[j] == rest[j - 1]);
        if i > 0 {
            assert(all[i] == rest[i - 1]);
        }
    }
}

proof fn lemma_numbered_wider(stmts: Seq<StmtModel>, lo: nat, mid: nat, hi: nat)
    requires
        lo <= mid,
        numbered_in_order(stmts, mid, hi),
    ensures
        numbered_in_order(stmts, lo, hi),
{
}

pub proof fn grows_block(inp: Input, st: State, a: TokenType, b: TokenType, c: TokenType)
    ensures
        grows(st, st.after(block(inp, st, a, b, c))),
        block(inp, st, a, b, c).value is Some,
        numbered_in_order(
            block(inp, st, a, b, c).value->0,
            st.id,
            st.after(block(inp, st, a, b, c)).id,
        ),
    decreases left(inp, st), 12nat,
{
    reveal(block);
    reveal(statement_of);
    let t = peek(inp, st);
    let kind = t.token_type;
    if !(kind == TokenType::Eof || kind == a || kind == b || kind == c) {
        let st1 = advance(inp, st);
        grows_statement_of(inp, t, st1);
        let r = statement_of(inp, t, st1);
        let st2 = st1.after(r);
        grows_block(inp, st2, a, b, c);
        let rest = block(inp, st2, a, b, c);
        let end = st2.after(rest);
        match r.value {
            Some(s) => {
                lemma_numbered_cons(s, rest.value->0, st.id, st2.id, end.id);
            },
            None => {
                lemma_numbered_wider(rest.value->0, st.id, st2.id, end.id);
            },
        }
    }
}

pub proof fn grows_statements_until(inp: Input, st: State, end: TokenType)
    ensures
        grows(st, st.after(statements_until(inp, st, end))),
    decreases left(inp, st), 13nat,
{
    reveal(statements_until);
    reveal(block);
    grows_block(inp, st, end, end, end);
    let r = block(inp, st, end, end, end);
    let st1 = st.after(r);
    grows_expect_token(inp, st1, end);
    let r1 = expect_token(inp, st1, end);
    if r1.value is Some {
        grows_expect_end_of_statement(inp, st1.after(r1));
    }
}

/// Parsing a program keeps the errors that were recorded before, in their
/// order and before those that it adds, and numbers its statements in
/// their order, after every node that was numbered before.
pub proof fn grows_program(inp: Input, st: State)
    ensures
        grows(st, st.after(program(inp, st))),
        program(inp, st).value is Some,
        numbered_in_order(program(inp, st).value->0, st.id, st.after(program(inp, st)).id),
    decreases left(inp, st), 16nat,
{
    reveal(program);
    reveal(statement_of);
    if st.pos < inp.tokens.len() {
        let st1 = advance(inp, st);
        let t = inp.tokens[st.pos as int];
        grows_statement_of(inp, t, st1);
        let r = statement_of(inp, t, st1);
        let st2 = st1.after(r);
        grows_program(inp, st2);
        let rest = program(inp, st2);
        let end = st2.after(rest);
        match r.value {
            Some(s) => {
                lemma_numbered_cons(s, rest.value->0, st.id, st2.id, end.id);
            },
            None => {
                lemma_numbered_wider(rest.value->0, st.id, st2.id, end.id);
            },
        }
    }
}

} // verus!
