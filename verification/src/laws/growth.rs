//! Parsing only ever adds to what a parser has recorded: the errors that
//! were recorded stay, in their order, and the nodes that were numbered
//! keep lower numbers than those that follow.
use crate::ast_model::ExprModel;
use crate::grammar::{
    advance, call_suffix, entry, error_and_recover, expect_end_of_statement, expect_identifier,
    expect_token, expression, ident_expression, ident_rest, infix_rest, item, left, list,
    list_rest, peek, prefix, recover, subscript, subscript_suffix, subscript_tail, Input,
    ItemsModel, ListKind, State,
};
use crate::lexer::{Token, TokenType};
use vstd::prelude::*;

verus! {

/// The state `b` holds what `a` holds and maybe more: the errors of `a`
/// are the first errors of `b`, and no fewer nodes are numbered in `b`.
pub open spec fn grows(a: State, b: State) -> bool {
    &&& a.id <= b.id
    &&& a.errors.len() <= b.errors.len()
    &&& forall|i: int| 0 <= i < a.errors.len() ==> b.errors[i] == a.errors[i]
}

pub proof fn grows_error_and_recover(inp: Input, st: State, expected: Seq<char>, found: Token)
    ensures
        grows(st, error_and_recover(inp, st, expected, found)),
{
    reveal(recover);
}

pub proof fn grows_expect_token(inp: Input, st: State, kind: TokenType)
    ensures
        grows(st, st.after(expect_token(inp, st, kind))),
{
    reveal(recover);
}

pub proof fn grows_expect_end_of_statement(inp: Input, st: State)
    ensures
        grows(st, st.after(expect_end_of_statement(inp, st))),
{
    reveal(recover);
}

pub proof fn grows_expect_identifier(inp: Input, st: State)
    ensures
        grows(st, st.after(expect_identifier(inp, st))),
{
    reveal(recover);
}

pub proof fn grows_expression(inp: Input, st: State)
    ensures
        grows(st, st.after(expression(inp, st))),
    decreases left(inp, st), 5nat,
{
    reveal(expression);
    reveal(prefix);
    reveal(infix_rest);
    grows_prefix(inp, st);
    let r = prefix(inp, st);
    if r.value is Some {
        grows_infix_rest(inp, st.after(r), r.value->0);
    }
}

pub proof fn grows_infix_rest(inp: Input, st: State, first: ExprModel)
    ensures
        grows(st, st.after(infix_rest(inp, st, first))),
    decreases left(inp, st), 4nat,
{
    reveal(infix_rest);
    reveal(expression);
    reveal(prefix);
    let kind = peek(inp, st).token_type;
    let st1 = advance(inp, st);
    if kind == TokenType::QuestionMark {
        grows_expression(inp, st1);
        let r1 = expression(inp, st1);
        let st2 = st1.after(r1);
        if r1.value is Some {
            grows_expect_token(inp, st2, TokenType::Colon);
            let r2 = expect_token(inp, st2, TokenType::Colon);
            let st3 = st2.after(r2);
            if r2.value is Some {
                grows_expression(inp, st3);
            }
        }
    } else if crate::grammar::joins_expressions(kind) {
        grows_prefix(inp, st1);
        let r1 = prefix(inp, st1);
        let st2 = st1.after(r1);
        if r1.value is Some {
            let right = r1.value->0;
            let node = ExprModel {
                id: st2.id + 1,
                span: crate::span::Span { start: first.span.start, end: right.span.end },
                kind: crate::ast_model::ExprKindModel::Infix {
                    left: Box::new(first),
                    operator: kind,
                    right: Box::new(right),
                },
            };
            grows_infix_rest(inp, st2.numbered(), node);
        }
    }
}

pub proof fn grows_prefix(inp: Input, st: State)
    ensures
        grows(st, st.after(prefix(inp, st))),
    decreases left(inp, st), 3nat,
{
    reveal(prefix);
    reveal(ident_expression);
    reveal(list);
    reveal(expression);
    reveal(recover);
    let t = peek(inp, st);
    let kind = t.token_type;
    let st1 = advance(inp, st);
    if kind == TokenType::Ident {
        grows_ident_expression(inp, st);
    } else if kind == TokenType::LeftCurlyBrace {
        grows_list(inp, st1, ListKind::Entries, TokenType::RightCurlyBrace);
    } else if kind == TokenType::LeftBracket {
        grows_list(inp, st1, ListKind::Expressions, TokenType::RightBracket);
    } else if kind == TokenType::LeftParenthesis {
        grows_expression(inp, st1);
        let r1 = expression(inp, st1);
        if r1.value is Some {
            grows_expect_token(inp, st1.after(r1), TokenType::RightParenthesis);
        }
    } else if kind == TokenType::Minus || kind == TokenType::Bang {
        grows_prefix(inp, st1);
    }
}

pub proof fn grows_ident_expression(inp: Input, st: State)
    ensures
        grows(st, st.after(ident_expression(inp, st))),
    decreases left(inp, st), 2nat,
{
    reveal(ident_expression);
    reveal(ident_rest);
    reveal(recover);
    let t = peek(inp, st);
    let r = expect_identifier(inp, st);
    let st1 = st.after(r);
    if r.value is Some {
        let node = crate::grammar::expr_node(
            st1,
            t.location.start,
            crate::ast_model::ExprKindModel::Identifier {
                name: r.value->0,
                name_location: t.location,
            },
        );
        grows_ident_rest(inp, st1.numbered(), t.location.start, node);
    }
}

pub proof fn grows_ident_rest(inp: Input, st: State, start: usize, first: ExprModel)
    ensures
        grows(st, st.after(ident_rest(inp, st, start, first))),
    decreases left(inp, st), 1nat,
{
    reveal(ident_rest);
    reveal(call_suffix);
    reveal(subscript_suffix);
    let kind = peek(inp, st).token_type;
    let st1 = advance(inp, st);
    if kind == TokenType::LeftParenthesis && !(first.kind is Function) {
        grows_call_suffix(inp, st1, start, first);
        let r = call_suffix(inp, st1, start, first);
        if r.value is Some {
            grows_ident_rest(inp, st1.after(r), start, r.value->0);
        }
    } else if kind == TokenType::LeftBracket {
        grows_subscript_suffix(inp, st1, start, first);
        let r = subscript_suffix(inp, st1, start, first);
        if r.value is Some {
            grows_ident_rest(inp, st1.after(r), start, r.value->0);
        }
    }
}

pub proof fn grows_call_suffix(inp: Input, st: State, start: usize, first: ExprModel)
    ensures
        grows(st, st.after(call_suffix(inp, st, start, first))),
    decreases left(inp, st), 11nat,
{
    reveal(call_suffix);
    reveal(list);
    grows_list(inp, st, ListKind::Expressions, TokenType::RightParenthesis);
}

pub proof fn grows_subscript_suffix(inp: Input, st: State, start: usize, first: ExprModel)
    ensures
        grows(st, st.after(subscript_suffix(inp, st, start, first))),
    decreases left(inp, st), 11nat,
{
    reveal(subscript_suffix);
    reveal(subscript);
    grows_subscript(inp, st);
    let r1 = subscript(inp, st);
    if r1.value is Some {
        grows_expect_token(inp, st.after(r1), TokenType::RightBracket);
    }
}

pub proof fn grows_subscript(inp: Input, st: State)
    ensures
        grows(st, st.after(subscript(inp, st))),
    decreases left(inp, st), 7nat,
{
    reveal(subscript);
    reveal(subscript_tail);
    reveal(expression);
    if peek(inp, st).token_type != TokenType::Colon {
        grows_expression(inp, st);
        let r = expression(inp, st);
        if r.value is Some {
            grows_subscript_tail(inp, st.after(r), r.value);
        }
    } else {
        grows_subscript_tail(inp, st, None);
    }
}

pub proof fn grows_subscript_tail(inp: Input, st: State, first: Option<ExprModel>)
    ensures
        grows(st, st.after(subscript_tail(inp, st, first))),
    decreases left(inp, st), 6nat,
{
    reveal(subscript_tail);
    reveal(expression);
    if peek(inp, st).token_type == TokenType::Colon {
        let st1 = advance(inp, st);
        if peek(inp, st1).token_type != TokenType::RightBracket {
            grows_expression(inp, st1);
        }
    }
}

pub proof fn grows_entry(inp: Input, st: State)
    ensures
        grows(st, st.after(entry(inp, st))),
    decreases left(inp, st), 7nat,
{
    reveal(entry);
    reveal(expression);
    reveal(recover);
    let t = peek(inp, st);
    if t.token_type == TokenType::StringLiteral {
        let st1 = advance(inp, st);
        grows_expect_token(inp, st1, TokenType::Colon);
        let r1 = expect_token(inp, st1, TokenType::Colon);
        if r1.value is Some {
            grows_expression(inp, st1.after(r1));
        }
    }
}

pub proof fn grows_item(inp: Input, st: State, kind: ListKind, acc: ItemsModel)
    ensures
        grows(st, st.after(item(inp, st, kind, acc))),
    decreases left(inp, st), 8nat,
{
    reveal(item);
    reveal(expression);
    reveal(entry);
    match kind {
        ListKind::Expressions => grows_expression(inp, st),
        ListKind::Names => grows_expect_identifier(inp, st),
        ListKind::Entries => grows_entry(inp, st),
    }
}

pub proof fn grows_list(inp: Input, st: State, kind: ListKind, end: TokenType)
    ensures
        grows(st, st.after(list(inp, st, kind, end))),
    decreases left(inp, st), 10nat,
{
    reveal(list);
    reveal(item);
    reveal(list_rest);
    if peek(inp, st).token_type != end {
        grows_item(inp, st, kind, crate::grammar::no_items());
        let r = item(inp, st, kind, crate::grammar::no_items());
        if r.value is Some {
            grows_list_rest(inp, st.after(r), kind, end, r.value->0);
        }
    }
}

pub proof fn grows_list_rest(
    inp: Input,
    st: State,
    kind: ListKind,
    end: TokenType,
    acc: ItemsModel,
)
    ensures
        grows(st, st.after(list_rest(inp, st, kind, end, acc))),
    decreases left(inp, st), 9nat,
{
    reveal(list_rest);
    reveal(item);
    reveal(recover);
    let t = peek(inp, st);
    let st1 = advance(inp, st);
    if t.token_type != end && t.token_type == TokenType::Comma {
        if peek(inp, st1).token_type != end {
            grows_item(inp, st1, kind, acc);
            let r = item(inp, st1, kind, acc);
            if r.value is Some {
                grows_list_rest(inp, st1.after(r), kind, end, r.value->0);
            }
        }
    }
}

} // verus!
