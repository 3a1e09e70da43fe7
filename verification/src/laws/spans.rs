//! A node spans the tokens that were consumed for it: from the start of
//! its first token to the end of the last.
use crate::ast_model::{ExprKindModel, ExprModel};
use crate::grammar::{
    advance, call_suffix, expect_identifier, expr_node, expression, finish, ident_expression,
    ident_rest, infix_rest, joins_expressions, left, peek, prefix, statement_of,
    subscript_suffix, Input, State,
};
use crate::lexer::{Token, TokenType};
use crate::span::{BytePos, Span};
use vstd::prelude::*;

verus! {

/// The node `e` starts at `start` and ends with the last token that was
/// consumed before the state `end`.
pub open spec fn spans(e: ExprModel, start: usize, end: State) -> bool {
    e.span == (Span { start: BytePos(start), end: end.last_pos })
}

/// An expression spans from its first token to the last that was consumed for it.
pub proof fn expression_spans(inp: Input, st: State)
    ensures
        expression(inp, st).value matches Some(e) ==> spans(
            e,
            peek(inp, st).location.start,
            st.after(expression(inp, st)),
        ),
    decreases left(inp, st), 5nat,
{
    reveal(expression);
    reveal(prefix);
    reveal(infix_rest);
    prefix_spans(inp, st);
    let r = prefix(inp, st);
    if r.value is Some {
        infix_rest_spans(inp, st.after(r), r.value->0, peek(inp, st).location.start);
    }
}

/// What follows an expression that started at `start` makes an expression
/// that starts there and ends with the last token that was consumed.
pub proof fn infix_rest_spans(inp: Input, st: State, first: ExprModel, start: usize)
    requires
        spans(first, start, st),
    ensures
        infix_rest(inp, st, first).value matches Some(e) ==> spans(
            e,
            start,
            st.after(infix_rest(inp, st, first)),
        ),
    decreases left(inp, st), 4nat,
{
    reveal(infix_rest);
    reveal(expression);
    reveal(prefix);
    let kind = peek(inp, st).token_type;
    let st1 = advance(inp, st);
    if kind == TokenType::QuestionMark {
        let r1 = expression(inp, st1);
        let st2 = st1.after(r1);
        if r1.value is Some {
            let r2 = crate::grammar::expect_token(inp, st2, TokenType::Colon);
            let st3 = st2.after(r2);
            if r2.value is Some {
                expression_spans(inp, st3);
            }
        }
    } else if joins_expressions(kind) {
        prefix_spans(inp, st1);
        let r1 = prefix(inp, st1);
        let st2 = st1.after(r1);
        if r1.value is Some {
            let right = r1.value->0;
            let node = ExprModel {
                id: st2.id + 1,
                span: Span { start: first.span.start, end: right.span.end },
                kind: ExprKindModel::Infix {
                    left: Box::new(first),
                    operator: kind,
                    right: Box::new(right),
                },
            };
            infix_rest_spans(inp, st2.numbered(), node, start);
        }
    }
}

/// A prefix expression spans from its first token to the last that was
/// consumed for it.
pub proof fn prefix_spans(inp: Input, st: State)
    ensures
        prefix(inp, st).value matches Some(e) ==> spans(
            e,
            peek(inp, st).location.start,
            st.after(prefix(inp, st)),
        ),
    decreases left(inp, st), 3nat,
{
    reveal(prefix);
    reveal(ident_expression);
    reveal(crate::grammar::list);
    reveal(expression);
    if peek(inp, st).token_type == TokenType::Ident {
        ident_expression_spans(inp, st);
    }
}

/// An identifier with what follows it spans from the identifier to the
/// last token that was consumed.
pub proof fn ident_expression_spans(inp: Input, st: State)
    ensures
        ident_expression(inp, st).value matches Some(e) ==> spans(
            e,
            peek(inp, st).location.start,
            st.after(ident_expression(inp, st)),
        ),
    decreases left(inp, st), 2nat,
{
    reveal(ident_expression);
    reveal(ident_rest);
    let t = peek(inp, st);
    let r = expect_identifier(inp, st);
    let st1 = st.after(r);
    if r.value is Some {
        let node = expr_node(
            st1,
            t.location.start,
            ExprKindModel::Identifier { name: r.value->0, name_location: t.location },
        );
        ident_rest_spans(inp, st1.numbered(), t.location.start, node);
    }
}

/// The calls and subscripts of an expression that started at `start` make
/// an expression that starts there and ends with the last token consumed.
pub proof fn ident_rest_spans(inp: Input, st: State, start: usize, first: ExprModel)
    requires
        spans(first, start, st),
    ensures
        ident_rest(inp, st, start, first).value matches Some(e) ==> spans(
            e,
            start,
            st.after(ident_rest(inp, st, start, first)),
        ),
    decreases left(inp, st), 1nat,
{
    reveal(ident_rest);
    reveal(call_suffix);
    reveal(subscript_suffix);
    reveal(crate::grammar::list);
    reveal(crate::grammar::subscript);
    let kind = peek(inp, st).token_type;
    let st1 = advance(inp, st);
    if kind == TokenType::LeftParenthesis && !(first.kind is Function) {
        let r = call_suffix(inp, st1, start, first);
        if r.value is Some {
            ident_rest_spans(inp, st1.after(r), start, r.value->0);
        }
    } else if kind == TokenType::LeftBracket {
        let r = subscript_suffix(inp, st1, start, first);
        if r.value is Some {
            ident_rest_spans(inp, st1.after(r), start, r.value->0);
        }
    }
}

/// A statement spans from its first token to the last token that was
/// consumed for it, the token that ends it included.
pub proof fn statement_spans(inp: Input, t: Token, st: State)
    ensures
        statement_of(inp, t, st).value matches Some(s) ==> s.span == (Span {
            start: BytePos(t.location.start),
            end: st.after(statement_of(inp, t, st)).last_pos,
        }),
{
    reveal(statement_of);
    reveal(finish);
}

} // verus!
