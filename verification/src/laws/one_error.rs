//! A statement that has no body costs one error where it does not parse,
//! and none where it does.
use crate::ast_model::ExprModel;
use crate::grammar::{
    advance, assigns, break_statement, call_statement, call_suffix, ends_statement, entry,
    execute_args, execute_statement, expect_end_of_statement, expect_identifier, expect_token,
    expr_node, expression, ident_expression, ident_rest, infix_rest, item, joins_expressions, left,
    let_statement, list, list_rest, no_items, peek, prefix, recover, return_statement,
    set_statement, statement_of, subscript, subscript_suffix, subscript_tail, Input, ItemsModel,
    ListKind, Parsed, State,
};
use crate::laws::consumption::expression_consumes;
use crate::lexer::{Token, TokenType};
use vstd::prelude::*;

verus! {

/// The step `r` from the state `st` recorded one error if it failed and
/// none if it did not.
pub open spec fn costs_one<T>(st: State, r: Parsed<T>) -> bool {
    r.errors.len() == st.errors.len() + if r.value is Some {
        0nat
    } else {
        1nat
    }
}

pub proof fn expect_token_costs_one(inp: Input, st: State, kind: TokenType)
    ensures
        costs_one(st, expect_token(inp, st, kind)),
{
    reveal(recover);
}

pub proof fn expect_end_of_statement_costs_one(inp: Input, st: State)
    ensures
        costs_one(st, expect_end_of_statement(inp, st)),
{
    reveal(recover);
}

pub proof fn expect_identifier_costs_one(inp: Input, st: State)
    ensures
        costs_one(st, expect_identifier(inp, st)),
{
    reveal(recover);
}

pub proof fn expression_costs_one(inp: Input, st: State)
    ensures
        costs_one(st, expression(inp, st)),
    decreases left(inp, st), 5nat,
{
    reveal(expression);
    reveal(prefix);
    reveal(infix_rest);
    prefix_costs_one(inp, st);
    let r = prefix(inp, st);
    if r.value is Some {
        infix_rest_costs_one(inp, st.after(r), r.value->0);
    }
}

pub proof fn infix_rest_costs_one(inp: Input, st: State, first: ExprModel)
    ensures
        costs_one(st, infix_rest(inp, st, first)),
    decreases left(inp, st), 4nat,
{
    reveal(infix_rest);
    reveal(expression);
    reveal(prefix);
    let kind = peek(inp, st).token_type;
    let st1 = advance(inp, st);
    if kind == TokenType::QuestionMark {
        expression_costs_one(inp, st1);
        let r1 = expression(inp, st1);
        let st2 = st1.after(r1);
        if r1.value is Some {
            expect_token_costs_one(inp, st2, TokenType::Colon);
            let r2 = expect_token(inp, st2, TokenType::Colon);
            let st3 = st2.after(r2);
            if r2.value is Some {
                expression_costs_one(inp, st3);
            }
        }
    } else if joins_expressions(kind) {
        prefix_costs_one(inp, st1);
        let r1 = prefix(inp, st1);
        let st2 = st1.after(r1);
        if r1.value is Some {
            let right = r1.value->0;
            let node = ExprModel {
                id: st2.id + 1,
                span: crate::span::Span { start: first.span.start, end: right.span.end },
                kind: crate::ast_model::ExprKindModel::Infix {
                    left: Box::new(first),
                    operator: kind,
                    right: Box::new(right),
                },
            };
            infix_rest_costs_one(inp, st2.numbered(), node);
        }
    }
}

pub proof fn prefix_costs_one(inp: Input, st: State)
    ensures
        costs_one(st, prefix(inp, st)),
    decreases left(inp, st), 3nat,
{
    reveal(prefix);
    reveal(ident_expression);
    reveal(list);
    reveal(expression);
    reveal(recover);
    let t = peek(inp, st);
    let kind = t.token_type;
    let st1 = advance(inp, st);
    if kind == TokenType::Ident {
        ident_expression_costs_one(inp, st);
    } else if kind == TokenType::LeftCurlyBrace {
        list_costs_one(inp, st1, ListKind::Entries, TokenType::RightCurlyBrace);
    } else if kind == TokenType::LeftBracket {
        list_costs_one(inp, st1, ListKind::Expressions, TokenType::RightBracket);
    } else if kind == TokenType::LeftParenthesis {
        expression_costs_one(inp, st1);
        let r1 = expression(inp, st1);
        if r1.value is Some {
            expect_token_costs_one(inp, st1.after(r1), TokenType::RightParenthesis);
        }
    } else if kind == TokenType::Minus || kind == TokenType::Bang {
        prefix_costs_one(inp, st1);
    }
}

pub proof fn ident_expression_costs_one(inp: Input, st: State)
    ensures
        costs_one(st, ident_expression(inp, st)),
    decreases left(inp, st), 2nat,
{
    reveal(ident_expression);
    reveal(ident_rest);
    reveal(recover);
    let t = peek(inp, st);
    let r = expect_identifier(inp, st);
    let st1 = st.after(r);
    if r.value is Some {
        let node = expr_node(
            st1,
            t.location.start,
            crate::ast_model::ExprKindModel::Identifier {
                name: r.value->0,
                name_location: t.location,
            },
        );
        ident_rest_costs_one(inp, st1.numbered(), t.location.start, node);
    }
}

pub proof fn ident_rest_costs_one(inp: Input, st: State, start: usize, first: ExprModel)
    ensures
        costs_one(st, ident_rest(inp, st, start, first)),
    decreases left(inp, st), 1nat,
{
    reveal(ident_rest);
    reveal(call_suffix);
    reveal(subscript_suffix);
    let kind = peek(inp, st).token_type;
    let st1 = advance(inp, st);
    if kind == TokenType::LeftParenthesis && !(first.kind is Function) {
        call_suffix_costs_one(inp, st1, start, first);
        let r = call_suffix(inp, st1, start, first);
        if r.value is Some {
            ident_rest_costs_one(inp, st1.after(r), start, r.value->0);
        }
    } else if kind == TokenType::LeftBracket {
        subscript_suffix_costs_one(inp, st1, start, first);
        let r = subscript_suffix(inp, st1, start, first);
        if r.value is Some {
            ident_rest_costs_one(inp, st1.after(r), start, r.value->0);
        }
    }
}

pub proof fn call_suffix_costs_one(inp: Input, st: State, start: usize, first: ExprModel)
    ensures
        costs_one(st, call_suffix(inp, st, start, first)),
    decreases left(inp, st), 11nat,
{
    reveal(call_suffix);
    reveal(list);
    list_costs_one(inp, st, ListKind::Expressions, TokenType::RightParenthesis);
}

pub proof fn subscript_suffix_costs_one(inp: Input, st: State, start: usize, first: ExprModel)
    ensures
        costs_one(st, subscript_suffix(inp, st, start, first)),
    decreases left(inp, st), 11nat,
{
    reveal(subscript_suffix);
    reveal(subscript);
    subscript_costs_one(inp, st);
    let r1 = subscript(inp, st);
    if r1.value is Some {
        expect_token_costs_one(inp, st.after(r1), TokenType::RightBracket);
    }
}

pub proof fn subscript_costs_one(inp: Input, st: State)
    ensures
        costs_one(st, subscript(inp, st)),
    decreases left(inp, st), 7nat,
{
    reveal(subscript);
    reveal(subscript_tail);
    reveal(expression);
    if peek(inp, st).token_type != TokenType::Colon {
        expression_costs_one(inp, st);
        let r = expression(inp, st);
        if r.value is Some {
            subscript_tail_costs_one(inp, st.after(r), r.value);
        }
    } else {
        subscript_tail_costs_one(inp, st, None);
    }
}

pub proof fn subscript_tail_costs_one(inp: Input, st: State, first: Option<ExprModel>)
    requires
        first is Some || peek(inp, st).token_type == TokenType::Colon,
    ensures
        costs_one(st, subscript_tail(inp, st, first)),
    decreases left(inp, st), 6nat,
{
    reveal(subscript_tail);
    reveal(expression);
    if peek(inp, st).token_type == TokenType::Colon {
        let st1 = advance(inp, st);
        if peek(inp, st1).token_type != TokenType::RightBracket {
            expression_costs_one(inp, st1);
        }
    }
}

pub proof fn entry_costs_one(inp: Input, st: State)
    ensures
        costs_one(st, entry(inp, st)),
    decreases left(inp, st), 7nat,
{
    reveal(entry);
    reveal(expression);
    reveal(recover);
    let t = peek(inp, st);
    if t.token_type == TokenType::StringLiteral {
        let st1 = advance(inp, st);
        expect_token_costs_one(inp, st1, TokenType::Colon);
        let r1 = expect_token(inp, st1, TokenType::Colon);
        if r1.value is Some {
            expression_costs_one(inp, st1.after(r1));
        }
    }
}

pub proof fn item_costs_one(inp: Input, st: State, kind: ListKind, acc: ItemsModel)
    ensures
        costs_one(st, item(inp, st, kind, acc)),
    decreases left(inp, st), 8nat,
{
    reveal(item);
    reveal(expression);
    reveal(entry);
    match kind {
        ListKind::Expressions => expression_costs_one(inp, st),
        ListKind::Names => expect_identifier_costs_one(inp, st),
        ListKind::Entries => entry_costs_one(inp, st),
    }
}

pub proof fn list_costs_one(inp: Input, st: State, kind: ListKind, end: TokenType)
    ensures
        costs_one(st, list(inp, st, kind, end)),
    decreases left(inp, st), 10nat,
{
    reveal(list);
    reveal(item);
    reveal(list_rest);
    if peek(inp, st).token_type != end {
        item_costs_one(inp, st, kind, no_items());
        let r = item(inp, st, kind, no_items());
        if r.value is Some {
            list_rest_costs_one(inp, st.after(r), kind, end, r.value->0);
        }
    }
}

pub proof fn list_rest_costs_one(
    inp: Input,
    st: State,
    kind: ListKind,
    end: TokenType,
    acc: ItemsModel,
)
    ensures
        costs_one(st, list_rest(inp, st, kind, end, acc)),
    decreases left(inp, st), 9nat,
{
    reveal(list_rest);
    reveal(item);
    reveal(recover);
    let t = peek(inp, st);
    let st1 = advance(inp, st);
    if t.token_type != end && t.token_type == TokenType::Comma {
        if peek(inp, st1).token_type != end {
            item_costs_one(inp, st1, kind, acc);
            let r = item(inp, st1, kind, acc);
            if r.value is Some {
                list_rest_costs_one(inp, st1.after(r), kind, end, r.value->0);
            }
        }
    }
}

pub proof fn let_statement_costs_one(inp: Input, st: State)
    ensures
        costs_one(st, let_statement(inp, st)),
{
    reveal(let_statement);
    reveal(expression);
    reveal(recover);
    expression_costs_one(inp, st);
    let r1 = expression(inp, st);
    let st1 = st.after(r1);
    if r1.value is Some && assigns(peek(inp, st1).token_type) {
        let st2 = advance(inp, st1);
        expression_costs_one(inp, st2);
        let r2 = expression(inp, st2);
        if r2.value is Some {
            expect_end_of_statement_costs_one(inp, st2.after(r2));
        }
    }
}

pub proof fn call_statement_costs_one(inp: Input, st: State)
    ensures
        costs_one(st, call_statement(inp, st)),
{
    reveal(call_statement);
    reveal(list);
    expect_identifier_costs_one(inp, st);
    let r1 = expect_identifier(inp, st);
    let st1 = st.after(r1);
    if r1.value is Some {
        expect_token_costs_one(inp, st1, TokenType::LeftParenthesis);
        let r2 = expect_token(inp, st1, TokenType::LeftParenthesis);
        let st2 = st1.after(r2);
        if r2.value is Some {
            list_costs_one(inp, st2, ListKind::Expressions, TokenType::RightParenthesis);
            let r3 = list(inp, st2, ListKind::Expressions, TokenType::RightParenthesis);
            if r3.value is Some {
                expect_end_of_statement_costs_one(inp, st2.after(r3));
            }
        }
    }
}

pub proof fn execute_args_costs_one(inp: Input, st: State)
    ensures
        costs_one(st, execute_args(inp, st)),
    decreases left(inp, st), 11nat,
{
    reveal(execute_args);
    reveal(expression);
    if !ends_statement(peek(inp, st).token_type) {
        expression_costs_one(inp, st);
        expression_consumes(inp, st);
        let r = expression(inp, st);
        if r.value is Some {
            execute_args_costs_one(inp, st.after(r));
        }
    }
}

pub proof fn return_statement_costs_one(inp: Input, st: State)
    ensures
        costs_one(st, return_statement(inp, st)),
{
    reveal(return_statement);
    reveal(expression);
    if !ends_statement(peek(inp, st).token_type) {
        expression_costs_one(inp, st);
        let r1 = expression(inp, st);
        if r1.value is Some {
            expect_end_of_statement_costs_one(inp, st.after(r1));
        }
    }
}

pub proof fn set_statement_costs_one(inp: Input, st: State)
    ensures
        costs_one(st, set_statement(inp, st)),
{
    reveal(set_statement);
    expect_identifier_costs_one(inp, st);
    let r1 = expect_identifier(inp, st);
    let st1 = st.after(r1);
    if r1.value is Some {
        if peek(inp, st1).token_type != TokenType::Assign {
            expect_end_of_statement_costs_one(inp, st1);
        } else {
            expect_identifier_costs_one(inp, advance(inp, st1));
        }
    }
}

/// The token starts a statement that has a body.
pub open spec fn opens_block(kind: TokenType) -> bool {
    kind == TokenType::Try || kind == TokenType::If || kind == TokenType::Function || kind
        == TokenType::For || kind == TokenType::While
}

/// A statement that has no body records one error where it does not
/// parse and none where it does. So does a token that starts no
/// statement, which never parses, other than a line break or `|`, which
/// are passed over.
pub proof fn statement_costs_one(inp: Input, t: Token, st: State)
    requires
        !opens_block(t.token_type),
        t.token_type != TokenType::NewLine,
        t.token_type != TokenType::Pipe,
    ensures
        costs_one(st, statement_of(inp, t, st)),
{
    crate::grammar::statement_of_cases(inp, t, st);
    reveal(recover);
    reveal(break_statement);
    reveal(execute_statement);
    reveal(execute_args);
    let kind = t.token_type;
    if kind == TokenType::Let {
        let_statement_costs_one(inp, st);
    } else if kind == TokenType::Break {
        expect_end_of_statement_costs_one(inp, st);
    } else if kind == TokenType::Call {
        call_statement_costs_one(inp, st);
    } else if kind == TokenType::Return {
        return_statement_costs_one(inp, st);
    } else if kind == TokenType::SetOption {
        set_statement_costs_one(inp, st);
    } else if kind == TokenType::Execute {
        execute_args_costs_one(inp, st);
    }
}

} // verus!
