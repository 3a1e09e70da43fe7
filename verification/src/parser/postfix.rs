//! An identifier and the calls and subscripts that follow it.
use crate::ast::{
    ArraySubscript, ArraySubscriptExpression, Expr, ExprKind, FunctionExpression,
    IdentifierExpression, Sublist,
};
use crate::ast_model::option_model;
use crate::grammar;
use crate::grammar::ListKind;
use crate::lexer::TokenType;
use crate::parser::expression::{parse, subscript_model};
use crate::parser::Parser;
use crate::span::BytePos;
use vstd::prelude::*;

verus! {

// Parses the whole expression starting with identifier:
// - single identifier
// - function call
pub(crate) fn parse_ident_expression(parser: &mut Parser) -> (r: Option<Expr>)
    requires
        old(parser).wf(),
    ensures
        final(parser).follows(
            *old(parser),
            grammar::ident_expression(old(parser).input(), old(parser).state()),
        ),
        option_model(r) == grammar::ident_expression(
            old(parser).input(),
            old(parser).state(),
        ).value,
        r is Some ==> old(parser).index < final(parser).index,
    decreases grammar::left(old(parser).input(), old(parser).state()), 2nat,
{
    let ghost inp = parser.input();
    let ghost st0 = parser.state();
    proof {
        reveal(grammar::ident_expression);
        reveal(grammar::ident_rest);
    }
    let name_location = parser.peek_token().location;
    let start = name_location.start;
    let name = match parser.expect_identifier() {
        Some(name) => name,
        None => return None,
    };
    let end = parser.last_pos;
    let mut left = parser.expr(
        BytePos(start),
        end,
        ExprKind::Identifier(IdentifierExpression { name: name, name_location: name_location }),
    );
    let ghost st1 = parser.state();
    let ghost target = grammar::ident_rest(inp, st1, start, left.model());
    loop
        invariant
            parser.moved_to(*old(parser), parser.state()),
            old(parser).index < parser.index,
            parser.input() == inp,
            parser.state().after(grammar::ident_rest(inp, parser.state(), start, left.model()))
                == st1.after(target),
            grammar::ident_rest(inp, parser.state(), start, left.model()).value == target.value,
            old(parser).state() == st0,
            st0.after(grammar::ident_expression(inp, st0)) == st1.after(target),
            grammar::ident_expression(inp, st0).value == target.value,
        decreases grammar::left(parser.input(), parser.state()),
    {
        proof {
            reveal(grammar::ident_rest);
            reveal(grammar::call_suffix);
            reveal(grammar::subscript_suffix);
        }
        let kind = parser.peek_token().token_type;
        let called = match &left.kind {
            ExprKind::Function(_) => true,
            _ => false,
        };
        proof {
            left.kind.lemma_model();
        }
        if kind == TokenType::LeftParenthesis && !called {
            parser.advance();
            left =
            match parse_call_suffix(parser, start, left) {
                Some(e) => e,
                None => return None,
            };
        } else if kind == TokenType::LeftBracket {
            parser.advance();
            left =
            match parse_subscript_suffix(parser, start, left) {
                Some(e) => e,
                None => return None,
            };
        } else {
            return Some(left);
        }
    }
}

/// The call of `left`, which started at `start`, its opening parenthesis read.
fn parse_call_suffix(parser: &mut Parser, start: usize, left: Expr) -> (r: Option<Expr>)
    requires
        old(parser).wf(),
        old(parser).id.0 < old(parser).index,
    ensures
        final(parser).follows_token(
            *old(parser),
            grammar::call_suffix(old(parser).input(), old(parser).state(), start, left.model()),
        ),
        option_model(r) == grammar::call_suffix(
            old(parser).input(),
            old(parser).state(),
            start,
            left.model(),
        ).value,
    decreases grammar::left(old(parser).input(), old(parser).state()), 11nat,
{
    proof {
        reveal(grammar::call_suffix);
        reveal(grammar::list);
    }
    let items = match parser.parse_list(ListKind::Expressions, TokenType::RightParenthesis) {
        Some(items) => items,
        None => return None,
    };
    let end = parser.last_pos;
    return Some(
        parser.expr(
            BytePos(start),
            end,
            ExprKind::Function(
                FunctionExpression { callee: Box::new(left), arguments: items.exprs },
            ),
        ),
    );
}

/// The subscript of `left`, which started at `start`, its opening bracket read.
fn parse_subscript_suffix(parser: &mut Parser, start: usize, left: Expr) -> (r: Option<Expr>)
    requires
        old(parser).wf(),
        old(parser).id.0 < old(parser).index,
    ensures
        final(parser).follows_token(
            *old(parser),
            grammar::subscript_suffix(old(parser).input(), old(parser).state(), start, left.model()),
        ),
        option_model(r) == grammar::subscript_suffix(
            old(parser).input(),
            old(parser).state(),
            start,
            left.model(),
        ).value,
    decreases grammar::left(old(parser).input(), old(parser).state()), 11nat,
{
    proof {
        reveal(grammar::subscript_suffix);
        reveal(grammar::subscript);
    }
    let idx = match parse_array_subscript(parser) {
        Some(idx) => idx,
        None => return None,
    };
    if parser.expect_token(TokenType::RightBracket).is_none() {
        return None;
    }
    let end = parser.last_pos;
    return Some(
        parser.expr(
            BytePos(start),
            end,
            ExprKind::ArraySubscript(
                ArraySubscriptExpression { base: Box::new(left), idx: Box::new(idx) },
            ),
        ),
    );
}

fn parse_array_subscript(parser: &mut Parser) -> (r: Option<ArraySubscript>)
    requires
        old(parser).wf(),
    ensures
        final(parser).follows(
            *old(parser),
            grammar::subscript(old(parser).input(), old(parser).state()),
        ),
        subscript_model(r) == grammar::subscript(old(parser).input(), old(parser).state()).value,
    decreases grammar::left(old(parser).input(), old(parser).state()), 7nat,
{
    proof {
        reveal(grammar::subscript);
        reveal(grammar::subscript_tail);
        reveal(grammar::expression);
    }
    if parser.peek_token().token_type != TokenType::Colon {
        let left = match parse(parser) {
            Some(e) => e,
            None => return None,
        };
        return parse_subscript_tail(parser, Some(left));
    }
    return parse_subscript_tail(parser, None);
}

/// What follows the first bound of a subscript: nothing, where it is an
/// index, or `:` and the second bound, if there is one.
fn parse_subscript_tail(parser: &mut Parser, left: Option<Expr>) -> (r: Option<ArraySubscript>)
    requires
        old(parser).wf(),
    ensures
        final(parser).follows(
            *old(parser),
            grammar::subscript_tail(old(parser).input(), old(parser).state(), option_model(left)),
        ),
        subscript_model(r) == grammar::subscript_tail(
            old(parser).input(),
            old(parser).state(),
            option_model(left),
        ).value,
    decreases grammar::left(old(parser).input(), old(parser).state()), 6nat,
{
    proof {
        reveal(grammar::subscript_tail);
        reveal(grammar::expression);
    }
    let ghost inp = parser.input();
    let ghost st0 = parser.state();
    let kind = parser.peek_token().token_type;
    if kind == TokenType::Colon {
        parser.advance();
        assert(parser.state() == grammar::advance(inp, st0));
        if parser.peek_token().token_type != TokenType::RightBracket {
            let right = match parse(parser) {
                Some(e) => e,
                None => return None,
            };
            return Some(ArraySubscript::Sublist(Sublist { left: left, right: Some(right) }));
        }
        return Some(ArraySubscript::Sublist(Sublist { left: left, right: None }));
    }
    assert(kind != TokenType::Colon);
    assert(parser.state() == st0);
    match left {
        Some(e) => Some(ArraySubscript::Index(e)),
        None => None,
    }
}

} // verus!
