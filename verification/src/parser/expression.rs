//! Expressions.
use crate::ast::{
    ArrayExpression, ArraySubscript, ChooseExpression, DictionaryEntry, DictionaryExpression, Expr,
    ExprKind, InfixExpression, NumberExpression, ParenExpression, StringLiteralExpression,
    UnaryExpression,
};
use crate::ast_model::option_model;
use crate::grammar;
use crate::grammar::ListKind;
use crate::lexer::{SourceLocation, Token, TokenType};
use crate::parser::Parser;
use crate::span::BytePos;
use vstd::prelude::*;
use vstd::string::*;

verus! {

pub open spec fn subscript_model(r: Option<ArraySubscript>) -> Option<
    crate::ast_model::SubscriptModel,
> {
    match r {
        Some(s) => Some(s.model()),
        None => None,
    }
}

pub open spec fn entry_model(r: Option<DictionaryEntry>) -> Option<crate::ast_model::EntryModel> {
    match r {
        Some(e) => Some(e.model()),
        None => None,
    }
}

#[verifier::rlimit(50)]
pub fn parse(parser: &mut Parser) -> (r: Option<Expr>)
    requires
        old(parser).wf(),
    ensures
        final(parser).follows(
            *old(parser),
            grammar::expression(old(parser).input(), old(parser).state()),
        ),
        option_model(r) == grammar::expression(old(parser).input(), old(parser).state()).value,
        r is Some ==> old(parser).index < final(parser).index,
    decreases grammar::left(old(parser).input(), old(parser).state()), 5nat,
{
    let ghost inp = parser.input();
    let ghost st0 = parser.state();
    proof {
        reveal(grammar::expression);
        reveal(grammar::prefix);
        reveal(grammar::infix_rest);
    }
    let mut left = match parse_prefix_expression(parser) {
        Some(e) => e,
        None => return None,
    };
    let ghost st1 = parser.state();
    let ghost target = grammar::infix_rest(inp, st1, left.model());
    loop
        invariant_except_break
            parser.state().after(grammar::infix_rest(inp, parser.state(), left.model()))
                == st1.after(target),
            grammar::infix_rest(inp, parser.state(), left.model()).value == target.value,
        invariant
            parser.moved_to(*old(parser), parser.state()),
            old(parser).index < parser.index,
            parser.input() == inp,
            old(parser).state() == st0,
            st0.after(grammar::expression(inp, st0)) == st1.after(target),
            grammar::expression(inp, st0).value == target.value,
        ensures
            parser.state() == st1.after(target),
            Some(left.model()) == target.value,
        decreases grammar::left(parser.input(), parser.state()),
    {
        proof {
            reveal(grammar::infix_rest);
            reveal(grammar::expression);
            reveal(grammar::prefix);
        }
        let peek_type = parser.peek_token().token_type;
        if peek_type == TokenType::QuestionMark {
            parser.advance();
            let lhs = match parse(parser) {
                Some(e) => e,
                None => return None,
            };
            if parser.expect_token(TokenType::Colon).is_none() {
                return None;
            }
            let rhs = match parse(parser) {
                Some(e) => e,
                None => return None,
            };
            let start = left.span.start;
            let end = rhs.span.end;
            return Some(
                parser.expr(
                    start,
                    end,
                    ExprKind::Choose(
                        ChooseExpression {
                            cond: Box::new(left),
                            lhs: Box::new(lhs),
                            rhs: Box::new(rhs),
                        },
                    ),
                ),
            );
        }
        if !is_operator(peek_type) {
            break ;
        }
        parser.advance();
        let right = match parse_prefix_expression(parser) {
            Some(e) => e,
            None => return None,
        };
        let start = left.span.start;
        let end = right.span.end;
        left =
        parser.expr(
            start,
            end,
            ExprKind::Infix(
                InfixExpression {
                    left: Box::new(left),
                    operator: peek_type,
                    right: Box::new(right),
                },
            ),
        );
    }
    return Some(left);
}

// Returns true if this token is an operator that can be between two expressions.
pub fn is_operator(token_type: TokenType) -> (r: bool)
    ensures
        r == grammar::joins_expressions(token_type),
{
    match token_type {
        TokenType::Equal => true,
        TokenType::InEqual => true,
        TokenType::InEqualCaseSensitive => true,
        TokenType::InEqualCaseInSensitive => true,
        TokenType::EqualCaseSensitive => true,
        TokenType::EqualCaseInSensitive => true,
        TokenType::Less => true,
        TokenType::LessOrEqual => true,
        TokenType::Greater => true,
        TokenType::GreaterOrEqual => true,
        TokenType::Dot => true,
        TokenType::And => true,
        TokenType::Or => true,
        TokenType::Plus => true,
        TokenType::Minus => true,
        TokenType::Multiply => true,
        TokenType::Divide => true,
        TokenType::Modulo => true,
        _ => false,
    }
}

pub(crate) fn parse_dictionary_entry(parser: &mut Parser) -> (r: Option<DictionaryEntry>)
    requires
        old(parser).wf(),
    ensures
        final(parser).follows(*old(parser), grammar::entry(old(parser).input(), old(parser).state())),
        entry_model(r) == grammar::entry(old(parser).input(), old(parser).state()).value,
    decreases grammar::left(old(parser).input(), old(parser).state()), 7nat,
{
    proof {
        reveal(grammar::entry);
        reveal(grammar::expression);
    }
    let token = parser.peek_token();
    if token.token_type != TokenType::StringLiteral {
        parser.expect_token(TokenType::StringLiteral);
        return None;
    }
    let key = literal(parser, token);
    parser.advance();
    if parser.expect_token(TokenType::Colon).is_none() {
        return None;
    }
    let value = match parse(parser) {
        Some(e) => e,
        None => return None,
    };
    return Some(DictionaryEntry { key: key, value: value });
}

fn parse_prefix_expression(parser: &mut Parser) -> (r: Option<Expr>)
    requires
        old(parser).wf(),
    ensures
        final(parser).follows(
            *old(parser),
            grammar::prefix(old(parser).input(), old(parser).state()),
        ),
        option_model(r) == grammar::prefix(old(parser).input(), old(parser).state()).value,
        r is Some ==> old(parser).index < final(parser).index,
    decreases grammar::left(old(parser).input(), old(parser).state()), 3nat,
{
    proof {
        reveal(grammar::prefix);
        reveal(grammar::ident_expression);
        reveal(grammar::list);
        reveal(grammar::expression);
    }
    let token = parser.peek_token();
    let start = token.location.start;
    match token.token_type {
        TokenType::Number => {
            parser.advance();
            let digits = parser.identifier_name(&token);
            let end = parser.last_pos;
            return Some(parser.expr(BytePos(start), end, ExprKind::Number(NumberExpression { digits: digits })));
        },
        TokenType::StringLiteral => {
            parser.advance();
            let value = literal(parser, token);
            let end = parser.last_pos;
            return Some(parser.expr(BytePos(start), end, ExprKind::StringLiteral(StringLiteralExpression { value: value })));
        },
        TokenType::Ident => return crate::parser::postfix::parse_ident_expression(parser),
        TokenType::LeftCurlyBrace => {
            parser.advance();
            let items = match parser.parse_list(ListKind::Entries, TokenType::RightCurlyBrace) {
                Some(items) => items,
                None => return None,
            };
            let end = parser.last_pos;
            return Some(parser.expr(BytePos(start), end, ExprKind::Dictionary(DictionaryExpression { entries: items.entries })));
        },
        TokenType::LeftBracket => return parse_array(parser),
        TokenType::LeftParenthesis => {
            parser.advance();
            let expr = match parse(parser) {
                Some(e) => e,
                None => return None,
            };
            if parser.expect_token(TokenType::RightParenthesis).is_none() {
                return None;
            }
            let end = parser.last_pos;
            return Some(parser.expr(BytePos(start), end, ExprKind::Paren(ParenExpression { expr: Box::new(expr) })));
        },
        TokenType::Minus | TokenType::Bang => {
            parser.advance();
            let expr = match parse_prefix_expression(parser) {
                Some(e) => e,
                None => return None,
            };
            let end = parser.last_pos;
            return Some(parser.expr(BytePos(start), end, ExprKind::Unary(
                        UnaryExpression { operator: token.token_type, expr: Box::new(expr) },
                    )));
        },
        _ => {
            parser.error_and_recover("expression", token);
            return None;
        },
    }
}

/// An array literal; the parser stands at its opening bracket.
fn parse_array(parser: &mut Parser) -> (r: Option<Expr>)
    requires
        old(parser).wf(),
        grammar::peek(old(parser).input(), old(parser).state()).token_type
            == TokenType::LeftBracket,
    ensures
        final(parser).follows(
            *old(parser),
            grammar::prefix(old(parser).input(), old(parser).state()),
        ),
        option_model(r) == grammar::prefix(old(parser).input(), old(parser).state()).value,
        r is Some ==> old(parser).index < final(parser).index,
    decreases grammar::left(old(parser).input(), old(parser).state()), 2nat,
{
    proof {
        reveal(grammar::prefix);
        reveal(grammar::ident_expression);
        reveal(grammar::list);
        reveal(grammar::expression);
    }
    let token = parser.peek_token();
    let start = token.location.start;
    parser.expect_token(TokenType::LeftBracket);
    let items = match parser.parse_list(ListKind::Expressions, TokenType::RightBracket) {
        Some(items) => items,
        None => return None,
    };
    let end = parser.last_pos;
    return Some(parser.expr(BytePos(start), end, ExprKind::Array(ArrayExpression { elements: items.exprs })));
}

/// What the string literal `token` stands for.
fn literal(parser: &Parser, token: Token) -> (r: String)
    requires
        crate::parser::located(parser.l.src(), token),
        token.token_type == TokenType::StringLiteral,
    ensures
        r@ == grammar::literal(parser.input(), token),
{
    proof {
        reveal(crate::parser::located);
        reveal(grammar::literal);
    }
    let quote = SourceLocation { start: token.location.start, end: token.location.start + 1 };
    let inner = SourceLocation { start: token.location.start + 1, end: token.location.end - 1 };
    let single = crate::text::same_text(parser.l.token_text(&quote), "'");
    return crate::text::decode(parser.l.token_text(&inner), single);
}

} // verus!
