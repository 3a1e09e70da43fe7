//! `let` statements.
use crate::ast::{LetStatement, StmtKind};
use crate::grammar;
use crate::lexer::TokenType;
use crate::parser::expression;
use crate::parser::Parser;
use vstd::prelude::*;

verus! {

pub fn is_assign_operator(token_type: TokenType) -> (r: bool)
    ensures
        r == grammar::assigns(token_type),
{
    match token_type {
        TokenType::Assign => true,
        TokenType::PlusAssign => true,
        TokenType::MinusAssign => true,
        TokenType::MultiplyAssign => true,
        TokenType::DivideAssign => true,
        TokenType::ModuloAssign => true,
        TokenType::DotAssign => true,
        _ => false,
    }
}

// Let = 'let' VarName = Expression (NewLine | EOF)
pub fn parse(parser: &mut Parser) -> (r: Option<LetStatement>)
    requires
        old(parser).wf(),
    ensures
        final(parser).follows(
            *old(parser),
            grammar::let_statement(old(parser).input(), old(parser).state()),
        ),
        match r {
            Some(s) => grammar::let_statement(old(parser).input(), old(parser).state()).value
                == Some(StmtKind::Let(s).by_parts()),
            None => grammar::let_statement(old(parser).input(), old(parser).state()).value is None,
        },
    decreases grammar::left(old(parser).input(), old(parser).state()), 14nat,
{
    proof {
        reveal(grammar::let_statement);
        reveal(grammar::expression);
    }
    let var = match expression::parse(parser) {
        Some(e) => e,
        None => return None,
    };
    let operator = parser.peek_token();
    if !is_assign_operator(operator.token_type) {
        parser.error_and_recover("assign operator", operator);
        return None;
    }
    parser.advance();
    let expr = match expression::parse(parser) {
        Some(e) => e,
        None => return None,
    };
    if parser.expect_end_of_statement().is_none() {
        return None;
    }
    return Some(
        LetStatement { var: Box::new(var), operator: operator.token_type, value: Box::new(expr) },
    );
}

impl<'a> Parser<'a> {
    // Let = 'let' VarName = ExprKind (NewLine | EOF)
    pub(crate) fn parse_let_statement(&mut self) -> (r: Option<LetStatement>)
        requires
            old(self).wf(),
        ensures
            final(self).follows(
                *old(self),
                grammar::let_statement(old(self).input(), old(self).state()),
            ),
            match r {
                Some(s) => grammar::let_statement(old(self).input(), old(self).state()).value
                    == Some(StmtKind::Let(s).by_parts()),
                None => grammar::let_statement(old(self).input(), old(self).state()).value is None,
            },
        decreases grammar::left(old(self).input(), old(self).state()), 15nat,
    {
        return parse(self);
    }
}

} // verus!
