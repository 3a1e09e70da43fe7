//! `while` statements.
use crate::ast::{StmtKind, WhileStatement};
use crate::grammar;
use crate::lexer::TokenType;
use crate::parser::expression;
use crate::parser::Parser;
use vstd::prelude::*;

verus! {

// Precondition - `while` token was already read.
pub fn parse(parser: &mut Parser) -> (r: Option<WhileStatement>)
    requires
        old(parser).wf(),
    ensures
        final(parser).follows(
            *old(parser),
            grammar::while_statement(old(parser).input(), old(parser).state()),
        ),
        match r {
            Some(s) => grammar::while_statement(old(parser).input(), old(parser).state()).value
                == Some(StmtKind::While(s).by_parts()),
            None => grammar::while_statement(
                old(parser).input(),
                old(parser).state(),
            ).value is None,
        },
    decreases grammar::left(old(parser).input(), old(parser).state()), 14nat,
{
    proof {
        reveal(grammar::while_statement);
        reveal(grammar::expression);
        reveal(grammar::statements_until);
    }
    let condition = match expression::parse(parser) {
        Some(e) => e,
        None => return None,
    };
    if parser.expect_end_of_statement().is_none() {
        return None;
    }
    let body = match parser.parse_statements_until(TokenType::EndWhile) {
        Some(body) => body,
        None => return None,
    };
    return Some(WhileStatement { condition: condition, body: body });
}

} // verus!
