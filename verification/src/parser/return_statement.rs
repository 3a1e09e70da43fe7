//! `return` statements.
use crate::ast::{ReturnStatement, StmtKind};
use crate::grammar;
use crate::parser::expression;
use crate::parser::Parser;
use vstd::prelude::*;

verus! {

pub fn parse(parser: &mut Parser) -> (r: Option<ReturnStatement>)
    requires
        old(parser).wf(),
    ensures
        final(parser).follows(
            *old(parser),
            grammar::return_statement(old(parser).input(), old(parser).state()),
        ),
        match r {
            Some(s) => grammar::return_statement(old(parser).input(), old(parser).state()).value
                == Some(StmtKind::Return(s).by_parts()),
            None => grammar::return_statement(
                old(parser).input(),
                old(parser).state(),
            ).value is None,
        },
    decreases grammar::left(old(parser).input(), old(parser).state()), 14nat,
{
    proof {
        reveal(grammar::return_statement);
        reveal(grammar::expression);
    }
    if Parser::end_of_statement_token(parser.peek_token().token_type) {
        parser.advance();
        return Some(ReturnStatement { value: None });
    }
    let value = match expression::parse(parser) {
        Some(e) => e,
        None => return None,
    };
    if parser.expect_end_of_statement().is_none() {
        return None;
    }
    return Some(ReturnStatement { value: Some(value) });
}

} // verus!
