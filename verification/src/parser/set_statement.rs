//! `set` statements.
use crate::ast::{SetStatement, StmtKind};
use crate::grammar;
use crate::lexer::TokenType;
use crate::parser::Parser;
use vstd::prelude::*;

verus! {

pub fn parse(parser: &mut Parser) -> (r: Option<SetStatement>)
    requires
        old(parser).wf(),
    ensures
        final(parser).follows(
            *old(parser),
            grammar::set_statement(old(parser).input(), old(parser).state()),
        ),
        match r {
            Some(s) => grammar::set_statement(old(parser).input(), old(parser).state()).value
                == Some(StmtKind::SetOption(s).by_parts()),
            None => grammar::set_statement(old(parser).input(), old(parser).state()).value is None,
        },
{
    proof {
        reveal(grammar::set_statement);
    }
    let option = match parser.expect_identifier() {
        Some(name) => name,
        None => return None,
    };
    if parser.peek_token().token_type != TokenType::Assign {
        if parser.expect_end_of_statement().is_none() {
            return None;
        }
        return Some(SetStatement { option: option, value: None });
    }
    parser.advance();
    let value = match parser.expect_identifier() {
        Some(name) => name,
        None => return None,
    };
    return Some(SetStatement { option: option, value: Some(value) });
}

} // verus!
