//! `try` statements.
use crate::ast::{StmtKind, TryStatement};
use crate::grammar;
use crate::lexer::TokenType;
use crate::parser::Parser;
use vstd::prelude::*;

verus! {

pub fn parse(parser: &mut Parser) -> (r: Option<TryStatement>)
    requires
        old(parser).wf(),
    ensures
        final(parser).follows(
            *old(parser),
            grammar::try_statement(old(parser).input(), old(parser).state()),
        ),
        match r {
            Some(s) => grammar::try_statement(old(parser).input(), old(parser).state()).value
                == Some(StmtKind::Try(s).by_parts()),
            None => grammar::try_statement(old(parser).input(), old(parser).state()).value is None,
        },
    decreases grammar::left(old(parser).input(), old(parser).state()), 14nat,
{
    proof {
        reveal(grammar::try_statement);
        reveal(grammar::block);
        reveal(grammar::statements_until);
    }
    if parser.expect_end_of_statement().is_none() {
        return None;
    }
    let body = parser.parse_block(TokenType::EndTry, TokenType::Finally, TokenType::Finally);
    match parser.peek_token().token_type {
        TokenType::EndTry => {
            parser.advance();
            if parser.expect_end_of_statement().is_none() {
                return None;
            }
            return Some(TryStatement { body: body, finally: None });
        },
        TokenType::Finally => {
            parser.advance();
            if parser.expect_end_of_statement().is_none() {
                return None;
            }
            let finally = match parser.parse_statements_until(TokenType::EndTry) {
                Some(stmts) => stmts,
                None => return None,
            };
            return Some(TryStatement { body: body, finally: Some(finally) });
        },
        _ => {
            parser.expect_token(TokenType::EndTry);
            return None;
        },
    }
}

} // verus!
