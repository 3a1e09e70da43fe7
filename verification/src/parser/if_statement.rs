//! `if` statements.
use crate::ast::{ElseCond, IfStatement};
use crate::ast_model::IfModel;
use crate::grammar;
use crate::lexer::TokenType;
use crate::parser::expression;
use crate::parser::Parser;
use vstd::prelude::*;

verus! {

pub open spec fn if_model(r: Option<IfStatement>) -> Option<IfModel> {
    match r {
        Some(s) => Some(s.by_parts()),
        None => None,
    }
}

// Precondition - if was already read.
//
// If ::= 'if' Expression NewLine Statement* 'endif'
#[verifier::rlimit(50)]
pub fn parse(parser: &mut Parser) -> (r: Option<IfStatement>)
    requires
        old(parser).wf(),
    ensures
        final(parser).follows(
            *old(parser),
            grammar::if_statement(old(parser).input(), old(parser).state()),
        ),
        if_model(r) == grammar::if_statement(old(parser).input(), old(parser).state()).value,
    decreases grammar::left(old(parser).input(), old(parser).state()), 14nat,
{
    proof {
        reveal(grammar::if_statement);
        reveal(grammar::expression);
        reveal(grammar::block);
        reveal(grammar::statements_until);
    }
    let condition = match expression::parse(parser) {
        Some(e) => e,
        None => return None,
    };
    if parser.expect_end_of_statement().is_none() {
        return None;
    }
    let stmts = parser.parse_block(TokenType::EndIf, TokenType::Else, TokenType::ElseIf);
    let kind = parser.peek_token().token_type;
    if kind == TokenType::EndIf {
        parser.advance();
        if parser.expect_end_of_statement().is_none() {
            return None;
        }
        return Some(
            IfStatement { condition: condition, then_branch: stmts, else_cond: ElseCond::NoElse },
        );
    }
    if kind == TokenType::Else {
        parser.advance();
        if parser.expect_end_of_statement().is_none() {
            return None;
        }
        let else_cond = match parser.parse_statements_until(TokenType::EndIf) {
            Some(stmts) => stmts,
            None => return None,
        };
        return Some(
            IfStatement {
                condition: condition,
                then_branch: stmts,
                else_cond: ElseCond::Else(else_cond),
            },
        );
    }
    if kind == TokenType::ElseIf {
        parser.advance();
        let inner = match parse(parser) {
            Some(s) => s,
            None => return None,
        };
        proof {
            inner.lemma_model();
        }
        return Some(
            IfStatement {
                condition: condition,
                then_branch: stmts,
                else_cond: ElseCond::ElseIf(Box::new(inner)),
            },
        );
    }
    return None;
}

impl<'a> Parser<'a> {
    // Precondition - if was already read.
    //
    // If ::= 'if' ExprKind NewLine Statement* 'endif'
    pub(crate) fn parse_if_statement(&mut self) -> (r: Option<IfStatement>)
        requires
            old(self).wf(),
        ensures
            final(self).follows(
                *old(self),
                grammar::if_statement(old(self).input(), old(self).state()),
            ),
            if_model(r) == grammar::if_statement(old(self).input(), old(self).state()).value,
        decreases grammar::left(old(self).input(), old(self).state()), 15nat,
    {
        return parse(self);
    }
}

} // verus!
