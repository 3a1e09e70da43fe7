//! `for` statements.
use crate::ast::{ForStatement, LoopVariable, StmtKind};
use crate::ast_model::LoopVariableModel;
use crate::grammar;
use crate::grammar::ListKind;
use crate::lexer::TokenType;
use crate::parser::expression;
use crate::parser::Parser;
use vstd::prelude::*;

verus! {

pub open spec fn variable_model(r: Option<LoopVariable>) -> Option<LoopVariableModel> {
    match r {
        Some(v) => Some(v.model()),
        None => None,
    }
}

impl<'a> Parser<'a> {
    pub(crate) fn parse_for_statement(&mut self) -> (r: Option<ForStatement>)
        requires
            old(self).wf(),
        ensures
            final(self).follows(
                *old(self),
                grammar::for_statement(old(self).input(), old(self).state()),
            ),
            match r {
                Some(s) => grammar::for_statement(old(self).input(), old(self).state()).value
                    == Some(StmtKind::For(s).by_parts()),
                None => grammar::for_statement(old(self).input(), old(self).state()).value is None,
            },
        decreases grammar::left(old(self).input(), old(self).state()), 14nat,
    {
        proof {
            reveal(grammar::for_statement);
            reveal(grammar::loop_variable);
            reveal(grammar::expression);
            reveal(grammar::statements_until);
        }
        let loop_variable = match self.parse_loop_variable() {
            Some(v) => v,
            None => return None,
        };
        if self.expect_token(TokenType::In).is_none() {
            return None;
        }
        let range = match expression::parse(self) {
            Some(e) => e,
            None => return None,
        };
        if self.expect_end_of_statement().is_none() {
            return None;
        }
        let statements = match self.parse_statements_until(TokenType::EndFor) {
            Some(stmts) => stmts,
            None => return None,
        };
        Some(ForStatement { loop_variable: loop_variable, range: range, body: statements })
    }

    pub(crate) fn parse_loop_variable(&mut self) -> (r: Option<LoopVariable>)
        requires
            old(self).wf(),
        ensures
            final(self).follows(
                *old(self),
                grammar::loop_variable(old(self).input(), old(self).state()),
            ),
            variable_model(r) == grammar::loop_variable(
                old(self).input(),
                old(self).state(),
            ).value,
        decreases grammar::left(old(self).input(), old(self).state()), 12nat,
    {
        proof {
            reveal(grammar::loop_variable);
            reveal(grammar::list);
        }
        let token = self.peek_token();
        match token.token_type {
            TokenType::LeftBracket => self.parse_list_loop_variable(),
            TokenType::Ident => {
                match self.expect_identifier() {
                    Some(name) => Some(LoopVariable::Single(name)),
                    None => None,
                }
            },
            _ => {
                self.error_and_recover("`(` or identifier", token);
                None
            },
        }
    }

    /// The names of a destructuring loop variable; the parser stands at the
    /// opening bracket.
    pub(crate) fn parse_list_loop_variable(&mut self) -> (r: Option<LoopVariable>)
        requires
            old(self).wf(),
            grammar::peek(old(self).input(), old(self).state()).token_type
                == TokenType::LeftBracket,
        ensures
            final(self).follows(
                *old(self),
                grammar::loop_variable(old(self).input(), old(self).state()),
            ),
            variable_model(r) == grammar::loop_variable(
                old(self).input(),
                old(self).state(),
            ).value,
        decreases grammar::left(old(self).input(), old(self).state()), 11nat,
    {
        proof {
            reveal(grammar::loop_variable);
            reveal(grammar::list);
        }
        if self.expect_token(TokenType::LeftBracket).is_none() {
            return None;
        }
        let vars = match self.parse_list(ListKind::Names, TokenType::RightBracket) {
            Some(items) => items,
            None => return None,
        };
        return Some(LoopVariable::List(vars.names));
    }
}

} // verus!
