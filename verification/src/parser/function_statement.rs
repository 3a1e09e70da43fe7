//! `function` statements.
use crate::ast::{FunctionStatement, StmtKind};
use crate::grammar;
use crate::grammar::ListKind;
use crate::lexer::TokenType;
use crate::parser::Parser;
use vstd::prelude::*;

verus! {

impl<'a> Parser<'a> {
    #[verifier::rlimit(50)]
    pub(crate) fn parse_function_statement(&mut self) -> (r: Option<FunctionStatement>)
        requires
            old(self).wf(),
        ensures
            final(self).follows(
                *old(self),
                grammar::function_statement(old(self).input(), old(self).state()),
            ),
            match r {
                Some(s) => grammar::function_statement(old(self).input(), old(self).state()).value
                    == Some(StmtKind::Function(s).by_parts()),
                None => grammar::function_statement(
                    old(self).input(),
                    old(self).state(),
                ).value is None,
            },
        decreases grammar::left(old(self).input(), old(self).state()), 14nat,
    {
        proof {
            reveal(grammar::function_statement);
            reveal(grammar::list);
            reveal(grammar::statements_until);
        }
        let mut abort = false;
        let mut overwrite = false;
        if self.peek_token().token_type == TokenType::Bang {
            self.advance();
            overwrite = true;
        }
        let name = match self.expect_identifier() {
            Some(name) => name,
            None => return None,
        };
        if self.expect_token(TokenType::LeftParenthesis).is_none() {
            return None;
        }
        let arguments = match self.parse_list(ListKind::Names, TokenType::RightParenthesis) {
            Some(items) => items,
            None => return None,
        };
        if self.peek_token().token_type == TokenType::Abort {
            self.advance();
            abort = true;
        }
        if self.expect_end_of_statement().is_none() {
            return None;
        }
        let body = match self.parse_statements_until(TokenType::EndFunction) {
            Some(body) => body,
            None => return None,
        };
        return Some(
            FunctionStatement {
                name: name,
                arguments: arguments.names,
                body: body,
                abort: abort,
                overwrite: overwrite,
            },
        );
    }
}

} // verus!
