//! `call` and `execute` statements.
use crate::ast::{CallStatement, ExecuteStatement, Expr, StmtKind};
use crate::ast_model::{exprs_model, ExprModel};
use crate::grammar;
use crate::grammar::ListKind;
use crate::lexer::TokenType;
use crate::parser::expression;
use crate::parser::{lemma_exprs_push, Parser};
use vstd::prelude::*;

verus! {

impl<'a> Parser<'a> {
    pub(crate) fn parse_call_statement(&mut self) -> (r: Option<CallStatement>)
        requires
            old(self).wf(),
        ensures
            final(self).follows(
                *old(self),
                grammar::call_statement(old(self).input(), old(self).state()),
            ),
            match r {
                Some(s) => grammar::call_statement(old(self).input(), old(self).state()).value
                    == Some(StmtKind::Call(s).by_parts()),
                None => grammar::call_statement(
                    old(self).input(),
                    old(self).state(),
                ).value is None,
            },
        decreases grammar::left(old(self).input(), old(self).state()), 14nat,
    {
        proof {
            reveal(grammar::call_statement);
            reveal(grammar::list);
        }
        let name = match self.expect_identifier() {
            Some(name) => name,
            None => return None,
        };
        if self.expect_token(TokenType::LeftParenthesis).is_none() {
            return None;
        }
        let items = match self.parse_list(ListKind::Expressions, TokenType::RightParenthesis) {
            Some(items) => items,
            None => return None,
        };
        if self.expect_end_of_statement().is_none() {
            return None;
        }
        let stmt = CallStatement { name: name, arguments: items.exprs };
        return Some(stmt);
    }

    pub(crate) fn parse_execute_statement(&mut self) -> (r: Option<ExecuteStatement>)
        requires
            old(self).wf(),
        ensures
            final(self).follows(
                *old(self),
                grammar::execute_statement(old(self).input(), old(self).state()),
            ),
            match r {
                Some(s) => grammar::execute_statement(old(self).input(), old(self).state()).value
                    == Some(StmtKind::Execute(s).by_parts()),
                None => grammar::execute_statement(
                    old(self).input(),
                    old(self).state(),
                ).value is None,
            },
        decreases grammar::left(old(self).input(), old(self).state()), 14nat,
    {
        let ghost inp = self.input();
        let ghost st0 = self.state();
        let ghost target = grammar::execute_args(inp, st0);
        let mut arguments: Vec<Expr> = Vec::new();
        proof {
            reveal(grammar::execute_statement);
            reveal(grammar::execute_args);
            assert(exprs_model(arguments@) =~= Seq::<ExprModel>::empty());
        }
        loop
            invariant_except_break
                self.state().after(grammar::execute_args(inp, self.state())) == st0.after(target),
                match grammar::execute_args(inp, self.state()).value {
                    Some(rest) => target.value == Some(exprs_model(arguments@) + rest),
                    None => target.value is None,
                },
            invariant
                self.moved_to(*old(self), self.state()),
                self.input() == inp,
                old(self).state() == st0,
                target == grammar::execute_args(inp, st0),
            ensures
                self.state() == st0.after(target),
                target.value == Some(exprs_model(arguments@)),
            decreases grammar::left(self.input(), self.state()),
        {
            proof {
                reveal(grammar::execute_statement);
                reveal(grammar::execute_args);
                reveal(grammar::expression);
            }
            if Parser::end_of_statement_token(self.peek_token().token_type) {
                proof {
                    assert(exprs_model(arguments@) + Seq::<ExprModel>::empty() =~= exprs_model(
                        arguments@,
                    ));
                }
                break ;
            }
            let ghost acc = arguments@;
            let e = match expression::parse(self) {
                Some(e) => e,
                None => return None,
            };
            proof {
                lemma_exprs_push(acc, e);
                match grammar::execute_args(inp, self.state()).value {
                    Some(rest) => {
                        assert(exprs_model(acc).push(e.model()) + rest =~= exprs_model(acc) + (
                        seq![e.model()] + rest));
                    },
                    None => {},
                }
            }
            arguments.push(e);
        }
        let stmt = ExecuteStatement { arguments: arguments };
        Some(stmt)
    }
}

} // verus!
