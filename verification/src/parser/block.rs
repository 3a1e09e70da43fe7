//! Sequences of statements.
use crate::ast::Stmt;
use crate::ast_model::{stmts_model, StmtModel};
use crate::grammar;
use crate::lexer::TokenType;
use crate::parser::{lemma_stmts_push, Parser, Program};
use vstd::prelude::*;

verus! {

impl<'a> Parser<'a> {
    /// Parses the rest of the text. A statement that fails to parse leaves
    /// its errors in `errors` and no statement.
    pub fn parse(&mut self) -> (r: Program)
        requires
            old(self).wf(),
        ensures
            final(self).follows(
                *old(self),
                grammar::program(old(self).input(), old(self).state()),
            ),
            Some(stmts_model(r.statements@)) == grammar::program(
                old(self).input(),
                old(self).state(),
            ).value,
            final(self).index == final(self).tokens@.len(),
            crate::laws::growth::grows(old(self).state(), final(self).state()),
            crate::laws::statement_growth::numbered_in_order(
                stmts_model(r.statements@),
                old(self).state().id,
                final(self).state().id,
            ),
    {
        let ghost inp = self.input();
        let ghost st0 = self.state();
        let ghost target = grammar::program(inp, st0);
        let mut statements: Vec<Stmt> = Vec::new();
        proof {
            crate::laws::statement_growth::grows_program(inp, st0);
            reveal(grammar::program);
            assert(stmts_model(statements@) + target.value->0 =~= target.value->0);
        }
        while self.index < self.tokens.len()
            invariant
                self.moved_to(*old(self), self.state()),
                self.input() == inp,
                old(self).state() == st0,
                target == grammar::program(inp, st0),
                self.state().after(grammar::program(inp, self.state())) == st0.after(target),
                target.value is Some,
                grammar::program(inp, self.state()).value is Some,
                stmts_model(statements@) + grammar::program(inp, self.state()).value->0
                    == target.value->0,
            decreases grammar::left(self.input(), self.state()),
        {
            proof {
                reveal(grammar::program);
                reveal(grammar::statement_of);
            }
            let ghost before = self.state();
            let ghost acc = statements@;
            match self.parse_statement() {
                Some(stmt) => {
                    proof {
                        lemma_stmts_push(acc, stmt);
                        let others = grammar::program(inp, self.state()).value->0;
                        assert(stmts_model(acc).push(stmt.model()) + others =~= stmts_model(acc)
                            + (seq![stmt.model()] + others));
                    }
                    statements.push(stmt);
                },
                None => {},
            }
        }
        proof {
            reveal(grammar::program);
            assert(stmts_model(statements@) + Seq::<StmtModel>::empty() =~= stmts_model(
                statements@,
            ));
        }
        return Program { statements: statements };
    }

    /// Parses statements until the next statement starts with `a`, `b` or `c`
    /// or EOF is encountered.
    pub(crate) fn parse_block(&mut self, a: TokenType, b: TokenType, c: TokenType) -> (r: Vec<Stmt>)
        requires
            old(self).wf(),
        ensures
            final(self).follows(
                *old(self),
                grammar::block(old(self).input(), old(self).state(), a, b, c),
            ),
            Some(stmts_model(r@)) == grammar::block(
                old(self).input(),
                old(self).state(),
                a,
                b,
                c,
            ).value,
        decreases grammar::left(old(self).input(), old(self).state()), 12nat,
    {
        let ghost inp = self.input();
        let ghost st0 = self.state();
        let ghost target = grammar::block(inp, st0, a, b, c);
        let mut stmts: Vec<Stmt> = Vec::new();
        proof {
            reveal(grammar::block);
            assert(stmts_model(stmts@) + target.value->0 =~= target.value->0);
        }
        loop
            invariant_except_break
                self.state().after(grammar::block(inp, self.state(), a, b, c)) == st0.after(
                    target,
                ),
                grammar::block(inp, self.state(), a, b, c).value is Some,
                stmts_model(stmts@) + grammar::block(inp, self.state(), a, b, c).value->0
                    == target.value->0,
            invariant
                self.moved_to(*old(self), self.state()),
                self.input() == inp,
                old(self).state() == st0,
                target == grammar::block(inp, st0, a, b, c),
                target.value is Some,
            ensures
                self.state() == st0.after(target),
                stmts_model(stmts@) == target.value->0,
            decreases grammar::left(self.input(), self.state()),
        {
            proof {
                reveal(grammar::block);
                reveal(grammar::statement_of);
            }
            let kind = self.peek_token().token_type;
            if kind == TokenType::Eof || kind == a || kind == b || kind == c {
                proof {
                    assert(stmts_model(stmts@) + Seq::<StmtModel>::empty() =~= stmts_model(
                        stmts@,
                    ));
                }
                break ;
            }
            let ghost acc = stmts@;
            match self.parse_statement() {
                Some(stmt) => {
                    proof {
                        lemma_stmts_push(acc, stmt);
                        let others = grammar::block(inp, self.state(), a, b, c).value->0;
                        assert(stmts_model(acc).push(stmt.model()) + others =~= stmts_model(acc)
                            + (seq![stmt.model()] + others));
                    }
                    stmts.push(stmt);
                },
                None => {},
            }
        }
        return stmts;
    }

    // Parses statements until the next statement starts with given token or EOF is encountered.
    pub(crate) fn parse_statements_until(&mut self, token_type: TokenType) -> (r: Option<
        Vec<Stmt>,
    >)
        requires
            old(self).wf(),
        ensures
            final(self).follows(
                *old(self),
                grammar::statements_until(old(self).input(), old(self).state(), token_type),
            ),
            match r {
                Some(stmts) => Some(stmts_model(stmts@)) == grammar::statements_until(
                    old(self).input(),
                    old(self).state(),
                    token_type,
                ).value,
                None => grammar::statements_until(
                    old(self).input(),
                    old(self).state(),
                    token_type,
                ).value is None,
            },
        decreases grammar::left(old(self).input(), old(self).state()), 13nat,
    {
        proof {
            reveal(grammar::statements_until);
            reveal(grammar::block);
        }
        let stmts = self.parse_block(token_type, token_type, token_type);
        if self.expect_token(token_type).is_none() {
            return None;
        }
        if self.expect_end_of_statement().is_none() {
            return None;
        }
        return Some(stmts);
    }
}

} // verus!
