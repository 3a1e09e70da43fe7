//! One statement.
use crate::ast::{BreakStatement, Stmt, StmtKind};
use crate::ast_model::StmtModel;
use crate::grammar;
use crate::lexer::TokenType;
use crate::parser::{stmt_model, Parser};
use crate::span::{BytePos, Span};
use vstd::prelude::*;

verus! {

impl<'a> Parser<'a> {
    /// Completes the statement node of kind `kind` that started at `start`,
    /// if there is a kind.
    pub(crate) fn stmt(&mut self, start: usize, kind: Option<StmtKind>) -> (r: Option<Stmt>)
        requires
            old(self).wf(),
            old(self).id.0 < old(self).index,
        ensures
            final(self).wf(),
            final(self).l == old(self).l,
            final(self).tokens == old(self).tokens,
            final(self).index == old(self).index,
            final(self).id.0 <= old(self).id.0 + 1,
            match kind {
                Some(k) => final(self).state() == old(self).state().numbered() && stmt_model(r)
                    == Some(
                    StmtModel {
                        id: old(self).state().id + 1,
                        span: Span { start: BytePos(start), end: old(self).last_pos },
                        kind: k.by_parts(),
                    },
                ),
                None => final(self).state() == old(self).state() && r is None,
            },
    {
        match kind {
            Some(kind) => {
                proof {
                    kind.lemma_model();
                }
                let id = self.next_id();
                Some(
                    Stmt {
                        id: id,
                        span: Span { start: BytePos(start), end: self.last_pos },
                        kind: kind,
                    },
                )
            },
            None => None,
        }
    }

    // Parses a statement, including the new line at the end of statement.
    // Returns None when statement failed to parse.
    #[verifier::rlimit(50)]
    pub(crate) fn parse_statement(&mut self) -> (r: Option<Stmt>)
        requires
            old(self).wf(),
        ensures
            final(self).follows(
                *old(self),
                grammar::statement(old(self).input(), old(self).state()),
            ),
            stmt_model(r) == grammar::statement(old(self).input(), old(self).state()).value,
            old(self).index < old(self).tokens@.len() ==> old(self).index < final(self).index,
        decreases grammar::left(old(self).input(), old(self).state()), 0nat,
    {
        if self.index >= self.tokens.len() {
            return None;
        }
        let token = self.peek_token();
        self.advance();
        let start = token.location.start;
        proof {
            grammar::statement_of_cases(self.input(), token, self.state());
        }
        match token.token_type {
            TokenType::Let => {
                let kind = match self.parse_let_statement() {
                    Some(s) => Some(StmtKind::Let(s)),
                    None => None,
                };
                return self.stmt(start, kind);
            },
            TokenType::Break => {
                proof {
                    reveal(grammar::break_statement);
                }
                let kind = match self.expect_end_of_statement() {
                    Some(_) => Some(StmtKind::Break(BreakStatement {  })),
                    None => None,
                };
                return self.stmt(start, kind);
            },
            TokenType::Call => {
                let kind = match self.parse_call_statement() {
                    Some(s) => Some(StmtKind::Call(s)),
                    None => None,
                };
                return self.stmt(start, kind);
            },
            TokenType::Return => {
                let kind = match crate::parser::return_statement::parse(self) {
                    Some(s) => Some(StmtKind::Return(s)),
                    None => None,
                };
                return self.stmt(start, kind);
            },
            TokenType::Try => {
                let kind = match crate::parser::try_statement::parse(self) {
                    Some(s) => Some(StmtKind::Try(s)),
                    None => None,
                };
                return self.stmt(start, kind);
            },
            TokenType::SetOption => {
                let kind = match crate::parser::set_statement::parse(self) {
                    Some(s) => Some(StmtKind::SetOption(s)),
                    None => None,
                };
                return self.stmt(start, kind);
            },
            TokenType::Execute => {
                let kind = match self.parse_execute_statement() {
                    Some(s) => Some(StmtKind::Execute(s)),
                    None => None,
                };
                return self.stmt(start, kind);
            },
            TokenType::If => {
                let kind = match self.parse_if_statement() {
                    Some(s) => Some(StmtKind::If(s)),
                    None => None,
                };
                return self.stmt(start, kind);
            },
            TokenType::Function => {
                let kind = match self.parse_function_statement() {
                    Some(s) => Some(StmtKind::Function(s)),
                    None => None,
                };
                return self.stmt(start, kind);
            },
            TokenType::For => {
                let kind = match self.parse_for_statement() {
                    Some(s) => Some(StmtKind::For(s)),
                    None => None,
                };
                return self.stmt(start, kind);
            },
            TokenType::While => {
                let kind = match crate::parser::while_statement::parse(self) {
                    Some(s) => Some(StmtKind::While(s)),
                    None => None,
                };
                return self.stmt(start, kind);
            },
            TokenType::NewLine => {},
            TokenType::Pipe => {},
            _ => {
                self.error_and_recover("keyword", token);
            },
        }
        return None;
    }
}

} // verus!
