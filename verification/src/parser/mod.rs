//! The parser: from the tokens of a text to a program and a list of errors.
use crate::ast::{DictionaryEntry, Expr, ExprKind, NodeId, Stmt};
use crate::ast_model::{entries_model, exprs_model, names_model, stmts_model, ExprModel, StmtModel};
use crate::grammar;
use crate::grammar::{Input, ItemsModel, ListKind, ParseErrorModel, Parsed, State};
use crate::lexer::{Lexer, SourceLocation, SourcePosition, Token, TokenPosition, TokenType};
use crate::scanner::{lex_from, token, tokens_ordered};
use crate::span::{BytePos, Span};
use crate::text::{range_ok, text_of};
use vstd::prelude::*;
use vstd::string::*;

pub mod block;
pub mod call_statement;
pub mod expression;
pub mod for_statement;
pub mod function_statement;
pub mod if_statement;
pub mod let_statement;
pub mod postfix;
pub mod return_statement;
pub mod set_statement;
pub mod statement;
pub mod try_statement;
pub mod while_statement;

verus! {

#[derive(PartialEq, Debug)]
pub struct Program {
    pub statements: Vec<Stmt>,
}

#[derive(PartialEq, Debug)]
pub struct ParseError {
    pub message: String,
    pub position: TokenPosition,
}

impl ParseError {
    pub open spec fn model(&self) -> ParseErrorModel {
        ParseErrorModel { message: self.message@, position: self.position }
    }
}

/// The models of a list of errors, in order.
pub open spec fn errors_model(v: Seq<ParseError>) -> Seq<ParseErrorModel> {
    Seq::new(v.len(), |i: int| v[i].model())
}

/// The items of a comma-separated list; only the field of the list's kind is filled.
pub struct Items {
    pub exprs: Vec<Expr>,
    pub names: Vec<String>,
    pub entries: Vec<DictionaryEntry>,
}

impl Items {
    pub open spec fn model(&self) -> ItemsModel {
        ItemsModel {
            exprs: exprs_model(self.exprs@),
            names: names_model(self.names@),
            entries: entries_model(self.entries@),
        }
    }
}

pub open spec fn items_model(r: Option<Items>) -> Option<ItemsModel> {
    match r {
        Some(items) => Some(items.model()),
        None => None,
    }
}

pub open spec fn stmt_model(r: Option<Stmt>) -> Option<StmtModel> {
    match r {
        Some(s) => Some(s.model()),
        None => None,
    }
}

pub open spec fn name_model(r: Option<String>) -> Option<Seq<char>> {
    match r {
        Some(s) => Some(s@),
        None => None,
    }
}

pub proof fn lemma_exprs_push(v: Seq<Expr>, e: Expr)
    ensures
        exprs_model(v.push(e)) == exprs_model(v).push(e.model()),
{
    assert(exprs_model(v.push(e)) =~= exprs_model(v).push(e.model()));
}

pub proof fn lemma_entries_push(v: Seq<DictionaryEntry>, e: DictionaryEntry)
    ensures
        entries_model(v.push(e)) == entries_model(v).push(e.model()),
{
    assert(entries_model(v.push(e)) =~= entries_model(v).push(e.model()));
}

pub proof fn lemma_stmts_push(v: Seq<Stmt>, s: Stmt)
    ensures
        stmts_model(v.push(s)) == stmts_model(v).push(s.model()),
{
    assert(stmts_model(v.push(s)) =~= stmts_model(v).push(s.model()));
}

pub proof fn lemma_names_push(v: Seq<String>, s: String)
    ensures
        names_model(v.push(s)) == names_model(v).push(s@),
{
    assert(names_model(v.push(s)) =~= names_model(v).push(s@));
}

/// The token `t` lies in the text `src`, and holds its quotes if it is a
/// string literal.
#[verifier::opaque]
pub open spec fn located(src: Seq<u8>, t: Token) -> bool {
    &&& range_ok(src, t.location.start as int, t.location.end as int)
    &&& crate::scanner::literal_ok(src, t)
}

/// The position `pos` lies between the start and the end of the token `t`.
pub open spec fn holds(src: Seq<u8>, t: Token, pos: SourcePosition) -> bool {
    let range = crate::lexer::token_position(src, t.location);
    range.start.at_or_before(pos) && pos.at_or_before(range.end)
}

/// The index of the first token from `from` on that holds `pos`, if one does.
pub open spec fn first_holding(
    src: Seq<u8>,
    tokens: Seq<Token>,
    pos: SourcePosition,
    from: int,
) -> Option<int>
    decreases tokens.len() - from,
{
    if from < 0 || from >= tokens.len() {
        None
    } else if holds(src, tokens[from], pos) {
        Some(from)
    } else {
        first_holding(src, tokens, pos, from + 1)
    }
}

/// The tokens lie in the text, in order and without overlap.
#[verifier::opaque]
pub open spec fn tokens_ok(src: Seq<u8>, tokens: Seq<Token>) -> bool {
    tokens_ordered(src, tokens, 0, src.len() as int)
}

pub struct Parser<'a> {
    pub l: Lexer<'a>,
    pub tokens: Vec<Token>,
    pub index: usize,
    pub last_pos: BytePos,
    pub errors: Vec<ParseError>,
    pub id: NodeId,
}

impl<'a> Parser<'a> {
    /// What the parser parses: the text and its tokens.
    pub open spec fn input(&self) -> Input {
        Input { src: self.l.src(), tokens: self.tokens@ }
    }

    /// Where the parser stands.
    pub open spec fn state(&self) -> State {
        State {
            pos: self.index as nat,
            last_pos: self.last_pos,
            errors: errors_model(self.errors@),
            id: self.id.0 as nat,
        }
    }

    /// The parser's lexer has read the text, its tokens lie in the text in
    /// order, and no more nodes are numbered than tokens are consumed.
    pub open spec fn wf(&self) -> bool {
        &&& self.l.wf()
        &&& tokens_ok(self.l.src(), self.tokens@)
        &&& self.index <= self.tokens@.len()
        &&& self.id.0 <= self.index
    }

    /// `self` is `before` brought to the state `st`.
    pub open spec fn moved_to(&self, before: Parser<'a>, st: State) -> bool {
        &&& self.wf()
        &&& self.l == before.l
        &&& self.tokens == before.tokens
        &&& self.state() == st
        &&& before.index <= self.index
        &&& self.id.0 - before.id.0 <= self.index - before.index
    }

    /// `self` is `before` after the parsing step `r`, for which a token was
    /// consumed beforehand.
    pub open spec fn follows_token<T>(&self, before: Parser<'a>, r: Parsed<T>) -> bool {
        &&& self.wf()
        &&& self.l == before.l
        &&& self.tokens == before.tokens
        &&& self.state() == before.state().after(r)
        &&& before.index <= self.index
        &&& self.id.0 - before.id.0 <= self.index - before.index + 1
    }

    /// `self` is `before` after the parsing step `r`.
    pub open spec fn follows<T>(&self, before: Parser<'a>, r: Parsed<T>) -> bool {
        self.moved_to(before, before.state().after(r))
    }

    pub fn new(mut lexer: Lexer<'a>) -> (r: Parser<'a>)
        requires
            lexer.wf(),
        ensures
            r.wf(),
            r.input() == (Input {
                src: lexer.src(),
                tokens: lex_from(lexer.src(), lexer.position(), lexer.first_in_line()),
            }),
            r.state() == grammar::initial(),
            r.l.text() == lexer.text(),
    {
        proof {
            lexer.lemma_src();
        }
        let ghost from = lexer.position();
        let tokens = lexer.lex();
        proof {
            assert(errors_model(Seq::<ParseError>::empty()) =~= Seq::<ParseErrorModel>::empty());
            assert forall|i: int| 0 <= i < tokens@.len() implies crate::scanner::token_within(
                lexer.src(),
                #[trigger] tokens@[i],
                0,
                lexer.src().len() as int,
            ) by {
                assert(crate::scanner::token_within(
                    lexer.src(),
                    tokens@[i],
                    from,
                    lexer.src().len() as int,
                ));
            }
        }
        let parser = Parser {
            l: lexer,
            tokens: tokens,
            index: 0,
            last_pos: BytePos(0),
            errors: Vec::new(),
            id: NodeId(0),
        };
        proof {
            reveal(tokens_ok);
        }
        return parser;
    }

    pub fn resolve_location(&self, loc: SourceLocation) -> (r: TokenPosition)
        ensures
            r == crate::lexer::token_position(self.l.src(), loc),
    {
        self.l.token_position(&loc)
    }

    /// The first token in whose range of lines and characters `pos` lies,
    /// both ends included.
    pub fn find_token(&self, pos: SourcePosition) -> (r: Result<Token, ()>)
        ensures
            match r {
                Ok(t) => first_holding(self.l.src(), self.tokens@, pos, 0) matches Some(i)
                    && self.tokens@[i] == t,
                Err(_) => first_holding(self.l.src(), self.tokens@, pos, 0) is None,
            },
    {
        let mut i: usize = 0;
        while i < self.tokens.len()
            invariant
                i <= self.tokens@.len(),
                first_holding(self.l.src(), self.tokens@, pos, i as int) == first_holding(
                    self.l.src(),
                    self.tokens@,
                    pos,
                    0,
                ),
            decreases self.tokens@.len() - i,
        {
            let token = self.tokens[i];
            let token_pos = self.resolve_location(token.location);
            if token_pos.start.is_at_or_before(&pos) && pos.is_at_or_before(&token_pos.end) {
                return Ok(token);
            }
            i = i + 1;
        }
        Err(())
    }

    pub fn end_of_statement_token(token: TokenType) -> (r: bool)
        ensures
            r == grammar::ends_statement(token),
    {
        return token == TokenType::NewLine || token == TokenType::Eof || token == TokenType::Pipe;
    }

    /// Every token of the parser lies in the text.
    pub proof fn lemma_token(&self, i: int)
        requires
            self.wf(),
            0 <= i < self.tokens@.len(),
        ensures
            located(self.l.src(), self.tokens@[i]),
    {
        reveal(tokens_ok);
        reveal(located);
        assert(crate::scanner::token_within(
            self.l.src(),
            self.tokens@[i],
            0,
            self.l.src().len() as int,
        ));
    }

    /// Any token that the parser meets lies in the text.
    pub proof fn lemma_peek(&self)
        requires
            self.wf(),
        ensures
            located(self.l.src(), grammar::peek(self.input(), self.state())),
    {
        self.l.lemma_src();
        reveal(tokens_ok);
        reveal(located);
        if self.index < self.tokens@.len() {
            assert(crate::scanner::token_within(
                self.l.src(),
                self.tokens@[self.index as int],
                0,
                self.l.src().len() as int,
            ));
        }
    }

    pub fn peek_token(&self) -> (r: Token)
        requires
            self.wf(),
        ensures
            r == grammar::peek(self.input(), self.state()),
            located(self.l.src(), r),
    {
        proof {
            self.lemma_peek();
        }
        if self.index < self.tokens.len() {
            self.tokens[self.index]
        } else {
            self.l.eof_token()
        }
    }

    pub fn advance(&mut self)
        requires
            old(self).wf(),
        ensures
            final(self).moved_to(*old(self), grammar::advance(old(self).input(), old(self).state())),
    {
        if self.index < self.tokens.len() {
            self.last_pos = BytePos(self.tokens[self.index].location.end);
            self.index = self.index + 1;
        }
    }

    pub(crate) fn next_id(&mut self) -> (r: NodeId)
        requires
            old(self).wf(),
            old(self).id.0 < old(self).index,
        ensures
            final(self).wf(),
            final(self).l == old(self).l,
            final(self).tokens == old(self).tokens,
            final(self).index == old(self).index,
            final(self).state() == old(self).state().numbered(),
            r.0 == old(self).id.0 + 1,
    {
        self.id = NodeId(self.id.0 + 1);
        self.id
    }

    /// Completes an expression node of kind `kind` that started at `start`
    /// and ends with the last token consumed.
    pub(crate) fn expr(&mut self, start: BytePos, end: BytePos, kind: ExprKind) -> (r: Expr)
        requires
            old(self).wf(),
            old(self).id.0 < old(self).index,
        ensures
            final(self).wf(),
            final(self).l == old(self).l,
            final(self).tokens == old(self).tokens,
            final(self).index == old(self).index,
            final(self).state() == old(self).state().numbered(),
            final(self).id.0 == old(self).id.0 + 1,
            r.model() == (ExprModel {
                id: old(self).state().id + 1,
                span: Span { start, end },
                kind: kind.by_parts(),
            }),
            r.kind == kind,
    {
        proof {
            kind.lemma_model();
        }
        let id = self.next_id();
        Expr { id: id, span: Span { start: start, end: end }, kind: kind }
    }

    pub(crate) fn consume_until_end_of_statement(&mut self)
        requires
            old(self).wf(),
        ensures
            final(self).moved_to(*old(self), grammar::recover(old(self).input(), old(self).state())),
    {
        proof {
            reveal(grammar::recover);
            grammar::lemma_statement_end(self.input(), self.index as nat);
        }
        loop
            invariant_except_break
                grammar::statement_end(self.input(), self.index as nat) == grammar::statement_end(
                    old(self).input(),
                    old(self).index as nat,
                ),
            invariant
                self.wf(),
                self.l == old(self).l,
                self.tokens == old(self).tokens,
                self.last_pos == old(self).last_pos,
                self.errors == old(self).errors,
                self.id == old(self).id,
                old(self).index <= self.index,
            ensures
                self.index == grammar::statement_end(old(self).input(), old(self).index as nat),
            decreases self.tokens.len() - self.index,
        {
            if self.index >= self.tokens.len() {
                break ;
            }
            let token = self.tokens[self.index];
            self.index = self.index + 1;
            if Parser::end_of_statement_token(token.token_type) {
                break ;
            }
        }
    }

    pub fn token_text(&self, token: &Token) -> (r: String)
        requires
            located(self.l.src(), *token),
        ensures
            r@ == grammar::token_text(self.input(), *token),
    {
        proof {
            reveal(located);
            reveal(grammar::token_text);
        }
        match token.token_type {
            TokenType::NewLine => String::from_str("new line"),
            _ => String::from_str("`").concat(self.l.token_text(&token.location)).concat("`"),
        }
    }

    /// Records that `found` stands where `expected` should.
    pub(crate) fn record(&mut self, expected: &str, found: Token)
        requires
            old(self).wf(),
            located(old(self).l.src(), found),
        ensures
            final(self).moved_to(
                *old(self),
                grammar::with_error(old(self).input(), old(self).state(), expected@, found),
            ),
    {
        let text = self.token_text(&found);
        let message = String::from_str("expected ").concat(expected).concat(", found ").concat(
            text.as_str(),
        );
        let position = self.l.token_position(&found.location);
        let error = ParseError { message: message, position: position };
        proof {
            reveal(grammar::error_at);
            assert(errors_model(self.errors@.push(error)) =~= errors_model(self.errors@).push(
                error.model(),
            ));
        }
        self.errors.push(error);
    }

    pub fn error_and_recover(&mut self, expected: &str, found: Token)
        requires
            old(self).wf(),
            located(old(self).l.src(), found),
        ensures
            final(self).moved_to(
                *old(self),
                grammar::error_and_recover(old(self).input(), old(self).state(), expected@, found),
            ),
    {
        self.record(expected, found);
        self.consume_until_end_of_statement();
    }

    pub(crate) fn expect_end_of_statement(&mut self) -> (r: Option<()>)
        requires
            old(self).wf(),
        ensures
            final(self).follows(
                *old(self),
                grammar::expect_end_of_statement(old(self).input(), old(self).state()),
            ),
            r == grammar::expect_end_of_statement(old(self).input(), old(self).state()).value,
    {
        let token = self.peek_token();
        if Parser::end_of_statement_token(token.token_type) {
            self.advance();
            return Some(());
        }
        self.error_and_recover("new line", token);
        return None;
    }

    pub(crate) fn expect_token(&mut self, token_type: TokenType) -> (r: Option<()>)
        requires
            old(self).wf(),
        ensures
            final(self).follows(
                *old(self),
                grammar::expect_token(old(self).input(), old(self).state(), token_type),
            ),
            r == grammar::expect_token(old(self).input(), old(self).state(), token_type).value,
    {
        let token = self.peek_token();
        if token.token_type == token_type {
            self.advance();
            return Some(());
        }
        self.error_and_recover(token_type.as_str(), token);
        return None;
    }

    // If peek is identifier, returns name and advances.
    // Otherwise, consume until end of statement.
    pub(crate) fn expect_identifier(&mut self) -> (r: Option<String>)
        requires
            old(self).wf(),
        ensures
            final(self).follows(
                *old(self),
                grammar::expect_identifier(old(self).input(), old(self).state()),
            ),
            name_model(r) == grammar::expect_identifier(old(self).input(), old(self).state()).value,
    {
        let token = self.peek_token();
        let name = match token.token_type {
            TokenType::Ident => self.identifier_name(&token),
            _ => {
                self.error_and_recover("identifier", token);
                return None;
            },
        };
        self.advance();
        Some(name)
    }

    pub fn identifier_name(&self, token: &Token) -> (r: String)
        requires
            located(self.l.src(), *token),
        ensures
            r@ == text_of(self.l.src(), token.location.start as int, token.location.end as int),
    {
        proof {
            reveal(located);
        }
        return String::from_str(self.l.token_text(&token.location));
    }

    /// One item of a list of kind `kind`, appended to `items`.
    pub(crate) fn parse_item(&mut self, kind: ListKind, items: Items) -> (r: Option<Items>)
        requires
            old(self).wf(),
        ensures
            final(self).follows(
                *old(self),
                grammar::item(old(self).input(), old(self).state(), kind, items.model()),
            ),
            items_model(r) == grammar::item(
                old(self).input(),
                old(self).state(),
                kind,
                items.model(),
            ).value,
        decreases grammar::left(old(self).input(), old(self).state()), 8nat,
    {
        proof {
            reveal(grammar::item);
            reveal(grammar::expression);
            reveal(grammar::entry);
        }
        let mut items = items;
        match kind {
            ListKind::Expressions => {
                let e = match expression::parse(self) {
                    Some(e) => e,
                    None => return None,
                };
                proof {
                    lemma_exprs_push(items.exprs@, e);
                }
                items.exprs.push(e);
            },
            ListKind::Names => {
                let name = match self.expect_identifier() {
                    Some(name) => name,
                    None => return None,
                };
                proof {
                    lemma_names_push(items.names@, name);
                }
                items.names.push(name);
            },
            ListKind::Entries => {
                let e = match expression::parse_dictionary_entry(self) {
                    Some(e) => e,
                    None => return None,
                };
                proof {
                    lemma_entries_push(items.entries@, e);
                }
                items.entries.push(e);
            },
        }
        Some(items)
    }

    /// A comma-separated list of items of kind `kind`, closed by `end`.
    pub fn parse_list(&mut self, kind: ListKind, end: TokenType) -> (r: Option<Items>)
        requires
            old(self).wf(),
        ensures
            final(self).follows(
                *old(self),
                grammar::list(old(self).input(), old(self).state(), kind, end),
            ),
            items_model(r) == grammar::list(old(self).input(), old(self).state(), kind, end).value,
        decreases grammar::left(old(self).input(), old(self).state()), 10nat,
    {
        let ghost inp = self.input();
        let ghost st0 = self.state();
        let mut result = Items { exprs: Vec::new(), names: Vec::new(), entries: Vec::new() };
        proof {
            reveal(grammar::list);
            reveal(grammar::item);
            reveal(grammar::list_rest);
            assert(result.model().names =~= grammar::no_items().names);
            assert(result.model().exprs =~= grammar::no_items().exprs);
            assert(result.model().entries =~= grammar::no_items().entries);
        }
        let token = self.peek_token();
        if token.token_type == end {
            self.advance();
        } else {
            result =
            match self.parse_item(kind, result) {
                Some(items) => items,
                None => return None,
            };
            let ghost st1 = self.state();
            let ghost target = grammar::list_rest(inp, st1, kind, end, result.model());
            loop
                invariant_except_break
                    self.state().after(
                        grammar::list_rest(inp, self.state(), kind, end, result.model()),
                    ) == st1.after(target),
                    grammar::list_rest(inp, self.state(), kind, end, result.model()).value
                        == target.value,
                invariant
                    self.moved_to(*old(self), self.state()),
                    self.input() == inp,
                    old(self).state() == st0,
                    st0.after(grammar::list(inp, st0, kind, end)) == st1.after(target),
                    grammar::list(inp, st0, kind, end).value == target.value,
                ensures
                    self.state() == st1.after(target),
                    Some(result.model()) == target.value,
                decreases grammar::left(self.input(), self.state()),
            {
                proof {
                    reveal(grammar::list_rest);
                    reveal(grammar::item);
                }
                let token = self.peek_token();
                if token.token_type == end {
                    self.advance();
                    break ;
                } else if token.token_type == TokenType::Comma {
                    self.advance();
                    if self.peek_token().token_type == end {
                        self.advance();
                        break ;
                    }
                    result =
                    match self.parse_item(kind, result) {
                        Some(items) => items,
                        None => return None,
                    };
                } else {
                    self.error_and_recover("`,` or `)`", token);
                    return None;
                }
            }
        }
        return Some(result);
    }
}

} // verus!
