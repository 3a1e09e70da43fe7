//! The span of an expression holds the spans of its parts.
use crate::ast_model::{ExprKindModel, ExprModel, SubscriptModel};
use crate::grammar::{
    advance, call_suffix, entry, expect_identifier, expect_token, expr_node, expression,
    ident_expression, ident_rest, infix_rest, item, joins_expressions, left,
    lemma_statement_end, list, list_rest, no_items, peek, prefix, recover, subscript,
    subscript_suffix, subscript_tail, Input, ItemsModel, ListKind, Parsed, State,
};
use crate::lexer::TokenType;
use crate::span::Span;
use vstd::prelude::*;

verus! {

/// The tokens are in the order of the text: none ends before it starts,
/// and each ends before the next starts.
pub open spec fn in_order(inp: Input) -> bool {
    &&& forall|i: int|
        0 <= i < inp.tokens.len() ==> (#[trigger] inp.tokens[i]).location.start
            <= inp.tokens[i].location.end
    &&& forall|i: int, j: int|
        0 <= i < j < inp.tokens.len() ==> (#[trigger] inp.tokens[i]).location.end <= (
        #[trigger] inp.tokens[j]).location.start
}

/// The last token that became part of a node ends before the tokens that
/// are still to be read start.
pub open spec fn behind(inp: Input, st: State) -> bool {
    &&& st.pos <= inp.tokens.len()
    &&& forall|k: int|
        st.pos <= k < inp.tokens.len() ==> st.last_pos.0 <= (
        #[trigger] inp.tokens[k]).location.start
}

/// The state `b` is not before `a` in the text.
pub open spec fn onward(a: State, b: State) -> bool {
    a.pos <= b.pos && a.last_pos.0 <= b.last_pos.0
}

/// The span `inner` lies within `lo..hi`.
pub open spec fn within(inner: Span, lo: usize, hi: usize) -> bool {
    lo <= inner.start.0 && inner.end.0 <= hi
}

/// The expression `c` is well nested and lies within `lo..hi`.
pub open spec fn inside(c: ExprModel, lo: usize, hi: usize) -> bool {
    nested(c) && within(c.span, lo, hi)
}

/// A subscript's expressions are well nested and lie within `lo..hi`.
pub open spec fn subscript_inside(idx: SubscriptModel, lo: usize, hi: usize) -> bool {
    match idx {
        SubscriptModel::Index(x) => inside(x, lo, hi),
        SubscriptModel::Sublist { left, right } => {
            &&& left matches Some(x) ==> inside(x, lo, hi)
            &&& right matches Some(x) ==> inside(x, lo, hi)
        },
    }
}

/// The span of an expression does not end before it starts, and holds the
/// span of each of its parts, which are well nested in turn.
pub open spec fn nested(e: ExprModel) -> bool
    decreases e,
{
    let lo = e.span.start.0;
    let hi = e.span.end.0;
    &&& lo <= hi
    &&& match e.kind {
        ExprKindModel::Identifier { .. } => true,
        ExprKindModel::Number { .. } => true,
        ExprKindModel::StringLiteral { .. } => true,
        ExprKindModel::Infix { left, operator: _, right } => {
            &&& nested(*left) && within(left.span, lo, hi)
            &&& nested(*right) && within(right.span, lo, hi)
        },
        ExprKindModel::Function { callee, arguments } => {
            &&& nested(*callee) && within(callee.span, lo, hi)
            &&& forall|i: int|
                0 <= i < arguments.len() ==> nested(#[trigger] arguments[i]) && within(
                    arguments[i].span,
                    lo,
                    hi,
                )
        },
        ExprKindModel::ArraySubscript { base, idx } => {
            &&& nested(*base) && within(base.span, lo, hi)
            &&& match *idx {
                SubscriptModel::Index(x) => nested(x) && within(x.span, lo, hi),
                SubscriptModel::Sublist { left, right } => {
                    &&& left matches Some(x) ==> nested(x) && within(x.span, lo, hi)
                    &&& right matches Some(x) ==> nested(x) && within(x.span, lo, hi)
                },
            }
        },
        ExprKindModel::Array { elements } => forall|i: int|
            0 <= i < elements.len() ==> nested(#[trigger] elements[i]) && within(
                elements[i].span,
                lo,
                hi,
            ),
        ExprKindModel::Unary { operator: _, expr } => nested(*expr) && within(expr.span, lo, hi),
        ExprKindModel::Paren { expr } => nested(*expr) && within(expr.span, lo, hi),
        ExprKindModel::Choose { cond, lhs, rhs } => {
            &&& nested(*cond) && within(cond.span, lo, hi)
            &&& nested(*lhs) && within(lhs.span, lo, hi)
            &&& nested(*rhs) && within(rhs.span, lo, hi)
        },
        ExprKindModel::Dictionary { entries } => forall|i: int|
            0 <= i < entries.len() ==> nested((#[trigger] entries[i]).value) && within(
                entries[i].value.span,
                lo,
                hi,
            ),
    }
}

/// The items are well nested and lie within `lo..hi`.
pub open spec fn items_inside(items: ItemsModel, lo: usize, hi: usize) -> bool {
    &&& forall|i: int| 0 <= i < items.exprs.len() ==> inside(#[trigger] items.exprs[i], lo, hi)
    &&& forall|i: int|
        0 <= i < items.entries.len() ==> inside((#[trigger] items.entries[i]).value, lo, hi)
}

/// The step `r` from `st` moved onward and left the parser behind the
/// tokens that are still to be read.
pub open spec fn moved_on<T>(inp: Input, st: State, r: Parsed<T>) -> bool {
    behind(inp, st.after(r)) && onward(st, st.after(r))
}

/// The expression that the step `r` from `st` gave, if it gave one, is
/// well nested, starts with the first token that was read and ends with
/// the last.
pub open spec fn well_spanned(inp: Input, st: State, r: Parsed<ExprModel>) -> bool {
    &&& moved_on(inp, st, r)
    &&& r.value matches Some(e) ==> st.pos < inp.tokens.len() && nested(e) && e.span.start.0
        == inp.tokens[st.pos as int].location.start && e.span.end == st.after(r).last_pos
}

/// The expression that the step `r` gave, if it gave one, is well nested,
/// starts at `lo` and ends with the last token that was read.
pub open spec fn carries_on(inp: Input, st: State, r: Parsed<ExprModel>, lo: usize) -> bool {
    &&& moved_on(inp, st, r)
    &&& r.value matches Some(e) ==> nested(e) && e.span.start.0 == lo && e.span.end == st.after(
        r,
    ).last_pos
}

pub proof fn advance_moves_on(inp: Input, st: State)
    requires
        in_order(inp),
        behind(inp, st),
    ensures
        behind(inp, advance(inp, st)),
        onward(st, advance(inp, st)),
        st.pos < inp.tokens.len() ==> advance(inp, st).last_pos.0
            == inp.tokens[st.pos as int].location.end && inp.tokens[st.pos as int].location.start
            <= advance(inp, st).last_pos.0,
{
    if st.pos < inp.tokens.len() {
        assert(st.last_pos.0 <= inp.tokens[st.pos as int].location.start);
    }
}

pub proof fn recover_moves_on(inp: Input, st: State)
    requires
        behind(inp, st),
    ensures
        behind(inp, recover(inp, st)),
        onward(st, recover(inp, st)),
{
    reveal(recover);
    lemma_statement_end(inp, st.pos);
}

pub proof fn expect_token_moves_on(inp: Input, st: State, kind: TokenType)
    requires
        in_order(inp),
        behind(inp, st),
    ensures
        moved_on(inp, st, expect_token(inp, st, kind)),
{
    advance_moves_on(inp, st);
    recover_moves_on(inp, crate::grammar::with_error(inp, st, kind.name(), peek(inp, st)));
}

pub proof fn expect_identifier_moves_on(inp: Input, st: State)
    requires
        in_order(inp),
        behind(inp, st),
    ensures
        moved_on(inp, st, expect_identifier(inp, st)),
{
    advance_moves_on(inp, st);
    recover_moves_on(inp, crate::grammar::with_error(inp, st, "identifier"@, peek(inp, st)));
}

pub proof fn expression_nests(inp: Input, st: State)
    requires
        in_order(inp),
        behind(inp, st),
    ensures
        well_spanned(inp, st, expression(inp, st)),
    decreases left(inp, st), 5nat,
{
    reveal(expression);
    reveal(prefix);
    reveal(infix_rest);
    prefix_nests(inp, st);
    let r = prefix(inp, st);
    if r.value is Some {
        infix_rest_nests(inp, st.after(r), r.value->0, inp.tokens[st.pos as int].location.start);
    }
}

#[verifier::rlimit(50)]
pub proof fn infix_rest_nests(inp: Input, st: State, first: ExprModel, lo: usize)
    requires
        in_order(inp),
        behind(inp, st),
        nested(first),
        first.span.start.0 == lo,
        first.span.end == st.last_pos,
    ensures
        carries_on(inp, st, infix_rest(inp, st, first), lo),
    decreases left(inp, st), 4nat,
{
    reveal(infix_rest);
    reveal(expression);
    reveal(prefix);
    let kind = peek(inp, st).token_type;
    let st1 = advance(inp, st);
    advance_moves_on(inp, st);
    if kind == TokenType::QuestionMark {
        expression_nests(inp, st1);
        let r1 = expression(inp, st1);
        let st2 = st1.after(r1);
        if r1.value is Some {
            expect_token_moves_on(inp, st2, TokenType::Colon);
            let r2 = expect_token(inp, st2, TokenType::Colon);
            let st3 = st2.after(r2);
            if r2.value is Some {
                expression_nests(inp, st3);
            }
        }
    } else if joins_expressions(kind) {
        prefix_nests(inp, st1);
        let r1 = prefix(inp, st1);
        let st2 = st1.after(r1);
        if r1.value is Some {
            let right = r1.value->0;
            let node = ExprModel {
                id: st2.id + 1,
                span: Span { start: first.span.start, end: right.span.end },
                kind: ExprKindModel::Infix {
                    left: Box::new(first),
                    operator: kind,
                    right: Box::new(right),
                },
            };
            assert(nested(node));
            infix_rest_nests(inp, st2.numbered(), node, lo);
        }
    }
}

#[verifier::rlimit(50)]
pub proof fn prefix_nests(inp: Input, st: State)
    requires
        in_order(inp),
        behind(inp, st),
    ensures
        well_spanned(inp, st, prefix(inp, st)),
    decreases left(inp, st), 3nat,
{
    reveal(prefix);
    reveal(ident_expression);
    reveal(list);
    reveal(expression);
    let t = peek(inp, st);
    let kind = t.token_type;
    let st1 = advance(inp, st);
    advance_moves_on(inp, st);
    if kind == TokenType::Number || kind == TokenType::StringLiteral {
    } else if kind == TokenType::Ident {
        ident_expression_nests(inp, st);
    } else if kind == TokenType::LeftCurlyBrace {
        list_nests(inp, st1, ListKind::Entries, TokenType::RightCurlyBrace, t.location.start);
    } else if kind == TokenType::LeftBracket {
        list_nests(inp, st1, ListKind::Expressions, TokenType::RightBracket, t.location.start);
    } else if kind == TokenType::LeftParenthesis {
        expression_nests(inp, st1);
        let r1 = expression(inp, st1);
        if r1.value is Some {
            expect_token_moves_on(inp, st1.after(r1), TokenType::RightParenthesis);
        }
    } else if kind == TokenType::Minus || kind == TokenType::Bang {
        prefix_nests(inp, st1);
    } else {
        recover_moves_on(inp, crate::grammar::with_error(inp, st, "expression"@, t));
    }
}

pub proof fn ident_expression_nests(inp: Input, st: State)
    requires
        in_order(inp),
        behind(inp, st),
    ensures
        well_spanned(inp, st, ident_expression(inp, st)),
    decreases left(inp, st), 2nat,
{
    reveal(ident_expression);
    reveal(ident_rest);
    let t = peek(inp, st);
    expect_identifier_moves_on(inp, st);
    advance_moves_on(inp, st);
    let r = expect_identifier(inp, st);
    let st1 = st.after(r);
    if r.value is Some {
        let node = expr_node(
            st1,
            t.location.start,
            ExprKindModel::Identifier { name: r.value->0, name_location: t.location },
        );
        ident_rest_nests(inp, st1.numbered(), t.location.start, node);
    }
}

#[verifier::rlimit(50)]
pub proof fn ident_rest_nests(inp: Input, st: State, start: usize, first: ExprModel)
    requires
        in_order(inp),
        behind(inp, st),
        nested(first),
        first.span.start.0 == start,
        first.span.end == st.last_pos,
    ensures
        carries_on(inp, st, ident_rest(inp, st, start, first), start),
    decreases left(inp, st), 1nat,
{
    reveal(ident_rest);
    reveal(call_suffix);
    reveal(subscript_suffix);
    let kind = peek(inp, st).token_type;
    let st1 = advance(inp, st);
    advance_moves_on(inp, st);
    if kind == TokenType::LeftParenthesis && !(first.kind is Function) {
        call_suffix_nests(inp, st1, start, first);
        let r = call_suffix(inp, st1, start, first);
        if r.value is Some {
            ident_rest_nests(inp, st1.after(r), start, r.value->0);
        }
    } else if kind == TokenType::LeftBracket {
        subscript_suffix_nests(inp, st1, start, first);
        let r = subscript_suffix(inp, st1, start, first);
        if r.value is Some {
            ident_rest_nests(inp, st1.after(r), start, r.value->0);
        }
    }
}

#[verifier::rlimit(50)]
pub proof fn call_suffix_nests(inp: Input, st: State, start: usize, first: ExprModel)
    requires
        in_order(inp),
        behind(inp, st),
        inside(first, start, st.last_pos.0),
        first.span.start.0 == start,
    ensures
        carries_on(inp, st, call_suffix(inp, st, start, first), start),
    decreases left(inp, st), 11nat,
{
    reveal(call_suffix);
    reveal(list);
    list_nests(inp, st, ListKind::Expressions, TokenType::RightParenthesis, start);
}

#[verifier::rlimit(50)]
pub proof fn subscript_suffix_nests(inp: Input, st: State, start: usize, first: ExprModel)
    requires
        in_order(inp),
        behind(inp, st),
        inside(first, start, st.last_pos.0),
        first.span.start.0 == start,
    ensures
        carries_on(inp, st, subscript_suffix(inp, st, start, first), start),
    decreases left(inp, st), 11nat,
{
    reveal(subscript_suffix);
    reveal(subscript);
    subscript_nests(inp, st, start);
    let r1 = subscript(inp, st);
    let st1 = st.after(r1);
    if r1.value is Some {
        expect_token_moves_on(inp, st1, TokenType::RightBracket);
        let r2 = expect_token(inp, st1, TokenType::RightBracket);
        let st2 = st1.after(r2);
        if r2.value is Some {
            let idx = r1.value->0;
            let node = expr_node(
                st2,
                start,
                ExprKindModel::ArraySubscript { base: Box::new(first), idx: Box::new(idx) },
            );
            assert(subscript_inside(idx, start, st2.last_pos.0));
            assert(nested(node));
        }
    }
}

#[verifier::rlimit(50)]
pub proof fn subscript_nests(inp: Input, st: State, lo: usize)
    requires
        in_order(inp),
        behind(inp, st),
        lo <= st.last_pos.0,
    ensures
        moved_on(inp, st, subscript(inp, st)),
        subscript(inp, st).value matches Some(idx) ==> subscript_inside(
            idx,
            lo,
            st.after(subscript(inp, st)).last_pos.0,
        ),
    decreases left(inp, st), 7nat,
{
    reveal(subscript);
    reveal(subscript_tail);
    reveal(expression);
    if peek(inp, st).token_type != TokenType::Colon {
        expression_nests(inp, st);
        let r = expression(inp, st);
        if r.value is Some {
            subscript_tail_nests(inp, st.after(r), r.value, lo);
        }
    } else {
        subscript_tail_nests(inp, st, None, lo);
    }
}

#[verifier::rlimit(50)]
pub proof fn subscript_tail_nests(inp: Input, st: State, first: Option<ExprModel>, lo: usize)
    requires
        in_order(inp),
        behind(inp, st),
        lo <= st.last_pos.0,
        first matches Some(x) ==> inside(x, lo, st.last_pos.0),
    ensures
        moved_on(inp, st, subscript_tail(inp, st, first)),
        subscript_tail(inp, st, first).value matches Some(idx) ==> subscript_inside(
            idx,
            lo,
            st.after(subscript_tail(inp, st, first)).last_pos.0,
        ),
    decreases left(inp, st), 6nat,
{
    reveal(subscript_tail);
    reveal(expression);
    advance_moves_on(inp, st);
    if peek(inp, st).token_type == TokenType::Colon {
        let st1 = advance(inp, st);
        if peek(inp, st1).token_type != TokenType::RightBracket {
            expression_nests(inp, st1);
        }
    }
}

pub proof fn entry_nests(inp: Input, st: State, lo: usize)
    requires
        in_order(inp),
        behind(inp, st),
        lo <= st.last_pos.0,
    ensures
        moved_on(inp, st, entry(inp, st)),
        entry(inp, st).value matches Some(e) ==> inside(
            e.value,
            lo,
            st.after(entry(inp, st)).last_pos.0,
        ),
    decreases left(inp, st), 7nat,
{
    reveal(entry);
    reveal(expression);
    let t = peek(inp, st);
    advance_moves_on(inp, st);
    if t.token_type == TokenType::StringLiteral {
        let st1 = advance(inp, st);
        expect_token_moves_on(inp, st1, TokenType::Colon);
        let r1 = expect_token(inp, st1, TokenType::Colon);
        if r1.value is Some {
            expression_nests(inp, st1.after(r1));
        }
    } else {
        recover_moves_on(
            inp,
            crate::grammar::with_error(inp, st, TokenType::StringLiteral.name(), t),
        );
    }
}

pub proof fn item_nests(inp: Input, st: State, kind: ListKind, acc: ItemsModel, lo: usize)
    requires
        in_order(inp),
        behind(inp, st),
        lo <= st.last_pos.0,
        items_inside(acc, lo, st.last_pos.0),
    ensures
        moved_on(inp, st, item(inp, st, kind, acc)),
        item(inp, st, kind, acc).value matches Some(items) ==> items_inside(
            items,
            lo,
            st.after(item(inp, st, kind, acc)).last_pos.0,
        ),
    decreases left(inp, st), 8nat,
{
    reveal(item);
    reveal(expression);
    reveal(entry);
    match kind {
        ListKind::Expressions => {
            expression_nests(inp, st);
        },
        ListKind::Names => {
            expect_identifier_moves_on(inp, st);
        },
        ListKind::Entries => {
            entry_nests(inp, st, lo);
        },
    }
}

pub proof fn list_nests(inp: Input, st: State, kind: ListKind, end: TokenType, lo: usize)
    requires
        in_order(inp),
        behind(inp, st),
        lo <= st.last_pos.0,
    ensures
        moved_on(inp, st, list(inp, st, kind, end)),
        list(inp, st, kind, end).value matches Some(items) ==> items_inside(
            items,
            lo,
            st.after(list(inp, st, kind, end)).last_pos.0,
        ),
    decreases left(inp, st), 10nat,
{
    reveal(list);
    reveal(item);
    reveal(list_rest);
    advance_moves_on(inp, st);
    if peek(inp, st).token_type != end {
        item_nests(inp, st, kind, no_items(), lo);
        let r = item(inp, st, kind, no_items());
        if r.value is Some {
            list_rest_nests(inp, st.after(r), kind, end, r.value->0, lo);
        }
    }
}

pub proof fn list_rest_nests(
    inp: Input,
    st: State,
    kind: ListKind,
    end: TokenType,
    acc: ItemsModel,
    lo: usize,
)
    requires
        in_order(inp),
        behind(inp, st),
        lo <= st.last_pos.0,
        items_inside(acc, lo, st.last_pos.0),
    ensures
        moved_on(inp, st, list_rest(inp, st, kind, end, acc)),
        list_rest(inp, st, kind, end, acc).value matches Some(items) ==> items_inside(
            items,
            lo,
            st.after(list_rest(inp, st, kind, end, acc)).last_pos.0,
        ),
    decreases left(inp, st), 9nat,
{
    reveal(list_rest);
    reveal(item);
    let t = peek(inp, st);
    let st1 = advance(inp, st);
    advance_moves_on(inp, st);
    advance_moves_on(inp, st1);
    if t.token_type == end {
    } else if t.token_type == TokenType::Comma {
        if peek(inp, st1).token_type != end {
            item_nests(inp, st1, kind, acc, lo);
            let r = item(inp, st1, kind, acc);
            if r.value is Some {
                list_rest_nests(inp, st1.after(r), kind, end, r.value->0, lo);
            }
        }
    } else {
        recover_moves_on(inp, crate::grammar::with_error(inp, st, "`,` or `)`"@, t));
    }
}

} // verus!
