//! The chain of `if`, `elseif` and `else` as a text: its tokens, and the
//! statement that it parses into.
use crate::ast_model::{ElseModel, ExprKindModel, IfModel, StmtKindModel, StmtModel};
use crate::grammar::{
    advance, if_statement, initial, program, statement_of, statement_of_cases, Input,
    ParseErrorModel,
};
use crate::laws::{
    chain_of, chain_tokens, chain_tokens_nest, else_if_depth, input_of, last_else, statements_of,
};
use crate::lexer::{Token, TokenType};
use crate::peekable_chars_with_position::{
    char_at, chars_from, cursor_ok, lemma_chars_from, peek_at, step,
};
use crate::scanner::{
    blanks_end, identifier_end, is_digit, is_identifier_char, keyword, lex_from, read_token, token,
};
use crate::text::text_of;
use vstd::prelude::*;
use vstd::utf8::{
    encode_utf8, encode_utf8_decode_utf8, encode_utf8_valid_utf8, is_ascii_chars,
    is_ascii_chars_encode_utf8, is_char_boundary_iff_not_is_continuation_byte,
    is_char_boundary_start_end_of_seq,
};

verus! {

/// A text of ASCII characters that a machine can hold.
pub open spec fn plain_text(text: Seq<char>) -> bool {
    is_ascii_chars(text) && text.len() <= usize::MAX
}

/// The bytes `a..b` of a text of ASCII characters are its characters `a..b`.
pub proof fn ascii_range(text: Seq<char>, a: int, b: int)
    requires
        plain_text(text),
        0 <= a <= b <= text.len(),
    ensures
        encode_utf8(text).len() == text.len(),
        text_of(encode_utf8(text), a, b) == text.subrange(a, b),
{
    let src = encode_utf8(text);
    let part = text.subrange(a, b);
    is_ascii_chars_encode_utf8(text);
    assert(is_ascii_chars(part));
    is_ascii_chars_encode_utf8(part);
    assert(src.subrange(a, b) =~= encode_utf8(part));
    encode_utf8_decode_utf8(part);
}

/// In a text of ASCII characters every offset is a place for a cursor,
/// the character at an offset is the one of that index, and the next
/// offset is one further.
pub proof fn ascii_at(text: Seq<char>, i: int)
    requires
        plain_text(text),
        0 <= i <= text.len(),
    ensures
        encode_utf8(text).len() == text.len(),
        cursor_ok(encode_utf8(text), i),
        i < text.len() ==> peek_at(encode_utf8(text), i) == Some(text[i]) && step(
            encode_utf8(text),
            i,
        ) == i + 1,
        i == text.len() ==> peek_at(encode_utf8(text), i) is None,
{
    let src = encode_utf8(text);
    is_ascii_chars_encode_utf8(text);
    encode_utf8_valid_utf8(text);
    if i < text.len() {
        assert(src[i] == text[i] as u8);
        assert(src[i] < 0x80);
        is_char_boundary_iff_not_is_continuation_byte(src, i);
        ascii_range(text, i, text.len() as int);
        lemma_chars_from(src, i);
        assert(chars_from(src, i) == text.subrange(i, text.len() as int));
        assert(chars_from(src, i)[0] == char_at(src, i));
    } else {
        is_char_boundary_start_end_of_seq(src);
    }
}

/// The characters `p..q` of the text can be part of an identifier, and
/// the character after them, if there is one, cannot.
pub open spec fn identifier_run(text: Seq<char>, p: int, q: int) -> bool {
    &&& 0 <= p <= q <= text.len()
    &&& forall|k: int| p <= k < q ==> is_identifier_char(#[trigger] text[k])
    &&& q < text.len() ==> !is_identifier_char(text[q])
}

pub proof fn identifier_run_ends(text: Seq<char>, p: int, q: int)
    requires
        plain_text(text),
        identifier_run(text, p, q),
    ensures
        identifier_end(encode_utf8(text), p) == q,
    decreases q - p,
{
    ascii_at(text, p);
    if p < q {
        assert(is_identifier_char(text[p]));
        identifier_run_ends(text, p + 1, q);
    }
}

/// A character with which a word starts: a letter or `_`.
pub open spec fn starts_word(c: char) -> bool {
    ('a' <= c && c <= 'z') || ('A' <= c && c <= 'Z') || c == '_'
}

/// A word at `pos..q` of a text is one token: a keyword's, or an identifier.
pub proof fn word_is_a_token(text: Seq<char>, pos: int, q: int, first: bool)
    requires
        plain_text(text),
        0 <= pos < q,
        starts_word(text[pos]),
        identifier_run(text, pos + 1, q),
    ensures
        lex_from(encode_utf8(text), pos, first) == seq![
            token(keyword(text.subrange(pos, q)), pos, q),
        ] + lex_from(encode_utf8(text), q, false),
{
    let src = encode_utf8(text);
    ascii_at(text, pos);
    identifier_run_ends(text, pos + 1, q);
    ascii_range(text, pos, q);
    let scan = read_token(src, pos, first);
    assert(scan.next == q);
}

/// A space between tokens is passed over.
pub proof fn space_is_passed_over(text: Seq<char>, pos: int, first: bool)
    requires
        plain_text(text),
        0 <= pos < text.len(),
        text[pos] == ' ',
    ensures
        lex_from(encode_utf8(text), pos, first) == lex_from(encode_utf8(text), pos + 1, first),
{
    ascii_at(text, pos);
}

/// A line break before a word is a token of its own.
pub proof fn line_break_is_a_token(text: Seq<char>, pos: int, first: bool)
    requires
        plain_text(text),
        0 <= pos < text.len() - 1,
        text[pos] == '\n',
        starts_word(text[pos + 1]),
    ensures
        lex_from(encode_utf8(text), pos, first) == seq![token(TokenType::NewLine, pos, pos + 1)]
            + lex_from(encode_utf8(text), pos + 1, true),
{
    let src = encode_utf8(text);
    ascii_at(text, pos);
    ascii_at(text, pos + 1);
    assert(blanks_end(src, pos + 1) == pos + 1);
}

/// The word `w` stands at `pos` of the text.
pub open spec fn word_at(text: Seq<char>, pos: int, w: Seq<char>) -> bool {
    0 <= pos && pos + w.len() <= text.len() && text.subrange(pos, pos + w.len()) == w
}

/// A name: a word that starts with a letter or `_`, holds only characters
/// of identifiers, and is no keyword.
pub open spec fn is_name(c: Seq<char>) -> bool {
    &&& c.len() > 0
    &&& starts_word(c[0])
    &&& forall|k: int| 0 <= k < c.len() ==> is_identifier_char(#[trigger] c[k])
    &&& keyword(c) == TokenType::Ident
}

/// A word that holds only characters of identifiers and starts with a
/// letter or `_`.
pub open spec fn is_word(c: Seq<char>) -> bool {
    &&& c.len() > 0
    &&& starts_word(c[0])
    &&& forall|k: int| 0 <= k < c.len() ==> is_identifier_char(#[trigger] c[k])
}

/// The four keywords of a chain are words, and each is the keyword of its name.
pub proof fn chain_keywords()
    ensures
        is_word("if"@) && "if"@.len() == 2 && keyword("if"@) == TokenType::If,
        is_word("elseif"@) && "elseif"@.len() == 6 && keyword("elseif"@) == TokenType::ElseIf,
        is_word("else"@) && "else"@.len() == 4 && keyword("else"@) == TokenType::Else,
        is_word("endif"@) && "endif"@.len() == 5 && keyword("endif"@) == TokenType::EndIf,
{
    reveal_strlit("let");
    reveal_strlit("function");
    reveal_strlit("endfunction");
    reveal_strlit("if");
    reveal_strlit("else");
    reveal_strlit("elseif");
    reveal_strlit("endif");
    reveal_strlit("try");
    reveal_strlit("catch");
    reveal_strlit("finally");
    reveal_strlit("endtry");
    reveal_strlit("for");
    reveal_strlit("set");
    reveal_strlit("endfor");
    reveal_strlit("while");
    reveal_strlit("endwhile");
    reveal_strlit("in");
    reveal_strlit("call");
    reveal_strlit("break");
    reveal_strlit("execute");
    reveal_strlit("return");
    reveal_strlit("abort");
    assert("if"@[1] != "in"@[1]);
    assert("else"@[0] != "call"@[0]);
    assert("endif"@[0] != "catch"@[0]);
    assert("endif"@[0] != "break"@[0]);
    assert("endif"@[0] != "while"@[0]);
    assert("endif"@[0] != "abort"@[0]);
    assert("elseif"@[1] != "endfor"@[1]);
    assert("elseif"@[1] != "endtry"@[1]);
    assert("elseif"@[0] != "return"@[0]);
}

/// A word that stands at `pos` of a text, before a character that cannot
/// be part of an identifier or at the end of the text, is one token.
pub proof fn word_at_is_a_token(text: Seq<char>, pos: int, w: Seq<char>, first: bool)
    requires
        plain_text(text),
        is_word(w),
        word_at(text, pos, w),
        pos + w.len() < text.len() ==> !is_identifier_char(text[pos + w.len()]),
    ensures
        lex_from(encode_utf8(text), pos, first) == seq![
            token(keyword(w), pos, pos + w.len()),
        ] + lex_from(encode_utf8(text), pos + w.len(), false),
        text_of(encode_utf8(text), pos, pos + w.len()) == w,
{
    let q = pos + w.len();
    assert forall|k: int| pos <= k < q implies text[k] == w[k - pos] by {
        assert(text.subrange(pos, q)[k - pos] == text[k]);
    }
    assert(text[pos] == w[0]);
    assert forall|k: int| pos + 1 <= k < q implies is_identifier_char(#[trigger] text[k]) by {
        assert(is_identifier_char(w[k - pos]));
    }
    word_is_a_token(text, pos, q, first);
    ascii_range(text, pos, q);
}

/// Where a sequence from `j` on is `t` and then `rest`, `t` is at `j` and
/// `rest` is the sequence from `j + 1` on.
pub proof fn first_of_the_rest(all: Seq<Token>, j: int, t: Token, rest: Seq<Token>)
    requires
        0 <= j <= all.len(),
        all.subrange(j, all.len() as int) == seq![t] + rest,
    ensures
        j < all.len(),
        all[j] == t,
        all.subrange(j + 1, all.len() as int) == rest,
{
    let tail = all.subrange(j, all.len() as int);
    assert(tail.len() == 1 + rest.len());
    assert(tail[0] == t);
    assert(all.subrange(j + 1, all.len() as int) =~= rest) by {
        assert forall|k: int| 0 <= k < rest.len() implies all[j + 1 + k] == rest[k] by {
            assert(tail[k + 1] == rest[k]);
        }
    }
}

/// From `pos` on the text is the rest of a chain with the conditions
/// `cs[i..]`: for each of them `elseif`, a space, the condition and a
/// line break, then `else`, a line break and `endif`, where the text ends.
pub open spec fn chain_rest(text: Seq<char>, pos: int, cs: Seq<Seq<char>>, i: int) -> bool
    decreases cs.len() - i,
{
    if i >= cs.len() {
        &&& word_at(text, pos, "else"@)
        &&& text[pos + 4] == '\n'
        &&& word_at(text, pos + 5, "endif"@)
        &&& text.len() == pos + 10
    } else {
        &&& word_at(text, pos, "elseif"@)
        &&& text[pos + 6] == ' '
        &&& word_at(text, pos + 7, cs[i])
        &&& pos + 7 + cs[i].len() < text.len()
        &&& text[pos + 7 + cs[i].len()] == '\n'
        &&& chain_rest(text, pos + 8 + cs[i].len(), cs, i + 1)
    }
}

/// The text is a chain with the conditions `cs`: `if`, a space, the first
/// condition and a line break, and the rest of the chain.
pub open spec fn chain_text(text: Seq<char>, cs: Seq<Seq<char>>) -> bool {
    &&& cs.len() >= 1
    &&& forall|i: int| 0 <= i < cs.len() ==> is_name(#[trigger] cs[i])
    &&& word_at(text, 0, "if"@)
    &&& text[2] == ' '
    &&& word_at(text, 3, cs[0])
    &&& 3 + cs[0].len() < text.len()
    &&& text[3 + cs[0].len() as int] == '\n'
    &&& chain_rest(text, 4 + cs[0].len() as int, cs, 1)
}

/// From `j` on the tokens are those of the rest of a chain with the
/// conditions `cs[i..]`, and nothing else: for each condition `elseif`,
/// the identifier of that name and a line break, then `else`, a line
/// break and `endif`.
pub open spec fn rest_tokens(
    src: Seq<u8>,
    tokens: Seq<Token>,
    j: int,
    cs: Seq<Seq<char>>,
    i: int,
) -> bool
    decreases cs.len() - i,
{
    if i >= cs.len() {
        &&& tokens.len() == j + 3
        &&& tokens[j].token_type == TokenType::Else
        &&& tokens[j + 1].token_type == TokenType::NewLine
        &&& tokens[j + 2].token_type == TokenType::EndIf
    } else {
        &&& j + 3 <= tokens.len()
        &&& tokens[j].token_type == TokenType::ElseIf
        &&& names(src, tokens[j + 1], cs[i])
        &&& tokens[j + 2].token_type == TokenType::NewLine
        &&& rest_tokens(src, tokens, j + 3, cs, i + 1)
    }
}

/// The token is the identifier of the name `c`.
pub open spec fn names(src: Seq<u8>, t: Token, c: Seq<char>) -> bool {
    t.token_type == TokenType::Ident && text_of(
        src,
        t.location.start as int,
        t.location.end as int,
    ) == c
}

/// The rest of a chain starts with a word.
pub proof fn chain_rest_starts_with_a_word(text: Seq<char>, pos: int, cs: Seq<Seq<char>>, i: int)
    requires
        0 <= pos,
        chain_rest(text, pos, cs, i),
    ensures
        pos < text.len(),
        starts_word(text[pos]),
{
    chain_keywords();
    if i >= cs.len() {
        assert(text.subrange(pos, pos + 4)[0] == text[pos]);
    } else {
        assert(text.subrange(pos, pos + 6)[0] == text[pos]);
    }
}

/// `else`, a line break and `endif` at the end of a text are three tokens.
pub proof fn last_part_lexes(text: Seq<char>, pos: int, first: bool, tokens: Seq<Token>, j: int)
    requires
        plain_text(text),
        0 <= pos,
        word_at(text, pos, "else"@),
        text[pos + 4] == '\n',
        word_at(text, pos + 5, "endif"@),
        text.len() == pos + 10,
        0 <= j <= tokens.len(),
        tokens.subrange(j, tokens.len() as int) == lex_from(encode_utf8(text), pos, first),
    ensures
        tokens.len() == j + 3,
        tokens[j].token_type == TokenType::Else,
        tokens[j + 1].token_type == TokenType::NewLine,
        tokens[j + 2].token_type == TokenType::EndIf,
{
    let src = encode_utf8(text);
    let n = tokens.len() as int;
    chain_keywords();
    word_at_is_a_token(text, pos, "else"@, first);
    first_of_the_rest(
        tokens,
        j,
        token(TokenType::Else, pos, pos + 4),
        lex_from(src, pos + 4, false),
    );
    assert(text.subrange(pos + 5, pos + 10)[0] == text[pos + 5]);
    line_break_is_a_token(text, pos + 4, false);
    first_of_the_rest(
        tokens,
        j + 1,
        token(TokenType::NewLine, pos + 4, pos + 5),
        lex_from(src, pos + 5, true),
    );
    word_at_is_a_token(text, pos + 5, "endif"@, true);
    first_of_the_rest(
        tokens,
        j + 2,
        token(TokenType::EndIf, pos + 5, pos + 10),
        lex_from(src, pos + 10, false),
    );
    ascii_at(text, pos + 10);
    assert(lex_from(src, pos + 10, false) == Seq::<Token>::empty());
    assert(tokens.subrange(j + 3, n).len() == 0);
}

/// A word, a space, a name, a line break and the start of a word are
/// three tokens: the word's, the identifier of the name, and the line break.
pub proof fn part_lexes(
    text: Seq<char>,
    pos: int,
    first: bool,
    tokens: Seq<Token>,
    j: int,
    w: Seq<char>,
    c: Seq<char>,
)
    requires
        plain_text(text),
        0 <= pos,
        is_word(w),
        is_name(c),
        word_at(text, pos, w),
        text[pos + w.len()] == ' ',
        word_at(text, pos + w.len() + 1, c),
        pos + w.len() + 1 + c.len() + 1 < text.len(),
        text[pos + w.len() + 1 + c.len()] == '\n',
        starts_word(text[pos + w.len() + 1 + c.len() + 1]),
        0 <= j <= tokens.len(),
        tokens.subrange(j, tokens.len() as int) == lex_from(encode_utf8(text), pos, first),
    ensures
        j + 3 <= tokens.len(),
        tokens[j].token_type == keyword(w),
        tokens[j].location.start == pos,
        names(encode_utf8(text), tokens[j + 1], c),
        tokens[j + 2].token_type == TokenType::NewLine,
        tokens.subrange(j + 3, tokens.len() as int) == lex_from(
            encode_utf8(text),
            pos + w.len() + 1 + c.len() + 1,
            true,
        ),
{
    let src = encode_utf8(text);
    let p1 = pos + w.len();
    let p2 = p1 + 1;
    let q = p2 + c.len();
    word_at_is_a_token(text, pos, w, first);
    first_of_the_rest(tokens, j, token(keyword(w), pos, p1), lex_from(src, p1, false));
    space_is_passed_over(text, p1, false);
    word_at_is_a_token(text, p2, c, false);
    first_of_the_rest(tokens, j + 1, token(TokenType::Ident, p2, q), lex_from(src, q, false));
    line_break_is_a_token(text, q, false);
    first_of_the_rest(tokens, j + 2, token(TokenType::NewLine, q, q + 1), lex_from(src, q + 1, true));
}

/// The rest of a chain lexes into the tokens of the rest of a chain.
pub proof fn chain_rest_lexes(
    text: Seq<char>,
    pos: int,
    first: bool,
    tokens: Seq<Token>,
    j: int,
    cs: Seq<Seq<char>>,
    i: int,
)
    requires
        plain_text(text),
        0 <= i <= cs.len(),
        forall|k: int| 0 <= k < cs.len() ==> is_name(#[trigger] cs[k]),
        0 <= pos,
        chain_rest(text, pos, cs, i),
        0 <= j <= tokens.len(),
        tokens.subrange(j, tokens.len() as int) == lex_from(encode_utf8(text), pos, first),
    ensures
        rest_tokens(encode_utf8(text), tokens, j, cs, i),
    decreases cs.len() - i,
{
    chain_keywords();
    if i >= cs.len() {
        last_part_lexes(text, pos, first, tokens, j);
    } else {
        let c = cs[i];
        assert(is_name(c));
        let next = pos + 8 + c.len();
        chain_rest_starts_with_a_word(text, next, cs, i + 1);
        part_lexes(text, pos, first, tokens, j, "elseif"@, c);
        chain_rest_lexes(text, next, true, tokens, j + 3, cs, i + 1);
    }
}

/// The `if` statement `m` is the chain of the conditions `cs[i..]`: its
/// condition is the identifier `cs[i]`, its bodies are empty, each
/// further condition is that of an `elseif` part nested in the part
/// before it, and the last part holds the `else`.
pub open spec fn chain_named(m: IfModel, cs: Seq<Seq<char>>, i: int) -> bool
    decreases cs.len() - i,
{
    &&& m.condition.kind matches ExprKindModel::Identifier { name, .. } && name == cs[i]
    &&& m.then_branch == Seq::<StmtModel>::empty()
    &&& if i + 1 >= cs.len() {
        m.else_cond == ElseModel::Else(Seq::<StmtModel>::empty())
    } else {
        m.else_cond matches ElseModel::ElseIf(inner) && chain_named(*inner, cs, i + 1)
    }
}

/// The tokens of a chain are what `chain_tokens` asks for.
pub proof fn tokens_are_a_chain(inp: Input, p: int, cs: Seq<Seq<char>>, i: int)
    requires
        0 <= p,
        p + 2 <= inp.tokens.len(),
        0 <= i < cs.len(),
        inp.tokens[p].token_type == TokenType::Ident,
        inp.tokens[p + 1].token_type == TokenType::NewLine,
        rest_tokens(inp.src, inp.tokens, p + 2, cs, i + 1),
    ensures
        chain_tokens(inp, p, (cs.len() - 1 - i) as nat),
    decreases cs.len() - i,
{
    if i + 1 < cs.len() {
        tokens_are_a_chain(inp, p + 3, cs, i + 1);
    }
}

/// The chain that the tokens of a chain parse into has the conditions of
/// the chain, in their order.
pub proof fn chain_is_named(inp: Input, p: int, m: IfModel, cs: Seq<Seq<char>>, i: int)
    requires
        0 <= p < inp.tokens.len(),
        0 <= i < cs.len(),
        chain_of(inp, p, m, (cs.len() - 1 - i) as nat),
        names(inp.src, inp.tokens[p], cs[i]),
        rest_tokens(inp.src, inp.tokens, p + 2, cs, i + 1),
    ensures
        chain_named(m, cs, i),
    decreases cs.len() - i,
{
    if i + 1 < cs.len() {
        let inner = m.else_cond->ElseIf_0;
        chain_is_named(inp, p + 3, *inner, cs, i + 1);
    }
}

/// For every number of `elseif` parts: the text of `if`, `elseif` for
/// each further condition and `else`, each on a line of its own, parses
/// without an error into one `if` statement, in which each `elseif` part
/// is nested in the part before it and the last part holds the `else`.
/// The conditions are names, and the bodies are empty.
#[verifier::rlimit(50)]
pub proof fn chain_text_nests(text: Seq<char>, cs: Seq<Seq<char>>)
    requires
        plain_text(text),
        chain_text(text, cs),
    ensures
        program(input_of(text), initial()).errors == Seq::<ParseErrorModel>::empty(),
        statements_of(text).len() == 1,
        statements_of(text)[0].kind matches StmtKindModel::If(m) && chain_named(m, cs, 0)
            && else_if_depth(m) == cs.len() - 1 && last_else(m) is Else,
{
    let inp = input_of(text);
    let src = inp.src;
    let tokens = inp.tokens;
    let c = cs[0];
    assert(is_name(c));
    chain_keywords();
    let next = 4 + c.len() as int;
    chain_rest_starts_with_a_word(text, next, cs, 1);
    assert(tokens.subrange(0, tokens.len() as int) =~= tokens);
    part_lexes(text, 0, true, tokens, 0, "if"@, c);
    chain_rest_lexes(text, next, true, tokens, 3, cs, 1);
    tokens_are_a_chain(inp, 1, cs, 0);
    let n = (cs.len() - 1) as nat;
    let st0 = initial();
    let st1 = advance(inp, st0);
    assert(st1.pos == 1);
    chain_tokens_nest(inp, st1, n);
    let r = if_statement(inp, st1);
    let m = r.value->0;
    chain_is_named(inp, 1, m, cs, 0);
    tokens_count(src, tokens, 3, cs, 1);
    let s = statement_of(inp, tokens[0], st1);
    statement_of_cases(inp, tokens[0], st1);
    let st2 = st1.after(s);
    assert(st2.pos >= tokens.len());
    assert(program(inp, st2) == st2.done(st2, Some(Seq::<StmtModel>::empty()))) by {
        reveal(program);
    }
    assert(program(inp, st0).value == Some(seq![s.value->0] + Seq::<StmtModel>::empty())) by {
        reveal(program);
        reveal(statement_of);
    }
    assert(program(inp, st0).errors == st0.errors) by {
        reveal(program);
        reveal(statement_of);
    }
    assert(seq![s.value->0] + Seq::<StmtModel>::empty() =~= seq![s.value->0]);
}

/// The tokens of the rest of a chain are three for each condition and
/// three more.
pub proof fn tokens_count(src: Seq<u8>, tokens: Seq<Token>, j: int, cs: Seq<Seq<char>>, i: int)
    requires
        0 <= i <= cs.len(),
        rest_tokens(src, tokens, j, cs, i),
    ensures
        tokens.len() == j + 3 * (cs.len() - i) + 3,
    decreases cs.len() - i,
{
    if i < cs.len() {
        tokens_count(src, tokens, j + 3, cs, i + 1);
    }
}

/// The text of the rest of a chain with the conditions `cs[i..]`.
pub open spec fn rest_source(cs: Seq<Seq<char>>, i: int) -> Seq<char>
    decreases cs.len() - i,
{
    if i >= cs.len() {
        "else\nendif"@
    } else {
        "elseif "@ + (cs[i] + ("\n"@ + rest_source(cs, i + 1)))
    }
}

/// The text of a chain with the conditions `cs`, of which there is at
/// least one: `if` and the first condition on a line, `elseif` and a
/// condition on a line for each further condition, `else` on a line, and
/// `endif`.
pub open spec fn chain_source(cs: Seq<Seq<char>>) -> Seq<char> {
    "if "@ + (cs[0] + ("\n"@ + rest_source(cs, 1)))
}

/// Where a text from `pos` on is `a` and then `b`, `a` stands at `pos`
/// and `b` is the text from the end of `a` on.
pub proof fn text_splits(text: Seq<char>, pos: int, a: Seq<char>, b: Seq<char>)
    requires
        0 <= pos <= text.len(),
        text.subrange(pos, text.len() as int) == a + b,
    ensures
        pos + a.len() <= text.len(),
        text.subrange(pos, pos + a.len()) == a,
        text.subrange(pos + a.len(), text.len() as int) == b,
        forall|k: int| 0 <= k < a.len() ==> text[pos + k] == a[k],
{
    let tail = text.subrange(pos, text.len() as int);
    assert(tail.len() == a.len() + b.len());
    assert forall|k: int| 0 <= k < a.len() implies text[pos + k] == a[k] by {
        assert(tail[k] == a[k]);
    }
    assert(text.subrange(pos, pos + a.len()) =~= a);
    assert(text.subrange(pos + a.len(), text.len() as int) =~= b) by {
        assert forall|k: int| 0 <= k < b.len() implies text[pos + a.len() + k] == b[k] by {
            assert(tail[a.len() + k] == b[k]);
        }
    }
}

/// The names and the text of the rest of a chain are ASCII.
pub proof fn rest_source_is_ascii(cs: Seq<Seq<char>>, i: int)
    requires
        0 <= i <= cs.len(),
        forall|k: int| 0 <= k < cs.len() ==> is_name(#[trigger] cs[k]),
    ensures
        is_ascii_chars(rest_source(cs, i)),
    decreases cs.len() - i,
{
    reveal_strlit("else\nendif");
    reveal_strlit("elseif ");
    reveal_strlit("\n");
    if i < cs.len() {
        rest_source_is_ascii(cs, i + 1);
        let c = cs[i];
        assert(is_name(c));
        assert forall|k: int| 0 <= k < c.len() implies '\0' <= #[trigger] c[k] <= '\u{7f}' by {
            assert(is_identifier_char(c[k]));
        }
    }
}

/// A text that is from `pos` on the text of the rest of a chain has the
/// shape of the rest of a chain there.
pub proof fn rest_source_is_a_chain(text: Seq<char>, pos: int, cs: Seq<Seq<char>>, i: int)
    requires
        0 <= pos <= text.len(),
        0 <= i <= cs.len(),
        text.subrange(pos, text.len() as int) == rest_source(cs, i),
    ensures
        chain_rest(text, pos, cs, i),
    decreases cs.len() - i,
{
    reveal_strlit("else\nendif");
    reveal_strlit("else");
    reveal_strlit("endif");
    reveal_strlit("elseif ");
    reveal_strlit("elseif");
    reveal_strlit("\n");
    let tail = text.subrange(pos, text.len() as int);
    if i >= cs.len() {
        assert(tail.len() == 10);
        assert forall|k: int| 0 <= k < 10 implies text[pos + k] == "else\nendif"@[k] by {
            assert(tail[k] == text[pos + k]);
        }
        assert(text.subrange(pos, pos + 4) =~= "else"@);
        assert(text[pos + 5] == "else\nendif"@[5]);
        assert(text[pos + 6] == "else\nendif"@[6]);
        assert(text[pos + 7] == "else\nendif"@[7]);
        assert(text[pos + 8] == "else\nendif"@[8]);
        assert(text[pos + 9] == "else\nendif"@[9]);
        assert(text.subrange(pos + 5, pos + 10) =~= "endif"@);
        assert(text[pos + 4] == "else\nendif"@[4]);
        assert(word_at(text, pos, "else"@));
        assert(word_at(text, pos + 5, "endif"@));
        assert(text.len() == pos + 10);
    } else {
        let c = cs[i];
        let after = "\n"@ + rest_source(cs, i + 1);
        text_splits(text, pos, "elseif "@, c + after);
        assert(text.subrange(pos, pos + 6) =~= "elseif"@);
        assert(text[pos + 6] == "elseif "@[6]);
        text_splits(text, pos + 7, c, after);
        let q = pos + 7 + c.len();
        text_splits(text, q, "\n"@, rest_source(cs, i + 1));
        assert(text[q] == "\n"@[0]);
        rest_source_is_a_chain(text, q + 1, cs, i + 1);
        assert(word_at(text, pos, "elseif"@));
        assert(text[pos + 6] == ' ');
        assert(word_at(text, pos + 7, c));
        assert(q < text.len());
        assert(text[q] == '\n');
        assert(chain_rest(text, pos + 8 + c.len(), cs, i + 1));
    }
}

/// For every number of `elseif` parts: the text of a chain, with names
/// as its conditions, parses without an error into one `if` statement,
/// in which each `elseif` part is nested in the part before it, with
/// the condition of its place, and the last part holds the `else`.
pub proof fn chain_source_nests(cs: Seq<Seq<char>>)
    requires
        cs.len() >= 1,
        forall|i: int| 0 <= i < cs.len() ==> is_name(#[trigger] cs[i]),
        chain_source(cs).len() <= usize::MAX,
    ensures
        program(input_of(chain_source(cs)), initial()).errors == Seq::<ParseErrorModel>::empty(),
        statements_of(chain_source(cs)).len() == 1,
        statements_of(chain_source(cs))[0].kind matches StmtKindModel::If(m) && chain_named(
            m,
            cs,
            0,
        ) && else_if_depth(m) == cs.len() - 1 && last_else(m) is Else,
{
    let text = chain_source(cs);
    let c = cs[0];
    assert(is_name(c));
    let after = "\n"@ + rest_source(cs, 1);
    reveal_strlit("if ");
    reveal_strlit("if");
    reveal_strlit("\n");
    rest_source_is_ascii(cs, 1);
    assert(is_ascii_chars(text)) by {
        assert forall|k: int| 0 <= k < c.len() implies '\0' <= #[trigger] c[k] <= '\u{7f}' by {
            assert(is_identifier_char(c[k]));
        }
    }
    assert(text.subrange(0, text.len() as int) =~= text);
    text_splits(text, 0, "if "@, c + after);
    assert(text.subrange(0, 2) =~= "if"@);
    assert(text[2] == "if "@[2]);
    text_splits(text, 3, c, after);
    let q = 3 + c.len() as int;
    text_splits(text, q, "\n"@, rest_source(cs, 1));
    assert(text[q] == "\n"@[0]);
    rest_source_is_a_chain(text, q + 1, cs, 1);
    chain_rest_starts_with_a_word(text, q + 1, cs, 1);
    chain_text_nests(text, cs);
}

} // verus!
