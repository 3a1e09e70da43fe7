use vimscript_core::syntax::{lex, parse, Step, TextTokenSource, TextTreeSink, Token};
use vimscript_core::syntax_kind::SyntaxKind;
use vimscript_core::syntax_parser::TokenSource;

fn token(kind: SyntaxKind, len: usize) -> Token {
    Token { kind, len }
}

#[test]
fn lossless_lexer_covers_the_whole_text() {
    let source = "let l:a = 15\nfoo";
    let tokens = lex(source);
    assert_eq!(
        tokens,
        vec![
            token(SyntaxKind::LET_KW, 3),
            token(SyntaxKind::WHITESPACE, 1),
            token(SyntaxKind::IDENT, 3),
            token(SyntaxKind::WHITESPACE, 1),
            token(SyntaxKind::EQ, 1),
            token(SyntaxKind::WHITESPACE, 1),
            token(SyntaxKind::NUMBER, 2),
            token(SyntaxKind::NEW_LINE, 1),
            token(SyntaxKind::IDENT, 3),
        ]
    );
    assert_eq!(tokens.iter().map(|t| t.len).sum::<usize>(), source.len());
}

#[test]
fn lossless_lexer_takes_other_characters_as_identifiers() {
    assert_eq!(
        lex("é+"),
        vec![token(SyntaxKind::IDENT, 2), token(SyntaxKind::IDENT, 1)]
    );
    assert_eq!(lex(""), vec![]);
}

#[test]
fn parses_let_statement_into_events() {
    assert_eq!(
        parse("let  a = 5 "),
        Some(vec![
            Step::StartNode(SyntaxKind::ROOT),
            Step::StartNode(SyntaxKind::LET_STMT),
            Step::Token(SyntaxKind::LET_KW),
            Step::Token(SyntaxKind::WHITESPACE),
            Step::Token(SyntaxKind::WHITESPACE),
            Step::StartNode(SyntaxKind::LET_VAR),
            Step::Token(SyntaxKind::IDENT),
            Step::FinishNode,
            Step::Token(SyntaxKind::WHITESPACE),
            Step::Token(SyntaxKind::EQ),
            Step::Token(SyntaxKind::WHITESPACE),
            Step::Token(SyntaxKind::NUMBER),
            Step::Token(SyntaxKind::WHITESPACE),
            Step::FinishNode,
            Step::FinishNode,
        ])
    );
}

#[test]
fn parses_other_text_into_an_empty_root() {
    assert_eq!(
        parse("foo = 5"),
        Some(vec![Step::StartNode(SyntaxKind::ROOT), Step::FinishNode])
    );
    assert_eq!(
        parse(""),
        Some(vec![Step::StartNode(SyntaxKind::ROOT), Step::FinishNode])
    );
}

#[test]
fn let_statement_ends_in_end_of_file_tokens_where_the_text_ends() {
    assert_eq!(
        parse("let a ="),
        Some(vec![
            Step::StartNode(SyntaxKind::ROOT),
            Step::StartNode(SyntaxKind::LET_STMT),
            Step::Token(SyntaxKind::LET_KW),
            Step::Token(SyntaxKind::WHITESPACE),
            Step::StartNode(SyntaxKind::LET_VAR),
            Step::Token(SyntaxKind::IDENT),
            Step::FinishNode,
            Step::Token(SyntaxKind::WHITESPACE),
            Step::Token(SyntaxKind::EQ),
            Step::Token(SyntaxKind::EOF),
            Step::FinishNode,
            Step::FinishNode,
        ])
    );
}

#[test]
fn let_statement_without_assignment_cannot_be_parsed() {
    assert_eq!(parse("let a 5"), None);
    assert_eq!(parse("let"), None);
    assert_eq!(parse("let a"), None);
}

#[test]
fn token_source_yields_end_of_file_past_the_last_token() {
    let mut source = TextTokenSource {
        tokens: lex("="),
        current: 0,
    };
    assert_eq!(source.current(), SyntaxKind::EQ);
    source.bump();
    assert_eq!(source.current(), SyntaxKind::EOF);
    source.bump();
    assert_eq!(source.current(), SyntaxKind::EOF);
    let sink = TextTreeSink { steps: Vec::new() };
    assert_eq!(sink.steps, vec![]);
}

#[test]
fn syntax_kinds_are_numbered_in_order() {
    assert_eq!(SyntaxKind::EQ.to_raw(), 0);
    assert_eq!(SyntaxKind::__LAST.to_raw(), 13);
    for d in 0..=13u16 {
        assert_eq!(SyntaxKind::from_raw(d).to_raw(), d);
    }
}

#[test]
fn lossless_lexer_takes_a_tab_as_white_space() {
    assert_eq!(
        lex("let\ta \t= 1"),
        vec![
            token(SyntaxKind::LET_KW, 3),
            token(SyntaxKind::WHITESPACE, 1),
            token(SyntaxKind::IDENT, 1),
            token(SyntaxKind::WHITESPACE, 1),
            token(SyntaxKind::WHITESPACE, 1),
            token(SyntaxKind::EQ, 1),
            token(SyntaxKind::WHITESPACE, 1),
            token(SyntaxKind::NUMBER, 1),
        ]
    );
}
