use vimscript_core::lexer::{Lexer, TokenType};
use vimscript_core::token_iterator::TokenIterator;

#[test]
fn next_returns_eof_for_empty_iterator() {
    let mut lexer = Lexer::new("");
    let mut tokens = lexer.lex();
    tokens.push(lexer.eof_token());
    let mut iter = TokenIterator::new(tokens);
    assert_eq!(iter.next().token_type, TokenType::Eof);
}

#[test]
fn next_returns_next_token_and_advances() {
    let mut lexer = Lexer::new("for in");
    let mut tokens = lexer.lex();
    tokens.push(lexer.eof_token());
    let mut iter = TokenIterator::new(tokens);
    assert_eq!(iter.next().token_type, TokenType::For);
    assert_eq!(iter.next().token_type, TokenType::In);
    assert_eq!(iter.next().token_type, TokenType::Eof);
}

#[test]
fn peek_returns_next_token_without_advancing() {
    let mut lexer = Lexer::new("for in");
    let mut tokens = lexer.lex();
    tokens.push(lexer.eof_token());
    let mut iter = TokenIterator::new(tokens);
    assert_eq!(iter.peek().token_type, TokenType::For);
    assert_eq!(iter.peek().token_type, TokenType::For);
}

#[test]
fn next_stays_at_the_last_token() {
    let mut lexer = Lexer::new("for");
    let mut tokens = lexer.lex();
    tokens.push(lexer.eof_token());
    let mut iter = TokenIterator::new(tokens);
    assert_eq!(iter.next().token_type, TokenType::For);
    assert_eq!(iter.next().token_type, TokenType::Eof);
    assert_eq!(iter.next().token_type, TokenType::Eof);
    iter.advance();
    assert_eq!(iter.peek().token_type, TokenType::Eof);
}
