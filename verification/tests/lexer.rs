use vimscript_core::lexer::Lexer;
use vimscript_core::lexer::SourcePosition;
use vimscript_core::lexer::TokenPosition;
use vimscript_core::lexer::TokenType;

fn parse_source(source: &str) -> Vec<(TokenType, &str)> {
    let mut lexer = Lexer::new(source);
    return lexer
        .lex()
        .into_iter()
        .map(|t| (t.token_type, lexer.token_text(&t.location)))
        .collect();
}

#[test]
fn parses_sample_vimscript() {
    assert_eq!(
        parse_source(
            "let s:enabled = 15
                 function! plug#name(...) abort
                   if a:test_123
                   endif
                 endfunction"
        ),
        &[
            (TokenType::Let, "let"),
            (TokenType::Ident, "s:enabled"),
            (TokenType::Assign, "="),
            (TokenType::Number, "15"),
            (TokenType::NewLine, "\n"),
            (TokenType::Function, "function"),
            (TokenType::Bang, "!"),
            (TokenType::Ident, "plug#name"),
            (TokenType::LeftParenthesis, "("),
            (TokenType::Variadic, "..."),
            (TokenType::RightParenthesis, ")"),
            (TokenType::Abort, "abort"),
            (TokenType::NewLine, "\n"),
            (TokenType::If, "if"),
            (TokenType::Ident, "a:test_123"),
            (TokenType::NewLine, "\n"),
            (TokenType::EndIf, "endif"),
            (TokenType::NewLine, "\n"),
            (TokenType::EndFunction, "endfunction"),
        ],
    );
}

#[test]
fn parses_concatenation_of_string_literals() {
    assert_eq!(
        parse_source("'a' . 'b'"),
        &[
            (TokenType::StringLiteral, "'a'"),
            (TokenType::Dot, "."),
            (TokenType::StringLiteral, "'b'"),
        ],
    );
}

#[test]
fn parses_comma_colon_question_mark() {
    assert_eq!(
        parse_source(", : ?"),
        &[
            (TokenType::Comma, ","),
            (TokenType::Colon, ":"),
            (TokenType::QuestionMark, "?"),
        ],
    );
}

#[test]
fn parses_pipe_and_or() {
    assert_eq!(
        parse_source("| ||"),
        &[(TokenType::Pipe, "|"), (TokenType::Or, "||"),]
    );
}

#[test]
fn parses_reserved_words() {
    assert_eq!(
        parse_source("let return execute call break set for endfor while endwhile if endif function endfunction abort in"),
        &[
            (TokenType::Let, "let"),
            (TokenType::Return, "return"),
            (TokenType::Execute, "execute"),
            (TokenType::Call, "call"),
            (TokenType::Break, "break"),
            (TokenType::SetOption, "set"),
            (TokenType::For, "for"),
            (TokenType::EndFor, "endfor"),
            (TokenType::While, "while"),
            (TokenType::EndWhile, "endwhile"),
            (TokenType::If, "if"),
            (TokenType::EndIf, "endif"),
            (TokenType::Function, "function"),
            (TokenType::EndFunction, "endfunction"),
            (TokenType::Abort, "abort"),
            (TokenType::In, "in"),
        ],
    );
}

#[test]
fn parses_for_statement() {
    assert_eq!(
        parse_source("for [a, b] in items endfor",),
        &[
            (TokenType::For, "for"),
            (TokenType::LeftBracket, "["),
            (TokenType::Ident, "a"),
            (TokenType::Comma, ","),
            (TokenType::Ident, "b"),
            (TokenType::RightBracket, "]"),
            (TokenType::In, "in"),
            (TokenType::Ident, "items"),
            (TokenType::EndFor, "endfor"),
        ]
    );
}

#[test]
fn parses_quote_expression() {
    assert_eq!(
        parse_source("endif \"some\""),
        &[
            (TokenType::EndIf, "endif"),
            (TokenType::StringLiteral, "\"some\"")
        ]
    );
}

#[test]
fn skips_comments() {
    assert_eq!(
        parse_source(",\" some comment\n="),
        &[
            (TokenType::Comma, ","),
            (TokenType::Invalid, "\" some comment"),
            (TokenType::NewLine, "\n"),
            (TokenType::Assign, "=")
        ],
    );
}

#[test]
fn returns_no_tokens_when_input_is_empty() {
    assert_eq!(parse_source(""), &[])
}

#[test]
fn parses_string_literals() {
    assert_eq!(
        parse_source("'That''s enough.'"),
        &[(TokenType::StringLiteral, "'That''s enough.'"),]
    )
}

#[test]
fn parses_string_literals_with_new_lines() {
    assert_eq!(
        parse_source("'That\n \\is valid literal'"),
        &[(TokenType::StringLiteral, "'That\n \\is valid literal'"),]
    )
}

#[test]
fn returns_invalid_string_for_multi_line_literal_without_backslash() {
    assert_eq!(
        parse_source("'That\n '"),
        &[(TokenType::Invalid, "'That\n "), (TokenType::Invalid, "'"),]
    )
}

#[test]
fn parses_comparison_operators() {
    assert_eq!(
        parse_source("==# !=# ==? !=? == != < <= > >= &&"),
        &[
            (TokenType::EqualCaseSensitive, "==#"),
            (TokenType::InEqualCaseSensitive, "!=#"),
            (TokenType::EqualCaseInSensitive, "==?"),
            (TokenType::InEqualCaseInSensitive, "!=?"),
            (TokenType::Equal, "=="),
            (TokenType::InEqual, "!="),
            (TokenType::Less, "<"),
            (TokenType::LessOrEqual, "<="),
            (TokenType::Greater, ">"),
            (TokenType::GreaterOrEqual, ">="),
            (TokenType::And, "&&"),
        ],
    )
}

#[test]
fn parses_math_operators() {
    assert_eq!(
        parse_source("+ += - -= * *= / /= % %= . .="),
        &[
            (TokenType::Plus, "+"),
            (TokenType::PlusAssign, "+="),
            (TokenType::Minus, "-"),
            (TokenType::MinusAssign, "-="),
            (TokenType::Multiply, "*"),
            (TokenType::MultiplyAssign, "*="),
            (TokenType::Divide, "/"),
            (TokenType::DivideAssign, "/="),
            (TokenType::Modulo, "%"),
            (TokenType::ModuloAssign, "%="),
            (TokenType::Dot, "."),
            (TokenType::DotAssign, ".="),
        ],
    )
}

#[test]
fn parses_two_string_literals() {
    assert_eq!(
        parse_source(r#"endif "foo" "bar""#),
        &[
            (TokenType::EndIf, "endif"),
            (TokenType::StringLiteral, "\"foo\""),
            (TokenType::StringLiteral, "\"bar\""),
        ],
    )
}

#[test]
fn parses_identifier_with_capital_letter() {
    assert_eq!(
        parse_source(r#"s:Length"#),
        &[(TokenType::Ident, "s:Length"),],
    )
}

#[test]
fn parses_identifier_with_ampersand() {
    assert_eq!(parse_source(r#"&paste"#), &[(TokenType::Ident, "&paste"),],)
}

#[test]
fn parses_string_literal_with_escaped_quote() {
    assert_eq!(
        parse_source(r#"endif "\"foo""#),
        &[
            (TokenType::EndIf, "endif"),
            (TokenType::StringLiteral, r#""\"foo""#),
        ],
    )
}

#[test]
fn parses_comment_with_quotes_in_it() {
    assert_eq!(parse_source(r#"" This is comment with "quotes""#), &[])
}

#[test]
fn includes_new_line_after_comment() {
    assert_eq!(
        parse_source("\"comment\nendif"),
        &[(TokenType::NewLine, "\n"), (TokenType::EndIf, "endif"),]
    )
}

#[test]
fn parses_line_breaks() {
    assert_eq!(
        parse_source("a + \n \t\\ b"),
        &[
            (TokenType::Ident, "a"),
            (TokenType::Plus, "+"),
            (TokenType::Ident, "b"),
        ]
    )
}

#[test]
fn parses_try_catch_keywords() {
    assert_eq!(
        parse_source("try catch finally endtry"),
        &[
            (TokenType::Try, "try"),
            (TokenType::Catch, "catch"),
            (TokenType::Finally, "finally"),
            (TokenType::EndTry, "endtry"),
        ]
    )
}

#[test]
fn returns_correct_token_position() {
    let mut lexer = Lexer::new("unknown");
    let tokens = lexer.lex();
    let position = lexer.token_position(&tokens[0].location);
    assert_eq!(
        position,
        TokenPosition {
            start: SourcePosition {
                line: 0,
                character: 0
            },
            end: SourcePosition {
                line: 0,
                character: 7
            },
        }
    )
}

#[test]
fn passes_over_tabs_between_tokens() {
    assert_eq!(
        parse_source("a\tb"),
        &[(TokenType::Ident, "a"), (TokenType::Ident, "b")]
    );
    assert_eq!(
        parse_source("\tlet\t \tx\t=\t1\t"),
        &[
            (TokenType::Let, "let"),
            (TokenType::Ident, "x"),
            (TokenType::Assign, "="),
            (TokenType::Number, "1"),
        ]
    );
}

#[test]
fn continues_string_literals_after_spaces_and_tabs() {
    assert_eq!(
        parse_source("'That\n\t \t\\is valid literal'"),
        &[(TokenType::StringLiteral, "'That\n\t \t\\is valid literal'"),]
    );
    assert_eq!(
        parse_source("'That\n\t'"),
        &[(TokenType::Invalid, "'That\n\t"), (TokenType::Invalid, "'"),]
    );
}

#[test]
fn closes_a_quoted_literal_at_the_first_quote_that_is_not_escaped() {
    assert_eq!(
        parse_source(r#"x "a\"" y"#),
        &[
            (TokenType::Ident, "x"),
            (TokenType::StringLiteral, r#""a\"""#),
            (TokenType::Ident, "y"),
        ]
    );
    assert_eq!(
        parse_source(r#"x "a\\" y"#),
        &[
            (TokenType::Ident, "x"),
            (TokenType::StringLiteral, r#""a\\""#),
            (TokenType::Ident, "y"),
        ]
    );
    assert_eq!(
        parse_source(r#"x "\\\"" y"#),
        &[
            (TokenType::Ident, "x"),
            (TokenType::StringLiteral, r#""\\\"""#),
            (TokenType::Ident, "y"),
        ]
    );
}

#[test]
fn a_quoted_literal_that_the_line_cuts_short_is_invalid() {
    assert_eq!(
        parse_source("x \"open\ny"),
        &[
            (TokenType::Ident, "x"),
            (TokenType::Invalid, "\"open"),
            (TokenType::NewLine, "\n"),
            (TokenType::Ident, "y"),
        ]
    );
    assert_eq!(
        parse_source("x \"open\\\""),
        &[(TokenType::Ident, "x"), (TokenType::Invalid, "\"open\\\""),]
    );
    assert_eq!(
        parse_source("\"open\ny"),
        &[(TokenType::NewLine, "\n"), (TokenType::Ident, "y"),]
    );
}
