use vimscript_core::lexer::{SourcePosition, TokenPosition};
use vimscript_core::rename::{rename, TextEdit};

fn at(line: usize, character: usize) -> SourcePosition {
    SourcePosition { line, character }
}

// This is still WIP.
#[test]
fn test() {
    let res = rename("let l:a = 5\ncall echo(l:a)", at(0, 5), "l:b").unwrap();
    assert_eq!(
        res,
        &[TextEdit {
            range: TokenPosition {
                start: at(1, 10),
                end: at(1, 13),
            },
            new_text: "l:b".to_string(),
        }]
    );
}

#[test]
fn rename_finds_every_call_argument_of_that_name() {
    let res = rename("call f(x, y, x)\ncall g(x)\ncall h(y)", at(0, 8), "z").unwrap();
    assert_eq!(
        res,
        &[
            TextEdit {
                range: TokenPosition {
                    start: at(0, 7),
                    end: at(0, 8),
                },
                new_text: "z".to_string(),
            },
            TextEdit {
                range: TokenPosition {
                    start: at(0, 13),
                    end: at(0, 14),
                },
                new_text: "z".to_string(),
            },
            TextEdit {
                range: TokenPosition {
                    start: at(1, 7),
                    end: at(1, 8),
                },
                new_text: "z".to_string(),
            },
        ]
    );
}

#[test]
fn rename_fails_where_no_identifier_is_under_the_cursor() {
    assert_eq!(rename("call f(x)", at(0, 2), "z"), Err(()));
    assert_eq!(rename("call f(x)", at(5, 0), "z"), Err(()));
}

#[test]
fn rename_fails_where_the_name_is_no_call_argument() {
    assert_eq!(rename("let a = 5", at(0, 4), "z"), Err(()));
}
