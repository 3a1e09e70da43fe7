use serde_json::Value;
use vimscript_core::ast::{
    ArraySubscript, CallStatement, ElseCond, Expr, ExprKind, FunctionStatement, IfStatement,
    LoopVariable, NodeId, Stmt, StmtKind,
};
use vimscript_core::lexer::{Lexer, SourcePosition, TokenPosition, TokenType};
use vimscript_core::parser::expression::parse;
use vimscript_core::parser::{ParseError, Parser, Program};
use vimscript_core::span::{BytePos, Span};

fn json(text: &str) -> Value {
    serde_json::from_str(text).unwrap()
}

fn object(entries: Vec<(&str, Value)>) -> Value {
    let mut map = serde_json::Map::new();
    for (key, value) in entries {
        map.insert(key.to_string(), value);
    }
    Value::Object(map)
}

fn number(digits: &str) -> Value {
    Value::from(digits.parse::<f64>().unwrap())
}

fn dump_exprs(exprs: &[Expr]) -> Value {
    Value::Array(exprs.iter().map(dump_expr).collect())
}

fn dump_expr(expr: &Expr) -> Value {
    match &expr.kind {
        ExprKind::Number(e) => object(vec![("number", number(e.digits()))]),
        ExprKind::Identifier(e) => object(vec![("identifier", Value::from(e.name()))]),
        ExprKind::Function(e) => object(vec![(
            "function",
            object(vec![
                ("callee", dump_expr(&e.callee)),
                ("arguments", dump_exprs(&e.arguments)),
            ]),
        )]),
        ExprKind::StringLiteral(e) => {
            object(vec![("stringLiteral", Value::from(e.value.as_str()))])
        }
        ExprKind::Infix(e) => object(vec![(
            "infix",
            object(vec![
                ("left", dump_expr(&e.left)),
                ("operator", Value::from(e.operator.as_str())),
                ("right", dump_expr(&e.right)),
            ]),
        )]),
        ExprKind::ArraySubscript(e) => object(vec![(
            "arraySubscript",
            object(vec![
                ("base", dump_expr(&e.base)),
                ("idx", dump_subscript(&e.idx)),
            ]),
        )]),
        ExprKind::Array(e) => object(vec![(
            "array",
            object(vec![("elements", dump_exprs(&e.elements))]),
        )]),
        ExprKind::Unary(e) => object(vec![(
            "unary",
            object(vec![
                ("operator", Value::from(e.operator.as_str())),
                ("expr", dump_expr(&e.expr)),
            ]),
        )]),
        ExprKind::Paren(e) => object(vec![("paren", dump_expr(&e.expr))]),
        ExprKind::Choose(e) => object(vec![(
            "choose",
            object(vec![
                ("cond", dump_expr(&e.cond)),
                ("lhs", dump_expr(&e.lhs)),
                ("rhs", dump_expr(&e.rhs)),
            ]),
        )]),
        ExprKind::Dictionary(e) => object(vec![(
            "dictionary",
            object(vec![(
                "entries",
                Value::Array(
                    e.entries
                        .iter()
                        .map(|entry| {
                            object(vec![
                                ("key", Value::from(entry.key.as_str())),
                                ("value", dump_expr(&entry.value)),
                            ])
                        })
                        .collect(),
                ),
            )]),
        )]),
    }
}

fn dump_subscript(idx: &ArraySubscript) -> Value {
    match idx {
        ArraySubscript::Index(e) => object(vec![("index", dump_expr(e))]),
        ArraySubscript::Sublist(s) => {
            let mut entries = Vec::new();
            if let Some(x) = &s.left {
                entries.push(("left", dump_expr(x)));
            }
            if let Some(y) = &s.right {
                entries.push(("right", dump_expr(y)));
            }
            object(vec![("sublist", object(entries))])
        }
    }
}

fn dump_stmts(stmts: &[Stmt]) -> Value {
    Value::Array(stmts.iter().map(dump_stmt).collect())
}

fn dump_if(stmt: &IfStatement) -> Value {
    object(vec![
        ("condition", dump_expr(&stmt.condition)),
        ("then", dump_stmts(&stmt.then_branch)),
        (
            "else",
            match &stmt.else_cond {
                ElseCond::NoElse => Value::Null,
                ElseCond::Else(stmts) => dump_stmts(stmts),
                ElseCond::ElseIf(stmt) => dump_if(stmt),
            },
        ),
    ])
}

fn dump_stmt(stmt: &Stmt) -> Value {
    match &stmt.kind {
        StmtKind::Let(x) => object(vec![(
            "let",
            object(vec![
                ("var", dump_expr(&x.var)),
                ("operator", Value::from(x.operator.as_str())),
                ("value", dump_expr(&x.value)),
            ]),
        )]),
        StmtKind::If(x) => object(vec![("if", dump_if(x))]),
        StmtKind::Call(x) => object(vec![(
            "call",
            object(vec![
                ("method", Value::from(x.name.as_str())),
                ("arguments", dump_exprs(&x.arguments)),
            ]),
        )]),
        StmtKind::Return(x) => object(vec![(
            "return",
            match &x.value {
                Some(value) => object(vec![("value", dump_expr(value))]),
                None => object(vec![]),
            },
        )]),
        StmtKind::While(x) => object(vec![(
            "while",
            object(vec![
                ("condition", dump_expr(&x.condition)),
                ("body", dump_stmts(&x.body)),
            ]),
        )]),
        StmtKind::Function(x) => object(vec![(
            "function",
            object(vec![
                ("name", Value::from(x.name.as_str())),
                (
                    "arguments",
                    Value::Array(x.arguments.iter().map(|a| Value::from(a.as_str())).collect()),
                ),
                ("body", dump_stmts(&x.body)),
                ("overwrite", Value::from(x.overwrite)),
                ("abort", Value::from(x.abort)),
            ]),
        )]),
        StmtKind::Try(x) => {
            let mut entries = vec![("body", dump_stmts(&x.body))];
            if let Some(f) = &x.finally {
                entries.push(("finally", dump_stmts(f)));
            }
            object(vec![("try", object(entries))])
        }
        StmtKind::SetOption(x) => object(vec![(
            "set",
            object(vec![
                ("option", Value::from(x.option.as_str())),
                (
                    "value",
                    match &x.value {
                        Some(v) => Value::from(v.as_str()),
                        None => Value::Null,
                    },
                ),
            ]),
        )]),
        StmtKind::Break(_) => object(vec![("break", object(vec![]))]),
        _ => object(vec![]),
    }
}

fn dump_program(program: &Program) -> Value {
    dump_stmts(&program.statements)
}

fn number_to_string(expr: &Expr) -> String {
    match &expr.kind {
        ExprKind::Number(e) => format!("{}", e.digits().parse::<f64>().unwrap()),
        _ => format!("not implemented"),
    }
}

fn parse_and_dump(input: &str) -> Value {
    let mut parser = Parser::new(Lexer::new(input));
    let expression = parse(&mut parser);
    assert_eq!(parser.errors, &[]);
    assert_eq!(parser.peek_token().token_type, TokenType::Eof);
    return dump_expr(&expression.unwrap());
}

fn messages(input: &str) -> Vec<String> {
    let mut parser = Parser::new(Lexer::new(input));
    parser.parse();
    parser.errors.into_iter().map(|err| err.message).collect()
}

#[test]
fn parses_number_expression() {
    assert_eq!(parse_and_dump("15"), json(r#"{ "number": 15.0 }"#));
}

#[test]
fn parses_identifier_expression() {
    let mut parser = Parser::new(Lexer::new("my_var"));
    let expression = parse(&mut parser);
    assert_eq!(parser.errors, &[]);
    assert_eq!(
        dump_expr(&expression.unwrap()),
        json(r#"{ "identifier": "my_var" }"#)
    );
}

#[test]
fn parses_function_with_no_arguments_expression() {
    let mut parser = Parser::new(Lexer::new("myfunc()"));
    let expression = parse(&mut parser);
    assert_eq!(parser.errors, &[]);
    assert_eq!(
        dump_expr(&expression.unwrap()),
        json(
            r#"{
                "function": {
                    "callee": { "identifier": "myfunc" },
                    "arguments": []
                }
            }"#
        )
    );
}

#[test]
fn parses_function_with_string_literal() {
    let mut parser = Parser::new(Lexer::new("myfunc(\"foo\")"));
    let expression = parse(&mut parser);
    assert_eq!(parser.errors, &[]);
    assert_eq!(
        dump_expr(&expression.unwrap()),
        json(
            r#"{
                "function": {
                    "callee": { "identifier": "myfunc" },
                    "arguments": [{"stringLiteral": "foo"}]
                }
            }"#
        )
    );
}

#[test]
fn parses_function_with_one_arguments_expression() {
    let mut parser = Parser::new(Lexer::new("myfunc(arg)"));
    let expression = parse(&mut parser);
    assert_eq!(parser.errors, &[]);
    assert_eq!(
        dump_expr(&expression.unwrap()),
        json(
            r#"{
                "function": {
                    "callee": { "identifier": "myfunc" },
                    "arguments": [{"identifier": "arg"}]
                }
            }"#
        )
    );
}

#[test]
fn parses_function_with_two_arguments_expression() {
    let mut parser = Parser::new(Lexer::new("myfunc(arg1, arg2)"));
    let expression = parse(&mut parser);
    assert_eq!(parser.errors, &[]);
    assert_eq!(
        dump_expr(&expression.unwrap()),
        json(
            r#"{
                "function": {
                    "callee": { "identifier": "myfunc" },
                    "arguments": [
                        {"identifier": "arg1"},
                        {"identifier": "arg2"}
                    ]
                }
            }"#
        )
    );
}

#[test]
fn parses_infix_with_in_equal_case_sensitive() {
    let mut parser = Parser::new(Lexer::new("a !=# b"));
    let expression = parse(&mut parser);
    assert_eq!(parser.errors, &[]);
    assert_eq!(
        dump_expr(&expression.unwrap()),
        json(
            r#"{
                "infix": {
                    "left": { "identifier": "a" },
                    "operator": "`!=#`",
                    "right": { "identifier": "b" }
                }
            }"#
        )
    );
}

#[test]
fn parses_infix_with_less() {
    let mut parser = Parser::new(Lexer::new("a < b"));
    let expression = parse(&mut parser);
    assert_eq!(parser.errors, &[]);
    assert_eq!(
        dump_expr(&expression.unwrap()),
        json(
            r#"{
                "infix": {
                    "left": { "identifier": "a" },
                    "operator": "`<`",
                    "right": { "identifier": "b" }
                }
            }"#
        )
    );
}

#[test]
fn parses_array_subscript() {
    let mut parser = Parser::new(Lexer::new("a[1]"));
    let expression = parse(&mut parser);
    assert_eq!(parser.errors, &[]);
    assert_eq!(
        dump_expr(&expression.unwrap()),
        json(
            r#"{
                "arraySubscript": {
                    "base": {"identifier": "a"},
                    "idx": {"index": {"number": 1.0}}
                }
            }"#
        )
    );
}

#[test]
fn parses_multiple_infix_expressions() {
    let mut parser = Parser::new(Lexer::new("a . b . c"));
    let expression = parse(&mut parser);
    assert_eq!(parser.errors, &[]);
    assert_eq!(
        dump_expr(&expression.unwrap()),
        json(
            r#"{
                "infix": {
                    "left": {
                        "infix": {
                            "left": { "identifier": "a" },
                            "operator": "`.`",
                            "right": { "identifier": "b" }
                        }
                    },
                    "operator": "`.`",
                    "right": {
                        "identifier": "c"
                    }
                }
            }"#
        )
    );
}

#[test]
fn parses_array_subscript_with_variable() {
    let mut parser = Parser::new(Lexer::new("a[s:e]"));
    let expression = parse(&mut parser);
    assert_eq!(parser.errors, &[]);
    assert_eq!(
        dump_expr(&expression.unwrap()),
        json(
            r#"{
                "arraySubscript": {
                    "base": {"identifier": "a"},
                    "idx": {
                        "index": { "identifier": "s:e" }
                    }
                }
            }"#
        )
    );
}

#[test]
fn parses_sublist() {
    let mut parser = Parser::new(Lexer::new("a[s : e]"));
    let expression = parse(&mut parser);
    assert_eq!(parser.errors, &[]);
    assert_eq!(
        dump_expr(&expression.unwrap()),
        json(
            r#"{
                "arraySubscript": {
                    "base": {"identifier": "a"},
                    "idx": {
                        "sublist": {
                            "left": {"identifier": "s"},
                            "right": {"identifier": "e"}
                        }
                    }
                }
            }"#
        )
    );
}

#[test]
fn parses_sublist_just_end() {
    let mut parser = Parser::new(Lexer::new("a[: e]"));
    let expression = parse(&mut parser);
    assert_eq!(parser.errors, &[]);
    assert_eq!(
        dump_expr(&expression.unwrap()),
        json(
            r#"{
                "arraySubscript": {
                    "base": {"identifier": "a"},
                    "idx": {
                        "sublist": {
                            "right": {"identifier": "e"}
                        }
                    }
                }
            }"#
        )
    );
}

#[test]
fn parses_sublist_just_start() {
    let mut parser = Parser::new(Lexer::new("a[s :]"));
    let expression = parse(&mut parser);
    assert_eq!(parser.errors, &[]);
    assert_eq!(
        dump_expr(&expression.unwrap()),
        json(
            r#"{
                "arraySubscript": {
                    "base": {"identifier": "a"},
                    "idx": {
                        "sublist": {
                            "left": {"identifier": "s"}
                        }
                    }
                }
            }"#
        )
    );
}

#[test]
fn parses_multi_array_subscript() {
    let mut parser = Parser::new(Lexer::new("a[1][2]"));
    let expression = parse(&mut parser);
    assert_eq!(parser.errors, &[]);
    assert_eq!(
        dump_expr(&expression.unwrap()),
        json(
            r#"{
                "arraySubscript": {
                    "base": {
                        "arraySubscript": {
                            "base": {"identifier": "a"},
                            "idx": {"index": {"number": 1.0}}
                        }
                    },
                    "idx": {"index": {"number": 2.0}}
                }
            }"#
        )
    );
}

#[test]
fn parses_math_expressions() {
    let mut parser = Parser::new(Lexer::new("1 + 2 - 3 * 4 / 5"));
    let expression = parse(&mut parser);
    assert_eq!(parser.errors, &[]);
    // NOTE: we do not have proper priorities yet!
    assert_eq!(
        dump_expr(&expression.unwrap()),
        json(
            r#"{
                "infix": {
                    "left": {
                        "infix": {
                            "left": {
                                "infix": {
                                    "left": {
                                        "infix": {
                                            "left": {"number": 1.0},
                                            "operator": "`+`",
                                            "right": {"number": 2.0}
                                        }
                                    },
                                    "operator": "`-`",
                                    "right": {"number": 3.0}
                                }
                            },
                            "operator": "`*`",
                            "right": {"number": 4.0}
                        }
                    },
                    "operator": "`/`",
                    "right": {"number": 5.0}
                }
            }"#
        )
    );
}

#[test]
fn parses_array() {
    let mut parser = Parser::new(Lexer::new("[a, b]"));
    let expression = parse(&mut parser);
    assert_eq!(parser.errors, &[]);
    assert_eq!(
        dump_expr(&expression.unwrap()),
        json(
            r#"{
                "array": {
                    "elements":[
                        {"identifier": "a"},
                        {"identifier": "b"}
                    ]
                }
            }"#
        )
    );
}

#[test]
fn parses_unary_minus_operator() {
    let mut parser = Parser::new(Lexer::new("-a"));
    let expression = parse(&mut parser);
    assert_eq!(parser.errors, &[]);
    assert_eq!(
        dump_expr(&expression.unwrap()),
        json(
            r#"{
                "unary": {
                    "operator": "`-`",
                    "expr": {
                        "identifier": "a"
                    }
                }
            }"#
        )
    );
}

#[test]
fn parses_unary_bang_operator() {
    let mut parser = Parser::new(Lexer::new("!a"));
    let expression = parse(&mut parser);
    assert_eq!(parser.errors, &[]);
    assert_eq!(
        dump_expr(&expression.unwrap()),
        json(
            r#"{
                "unary": {
                    "operator": "`!`",
                    "expr": {
                        "identifier": "a"
                    }
                }
            }"#
        )
    );
}

#[test]
fn parses_paren_expression() {
    assert_eq!(
        parse_and_dump("(a)"),
        json(
            r#"{
                "paren": {
                    "identifier": "a"
                }
            }"#
        )
    );
}

#[test]
fn parses_choose_expression() {
    let mut parser = Parser::new(Lexer::new("a ? b : c"));
    let expression = parse(&mut parser);
    assert_eq!(parser.errors, &[]);
    assert_eq!(
        dump_expr(&expression.unwrap()),
        json(
            r#"{
                "choose": {
                    "cond": {
                        "identifier": "a"
                    },
                    "lhs": {
                        "identifier": "b"
                    },
                    "rhs": {
                        "identifier": "c"
                    }
                }
            }"#
        )
    );
}

#[test]
fn parses_empty_dictionary() {
    assert_eq!(
        parse_and_dump("{}"),
        json(
            r#"{
                "dictionary": { "entries": [] }
            }"#
        )
    );
}

#[test]
fn parses_dictionary_with_two_string_keys() {
    assert_eq!(
        parse_and_dump("{'one': 1, 'two': 2}"),
        json(
            r#"{
                "dictionary": {
                    "entries": [
                        {"key": "one", "value": {"number": 1.0}},
                        {"key": "two", "value": {"number": 2.0}}
                    ]
                }
            }"#
        )
    );
}

#[test]
fn parses_if_statement() {
    let mut parser = Parser::new(Lexer::new(
        "
             if l:foo !=# l:bar
                 call my#method()
             endif
             ",
    ));
    let program = parser.parse();
    assert_eq!(parser.errors, &[]);
    assert_eq!(program.statements.len(), 1);
    assert_eq!(
        dump_program(&program),
        json(
            r#"[{
                "if": {
                    "condition": {
                        "infix": {
                            "left": {"identifier":"l:foo"},
                            "operator": "`!=#`",
                            "right": {"identifier":"l:bar"}
                        }
                    },
                    "then": [{
                        "call": {
                            "method": "my#method",
                            "arguments": []
                        }
                    }],
                    "else": null
                }
            }]"#
        )
    );
}

#[test]
fn parses_if_statement_with_else() {
    let mut parser = Parser::new(Lexer::new(
        "
             if l:foo !=# l:bar
                 call my#method1()
             else
                 call my#method2()
             endif
             ",
    ));
    let program = parser.parse();
    assert_eq!(parser.errors, &[]);
    assert_eq!(program.statements.len(), 1);
    assert_eq!(
        dump_program(&program),
        json(
            r#"[{
                "if": {
                    "condition": {
                        "infix": {
                            "left": {"identifier":"l:foo"},
                            "operator": "`!=#`",
                            "right": {"identifier":"l:bar"}
                        }
                    },
                    "then": [{
                        "call": {
                            "method": "my#method1",
                            "arguments": []
                        }
                    }],
                    "else": [{
                        "call": {
                            "method": "my#method2",
                            "arguments": []
                        }
                    }]
                }
            }]"#
        )
    );
}

#[test]
fn parses_if_statement_with_elseif() {
    let mut parser = Parser::new(Lexer::new(
        "
             if l:foo1 !=# l:bar1
                 call my#method1()
             elseif l:foo2 !=# l:bar2
                 call my#method2()
             else
                 call my#method3()
             endif
             ",
    ));
    let program = parser.parse();
    assert_eq!(parser.errors, &[]);
    assert_eq!(program.statements.len(), 1);
    assert_eq!(
        dump_program(&program),
        json(
            r#"[{
                "if": {
                    "condition": {
                        "infix": {
                            "left": {"identifier":"l:foo1"},
                            "operator": "`!=#`",
                            "right": {"identifier":"l:bar1"}
                        }
                    },
                    "then": [{
                        "call": {
                            "method": "my#method1",
                            "arguments": []
                        }
                    }],
                    "else": {
                        "condition": {
                            "infix": {
                                "left": {"identifier":"l:foo2"},
                                "operator": "`!=#`",
                                "right": {"identifier":"l:bar2"}
                            }
                        },
                        "then": [{
                            "call": {
                                "method": "my#method2",
                                "arguments": []
                            }
                        }],
                        "else": [{
                            "call": {
                                "method": "my#method3",
                                "arguments": []
                            }
                        }]
                    }
                }
            }]"#
        )
    );
}

#[test]
fn parses_simple_let_statement() {
    let mut parser = Parser::new(Lexer::new("let l:var = 15"));
    let program = parser.parse();
    assert_eq!(parser.errors, &[]);
    assert_eq!(program.statements.len(), 1);
    assert_eq!(
        dump_program(&program),
        json(
            r#"[{
                "let": {
                    "var": {"identifier": "l:var"},
                    "operator": "`=`",
                    "value": {
                        "number": 15.0
                    }
                }
            }]"#
        )
    );
}

#[test]
fn parses_let_statement_with_different_operators() {
    let mut parser = Parser::new(Lexer::new("let l:var += 15"));
    let program = parser.parse();
    assert_eq!(parser.errors, &[]);
    assert_eq!(program.statements.len(), 1);
    assert_eq!(
        dump_program(&program),
        json(
            r#"[{
                "let": {
                    "var": {"identifier": "l:var"},
                    "operator": "`+=`",
                    "value": {
                        "number": 15.0
                    }
                }
            }]"#
        )
    );
}

#[test]
fn parses_let_statement_with_number_expression() {
    let mut parser = Parser::new(Lexer::new("let l:var = 15"));
    let program = parser.parse();
    assert_eq!(parser.errors, &[]);

    assert_eq!(program.statements.len(), 1);
    let let_stmt = match &program.statements[0].kind {
        StmtKind::Let(stmt) => stmt,
        stmt => panic!("expected let statement, got {:?}", stmt),
    };
    assert_eq!(number_to_string(&let_stmt.value), "15");
}

#[test]
fn returns_error_when_let_statement_is_missing_assign() {
    let mut parser = Parser::new(Lexer::new("let l:var ! 15"));
    parser.parse();
    assert_eq!(
        parser.errors,
        &[ParseError {
            message: "expected assign operator, found `!`".to_string(),
            position: TokenPosition {
                start: SourcePosition {
                    line: 0,
                    character: 10,
                },
                end: SourcePosition {
                    line: 0,
                    character: 11,
                },
            }
        }]
    );
}

#[test]
fn returns_error_when_let_statement_ends_after_identifier() {
    let mut parser = Parser::new(Lexer::new("let l:var\nlet l:var = 15"));
    let program = parser.parse();
    assert_eq!(
        parser.errors,
        &[ParseError {
            message: "expected assign operator, found new line".to_string(),
            position: TokenPosition {
                start: SourcePosition {
                    line: 0,
                    character: 9,
                },
                end: SourcePosition {
                    line: 1,
                    character: 0,
                },
            }
        }]
    );
    assert_eq!(program.statements.len(), 1);
    let let_stmt = match &program.statements[0].kind {
        StmtKind::Let(stmt) => stmt,
        stmt => panic!("expected let statement, got {:?}", stmt),
    };
    assert_eq!(number_to_string(&let_stmt.value), "15");
}

#[test]
fn returns_error_when_let_statement_is_missing_identifier() {
    assert_eq!(messages("let\n"), &["expected expression, found new line"],);
}

#[test]
fn returns_error_when_let_statement_has_more_tokens_after_expression() {
    assert_eq!(messages("let a = 'b' a\n"), &["expected new line, found `a`"],);
}

#[test]
fn returns_error_when_expression_is_invalid() {
    assert_eq!(
        messages("let a = 'b' .\n"),
        &["expected expression, found new line"],
    );
}

#[test]
fn returns_error_when_let_statement_expression_() {
    assert_eq!(messages("let a = 'b' a\n"), &["expected new line, found `a`"],);
}

#[test]
fn returns_one_error_per_line() {
    let mut parser = Parser::new(Lexer::new("unknown xx()"));
    parser.parse();
    assert_eq!(
        parser.errors,
        &[ParseError {
            message: "expected keyword, found `unknown`".to_string(),
            position: TokenPosition {
                start: SourcePosition {
                    line: 0,
                    character: 0,
                },
                end: SourcePosition {
                    line: 0,
                    character: 7,
                },
            }
        }]
    );
}

#[test]
fn parses_function_statement() {
    let mut parser = Parser::new(Lexer::new(
        "function! my#method(arg1, arg2) abort
                call guess()
            endfunction",
    ));
    let program = parser.parse();
    assert_eq!(parser.errors, &[]);
    assert_eq!(
        program.statements,
        &[Stmt {
            id: NodeId(2),
            span: Span {
                start: BytePos(0),
                end: BytePos(90)
            },
            kind: StmtKind::Function(FunctionStatement {
                name: "my#method".to_string(),
                arguments: vec!["arg1".to_string(), "arg2".to_string()],
                body: vec![Stmt {
                    id: NodeId(1),
                    span: Span {
                        start: BytePos(54),
                        end: BytePos(67)
                    },
                    kind: StmtKind::Call(CallStatement {
                        name: "guess".to_string(),
                        arguments: vec![],
                    })
                }],
                overwrite: true,
                abort: true,
            })
        }]
    );
}

#[test]
fn parses_for_statement_with_multiple_variables() {
    let mut parser = Parser::new(Lexer::new(
        "for [a1, a2, a3] in copy(mylist)
                call guess()
            endfor",
    ));
    let program = parser.parse();
    assert_eq!(parser.errors, &[]);
    assert_eq!(program.statements.len(), 1);
    let for_stmt = match &program.statements[0].kind {
        StmtKind::For(stmt) => stmt,
        stmt => panic!("expected for statement, got {:?}", stmt),
    };
    assert_eq!(
        for_stmt.loop_variable,
        LoopVariable::List(vec!["a1".to_string(), "a2".to_string(), "a3".to_string()])
    );
    match &for_stmt.range.kind {
        ExprKind::Function(_) => {}
        expr => panic!("expected function expression, got {:?}", expr),
    };
    assert_eq!(
        for_stmt.body,
        vec![Stmt {
            id: NodeId(4),
            span: Span {
                start: BytePos(49),
                end: BytePos(62)
            },
            kind: StmtKind::Call(CallStatement {
                name: "guess".to_string(),
                arguments: vec![],
            })
        }]
    );
}

#[test]
fn parses_return_statement() {
    let mut parser = Parser::new(Lexer::new("return l:foo"));
    let program = parser.parse();
    assert_eq!(parser.errors, &[]);
    assert_eq!(
        dump_program(&program),
        json(r#"[{"return": {"value": {"identifier": "l:foo"}}}]"#),
    );
}

#[test]
fn parses_empty_return() {
    let mut parser = Parser::new(Lexer::new("return"));
    let program = parser.parse();
    assert_eq!(parser.errors, &[]);
    assert_eq!(dump_program(&program), json(r#"[{"return": {}}]"#));
}

#[test]
fn parses_set_statement() {
    let mut parser = Parser::new(Lexer::new("set paste"));
    let program = parser.parse();
    assert_eq!(parser.errors, &[]);
    assert_eq!(
        dump_program(&program),
        json(r#"[{"set": {"option": "paste", "value": null}}]"#)
    );
}

#[test]
fn parses_set_statement_with_value() {
    let mut parser = Parser::new(Lexer::new("set selection=exclusive"));
    let program = parser.parse();
    assert_eq!(parser.errors, &[]);
    assert_eq!(
        dump_program(&program),
        json(r#"[{"set": {"option": "selection", "value": "exclusive"}}]"#)
    );
}

#[test]
fn parses_try_statement() {
    let mut parser = Parser::new(Lexer::new(
        "
             try
                 call my#method()
             endtry
             ",
    ));
    let program = parser.parse();
    assert_eq!(parser.errors, &[]);
    assert_eq!(
        dump_program(&program),
        json(
            r#"[{
                "try": {
                    "body": [{
                        "call": {
                            "method": "my#method",
                            "arguments": []
                        }
                    }]
                }
            }]"#
        )
    );
}

#[test]
fn parses_try_statement_with_finally() {
    let mut parser = Parser::new(Lexer::new(
        "
             try
                 call my#foo()
             finally
                 call my#bar()
             endtry
             ",
    ));
    let program = parser.parse();
    assert_eq!(parser.errors, &[]);
    assert_eq!(
        dump_program(&program),
        json(
            r#"[{
                "try": {
                    "body": [{
                        "call": {
                            "method": "my#foo",
                            "arguments": []
                        }
                    }],
                    "finally": [{
                        "call": {
                            "method": "my#bar",
                            "arguments": []
                        }
                    }]
                }
            }]"#
        )
    );
}

#[test]
fn parses_while_statement() {
    let mut parser = Parser::new(Lexer::new(
        "
             while l:foo !=# l:bar
                 call my#method()
             endwhile
             ",
    ));
    let program = parser.parse();
    assert_eq!(parser.errors, &[]);
    assert_eq!(program.statements.len(), 1);
    assert_eq!(
        dump_program(&program),
        json(
            r#"[{
                "while": {
                    "condition": {
                        "infix": {
                            "left": {"identifier":"l:foo"},
                            "operator": "`!=#`",
                            "right": {"identifier":"l:bar"}
                        }
                    },
                    "body": [{
                        "call": {
                            "method": "my#method",
                            "arguments": []
                        }
                    }]
                }
            }]"#
        )
    );
}
