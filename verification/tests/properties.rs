use vimscript_core::ast::{ElseCond, Expr, ExprKind, IfStatement, Stmt, StmtKind};
use vimscript_core::format::Piece;
use vimscript_core::lexer::{Lexer, SourceLocation, SourcePosition, TokenPosition, TokenType};
use vimscript_core::parser::expression::parse;
use vimscript_core::parser::{Parser, Program};
use vimscript_core::span::{BytePos, Span};
use vimscript_core::text::decimal_string;

fn parse_program(source: &str) -> (Program, Vec<String>) {
    let mut parser = Parser::new(Lexer::new(source));
    let program = parser.parse();
    let errors = parser.errors.into_iter().map(|e| e.message).collect();
    (program, errors)
}

fn render(pieces: Vec<Piece>) -> String {
    let mut text = String::new();
    for piece in pieces {
        match piece {
            Piece::Text(s) => text.push_str(&s),
            Piece::Number(digits) => {
                text.push_str(&digits.parse::<f64>().unwrap().to_string())
            }
        }
    }
    text
}

fn formatted(source: &str) -> String {
    let (program, errors) = parse_program(source);
    assert_eq!(errors, Vec::<String>::new());
    render(vimscript_core::format::format(&program).unwrap())
}

fn kinds(program: &Program) -> Vec<&'static str> {
    program
        .statements
        .iter()
        .map(|s| match &s.kind {
            StmtKind::Let(_) => "let",
            StmtKind::Call(_) => "call",
            StmtKind::Execute(_) => "execute",
            StmtKind::Return(_) => "return",
            StmtKind::If(_) => "if",
            StmtKind::While(_) => "while",
            StmtKind::Function(_) => "function",
            StmtKind::For(_) => "for",
            StmtKind::Try(_) => "try",
            StmtKind::SetOption(_) => "set",
            StmtKind::Break(_) => "break",
            StmtKind::Empty() => "empty",
        })
        .collect()
}

fn span(start: usize, end: usize) -> Span {
    Span {
        start: BytePos(start),
        end: BytePos(end),
    }
}

#[test]
fn tokens_are_ordered_and_do_not_overlap() {
    let sources = [
        "let s:x = 'a''b' . \"c\" \" tail\n\tcall f(1,2)\n \\ + 3 ==# !=? ... .. é€ &opt",
        "\"comment\n'open\n x' | || && & < <= > >= % %= / /= * *= - -= + += . .=",
        "'unterminated",
        "\u{1F600}\n\n\\",
    ];
    for source in sources {
        let mut lexer = Lexer::new(source);
        let tokens = lexer.lex();
        let mut last = 0;
        for token in &tokens {
            let SourceLocation { start, end } = token.location;
            assert!(last <= start, "{:?} in {:?}", token, source);
            assert!(start < end, "{:?} in {:?}", token, source);
            assert!(end <= source.len());
            assert!(source.is_char_boundary(start) && source.is_char_boundary(end));
            last = end;
        }
    }
}

#[test]
fn lexes_let_statement_into_one_statement() {
    let (program, errors) = parse_program("let l:var = 15");
    assert_eq!(errors, Vec::<String>::new());
    assert_eq!(program.statements.len(), 1);
    match &program.statements[0].kind {
        StmtKind::Let(stmt) => {
            match &stmt.var.kind {
                ExprKind::Identifier(e) => {
                    assert_eq!(e.name(), "l:var");
                    assert_eq!(*e.name_location(), SourceLocation { start: 4, end: 9 });
                }
                other => panic!("expected identifier, got {:?}", other),
            }
            assert_eq!(stmt.operator, TokenType::Assign);
            match &stmt.value.kind {
                ExprKind::Number(e) => {
                    assert_eq!(e.digits(), "15");
                    assert_eq!(e.digits().parse::<f64>().unwrap(), 15.0);
                }
                other => panic!("expected number, got {:?}", other),
            }
        }
        other => panic!("expected let statement, got {:?}", other),
    }
}

#[test]
fn missing_assign_operator_gives_no_statement() {
    let mut parser = Parser::new(Lexer::new("let l:var ! 15"));
    let program = parser.parse();
    assert_eq!(program.statements.len(), 0);
    assert_eq!(parser.errors.len(), 1);
    assert_eq!(
        parser.errors[0].message,
        "expected assign operator, found `!`"
    );
    assert_eq!(parser.errors[0].position.to_string(), "0:10-0:11");
}

#[test]
fn single_quoted_literal_is_one_token_with_its_quotes() {
    let source = "'That''s enough.'";
    let mut lexer = Lexer::new(source);
    let tokens = lexer.lex();
    assert_eq!(tokens.len(), 1);
    assert_eq!(tokens[0].token_type, TokenType::StringLiteral);
    assert_eq!(lexer.token_text(&tokens[0].location), source);
}

fn chain(n: usize) -> String {
    let mut source = String::from("if a\n");
    for i in 0..n {
        source.push_str(&format!("elseif b{}\n call f()\n", i));
    }
    source.push_str("else\n call g()\nendif");
    source
}

fn depth(stmt: &IfStatement) -> (usize, &ElseCond) {
    match &stmt.else_cond {
        ElseCond::ElseIf(inner) => {
            let (n, last) = depth(inner);
            (n + 1, last)
        }
        other => (0, other),
    }
}

#[test]
fn else_if_chains_nest_to_their_depth() {
    for n in [0, 1, 2, 7, 40] {
        let (program, errors) = parse_program(&chain(n));
        assert_eq!(errors, Vec::<String>::new());
        assert_eq!(program.statements.len(), 1);
        match &program.statements[0].kind {
            StmtKind::If(stmt) => {
                let (found, last) = depth(stmt);
                assert_eq!(found, n);
                match last {
                    ElseCond::Else(stmts) => assert_eq!(stmts.len(), 1),
                    other => panic!("expected else, got {:?}", other),
                }
            }
            other => panic!("expected if statement, got {:?}", other),
        }
    }
}

#[test]
fn formatting_is_a_fixed_point_after_one_pass() {
    let sources = [
        "let   a   =   007\nreturn\n",
        "function! f(x) abort\nlet a = b\nif a\nreturn 1\nelse\nlet c = 2\nendif\nendfunction",
        "if a\nlet x = 1\nelseif b\nlet x = 2\nelse\nlet x = 3\nendif\n",
        "",
    ];
    for source in sources {
        let once = formatted(source);
        let twice = formatted(&once);
        assert_eq!(once, twice);
    }
}

#[test]
fn formats_statements_with_two_spaces_for_each_level() {
    assert_eq!(
        formatted("function! f(x) abort\nlet a += 010\nif a\nreturn 1\nendif\nendfunction"),
        "function f()\n  let a = 10\n  if a\n    return\n  endif\nendfunction\n"
    );
    assert_eq!(
        formatted("if a\nreturn\nelseif b\nreturn\nelse\nreturn\nendif"),
        "if a\n  return\nelseif b\n  return\nelse\n  return\nendif\n"
    );
}

#[test]
fn statements_that_cannot_be_formatted_give_nothing() {
    let (program, _) = parse_program("call f()");
    assert_eq!(vimscript_core::format::format(&program), None);
    let (program, _) = parse_program("let a = 1 + 2");
    assert_eq!(vimscript_core::format::format(&program), None);
    let (program, _) = parse_program("if a\nbreak\nendif");
    assert_eq!(vimscript_core::format::format(&program), None);
}

#[test]
fn two_malformed_statements_cost_two_errors() {
    let source = "let a = 1\nlet b ! 2\ncall f(a)\nset\nlet c = 3\n";
    let mut parser = Parser::new(Lexer::new(source));
    let program = parser.parse();
    let messages: Vec<&str> = parser.errors.iter().map(|e| e.message.as_str()).collect();
    assert_eq!(
        messages,
        vec![
            "expected assign operator, found `!`",
            "expected identifier, found new line"
        ]
    );
    assert_eq!(parser.errors[0].position.to_string(), "1:6-1:7");
    assert_eq!(parser.errors[1].position.to_string(), "3:3-4:0");
    assert_eq!(kinds(&program), vec!["let", "call", "let"]);
    let ids: Vec<usize> = program.statements.iter().map(|s| s.id.0).collect();
    assert_eq!(ids, vec![3, 6, 9]);
}

#[test]
fn operators_associate_to_the_left_whatever_they_are() {
    let mut parser = Parser::new(Lexer::new("1 + 2 - 3 * 4 / 5"));
    let expression = parse(&mut parser).unwrap();
    fn shape(e: &Expr) -> String {
        match &e.kind {
            ExprKind::Infix(x) => format!(
                "({}{}{})",
                shape(&x.left),
                x.operator.as_str().trim_matches('`'),
                shape(&x.right)
            ),
            ExprKind::Number(x) => x.digits().to_string(),
            other => panic!("unexpected {:?}", other),
        }
    }
    assert_eq!(shape(&expression), "((((1+2)-3)*4)/5)");
    assert_eq!(expression.span, span(0, 17));
}

#[test]
fn a_node_spans_the_tokens_it_consumed() {
    let mut parser = Parser::new(Lexer::new("-a[1 : 2] ? !(b) : c"));
    let expression = parse(&mut parser).unwrap();
    assert_eq!(parser.errors, vec![]);
    assert_eq!(expression.span, span(0, 20));
    match &expression.kind {
        ExprKind::Choose(e) => {
            assert_eq!(e.cond.span, span(0, 9));
            assert_eq!(e.lhs.span, span(12, 16));
            assert_eq!(e.rhs.span, span(19, 20));
            match &e.cond.kind {
                ExprKind::Unary(u) => assert_eq!(u.expr.span, span(1, 9)),
                other => panic!("unexpected {:?}", other),
            }
        }
        other => panic!("unexpected {:?}", other),
    }
    let (program, errors) = parse_program("break");
    assert_eq!(errors, Vec::<String>::new());
    assert_eq!(program.statements[0].span, span(0, 5));
}

#[test]
fn a_call_does_not_follow_a_call_directly() {
    let (program, errors) = parse_program("let a = f()(x)\n");
    assert_eq!(errors, vec!["expected new line, found `(`"]);
    assert_eq!(program.statements.len(), 0);
    let (program, errors) = parse_program("let a = f()[0](x)\n");
    assert_eq!(errors, Vec::<String>::new());
    assert_eq!(program.statements.len(), 1);
}

#[test]
fn a_block_that_the_text_cuts_short_gives_no_statement() {
    let (program, errors) = parse_program("if a\n call f()\n");
    assert_eq!(errors, Vec::<String>::new());
    assert_eq!(program.statements.len(), 0);
    let (program, errors) = parse_program("while a\n call f()\n");
    assert_eq!(errors, vec!["expected `endwhile`, found ``"]);
    assert_eq!(program.statements.len(), 0);
    let (program, errors) = parse_program("try\n call f()\n");
    assert_eq!(errors, vec!["expected `endtry`, found ``"]);
    assert_eq!(program.statements.len(), 0);
}

#[test]
fn blank_lines_and_bars_are_no_statements() {
    let (program, errors) = parse_program("\n\n|\nbreak\n\n");
    assert_eq!(errors, Vec::<String>::new());
    assert_eq!(kinds(&program), vec!["break"]);
}

#[test]
fn lists_take_one_trailing_comma() {
    let (_, errors) = parse_program("call f(a, b,)\nlet d = {'k': 1,}\nlet e = [1, 2,]\n");
    assert_eq!(errors, Vec::<String>::new());
    let (_, errors) = parse_program("call f(a b)\n");
    assert_eq!(errors, vec!["expected `,` or `)`, found `b`"]);
    let (_, errors) = parse_program("let d = {k: 1}\n");
    assert_eq!(errors, vec!["expected string literal, found `k:`"]);
}

#[test]
fn statements_report_what_they_expect() {
    let (_, errors) = parse_program("for 1 in x\nendfor\n");
    assert_eq!(
        errors,
        vec![
            "expected `(` or identifier, found `1`",
            "expected keyword, found `endfor`"
        ]
    );
    let (_, errors) = parse_program("for x of y\n");
    assert_eq!(errors, vec!["expected `in`, found `of`"]);
    let (_, errors) = parse_program("function f(...)\nendfunction\n");
    assert_eq!(
        errors,
        vec![
            "expected identifier, found `...`",
            "expected keyword, found `endfunction`"
        ]
    );
    let (_, errors) = parse_program("break 1\n");
    assert_eq!(errors, vec!["expected new line, found `1`"]);
    let (_, errors) = parse_program("let a = (1\n");
    assert_eq!(errors, vec!["expected `)`, found new line"]);
}

#[test]
fn execute_takes_expressions_up_to_the_end_of_the_line() {
    let (program, errors) = parse_program("execute 'a' b . c\nbreak");
    assert_eq!(errors, Vec::<String>::new());
    assert_eq!(kinds(&program), vec!["execute", "break"]);
    match &program.statements[0].kind {
        StmtKind::Execute(stmt) => assert_eq!(stmt.arguments.len(), 2),
        other => panic!("unexpected {:?}", other),
    }
}

#[test]
fn positions_count_lines_and_characters() {
    let lexer = Lexer::new("aé\n€b\n");
    let at = |start, end| lexer.token_position(&SourceLocation { start, end });
    assert_eq!(at(0, 1).to_string(), "0:0-0:1");
    assert_eq!(at(1, 3).to_string(), "0:1-0:2");
    assert_eq!(at(3, 4).to_string(), "0:2-1:0");
    assert_eq!(at(4, 7).to_string(), "1:0-1:1");
    assert_eq!(at(5, 8).to_string(), "1:1-1:2");
    assert_eq!(at(9, 100).to_string(), "2:0-2:0");
    assert_eq!(
        at(7, 9),
        TokenPosition {
            start: SourcePosition {
                line: 1,
                character: 1
            },
            end: SourcePosition {
                line: 2,
                character: 0
            },
        }
    );
}

#[test]
fn numbers_are_written_in_decimal() {
    assert_eq!(decimal_string(0), "0");
    assert_eq!(decimal_string(7), "7");
    assert_eq!(decimal_string(10), "10");
    assert_eq!(decimal_string(9075), "9075");
    assert_eq!(decimal_string(usize::MAX), usize::MAX.to_string());
}

#[test]
fn token_names_differ_only_for_the_assignment() {
    assert_eq!(TokenType::Assign.to_str(), "=");
    assert_eq!(TokenType::Assign.as_str(), "`=`");
    assert_eq!(TokenType::EndFunction.to_str(), "`endfunction`");
    assert_eq!(TokenType::EndFunction.as_str(), "`endfunction`");
    assert_eq!(TokenType::NewLine.as_str(), "new line");
    assert_eq!(TokenType::Eof.as_str(), "end of file");
}

#[test]
fn find_token_takes_the_first_token_at_a_position() {
    let mut parser = Parser::new(Lexer::new("let a = 1\ncall f(a)"));
    parser.parse();
    let at = |line, character| parser.find_token(SourcePosition { line, character });
    assert_eq!(at(0, 0).unwrap().token_type, TokenType::Let);
    assert_eq!(at(0, 3).unwrap().token_type, TokenType::Let);
    assert_eq!(at(0, 4).unwrap().token_type, TokenType::Ident);
    assert_eq!(at(0, 9).unwrap().token_type, TokenType::Number);
    assert_eq!(at(1, 0).unwrap().token_type, TokenType::NewLine);
    assert_eq!(at(1, 2).unwrap().token_type, TokenType::Call);
    assert_eq!(at(1, 5).unwrap().token_type, TokenType::Ident);
    assert_eq!(at(1, 9).unwrap().token_type, TokenType::RightParenthesis);
    assert_eq!(at(1, 10), Err(()));
}

#[test]
fn statement_from_the_stmt_type_is_comparable() {
    let (program, _) = parse_program("break\n");
    assert_eq!(
        program.statements,
        vec![Stmt {
            id: vimscript_core::ast::NodeId(1),
            span: span(0, 6),
            kind: StmtKind::Break(vimscript_core::ast::BreakStatement {}),
        }]
    );
}

fn check_expr(e: &Expr, lo: usize, hi: usize) {
    let Span { start, end } = e.span;
    assert!(lo <= start.0 && start.0 <= end.0 && end.0 <= hi, "{:?}", e);
    let inner = |c: &Expr| check_expr(c, start.0, end.0);
    match &e.kind {
        ExprKind::Identifier(_) | ExprKind::Number(_) | ExprKind::StringLiteral(_) => {}
        ExprKind::Infix(x) => {
            inner(&x.left);
            inner(&x.right);
        }
        ExprKind::Function(x) => {
            inner(&x.callee);
            x.arguments.iter().for_each(inner);
        }
        ExprKind::ArraySubscript(x) => {
            inner(&x.base);
            match &*x.idx {
                vimscript_core::ast::ArraySubscript::Index(i) => inner(i),
                vimscript_core::ast::ArraySubscript::Sublist(s) => {
                    s.left.iter().for_each(inner);
                    s.right.iter().for_each(inner);
                }
            }
        }
        ExprKind::Array(x) => x.elements.iter().for_each(inner),
        ExprKind::Unary(x) => inner(&x.expr),
        ExprKind::Paren(x) => inner(&x.expr),
        ExprKind::Choose(x) => {
            inner(&x.cond);
            inner(&x.lhs);
            inner(&x.rhs);
        }
        ExprKind::Dictionary(x) => x.entries.iter().for_each(|entry| inner(&entry.value)),
    }
}

fn check_if(stmt: &IfStatement, lo: usize, hi: usize, ids: &mut Vec<usize>) {
    check_expr(&stmt.condition, lo, hi);
    check_stmts(&stmt.then_branch, lo, hi, ids);
    match &stmt.else_cond {
        ElseCond::NoElse => {}
        ElseCond::Else(stmts) => check_stmts(stmts, lo, hi, ids),
        ElseCond::ElseIf(inner) => check_if(inner, lo, hi, ids),
    }
}

fn check_stmts(stmts: &[Stmt], lo: usize, hi: usize, ids: &mut Vec<usize>) {
    let mut last = 0;
    for s in stmts {
        assert!(last < s.id.0, "{:?}", s);
        last = s.id.0;
        ids.push(s.id.0);
        let Span { start, end } = s.span;
        assert!(lo <= start.0 && start.0 <= end.0 && end.0 <= hi, "{:?}", s);
        let (lo, hi) = (start.0, end.0);
        match &s.kind {
            StmtKind::Let(x) => {
                check_expr(&x.var, lo, hi);
                check_expr(&x.value, lo, hi);
            }
            StmtKind::Call(x) => x.arguments.iter().for_each(|e| check_expr(e, lo, hi)),
            StmtKind::Execute(x) => x.arguments.iter().for_each(|e| check_expr(e, lo, hi)),
            StmtKind::Return(x) => x.value.iter().for_each(|e| check_expr(e, lo, hi)),
            StmtKind::If(x) => check_if(x, lo, hi, ids),
            StmtKind::While(x) => {
                check_expr(&x.condition, lo, hi);
                check_stmts(&x.body, lo, hi, ids);
            }
            StmtKind::Function(x) => check_stmts(&x.body, lo, hi, ids),
            StmtKind::For(x) => {
                check_expr(&x.range, lo, hi);
                check_stmts(&x.body, lo, hi, ids);
            }
            StmtKind::Try(x) => {
                check_stmts(&x.body, lo, hi, ids);
                if let Some(f) = &x.finally {
                    check_stmts(f, lo, hi, ids);
                }
            }
            StmtKind::SetOption(_) | StmtKind::Break(_) | StmtKind::Empty() => {}
        }
    }
}

#[test]
fn spans_nest_and_statements_are_numbered_in_order() {
    let source = "function! s:f(a, b) abort
  let l:x = a[1 : -b] . {'k': [1, 2, !c], 'm': f(g[0])[h]}
  if x ==# 'é' || y
    for [i, j] in items(d)
      while i < -j ? 1 : 2
        call s:g(i, (j))
        break
      endwhile
    endfor
  elseif z
    try
      execute 'normal' x . y
    finally
      set paste
      return a
    endtry
  else
    return
  endif
endfunction
let broken = = 1
let after = 2
";
    let mut parser = Parser::new(Lexer::new(source));
    let program = parser.parse();
    let messages: Vec<&str> = parser.errors.iter().map(|e| e.message.as_str()).collect();
    assert_eq!(
        messages,
        vec!["expected expression, found `=`"]
    );
    assert_eq!(kinds(&program), vec!["function", "let"]);
    let mut ids = Vec::new();
    check_stmts(&program.statements, 0, source.len(), &mut ids);
    let mut sorted = ids.clone();
    sorted.sort();
    sorted.dedup();
    assert_eq!(sorted.len(), ids.len());
    assert_eq!(ids.len(), 13);
}

#[test]
fn each_failing_statement_without_a_body_costs_one_error() {
    let lines = [
        ("let a = 1", true),
        ("let = 1", false),
        ("call f(", false),
        ("call f(1, 2)", true),
        ("return )", false),
        ("return", true),
        ("set", false),
        ("set a=b", true),
        ("break", true),
        ("break now", false),
        ("execute a b", true),
        ("execute a )", false),
        ("endif", false),
        ("123", false),
        ("", true),
    ];
    let source: Vec<&str> = lines.iter().map(|(line, _)| *line).collect();
    let (program, errors) = parse_program(&source.join("\n"));
    let failures = lines.iter().filter(|(_, ok)| !ok).count();
    let successes = lines
        .iter()
        .filter(|(line, ok)| *ok && !line.is_empty())
        .count();
    assert_eq!(errors.len(), failures);
    assert_eq!(program.statements.len(), successes);
}

#[test]
fn if_statement_holds_its_call() {
    let (program, errors) = parse_program("if a\n call f()\nendif");
    assert_eq!(errors, Vec::<String>::new());
    assert_eq!(program.statements.len(), 1);
    match &program.statements[0].kind {
        StmtKind::If(stmt) => {
            match &stmt.condition.kind {
                ExprKind::Identifier(e) => assert_eq!(e.name(), "a"),
                other => panic!("unexpected {:?}", other),
            }
            assert_eq!(stmt.then_branch.len(), 1);
            match &stmt.then_branch[0].kind {
                StmtKind::Call(call) => {
                    assert_eq!(call.name, "f");
                    assert_eq!(call.arguments, vec![]);
                }
                other => panic!("unexpected {:?}", other),
            }
            assert_eq!(stmt.else_cond, ElseCond::NoElse);
        }
        other => panic!("unexpected {:?}", other),
    }
}

#[test]
fn a_failing_statement_with_a_body_may_cost_more_than_one_error() {
    let (program, errors) = parse_program("while )\nendwhile\n");
    assert_eq!(
        errors,
        vec![
            "expected expression, found `)`",
            "expected keyword, found `endwhile`"
        ]
    );
    assert_eq!(program.statements.len(), 0);
}

fn literal_value(source: &str) -> String {
    let mut parser = Parser::new(Lexer::new(source));
    let expression = parse(&mut parser).unwrap();
    assert_eq!(parser.errors, vec![]);
    assert_eq!(expression.span, span(0, source.len()));
    match expression.kind {
        ExprKind::StringLiteral(e) => e.value,
        other => panic!("unexpected {:?}", other),
    }
}

#[test]
fn a_string_literal_holds_its_decoded_contents() {
    assert_eq!(literal_value("'That''s enough.'"), "That's enough.");
    assert_eq!(literal_value("''"), "");
    assert_eq!(literal_value("''''"), "'");
    assert_eq!(literal_value("''''''"), "''");
    assert_eq!(literal_value(r#"'a\b"c'"#), r#"a\b"c"#);
    assert_eq!(literal_value("'é''€'"), "é'€");
    assert_eq!(literal_value("'a\n \\b'"), "a\n \\b");
}

#[test]
fn a_quoted_literal_holds_its_contents_without_the_escaping_backslashes() {
    let value = |literal: &str| {
        let source = format!("x . {}", literal);
        let mut parser = Parser::new(Lexer::new(&source));
        let expression = parse(&mut parser).unwrap();
        assert_eq!(parser.errors, vec![]);
        match expression.kind {
            ExprKind::Infix(e) => match e.right.kind {
                ExprKind::StringLiteral(e) => e.value,
                other => panic!("unexpected {:?}", other),
            },
            other => panic!("unexpected {:?}", other),
        }
    };
    assert_eq!(value(r#""foo""#), "foo");
    assert_eq!(value(r#""""#), "");
    assert_eq!(value(r#""\"foo""#), "\"foo");
    assert_eq!(value(r#""a\\b""#), "a\\b");
    assert_eq!(value(r#""it''s""#), "it''s");
    assert_eq!(value(r#""\é\\\"""#), "é\\\"");
}

#[test]
fn dictionary_keys_are_decoded() {
    let mut parser = Parser::new(Lexer::new("{'it''s': 1}"));
    let expression = parse(&mut parser).unwrap();
    match expression.kind {
        ExprKind::Dictionary(d) => assert_eq!(d.entries[0].key, "it's"),
        other => panic!("unexpected {:?}", other),
    }
}

#[test]
fn text_after_a_statement_that_opens_with_a_quote_is_no_comment() {
    let (program, errors) = parse_program("let a = 1 \" one\nlet b = 2\n\" two\nlet c = 3");
    assert_eq!(errors, vec!["expected new line, found `\" one`"]);
    assert_eq!(kinds(&program), vec!["let", "let"]);
}
