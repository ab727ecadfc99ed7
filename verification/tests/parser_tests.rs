use tree_walk_lox::ast::{Expr, Stmt};
use tree_walk_lox::error::{ErrorInfo, ErrorReporter};
use tree_walk_lox::lox::Lox;
use tree_walk_lox::parser::{Parsed, Parser};
use tree_walk_lox::scanner::Scanner;
use tree_walk_lox::token::{Literal, TokenKind};

fn parse(source: &str) -> Parsed {
    let tokens = Scanner::new(source.to_string()).scan_tokens().unwrap();
    Parser::new(tokens).parse()
}

fn expression(source: &str) -> Expr {
    let mut parsed = parse(source);
    assert!(parsed.errors.is_empty());
    assert_eq!(parsed.statements.len(), 1);
    match parsed.statements.remove(0) {
        Stmt::Expression { expression } => expression,
        _ => panic!("an expression statement"),
    }
}

/// The expression written out with all its parentheses.
fn shape(expr: &Expr) -> String {
    match expr {
        Expr::Binary { left, operator, right } => {
            format!("({} {} {})", operator.lexeme, shape(left), shape(right))
        }
        Expr::Logical { left, operator, right } => {
            format!("({} {} {})", operator.lexeme, shape(left), shape(right))
        }
        Expr::Unary { operator, right } => format!("({} {})", operator.lexeme, shape(right)),
        Expr::Grouping { expression } => format!("(group {})", shape(expression)),
        Expr::Literal { value } => value.lexeme.clone(),
        Expr::Variable { name } => name.lexeme.clone(),
        Expr::Assign { name, value } => format!("(= {} {})", name.lexeme, shape(value)),
        Expr::Call { callee, arguments, .. } => format!(
            "(call {}{})",
            shape(callee),
            arguments.iter().map(|a| format!(" {}", shape(a))).collect::<String>()
        ),
        Expr::Get { object, name } => format!("(get {} {})", shape(object), name.lexeme),
        Expr::SetProperty { object, name, value } => {
            format!("(set {} {} {})", shape(object), name.lexeme, shape(value))
        }
        Expr::This { .. } => "this".to_string(),
        Expr::Super { method, .. } => format!("(super {})", method.lexeme),
    }
}

#[test]
fn operators_bind_by_precedence_and_to_the_left() {
    assert_eq!(shape(&expression("1 + 2 * 3;")), "(+ 1 (* 2 3))");
    assert_eq!(shape(&expression("1 - 2 - 3;")), "(- (- 1 2) 3)");
    assert_eq!(shape(&expression("1 < 2 == 3 > 4;")), "(== (< 1 2) (> 3 4))");
    assert_eq!(shape(&expression("a or b and c;")), "(or a (and b c))");
    assert_eq!(shape(&expression("!-a;")), "(! (- a))");
    assert_eq!(shape(&expression("(1 + 2) * 3;")), "(* (group (+ 1 2)) 3)");
}

#[test]
fn assignment_binds_to_the_right_and_needs_a_target() {
    assert_eq!(shape(&expression("a = b = 1;")), "(= a (= b 1))");
    assert_eq!(shape(&expression("a.b.c = 1;")), "(set (get a b) c 1)");
    let parsed = parse("1 = 2;");
    assert_eq!(parsed.errors.len(), 1);
    assert_eq!(parsed.errors[0].message, "Invalid assignment target.");
    assert_eq!(parsed.errors[0].token.kind, TokenKind::Equal);
}

#[test]
fn calls_and_properties_chain() {
    assert_eq!(shape(&expression("f(1, 2)(3).g;")), "(get (call (call f 1 2) 3) g)");
    assert_eq!(shape(&expression("this.x;")), "(get this x)");
    assert_eq!(shape(&expression("super.m();")), "(call (super m))");
}

#[test]
fn statements_of_every_kind_parse() {
    let parsed = parse(
        "var a = 1; var b; print a; { a; } if (a) b; else a; while (a) b; \
         fun f(x, y) { return x; } class A < B { m() { return; } } return;",
    );
    assert!(parsed.errors.is_empty());
    assert_eq!(parsed.statements.len(), 9);
    assert!(matches!(&parsed.statements[0], Stmt::Var { initializer: Some(_), .. }));
    assert!(matches!(&parsed.statements[1], Stmt::Var { initializer: None, .. }));
    assert!(matches!(&parsed.statements[2], Stmt::Print { .. }));
    assert!(matches!(&parsed.statements[3], Stmt::Block { statements } if statements.len() == 1));
    assert!(matches!(&parsed.statements[4], Stmt::If { else_branch: Some(_), .. }));
    assert!(matches!(&parsed.statements[5], Stmt::While { .. }));
    match &parsed.statements[6] {
        Stmt::Function(function) => {
            assert_eq!(function.name.lexeme, "f");
            assert_eq!(function.params.len(), 2);
            assert_eq!(function.body.len(), 1);
        }
        _ => panic!("a function"),
    }
    match &parsed.statements[7] {
        Stmt::Class { name, superclass, methods } => {
            assert_eq!(name.lexeme, "A");
            assert_eq!(superclass.as_ref().map(|s| s.lexeme.as_str()), Some("B"));
            assert_eq!(methods.len(), 1);
        }
        _ => panic!("a class"),
    }
    assert!(matches!(&parsed.statements[8], Stmt::Return { value: None, .. }));
}

#[test]
fn a_for_loop_becomes_a_while_loop() {
    let parsed = parse("for (var i = 0; i < 3; i = i + 1) print i;");
    assert!(parsed.errors.is_empty());
    match &parsed.statements[0] {
        Stmt::Block { statements } => {
            assert!(matches!(&statements[0], Stmt::Var { .. }));
            match &statements[1] {
                Stmt::While { condition, body } => {
                    assert_eq!(shape(condition), "(< i 3)");
                    match body.as_ref() {
                        Stmt::Block { statements } => {
                            assert!(matches!(&statements[0], Stmt::Print { .. }));
                            assert!(matches!(&statements[1], Stmt::Expression { .. }));
                        }
                        _ => panic!("a block of body and increment"),
                    }
                }
                _ => panic!("a while loop"),
            }
        }
        _ => panic!("a block of initializer and loop"),
    }
}

#[test]
fn a_for_loop_without_clauses_loops_on_true() {
    let parsed = parse("for (;;) print 1;");
    assert!(parsed.errors.is_empty());
    match &parsed.statements[0] {
        Stmt::While { condition: Expr::Literal { value }, body } => {
            assert_eq!(value.kind, TokenKind::True);
            assert_eq!(value.lexeme, "true");
            assert!(matches!(value.literal, Literal::Bool(true)));
            assert_eq!(value.scanner_index, 6);
            assert!(matches!(body.as_ref(), Stmt::Print { .. }));
        }
        _ => panic!("a bare while loop"),
    }
}

#[test]
fn a_syntax_error_skips_to_the_next_statement() {
    let parsed = parse("print 1; var = 3; print 2; print ; print 3;");
    assert_eq!(parsed.statements.len(), 3);
    assert_eq!(parsed.errors.len(), 2);
    assert_eq!(parsed.errors[0].message, "Expect variable name.");
    assert_eq!(parsed.errors[0].token.lexeme, "=");
    assert_eq!(parsed.errors[1].message, "Expect expression.");
}

#[test]
fn messages_name_what_is_missing() {
    let message = |source: &str| parse(source).errors[0].message.clone();
    assert_eq!(message("print 1"), "Expect ';' after value.");
    assert_eq!(message("1"), "Expect ';' after expression.");
    assert_eq!(message("(1;"), "Expect ')' after expression.");
    assert_eq!(message("f(1;"), "Expect ')' after arguments.");
    assert_eq!(message("a.;"), "Expect property name after '.'.");
    assert_eq!(message("{ 1;"), "Expect '}' after block.");
    assert_eq!(message("if 1"), "Expect '(' after 'if'.");
    assert_eq!(message("while 1"), "Expect '(' after 'while'.");
    assert_eq!(message("for 1"), "Expect '(' after 'for'.");
    assert_eq!(message("fun (){}"), "Expect function name.");
    assert_eq!(message("fun f {}"), "Expect '(' after function name");
    assert_eq!(message("fun f() 1"), "Expect '{' before function body.");
    assert_eq!(message("class A { 1 }"), "Expect method name.");
    assert_eq!(message("class {}"), "Expect class name.");
    assert_eq!(message("class A < {}"), "Expect superclass name.");
    assert_eq!(message("super;"), "Expect '.' after 'super'.");
    assert_eq!(message("return 1"), "Expect ';' after 'return'.");
    assert_eq!(message("var a = 1"), "Expect ';' after variable declaration.");
    assert_eq!(message("fun f(1) {}"), "Expect parameter name.");
    assert_eq!(message("fun f(a b) {}"), "Expect ')' after parameters.");
    assert_eq!(message("class A 1"), "Expect '{' before class body.");
    assert_eq!(message("class A { m() {}"), "Expect '}' after class body.");
    assert_eq!(message("class A { m {} }"), "Expect '(' after method name");
    assert_eq!(message("class A { m() 1 }"), "Expect '{' before method body.");
    assert_eq!(message("if (1 2;"), "Expect ')' after if condition.");
    assert_eq!(message("while (1 2;"), "Expect ')' after condition.");
    assert_eq!(message("for (;1 2) 3;"), "Expect ';' after loop condition.");
    assert_eq!(message("for (;;1 2) 3;"), "Expect ')' after for clauses.");
    assert_eq!(message("super.1;"), "Expect superclass method name.");
}

#[test]
fn more_than_255_arguments_are_rejected() {
    let arguments = vec!["1"; 256].join(", ");
    let parsed = parse(&format!("f({});", arguments));
    assert_eq!(parsed.errors.len(), 1);
    assert_eq!(parsed.errors[0].message, "Can't have more than 255 arguments.");
    let fine = vec!["1"; 255].join(", ");
    assert!(parse(&format!("f({});", fine)).errors.is_empty());
}

#[test]
fn the_front_end_keeps_syntax_errors_beside_the_statements() {
    let mut lox = Lox::new();
    let program = lox.run("print 1; print ; print 2;".to_string()).ok().unwrap();
    assert_eq!(program.statements.len(), 2);
    assert_eq!(program.errors.len(), 1);
    assert!(lox.reporter.had_error);
    let mut clean = Lox::new();
    assert!(clean.run("print 1;".to_string()).is_ok());
    assert!(!clean.reporter.had_error);
}

#[test]
fn error_records_start_clean() {
    let info = ErrorInfo::line(3, "message");
    assert_eq!(info.line, 3);
    assert_eq!(info.location, "");
    assert_eq!(info.message, "message");
    let reporter = ErrorReporter::new();
    assert!(!reporter.had_error);
    assert!(!reporter.had_runtime_error);
}

#[test]
fn reports_are_written_with_their_line() {
    let info = ErrorInfo::line(120, "Something is wrong.");
    assert_eq!(info.text(), "[line 120] Error: Something is wrong.");
    assert_eq!(ErrorInfo::line(0, "m").text(), "[line 0] Error: m");
    let parsed = parse("print 1;\n\nvar = 3;");
    assert_eq!(parsed.errors[0].text(), "[Line 3] Error at '=': Expect variable name.");
}

#[test]
fn numbers_are_written_in_decimal() {
    assert_eq!(tree_walk_lox::text::decimal(0), "0");
    assert_eq!(tree_walk_lox::text::decimal(7), "7");
    assert_eq!(tree_walk_lox::text::decimal(10), "10");
    assert_eq!(tree_walk_lox::text::decimal(9081726354), "9081726354");
    assert_eq!(tree_walk_lox::text::decimal(usize::MAX), usize::MAX.to_string());
}

#[test]
fn texts_are_joined_with_commas() {
    assert_eq!(tree_walk_lox::text::join(&vec![]), "");
    assert_eq!(tree_walk_lox::text::join(&vec!["a".to_string()]), "a");
    assert_eq!(tree_walk_lox::text::join(&vec!["a".to_string(), "b".to_string()]), "a, b");
    assert_eq!(tree_walk_lox::text::framed("<", "x", ">"), "<x>");
}
