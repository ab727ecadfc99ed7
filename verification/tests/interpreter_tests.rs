use tree_walk_lox::interpreter::{CallableValue, Interpreter};
use tree_walk_lox::lox::{Lox, LoxError};
use tree_walk_lox::machine::{Action, Event, InterpreterError};
use tree_walk_lox::resolver::ResolverErrorKind;
use tree_walk_lox::token::TokenKind;
use tree_walk_lox::value::RuntimeValue;

/// What a run printed and how it ended.
struct Outcome {
    printed: Vec<String>,
    error: Option<String>,
}

fn show(interpreter: &Interpreter, value: RuntimeValue) -> String {
    match value {
        RuntimeValue::Bool(b) => format!("{}", b),
        RuntimeValue::Number(bits) => format!("{}", f64::from_bits(bits)),
        RuntimeValue::Str(handle) => interpreter.strings[handle].clone(),
        RuntimeValue::BuiltInFunction(handle) => format!(
            "<fun {}({})>",
            interpreter.natives[handle].name,
            interpreter.natives[handle].args.join(", ")
        ),
        RuntimeValue::UserFunction(function) => format!(
            "<fun {}({})>",
            function.declaration.name.lexeme,
            function
                .declaration
                .params
                .iter()
                .map(|p| p.lexeme.clone())
                .collect::<Vec<String>>()
                .join(", ")
        ),
        RuntimeValue::Class(handle) => format!("<class {}>", interpreter.classes[handle].name.lexeme),
        RuntimeValue::Instance(handle) => format!(
            "instance {}({})",
            interpreter.classes[interpreter.instances[handle].class].name.lexeme,
            interpreter.instances[handle].names.join(", ")
        ),
        RuntimeValue::Nil => "nil".to_string(),
    }
}

fn describe(error: &InterpreterError) -> String {
    match error {
        InterpreterError::Internal => "internal".to_string(),
        InterpreterError::UnaryMinusOperandMustBeNumber(_) => "unary minus".to_string(),
        InterpreterError::OperandsMustBeNumbers => "operands must be numbers".to_string(),
        InterpreterError::OperandsMustBeNumbersOrStr => {
            "operands must be numbers or strings".to_string()
        }
        InterpreterError::UndefinedVariable(token) => format!("undefined variable {}", token.lexeme),
        InterpreterError::UndefinedProperty(token) => format!("undefined property {}", token.lexeme),
        InterpreterError::NotCallable(_) => "not callable".to_string(),
        InterpreterError::FunctionArity(_, expected, got) => format!("arity {} {}", expected, got),
        InterpreterError::MustAccessValueOnInstances => "only instances have properties".to_string(),
        InterpreterError::SuperclassMustBeClass(token) => {
            format!("superclass must be a class {}", token.lexeme)
        }
    }
}

fn compute(operator: TokenKind, left: u64, right: u64) -> u64 {
    let l = f64::from_bits(left);
    let r = f64::from_bits(right);
    let result = match operator {
        TokenKind::Plus => l + r,
        TokenKind::Minus => l - r,
        TokenKind::Star => l * r,
        TokenKind::Slash => l / r,
        _ => panic!("no arithmetic operator"),
    };
    result.to_bits()
}

fn compare(operator: TokenKind, left: u64, right: u64) -> bool {
    let l = f64::from_bits(left);
    let r = f64::from_bits(right);
    match operator {
        TokenKind::Greater => l > r,
        TokenKind::GreaterEqual => l >= r,
        TokenKind::Less => l < r,
        TokenKind::LessEqual => l <= r,
        TokenKind::EqualEqual => l == r,
        TokenKind::BangEqual => l != r,
        _ => panic!("no comparison operator"),
    }
}

fn run(source: &str) -> Outcome {
    let program = Lox::new().run(source.to_string()).expect("the source is a program");
    assert!(program.errors.is_empty(), "syntax errors: {:?}", program.errors);
    let mut interpreter = Interpreter::new();
    interpreter.install(program.locals);
    interpreter.interpret(&program.statements);
    let mut printed = Vec::new();
    let mut event = Event::Resume;
    let mut steps = 0;
    loop {
        steps += 1;
        assert!(steps < 1_000_000, "the program does not end");
        let action = interpreter.step(event);
        event = Event::Resume;
        match action {
            Action::Continue => {}
            Action::Print(value) => printed.push(show(&interpreter, value)),
            Action::Number(token) => {
                event = Event::Number(token.lexeme.parse::<f64>().unwrap().to_bits())
            }
            Action::Negate(bits) => event = Event::Number((-f64::from_bits(bits)).to_bits()),
            Action::Arithmetic { operator, left, right } => {
                event = Event::Number(compute(operator, left, right))
            }
            Action::Compare { operator, left, right } => {
                event = Event::Bool(compare(operator, left, right))
            }
            Action::CallBuiltIn { .. } => event = Event::Number(1234.0f64.to_bits()),
            Action::Finished => return Outcome { printed, error: None },
            Action::Failed(error) => {
                return Outcome { printed, error: Some(describe(&error)) };
            }
        }
    }
}

fn prints(source: &str) -> Vec<String> {
    let outcome = run(source);
    assert_eq!(outcome.error, None);
    outcome.printed
}

fn fails(source: &str) -> String {
    run(source).error.expect("the program fails")
}

#[test]
fn closures_share_mutable_state() {
    let printed = prints(
        "fun makeCounter(){ var i=0; fun count(){ i=i+1; return i;} return count;} \
         var c=makeCounter(); print c(); print c();",
    );
    assert_eq!(printed, vec!["1", "2"]);
}

#[test]
fn two_counters_do_not_share_state() {
    let printed = prints(
        "fun makeCounter(){ var i=0; fun count(){ i=i+1; return i;} return count;} \
         var a=makeCounter(); var b=makeCounter(); print a(); print a(); print b();",
    );
    assert_eq!(printed, vec!["1", "2", "1"]);
}

#[test]
fn self_reference_in_initializer_fails_resolution() {
    let result = Lox::new().run("var a = 1; { var a = a + 1; }".to_string());
    match result {
        Err(LoxError::Resolve(error)) => {
            assert_eq!(error.kind, ResolverErrorKind::ReadInOwnInitializer);
            assert_eq!(error.line, 1);
        }
        _ => panic!("resolution must fail"),
    }
}

#[test]
fn arity_is_checked_before_the_body_runs() {
    let outcome = run("fun f(){ print \"ran\"; } f(1);");
    assert_eq!(outcome.error, Some("arity 0 1".to_string()));
    assert!(outcome.printed.is_empty());
}

#[test]
fn too_few_arguments_fail_too() {
    assert_eq!(fails("fun f(a, b){ return a; } f(1);"), "arity 2 1");
}

#[test]
fn plus_joins_strings() {
    assert_eq!(prints("print \"a\" + \"b\";"), vec!["ab"]);
}

#[test]
fn plus_adds_numbers() {
    assert_eq!(prints("print 1 + 2;"), vec!["3"]);
}

#[test]
fn plus_on_number_and_string_fails() {
    assert_eq!(fails("print 1 + \"b\";"), "operands must be numbers or strings");
}

#[test]
fn minus_on_strings_fails() {
    assert_eq!(fails("print \"a\" - \"b\";"), "operands must be numbers");
}

#[test]
fn arithmetic_and_precedence() {
    assert_eq!(prints("print 1 + 2 * 3 - 4 / 2;"), vec!["5"]);
    assert_eq!(prints("print (1 + 2) * 3;"), vec!["9"]);
    assert_eq!(prints("print -3 + 1;"), vec!["-2"]);
    assert_eq!(prints("print 1.5 + 1.25;"), vec!["2.75"]);
}

#[test]
fn comparisons_and_equality() {
    assert_eq!(prints("print 1 < 2; print 2 <= 2; print 3 > 4; print 4 >= 5;"), vec![
        "true", "true", "false", "false"
    ]);
    assert_eq!(prints("print 1 == 1; print 1 != 1; print \"a\" == \"a\"; print \"a\" == \"b\";"), vec![
        "true", "false", "true", "false"
    ]);
    assert_eq!(prints("print nil == nil; print nil == false; print 1 == \"1\"; print true != false;"), vec![
        "true", "false", "false", "true"
    ]);
}

#[test]
fn comparison_of_strings_fails() {
    assert_eq!(fails("print \"a\" < \"b\";"), "operands must be numbers");
}

#[test]
fn unary_minus_on_a_string_fails() {
    assert_eq!(fails("print -\"a\";"), "unary minus");
}

#[test]
fn bang_negates_truthiness() {
    assert_eq!(prints("print !nil; print !0; print !\"\"; print !false;"), vec![
        "true", "false", "false", "true"
    ]);
}

#[test]
fn logical_operators_short_circuit() {
    let printed = prints(
        "fun loud(v){ print \"called\"; return v; } \
         print false and loud(1); print true or loud(2); print nil or \"x\"; print 1 and 2;",
    );
    assert_eq!(printed, vec!["false", "true", "x", "2"]);
}

#[test]
fn subclass_method_overrides_and_super_reaches_the_superclass() {
    let printed = prints(
        "class A { hello() { return \"A\"; } } \
         class B < A { hello() { return \"B then \" + super.hello(); } } \
         class C < B { } \
         print B().hello(); print C().hello(); print A().hello();",
    );
    assert_eq!(printed, vec!["B then A", "B then A", "A"]);
}

#[test]
fn inherited_methods_are_found_along_the_chain() {
    let printed = prints(
        "class A { a() { return 1; } } class B < A { b() { return 2; } } class C < B {} \
         var c = C(); print c.a(); print c.b();",
    );
    assert_eq!(printed, vec!["1", "2"]);
}

#[test]
fn a_field_shadows_a_method() {
    let printed = prints(
        "class A { field() { return \"method\"; } } \
         var a = A(); print a.field(); a.field = 7; print a.field;",
    );
    assert_eq!(printed, vec!["method", "7"]);
}

#[test]
fn a_global_may_change_its_kind_of_value() {
    assert_eq!(prints("var a = 1; a = \"text\"; print a;"), vec!["text"]);
}

#[test]
fn assignment_is_an_expression() {
    assert_eq!(prints("var a; var b; a = b = 3; print a; print b;"), vec!["3", "3"]);
}

#[test]
fn assignment_to_an_unknown_global_changes_nothing() {
    assert_eq!(fails("a = 1; print a;"), "undefined variable a");
}

#[test]
fn undefined_variable_fails() {
    assert_eq!(fails("print missing;"), "undefined variable missing");
}

#[test]
fn undefined_property_fails() {
    assert_eq!(fails("class A {} print A().missing;"), "undefined property missing");
}

#[test]
fn properties_need_an_instance() {
    assert_eq!(fails("var a = 1; print a.b;"), "only instances have properties");
    assert_eq!(fails("var a = \"s\"; a.b = 2;"), "only instances have properties");
}

#[test]
fn calling_a_number_fails() {
    assert_eq!(fails("var a = 1; a();"), "not callable");
}

#[test]
fn superclass_must_be_a_class() {
    assert_eq!(fails("var NotAClass = 1; class A < NotAClass {}"), "superclass must be a class NotAClass");
}

#[test]
fn blocks_scope_their_variables() {
    let printed = prints("var a = \"outer\"; { var a = \"inner\"; print a; } print a;");
    assert_eq!(printed, vec!["inner", "outer"]);
}

#[test]
fn closures_see_the_scope_of_their_definition() {
    let printed = prints(
        "var a = \"global\"; { fun show() { print a; } show(); var a = \"block\"; show(); }",
    );
    assert_eq!(printed, vec!["global", "global"]);
}

#[test]
fn while_and_for_loops_run() {
    assert_eq!(prints("var i = 0; while (i < 3) { print i; i = i + 1; }"), vec!["0", "1", "2"]);
    assert_eq!(prints("for (var i = 0; i < 3; i = i + 1) print i;"), vec!["0", "1", "2"]);
}

#[test]
fn if_chooses_a_branch() {
    assert_eq!(prints("if (1 < 2) print \"then\"; else print \"else\";"), vec!["then"]);
    assert_eq!(prints("if (nil) print \"then\"; else print \"else\";"), vec!["else"]);
    assert_eq!(prints("if (false) print \"then\"; print \"after\";"), vec!["after"]);
}

#[test]
fn recursion_computes_fibonacci() {
    let printed = prints(
        "fun fib(n) { if (n < 2) return n; return fib(n - 1) + fib(n - 2); } print fib(10);",
    );
    assert_eq!(printed, vec!["55"]);
}

#[test]
fn return_leaves_loops_and_blocks() {
    let printed = prints(
        "var a = \"global\"; \
         fun find() { var i = 0; while (true) { { if (i == 3) return i; } i = i + 1; } } \
         print find(); print a;",
    );
    assert_eq!(printed, vec!["3", "global"]);
}

#[test]
fn a_function_without_return_gives_nil() {
    assert_eq!(prints("fun f() {} print f();"), vec!["nil"]);
    assert_eq!(prints("fun f() { return; } print f();"), vec!["nil"]);
}

#[test]
fn initializer_receives_arguments_and_class_call_yields_the_instance() {
    let printed = prints(
        "class Point { init(x, y) { this.x = x; this.y = y; } sum() { return this.x + this.y; } } \
         var p = Point(1, 2); print p.sum(); print p;",
    );
    assert_eq!(printed, vec!["3", "instance Point(x, y)"]);
}

#[test]
fn class_arity_is_that_of_its_initializer() {
    assert_eq!(fails("class Point { init(x, y) {} } Point(1);"), "arity 2 1");
    assert_eq!(fails("class Empty {} Empty(1);"), "arity 0 1");
}

#[test]
fn bound_methods_remember_their_instance() {
    let printed = prints(
        "class A { init(n) { this.n = n; } get() { return this.n; } } \
         var m = A(5).get; print m();",
    );
    assert_eq!(printed, vec!["5"]);
}

#[test]
fn two_reads_of_a_method_are_two_bound_functions() {
    assert_eq!(prints("class A { m() {} } var a = A(); print a.m == a.m;"), vec!["false"]);
    assert_eq!(prints("fun f() {} print f == f;"), vec!["true"]);
}

#[test]
fn instances_are_equal_to_themselves_only() {
    assert_eq!(prints("class A {} var a = A(); var b = A(); print a == a; print a == b;"), vec![
        "true", "false"
    ]);
}

#[test]
fn values_print_in_their_canonical_form() {
    let printed = prints("fun add(a, b) {} class K {} print add; print K; print clock; print nil; print true;");
    assert_eq!(printed, vec!["<fun add(a, b)>", "<class K>", "<fun clock()>", "nil", "true"]);
}

#[test]
fn the_clock_is_a_host_function() {
    assert_eq!(prints("print clock();"), vec!["1234"]);
    assert_eq!(fails("clock(1);"), "arity 0 1");
}

#[test]
fn an_error_stops_the_rest_of_the_program() {
    let outcome = run("print 1; print missing; print 2;");
    assert_eq!(outcome.printed, vec!["1"]);
    assert_eq!(outcome.error, Some("undefined variable missing".to_string()));
}

#[test]
fn methods_can_be_stored_in_fields_and_called() {
    let printed = prints(
        "class A {} fun f(x) { return x * 2; } var a = A(); a.twice = f; print a.twice(4);",
    );
    assert_eq!(printed, vec!["8"]);
}

fn rendered(source: &str, name: &str) -> Option<String> {
    let program = Lox::new().run(source.to_string()).expect("the source is a program");
    let mut interpreter = Interpreter::new();
    interpreter.install(program.locals);
    interpreter.interpret(&program.statements);
    let mut event = Event::Resume;
    loop {
        match interpreter.step(event) {
            Action::Number(token) => {
                event = Event::Number(token.lexeme.parse::<f64>().unwrap().to_bits())
            }
            Action::Finished => break,
            Action::Failed(error) => panic!("{}", describe(&error)),
            _ => event = Event::Resume,
        }
    }
    let value = interpreter.environment.get(0, name).expect("the global exists");
    interpreter.render(value)
}

#[test]
fn the_library_renders_all_values_but_numbers() {
    assert_eq!(rendered("var v = true;", "v"), Some("true".to_string()));
    assert_eq!(rendered("var v = false;", "v"), Some("false".to_string()));
    assert_eq!(rendered("var v;", "v"), Some("nil".to_string()));
    assert_eq!(rendered("var v = \"text\";", "v"), Some("text".to_string()));
    assert_eq!(rendered("var v = 1;", "v"), None);
    assert_eq!(rendered("fun v() {}", "v"), Some("<fun v()>".to_string()));
    assert_eq!(rendered("fun v(a) {}", "v"), Some("<fun v(a)>".to_string()));
    assert_eq!(rendered("fun v(a, b, c) {}", "v"), Some("<fun v(a, b, c)>".to_string()));
    assert_eq!(rendered("class v {}", "v"), Some("<class v>".to_string()));
    assert_eq!(rendered("var v = clock;", "v"), Some("<fun clock()>".to_string()));
    assert_eq!(rendered("class K {} var v = K();", "v"), Some("instance K()".to_string()));
    assert_eq!(
        rendered("class K {} var v = K(); v.b = 1; v.a = 2; v.b = 3;", "v"),
        Some("instance K(b, a)".to_string())
    );
}

#[test]
fn errors_have_their_messages() {
    let program = Lox::new().run("f(1, 2); g; h.p;".to_string()).unwrap();
    let token = match &program.statements[1] {
        tree_walk_lox::ast::Stmt::Expression {
            expression: tree_walk_lox::ast::Expr::Variable { name },
        } => name,
        _ => panic!("a variable"),
    };
    assert_eq!(InterpreterError::Internal.message(""), "Unexpected error.");
    assert_eq!(
        InterpreterError::UnaryMinusOperandMustBeNumber(RuntimeValue::Nil).message("nil"),
        "Unary minus must be applied to number, but value was nil."
    );
    assert_eq!(InterpreterError::OperandsMustBeNumbers.message(""), "Operands must be numbers.");
    assert_eq!(
        InterpreterError::OperandsMustBeNumbersOrStr.message(""),
        "Operands must be numbers or strings."
    );
    assert_eq!(InterpreterError::UndefinedVariable(token).message(""), "Undefined variable 'g'.");
    assert_eq!(InterpreterError::UndefinedProperty(token).message(""), "Undefined property 'g'.");
    assert_eq!(
        InterpreterError::NotCallable(RuntimeValue::Bool(true)).message("true"),
        "'true' is not callable."
    );
    assert_eq!(
        InterpreterError::FunctionArity(token, 0, 12).message(""),
        "Expected 0 arguments but got 12."
    );
    assert_eq!(
        InterpreterError::FunctionArity(token, 255, 1090).message(""),
        "Expected 255 arguments but got 1090."
    );
    assert_eq!(
        InterpreterError::MustAccessValueOnInstances.message(""),
        "Only instances have properties."
    );
    assert_eq!(
        InterpreterError::SuperclassMustBeClass(token).message(""),
        "Superclass 'g' must be a class."
    );
    assert!(matches!(
        InterpreterError::NotCallable(RuntimeValue::Bool(true)).value(),
        Some(RuntimeValue::Bool(true))
    ));
    assert!(InterpreterError::Internal.value().is_none());
}

#[test]
fn run_stops_when_the_host_has_work_or_the_budget_is_spent() {
    let program = Lox::new().run("var a = true; var b = false; print a;".to_string()).unwrap();
    let mut interpreter = Interpreter::new();
    interpreter.install(program.locals);
    interpreter.interpret(&program.statements);
    assert!(matches!(interpreter.run(Event::Resume, 2), Action::Continue));
    assert!(matches!(
        interpreter.run(Event::Resume, 1000),
        Action::Print(RuntimeValue::Bool(true))
    ));
    assert!(matches!(interpreter.run(Event::Resume, 1000), Action::Finished));
    assert!(matches!(interpreter.step(Event::Resume), Action::Finished));
}

#[test]
fn a_missing_answer_of_the_host_is_an_internal_error() {
    let program = Lox::new().run("print 1 + 2;".to_string()).unwrap();
    let mut interpreter = Interpreter::new();
    interpreter.install(program.locals);
    interpreter.interpret(&program.statements);
    assert!(matches!(interpreter.run(Event::Resume, 1000), Action::Number(_)));
    assert!(matches!(
        interpreter.run(Event::Resume, 1000),
        Action::Failed(InterpreterError::Internal)
    ));
    assert!(interpreter.control.is_empty());
    assert!(interpreter.operands.is_empty());
    assert_eq!(interpreter.current, 0);
}

#[test]
fn the_host_is_asked_for_each_kind_of_work_on_numbers() {
    let program = Lox::new().run("-(1 * 2) < 3 / 4;".to_string()).unwrap();
    let mut interpreter = Interpreter::new();
    interpreter.install(program.locals);
    interpreter.interpret(&program.statements);
    let one = 1.0f64.to_bits();
    let two = 2.0f64.to_bits();
    match interpreter.run(Event::Resume, 1000) {
        Action::Number(token) => assert_eq!(token.lexeme, "1"),
        _ => panic!("the first literal"),
    }
    match interpreter.run(Event::Number(one), 1000) {
        Action::Number(token) => assert_eq!(token.lexeme, "2"),
        _ => panic!("the second literal"),
    }
    assert!(matches!(
        interpreter.run(Event::Number(two), 1000),
        Action::Arithmetic { operator: TokenKind::Star, left, right } if left == one && right == two
    ));
    assert!(matches!(interpreter.run(Event::Number(two), 1000), Action::Negate(bits) if bits == two));
    assert!(matches!(interpreter.run(Event::Number(one), 1000), Action::Number(_)));
    assert!(matches!(interpreter.run(Event::Number(3), 1000), Action::Number(_)));
    assert!(matches!(
        interpreter.run(Event::Number(4), 1000),
        Action::Arithmetic { operator: TokenKind::Slash, left: 3, right: 4 }
    ));
    assert!(matches!(
        interpreter.run(Event::Number(7), 1000),
        Action::Compare { operator: TokenKind::Less, left, right: 7 } if left == one
    ));
    assert!(matches!(interpreter.run(Event::Bool(true), 1000), Action::Finished));
}

#[test]
fn the_interpreter_records_distances_by_the_token_of_the_expression() {
    let program = Lox::new().run("a; a = 1; 2;".to_string()).unwrap();
    let mut interpreter = Interpreter::new();
    let expression = |index: usize| match &program.statements[index] {
        tree_walk_lox::ast::Stmt::Expression { expression } => expression,
        _ => panic!("an expression statement"),
    };
    interpreter.resolve(expression(0), 2);
    interpreter.resolve(expression(1), 5);
    interpreter.resolve(expression(2), 7);
    assert_eq!(interpreter.locals.distance(0), Some(2));
    assert_eq!(interpreter.locals.distance(3), Some(5));
    assert_eq!(interpreter.locals.distances.len(), 2);
}

#[test]
fn a_block_runs_in_its_scope_and_the_old_scope_comes_back() {
    let program = Lox::new().run("var a = true;".to_string()).unwrap();
    let mut interpreter = Interpreter::new();
    let inner = interpreter.environment.child(0);
    interpreter.execute_block(&program.statements, inner);
    assert_eq!(interpreter.current, inner);
    let mut steps = 0;
    while !matches!(interpreter.step(Event::Resume), Action::Finished) {
        steps += 1;
        assert!(steps < 100);
    }
    assert_eq!(interpreter.current, 0);
    assert!(matches!(
        interpreter.environment.get_at(inner, 0, "a"),
        Some(RuntimeValue::Bool(true))
    ));
    assert!(interpreter.environment.get(0, "a").is_none());
}

#[test]
fn arity_of_each_kind_of_callable() {
    let program = Lox::new()
        .run("fun two(a, b) {} class K { init(x) {} } class E {} class S < K {}".to_string())
        .unwrap();
    let mut interpreter = Interpreter::new();
    interpreter.install(program.locals);
    interpreter.interpret(&program.statements);
    while !matches!(interpreter.step(Event::Resume), Action::Finished) {}
    let arity = |interpreter: &Interpreter, name: &str| {
        let value = interpreter.environment.get(0, name).unwrap();
        value.as_callable().unwrap().arity(interpreter)
    };
    assert_eq!(arity(&interpreter, "two"), Some(2));
    assert_eq!(arity(&interpreter, "K"), Some(1));
    assert_eq!(arity(&interpreter, "E"), Some(0));
    assert_eq!(arity(&interpreter, "S"), Some(1));
    assert_eq!(arity(&interpreter, "clock"), Some(0));
    assert_eq!(tree_walk_lox::value::Callable::Class(99).arity(&interpreter), None);
    assert_eq!(tree_walk_lox::value::Callable::BuiltIn(99).arity(&interpreter), None);
}

#[test]
fn a_new_interpreter_knows_only_the_clock() {
    let interpreter = Interpreter::new();
    assert_eq!(interpreter.environment.frames.len(), 1);
    assert!(matches!(
        interpreter.environment.get(0, "clock"),
        Some(RuntimeValue::BuiltInFunction(0))
    ));
    assert_eq!(interpreter.natives.len(), 1);
    assert_eq!(interpreter.natives[0].name, "clock");
    assert!(interpreter.control.is_empty());
    assert!(matches!(Interpreter::new().step(Event::Resume), Action::Finished));
}

#[test]
fn super_calls_the_superclass_method_on_the_same_instance() {
    let printed = prints(
        "class A { init() { this.n = \"a\"; } name() { return this.n; } } \
         class B < A { init() { super.init(); this.n = this.n + \"b\"; } name() { return \"B:\" + super.name(); } } \
         print B().name();",
    );
    assert_eq!(printed, vec!["B:ab"]);
}

#[test]
fn a_missing_superclass_method_is_an_undefined_property() {
    assert_eq!(
        fails("class A {} class B < A { m() { return super.missing; } } B().m();"),
        "undefined property missing"
    );
}

#[test]
fn parameters_shadow_outer_variables_and_the_last_of_two_counts() {
    assert_eq!(prints("var a = 1; fun f(a) { return a; } print f(2); print a;"), vec!["2", "1"]);
}

#[test]
fn a_class_can_refer_to_itself_in_its_methods() {
    let printed = prints("class A { make() { return A(); } } print A().make();");
    assert_eq!(printed, vec!["instance A()"]);
}

#[test]
fn a_call_through_the_callable_interface_skips_the_arity_check() {
    let program = Lox::new().run("fun f(a) { print a; } f;".to_string()).unwrap();
    let mut interpreter = Interpreter::new();
    interpreter.install(program.locals);
    interpreter.interpret(&program.statements);
    while !matches!(interpreter.step(Event::Resume), Action::Finished) {}
    let function = interpreter.environment.get(0, "f").unwrap();
    let callable = function.as_callable().unwrap();
    assert_eq!(callable.arity(&interpreter), Some(1));
    interpreter.operands.push(function);
    interpreter.operands.push(RuntimeValue::Bool(true));
    assert!(matches!(callable.call(&mut interpreter, 1), Action::Continue));
    assert!(interpreter.operands.is_empty());
    assert_eq!(interpreter.current, 1);
    let mut printed = Vec::new();
    loop {
        match interpreter.step(Event::Resume) {
            Action::Print(value) => printed.push(show(&interpreter, value)),
            Action::Finished => break,
            Action::Continue => {}
            _ => panic!("nothing else is due"),
        }
    }
    assert_eq!(printed, vec!["true"]);
    assert_eq!(interpreter.current, 0);
    assert!(matches!(interpreter.operands.last(), Some(RuntimeValue::Nil)));
}
