use tree_walk_lox::lox::{Lox, LoxError};
use tree_walk_lox::parser::Parser;
use tree_walk_lox::resolver::{Resolver, ResolverError, ResolverErrorKind, SideTable};
use tree_walk_lox::scanner::Scanner;

fn resolve(source: &str) -> Result<SideTable, ResolverError> {
    let tokens = Scanner::new(source.to_string()).scan_tokens().unwrap();
    let parsed = Parser::new(tokens).parse();
    assert!(parsed.errors.is_empty());
    Resolver::new().resolve(&parsed.statements)
}

fn kind_of(source: &str) -> ResolverErrorKind {
    resolve(source).err().expect("resolution fails").kind
}

#[test]
fn globals_get_no_distance() {
    let table = resolve("var a = 1; print a; a = 2;").unwrap();
    assert_eq!(table.distances.len(), 0);
}

#[test]
fn locals_get_the_number_of_scopes_in_between() {
    //            0         1         2         3
    //            0123456789012345678901234567890123456789
    let source = "{ var a = 1; { var b = a; { a = b; } } }";
    let table = resolve(source).unwrap();
    assert_eq!(table.distance(23), Some(1)); // a in `var b = a`
    assert_eq!(table.distance(28), Some(2)); // a in `a = b`
    assert_eq!(table.distance(32), Some(1)); // b in `a = b`
    assert_eq!(table.distances.len(), 3);
}

#[test]
fn the_innermost_declaration_is_the_one_that_counts() {
    //            0123456789012345678901234567890
    let source = "{ var a = 1; { var a = 2; a; } }";
    let table = resolve(source).unwrap();
    assert_eq!(table.distance(26), Some(0));
}

#[test]
fn parameters_live_in_the_function_scope() {
    //            01234567890123456789012345
    let source = "fun f(x) { return x; }";
    let table = resolve(source).unwrap();
    assert_eq!(table.distance(18), Some(0));
}

#[test]
fn this_and_super_are_resolved_like_variables() {
    //            0         1         2         3         4         5         6
    //            0123456789012345678901234567890123456789012345678901234567890123456789
    let source = "class A { m() { return this; } } class B < A { m() { return super.m; } }";
    let table = resolve(source).unwrap();
    assert_eq!(table.distance(23), Some(1)); // this
    assert_eq!(table.distance(60), Some(2)); // super
}

#[test]
fn a_name_declared_twice_in_one_scope_is_rejected() {
    assert_eq!(kind_of("{ var a = 1; var a = 2; }"), ResolverErrorKind::AlreadyDeclared);
    assert_eq!(kind_of("fun f(a, a) {}"), ResolverErrorKind::AlreadyDeclared);
    assert!(resolve("var a = 1; var a = 2;").is_ok());
    assert!(resolve("{ var a = 1; { var a = 2; } }").is_ok());
}

#[test]
fn reading_a_variable_in_its_own_initializer_is_rejected() {
    assert_eq!(kind_of("{ var a = a; }"), ResolverErrorKind::ReadInOwnInitializer);
    assert_eq!(kind_of("var a = 1; { var a = a + 1; }"), ResolverErrorKind::ReadInOwnInitializer);
    let error = resolve("var a = 1;\n{\n var a = a + 1; }").err().unwrap();
    assert_eq!(error.line, 3);
}

#[test]
fn return_is_checked_against_the_kind_of_function() {
    assert_eq!(kind_of("return 1;"), ResolverErrorKind::ReturnOutsideFunction);
    assert_eq!(kind_of("return;"), ResolverErrorKind::ReturnOutsideFunction);
    assert_eq!(
        kind_of("class A { init() { return 1; } }"),
        ResolverErrorKind::ReturnValueFromInitializer
    );
    assert!(resolve("class A { init() { return; } }").is_ok());
    assert!(resolve("class A { m() { return 1; } }").is_ok());
    assert!(resolve("fun f() { return 1; }").is_ok());
}

#[test]
fn this_and_super_are_checked_against_the_kind_of_class() {
    assert_eq!(kind_of("print this;"), ResolverErrorKind::ThisOutsideClass);
    assert_eq!(kind_of("fun f() { return this; }"), ResolverErrorKind::ThisOutsideClass);
    assert_eq!(kind_of("print super.m;"), ResolverErrorKind::SuperOutsideClass);
    assert_eq!(
        kind_of("class A { m() { return super.m; } }"),
        ResolverErrorKind::SuperWithoutSuperclass
    );
}

#[test]
fn a_class_cannot_inherit_from_itself() {
    assert_eq!(kind_of("class A < A {}"), ResolverErrorKind::InheritsFromItself);
}

#[test]
fn the_front_end_reports_the_first_static_error() {
    match Lox::new().run("{ var a = 1; var a = 2; }".to_string()) {
        Err(LoxError::Resolve(error)) => assert_eq!(error.kind, ResolverErrorKind::AlreadyDeclared),
        _ => panic!("resolution must fail"),
    }
}

#[test]
fn every_static_error_has_its_sentence() {
    assert_eq!(
        ResolverErrorKind::AlreadyDeclared.message(),
        "Already variable with this name in this scope."
    );
    assert_eq!(
        ResolverErrorKind::ReadInOwnInitializer.message(),
        "Can't read local variable in its own initializer."
    );
    assert_eq!(ResolverErrorKind::ReturnOutsideFunction.message(), "Can't return from top-level code.");
    assert_eq!(
        ResolverErrorKind::ReturnValueFromInitializer.message(),
        "Can't return a value from an initializer."
    );
    assert_eq!(ResolverErrorKind::ThisOutsideClass.message(), "Can't use 'this' outside of a class.");
    assert_eq!(ResolverErrorKind::SuperOutsideClass.message(), "Can't use 'super' outside of a class.");
    assert_eq!(
        ResolverErrorKind::SuperWithoutSuperclass.message(),
        "Can't use 'super' with no superclass."
    );
    assert_eq!(ResolverErrorKind::InheritsFromItself.message(), "A class can't inherit from itself.");
}

#[test]
fn the_side_table_keeps_the_last_distance_of_a_key() {
    let mut table = SideTable::new();
    assert_eq!(table.distance(3), None);
    table.record(3, 1);
    table.record(9, 0);
    assert_eq!(table.distance(3), Some(1));
    assert_eq!(table.distance(9), Some(0));
    table.record(3, 4);
    assert_eq!(table.distance(3), Some(4));
    assert_eq!(table.distance(4), None);
}

#[test]
fn a_use_before_any_local_declaration_is_a_global() {
    //            0123456789012345678901234567
    let source = "{ print a; var a = 1; a; }";
    let table = resolve(source).unwrap();
    assert_eq!(table.distance(8), None);
    assert_eq!(table.distance(22), Some(0));
}

#[test]
fn a_closure_reaches_through_its_function_scopes() {
    //            0         1         2         3         4         5
    //            012345678901234567890123456789012345678901234567890123456
    let source = "fun o() { var i = 0; fun c() { i = i + 1; return i; } }";
    let table = resolve(source).unwrap();
    assert_eq!(table.distance(31), Some(1));
    assert_eq!(table.distance(35), Some(1));
    assert_eq!(table.distance(49), Some(1));
}
