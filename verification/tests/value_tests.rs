use tree_walk_lox::ast::FunctionStmt;
use tree_walk_lox::environment::Environment;
use tree_walk_lox::token::{Literal, Token, TokenKind};
use tree_walk_lox::value::{
    BuiltInFunction, Callable, ClassDefinition, ClassInstance, RuntimeValue, UserFunction,
};
use vstd::hash_map::StringHashMap;

fn identifier(name: &str, index: usize) -> Token {
    Token {
        kind: TokenKind::Identifier,
        lexeme: name.to_string(),
        literal: Literal::Nil,
        line: 1,
        scanner_index: index,
    }
}

fn declaration(name: &str, index: usize, params: &[&str]) -> FunctionStmt {
    FunctionStmt {
        name: identifier(name, index),
        params: params.iter().enumerate().map(|(i, p)| identifier(p, index + 1 + i)).collect(),
        body: Vec::new(),
    }
}

#[test]
fn nil_and_false_are_falsey_and_all_else_is_truthy() {
    assert!(!RuntimeValue::Nil.is_truthy());
    assert!(!RuntimeValue::Bool(false).is_truthy());
    assert!(RuntimeValue::Bool(true).is_truthy());
    assert!(RuntimeValue::Number(0).is_truthy());
    assert!(RuntimeValue::Str(0).is_truthy());
    assert!(RuntimeValue::Class(0).is_truthy());
    assert!(RuntimeValue::Instance(0).is_truthy());
}

#[test]
fn values_of_different_kinds_are_never_equal() {
    let strings = vec!["1".to_string()];
    assert!(!RuntimeValue::Number(1).equals(&RuntimeValue::Str(0), &strings));
    assert!(!RuntimeValue::Nil.equals(&RuntimeValue::Bool(false), &strings));
    assert!(!RuntimeValue::Class(0).equals(&RuntimeValue::Instance(0), &strings));
    assert!(RuntimeValue::Nil.equals(&RuntimeValue::Nil, &strings));
    assert!(RuntimeValue::Bool(true).equals(&RuntimeValue::Bool(true), &strings));
    assert!(!RuntimeValue::Bool(true).equals(&RuntimeValue::Bool(false), &strings));
}

#[test]
fn strings_are_equal_by_their_text() {
    let strings = vec!["a".to_string(), "a".to_string(), "b".to_string()];
    assert!(RuntimeValue::Str(0).equals(&RuntimeValue::Str(1), &strings));
    assert!(!RuntimeValue::Str(0).equals(&RuntimeValue::Str(2), &strings));
}

#[test]
fn functions_are_equal_by_declaration_and_closure() {
    let f = declaration("f", 10, &[]);
    let g = declaration("g", 20, &[]);
    let strings = Vec::new();
    let first = RuntimeValue::UserFunction(UserFunction::new(&f, 0));
    let same = RuntimeValue::UserFunction(UserFunction::new(&f, 0));
    let other_scope = RuntimeValue::UserFunction(UserFunction::new(&f, 1));
    let other = RuntimeValue::UserFunction(UserFunction::new(&g, 0));
    assert!(first.equals(&same, &strings));
    assert!(!first.equals(&other_scope, &strings));
    assert!(!first.equals(&other, &strings));
}

#[test]
fn only_functions_and_classes_are_callable() {
    let f = declaration("f", 10, &["a", "b"]);
    assert!(matches!(RuntimeValue::BuiltInFunction(3).as_callable(), Some(Callable::BuiltIn(3))));
    assert!(matches!(RuntimeValue::Class(2).as_callable(), Some(Callable::Class(2))));
    assert!(matches!(
        RuntimeValue::UserFunction(UserFunction::new(&f, 0)).as_callable(),
        Some(Callable::Function(_))
    ));
    assert!(RuntimeValue::Nil.as_callable().is_none());
    assert!(RuntimeValue::Number(1).as_callable().is_none());
    assert!(RuntimeValue::Instance(0).as_callable().is_none());
}

#[test]
fn arity_is_the_number_of_parameters() {
    let f = declaration("f", 10, &["a", "b"]);
    assert_eq!(UserFunction::new(&f, 0).arity(), 2);
    let native = BuiltInFunction::new("clock", vec![]);
    assert_eq!(native.arity(), 0);
    assert_eq!(native.name, "clock");
    let other = BuiltInFunction::new("max", vec!["a", "b"]);
    assert_eq!(other.arity(), 2);
    assert_eq!(other.args, vec!["a".to_string(), "b".to_string()]);
}

#[test]
fn bind_makes_a_scope_with_this_inside_the_closure() {
    let f = declaration("f", 10, &[]);
    let mut environment = Environment::new();
    let closure = environment.child(0);
    let bound = UserFunction::new(&f, closure).bind(4, &mut environment);
    assert_eq!(bound.closure, 2);
    assert_eq!(environment.enclosing(bound.closure), Some(closure));
    assert!(matches!(environment.get_at(bound.closure, 0, "this"), Some(RuntimeValue::Instance(4))));
}

#[test]
fn find_method_prefers_the_class_then_walks_the_superclasses() {
    let base_hello = declaration("hello", 10, &[]);
    let base_only = declaration("only", 20, &[]);
    let derived_hello = declaration("hello", 30, &["x"]);
    let base_name = identifier("Base", 1);
    let derived_name = identifier("Derived", 2);
    let mut base_methods = StringHashMap::new();
    base_methods.insert("hello".to_string(), UserFunction::new(&base_hello, 0));
    base_methods.insert("only".to_string(), UserFunction::new(&base_only, 0));
    let mut derived_methods = StringHashMap::new();
    derived_methods.insert("hello".to_string(), UserFunction::new(&derived_hello, 0));
    let classes = vec![
        ClassDefinition::new(&base_name, None, base_methods),
        ClassDefinition::new(&derived_name, Some(0), derived_methods),
    ];
    let found = ClassDefinition::find_method(&classes, 1, "hello").unwrap();
    assert_eq!(found.declaration.name.scanner_index, 30);
    let inherited = ClassDefinition::find_method(&classes, 1, "only").unwrap();
    assert_eq!(inherited.declaration.name.scanner_index, 20);
    let base = ClassDefinition::find_method(&classes, 0, "hello").unwrap();
    assert_eq!(base.declaration.name.scanner_index, 10);
    assert!(ClassDefinition::find_method(&classes, 1, "missing").is_none());
    assert!(ClassDefinition::find_method(&classes, 7, "hello").is_none());
}

#[test]
fn a_field_wins_over_a_method_of_the_same_name() {
    let method = declaration("field", 10, &[]);
    let class_name = identifier("A", 1);
    let mut methods = StringHashMap::new();
    methods.insert("field".to_string(), UserFunction::new(&method, 0));
    let classes = vec![ClassDefinition::new(&class_name, None, methods)];
    let mut environment = Environment::new();
    let mut instance = ClassInstance::new(0);
    let name = identifier("field", 50);
    match instance.get(0, &name, &classes, &mut environment) {
        Some(RuntimeValue::UserFunction(bound)) => {
            assert_eq!(bound.declaration.name.scanner_index, 10);
            assert_eq!(bound.closure, 1);
        }
        _ => panic!("the method is found"),
    }
    instance.set(&name, RuntimeValue::Number(7));
    assert!(matches!(
        instance.get(0, &name, &classes, &mut environment),
        Some(RuntimeValue::Number(7))
    ));
    assert_eq!(instance.names, vec!["field".to_string()]);
    instance.set(&name, RuntimeValue::Number(8));
    assert_eq!(instance.names, vec!["field".to_string()]);
    let missing = identifier("missing", 60);
    assert!(instance.get(0, &missing, &classes, &mut environment).is_none());
}
