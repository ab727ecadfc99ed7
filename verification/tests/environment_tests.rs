use tree_walk_lox::environment::Environment;
use tree_walk_lox::value::RuntimeValue;

fn number(value: &Option<RuntimeValue>) -> Option<u64> {
    match value {
        Some(RuntimeValue::Number(n)) => Some(*n),
        _ => None,
    }
}

#[test]
fn a_new_store_has_one_empty_root() {
    let environment = Environment::new();
    assert_eq!(environment.frames.len(), 1);
    assert_eq!(environment.enclosing(0), None);
    assert!(environment.get(0, "a").is_none());
}

#[test]
fn define_then_get_in_the_same_scope() {
    let mut environment = Environment::new();
    environment.define(0, "a", RuntimeValue::Number(7));
    assert_eq!(number(&environment.get(0, "a")), Some(7));
    environment.define(0, "a", RuntimeValue::Number(8));
    assert_eq!(number(&environment.get(0, "a")), Some(8));
}

#[test]
fn child_scopes_see_and_shadow_their_parents() {
    let mut environment = Environment::new();
    environment.define(0, "a", RuntimeValue::Number(1));
    let inner = environment.child(0);
    assert_eq!(inner, 1);
    assert_eq!(environment.enclosing(inner), Some(0));
    assert_eq!(number(&environment.get(inner, "a")), Some(1));
    environment.define(inner, "a", RuntimeValue::Number(2));
    assert_eq!(number(&environment.get(inner, "a")), Some(2));
    assert_eq!(number(&environment.get(0, "a")), Some(1));
}

#[test]
fn get_at_reads_only_the_scope_at_that_distance() {
    let mut environment = Environment::new();
    environment.define(0, "a", RuntimeValue::Number(1));
    let middle = environment.child(0);
    let inner = environment.child(middle);
    environment.define(inner, "b", RuntimeValue::Number(2));
    assert_eq!(number(&environment.get_at(inner, 2, "a")), Some(1));
    assert_eq!(number(&environment.get_at(inner, 0, "b")), Some(2));
    assert!(environment.get_at(inner, 0, "a").is_none());
    assert!(environment.get_at(inner, 1, "a").is_none());
    assert!(environment.get_at(inner, 3, "a").is_none());
}

#[test]
fn assign_changes_the_innermost_binding_and_reports_the_old_value() {
    let mut environment = Environment::new();
    environment.define(0, "a", RuntimeValue::Number(1));
    let inner = environment.child(0);
    let previous = environment.assign(inner, "a", RuntimeValue::Number(5));
    assert_eq!(number(&previous), Some(1));
    assert_eq!(number(&environment.get(0, "a")), Some(5));
    assert!(environment.get_at(inner, 0, "a").is_none());
}

#[test]
fn assign_to_an_unbound_name_fails_and_changes_nothing() {
    let mut environment = Environment::new();
    let inner = environment.child(0);
    assert!(environment.assign(inner, "missing", RuntimeValue::Nil).is_none());
    assert!(environment.get(inner, "missing").is_none());
}

#[test]
fn assign_at_writes_the_scope_at_that_distance() {
    let mut environment = Environment::new();
    environment.define(0, "a", RuntimeValue::Number(1));
    let inner = environment.child(0);
    let previous = environment.assign_at(inner, 1, "a", RuntimeValue::Number(9));
    assert_eq!(number(&previous), Some(1));
    assert_eq!(number(&environment.get(0, "a")), Some(9));
    assert!(environment.assign_at(inner, 5, "a", RuntimeValue::Number(3)).is_none());
    assert_eq!(number(&environment.get(0, "a")), Some(9));
}

#[test]
fn a_global_holds_a_value_of_another_kind_after_assignment() {
    let mut environment = Environment::new();
    environment.define(0, "a", RuntimeValue::Number(1));
    environment.assign(0, "a", RuntimeValue::Str(0));
    assert!(matches!(environment.get(0, "a"), Some(RuntimeValue::Str(0))));
}

#[test]
fn ancestor_and_owner_walk_the_chain() {
    let mut environment = Environment::new();
    environment.define(0, "a", RuntimeValue::Nil);
    let middle = environment.child(0);
    let inner = environment.child(middle);
    assert_eq!(environment.ancestor(inner, 0), Some(inner));
    assert_eq!(environment.ancestor(inner, 1), Some(middle));
    assert_eq!(environment.ancestor(inner, 2), Some(0));
    assert_eq!(environment.ancestor(inner, 3), None);
    assert_eq!(environment.owner(inner, "a"), Some(0));
    assert_eq!(environment.owner(inner, "b"), None);
}
