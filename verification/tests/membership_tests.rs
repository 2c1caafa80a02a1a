use evalexpr::eval_boolean_with_context;
use row_filter::create_function_context;
use row_filter::membership::in_predicate;
use row_filter::membership::MembershipFault;
use row_filter::TypedValue;

#[test]
fn in_function_on_tuple() {
    let ctx = create_function_context();

    assert!(eval_boolean_with_context(r#"in("a", ("a", "b", "c"))"#, &ctx).unwrap());
    assert!(eval_boolean_with_context(r#"in(2, (1, 2, 3))"#, &ctx).unwrap());
    assert!(eval_boolean_with_context(r#"in("foo", (1, 2, "foo", "bar"))"#, &ctx).unwrap());

    assert_eq!(
        eval_boolean_with_context(r#"in("d", ("a", "b", "c"))"#, &ctx).unwrap(),
        false
    );
    assert_eq!(
        eval_boolean_with_context(r#"in("2", (1, 2, 3))"#, &ctx).unwrap(),
        false
    );
    assert_eq!(
        eval_boolean_with_context(r#"in(1, ("1", "2", "foo", "bar"))"#, &ctx).unwrap(),
        false
    );
}

#[test]
fn in_function_on_string() {
    let ctx = create_function_context();

    assert!(eval_boolean_with_context(r#"in("a", "abc")"#, &ctx).unwrap());
    assert!(eval_boolean_with_context(r#"in("substring", "contains substring")"#, &ctx).unwrap());
    assert!(eval_boolean_with_context(r#"in("bar", "foo bar baz")"#, &ctx).unwrap());

    assert_eq!(
        eval_boolean_with_context(r#"in("d", "abc")"#, &ctx).unwrap(),
        false
    );
    assert_eq!(
        eval_boolean_with_context(r#"in("2", "abc")"#, &ctx).unwrap(),
        false
    );
    assert_eq!(
        eval_boolean_with_context(r#"in("contains substring", "substring")"#, &ctx).unwrap(),
        false
    );

    assert!(eval_boolean_with_context(r#"in(1, "abc")"#, &ctx).is_err());
}

#[test]
fn in_function_wrong_arity_fails() {
    let ctx = create_function_context();

    assert!(eval_boolean_with_context(r#"in("a")"#, &ctx).is_err());
    assert!(eval_boolean_with_context(r#"in(1, 2)"#, &ctx).is_err());
    assert!(eval_boolean_with_context(r#"in(1, true)"#, &ctx).is_err());
}

#[test]
fn in_predicate_on_typed_values() {
    let hay = TypedValue::Tuple(vec![
        TypedValue::Str(String::from("a")),
        TypedValue::Str(String::from("b")),
        TypedValue::Str(String::from("c")),
    ]);
    assert_eq!(
        in_predicate(&TypedValue::Str(String::from("a")), &hay),
        Ok(true)
    );
    assert_eq!(
        in_predicate(&TypedValue::Str(String::from("d")), &hay),
        Ok(false)
    );

    let text = TypedValue::Str(String::from("foo bar baz"));
    assert_eq!(
        in_predicate(&TypedValue::Str(String::from("bar")), &text),
        Ok(true)
    );
    assert_eq!(
        in_predicate(&TypedValue::Str(String::from("qux")), &text),
        Ok(false)
    );
    assert_eq!(
        in_predicate(&TypedValue::Int(1), &text),
        Err(MembershipFault::NeedleKind)
    );
    assert_eq!(
        in_predicate(&TypedValue::Int(1), &TypedValue::Bool(true)),
        Err(MembershipFault::HaystackKind)
    );
}

#[test]
fn engine_builtins_are_disabled() {
    let ctx = create_function_context();

    assert!(
        eval_boolean_with_context("str::substring(\"\u{e4}\", 0, 1) == \"x\"", &ctx).is_err()
    );
    assert!(eval_boolean_with_context("len(\"ab\") == 2", &ctx).is_err());
    assert!(eval_boolean_with_context("math::abs(-1) == 1", &ctx).is_err());
}
