use cmdargs::coerce::{Scalar, ScalarKind, Shape, Value};
use cmdargs::error::ArgError;
use cmdargs::fields::{parse_args, FieldSpec};

fn run(shape: Shape, args: &[&str]) -> Result<Value, ArgError> {
    let tokens: Vec<String> = args.iter().map(|s| s.to_string()).collect();
    let field = FieldSpec { shape, short: "q".to_string(), long: "val".to_string() };
    parse_args(&tokens, &vec![field]).map(|mut vs| vs.remove(0))
}

fn b(x: bool) -> Scalar {
    Scalar::Boolean(x)
}

fn i(x: i32) -> Scalar {
    Scalar::Integer(x)
}

fn t(x: &str) -> Scalar {
    Scalar::Text(x.to_string())
}

#[test]
fn bool_test_parse_nothing() {
    assert_eq!(run(Shape::Single(ScalarKind::Boolean), &[]), Ok(Value::Single(b(false))));
}

#[test]
fn bool_test_parse_name_only() {
    assert_eq!(run(Shape::Single(ScalarKind::Boolean), &["-q"]), Ok(Value::Single(b(true))));
}

#[test]
fn bool_test_parse_true() {
    assert_eq!(run(Shape::Single(ScalarKind::Boolean), &["-q", "true"]), Ok(Value::Single(b(true))));
}

#[test]
fn bool_test_parse_false() {
    assert_eq!(run(Shape::Single(ScalarKind::Boolean), &["-q", "false"]), Ok(Value::Single(b(false))));
}

#[test]
fn bool_test_parse_error() {
    assert_eq!(run(Shape::Single(ScalarKind::Boolean), &["-q", "foobar"]), Err(ArgError::TypeMismatch));
}

#[test]
fn bool_test_parse_many() {
    assert_eq!(run(Shape::Single(ScalarKind::Boolean), &["-q", "true", "true"]), Err(ArgError::TooManyValues));
}

#[test]
fn bool_test_merge() {
    assert_eq!(run(Shape::Single(ScalarKind::Boolean), &["-q", "true", "--val", "true"]), Ok(Value::Single(b(true))));
}

#[test]
fn option_bool_test_parse_nothing() {
    assert_eq!(run(Shape::OptionalOf(ScalarKind::Boolean), &[]), Ok(Value::Optional(None)));
}

#[test]
fn option_bool_test_parse_name_only() {
    assert_eq!(run(Shape::OptionalOf(ScalarKind::Boolean), &["-q"]), Ok(Value::Optional(Some(b(true)))));
}

#[test]
fn option_bool_test_parse_true() {
    assert_eq!(run(Shape::OptionalOf(ScalarKind::Boolean), &["-q", "true"]), Ok(Value::Optional(Some(b(true)))));
}

#[test]
fn option_bool_test_parse_false() {
    assert_eq!(run(Shape::OptionalOf(ScalarKind::Boolean), &["-q", "false"]), Ok(Value::Optional(Some(b(false)))));
}

#[test]
fn option_bool_test_parse_error() {
    assert_eq!(run(Shape::OptionalOf(ScalarKind::Boolean), &["-q", "foobar"]), Err(ArgError::TypeMismatch));
}

#[test]
fn option_bool_test_parse_many() {
    assert_eq!(run(Shape::OptionalOf(ScalarKind::Boolean), &["-q", "true", "true"]), Err(ArgError::TooManyValues));
}

#[test]
fn option_bool_test_merge() {
    assert_eq!(run(Shape::OptionalOf(ScalarKind::Boolean), &["-q", "true", "--val", "true"]), Ok(Value::Optional(Some(b(true)))));
}

#[test]
fn vector_bool_test_parse_nothing() {
    assert_eq!(run(Shape::ListOf(ScalarKind::Boolean), &[]), Ok(Value::List(vec![])));
}

#[test]
fn vector_bool_test_parse_name_only() {
    assert_eq!(run(Shape::ListOf(ScalarKind::Boolean), &["-q"]), Ok(Value::List(vec![])));
}

#[test]
fn vector_bool_test_parse_true() {
    assert_eq!(run(Shape::ListOf(ScalarKind::Boolean), &["-q", "true"]), Ok(Value::List(vec![b(true)])));
}

#[test]
fn vector_bool_test_parse_false() {
    assert_eq!(run(Shape::ListOf(ScalarKind::Boolean), &["-q", "false"]), Ok(Value::List(vec![b(false)])));
}

#[test]
fn vector_bool_test_parse_error() {
    assert_eq!(run(Shape::ListOf(ScalarKind::Boolean), &["-q", "foobar"]), Err(ArgError::TypeMismatch));
}

#[test]
fn vector_bool_test_parse_many() {
    assert_eq!(run(Shape::ListOf(ScalarKind::Boolean), &["-q", "true", "false"]), Ok(Value::List(vec![b(true), b(false)])));
}

#[test]
fn vector_bool_test_merge() {
    assert_eq!(run(Shape::ListOf(ScalarKind::Boolean), &["-q", "true", "--val", "true"]), Ok(Value::List(vec![b(true), b(true)])));
}

#[test]
fn i32_test_parse_nothing() {
    assert_eq!(run(Shape::Single(ScalarKind::Integer), &[]), Err(ArgError::MissingRequiredField));
}

#[test]
fn i32_test_parse_name_only() {
    assert_eq!(run(Shape::Single(ScalarKind::Integer), &["-q"]), Err(ArgError::MissingRequiredValue));
}

#[test]
fn i32_test_parse_number() {
    assert_eq!(run(Shape::Single(ScalarKind::Integer), &["-q", "100"]), Ok(Value::Single(i(100))));
}

#[test]
fn i32_test_parse_error() {
    assert_eq!(run(Shape::Single(ScalarKind::Integer), &["-q", "foobar"]), Err(ArgError::TypeMismatch));
}

#[test]
fn i32_test_parse_many() {
    assert_eq!(run(Shape::Single(ScalarKind::Integer), &["-q", "100", "-7"]), Err(ArgError::TooManyValues));
}

#[test]
fn i32_test_merge() {
    assert_eq!(run(Shape::Single(ScalarKind::Integer), &["-q", "100", "--val", "-7"]), Err(ArgError::ConflictingAliases));
}

#[test]
fn option_i32_test_parse_nothing() {
    assert_eq!(run(Shape::OptionalOf(ScalarKind::Integer), &[]), Ok(Value::Optional(None)));
}

#[test]
fn option_i32_test_parse_name_only() {
    assert_eq!(run(Shape::OptionalOf(ScalarKind::Integer), &["-q"]), Err(ArgError::MissingRequiredValue));
}

#[test]
fn option_i32_test_parse_number() {
    assert_eq!(run(Shape::OptionalOf(ScalarKind::Integer), &["-q", "100"]), Ok(Value::Optional(Some(i(100)))));
}

#[test]
fn option_i32_test_parse_error() {
    assert_eq!(run(Shape::OptionalOf(ScalarKind::Integer), &["-q", "foobar"]), Err(ArgError::TypeMismatch));
}

#[test]
fn option_i32_test_parse_many() {
    assert_eq!(run(Shape::OptionalOf(ScalarKind::Integer), &["-q", "100", "-7"]), Err(ArgError::TooManyValues));
}

#[test]
fn option_i32_test_merge() {
    assert_eq!(run(Shape::OptionalOf(ScalarKind::Integer), &["-q", "100", "--val", "-7"]), Err(ArgError::ConflictingAliases));
}

#[test]
fn vector_i32_test_parse_nothing() {
    assert_eq!(run(Shape::ListOf(ScalarKind::Integer), &[]), Ok(Value::List(vec![])));
}

#[test]
fn vector_i32_test_parse_name_only() {
    assert_eq!(run(Shape::ListOf(ScalarKind::Integer), &["-q"]), Ok(Value::List(vec![])));
}

#[test]
fn vector_i32_test_parse_number() {
    assert_eq!(run(Shape::ListOf(ScalarKind::Integer), &["-q", "100"]), Ok(Value::List(vec![i(100)])));
}

#[test]
fn vector_i32_test_parse_error() {
    assert_eq!(run(Shape::ListOf(ScalarKind::Integer), &["-q", "foobar"]), Err(ArgError::TypeMismatch));
}

#[test]
fn vector_i32_test_parse_many() {
    assert_eq!(run(Shape::ListOf(ScalarKind::Integer), &["-q", "100", "-7"]), Ok(Value::List(vec![i(100), i(-7)])));
}

#[test]
fn vector_i32_test_merge() {
    assert_eq!(run(Shape::ListOf(ScalarKind::Integer), &["-q", "100", "--val", "-7"]), Ok(Value::List(vec![i(100), i(-7)])));
}

#[test]
fn string_test_parse_nothing() {
    assert_eq!(run(Shape::Single(ScalarKind::Text), &[]), Err(ArgError::MissingRequiredField));
}

#[test]
fn string_test_parse_name_only() {
    assert_eq!(run(Shape::Single(ScalarKind::Text), &["-q"]), Err(ArgError::MissingRequiredValue));
}

#[test]
fn string_test_parse_value() {
    assert_eq!(run(Shape::Single(ScalarKind::Text), &["-q", "foo"]), Ok(Value::Single(t("foo"))));
}

#[test]
fn string_test_parse_many() {
    assert_eq!(run(Shape::Single(ScalarKind::Text), &["-q", "foo", "bar"]), Err(ArgError::TooManyValues));
}

#[test]
fn string_test_merge() {
    assert_eq!(run(Shape::Single(ScalarKind::Text), &["-q", "foo", "--val", "bar"]), Err(ArgError::ConflictingAliases));
}

#[test]
fn option_string_test_parse_nothing() {
    assert_eq!(run(Shape::OptionalOf(ScalarKind::Text), &[]), Ok(Value::Optional(None)));
}

#[test]
fn option_string_test_parse_name_only() {
    assert_eq!(run(Shape::OptionalOf(ScalarKind::Text), &["-q"]), Err(ArgError::MissingRequiredValue));
}

#[test]
fn option_string_test_parse_value() {
    assert_eq!(run(Shape::OptionalOf(ScalarKind::Text), &["-q", "foo"]), Ok(Value::Optional(Some(t("foo")))));
}

#[test]
fn option_string_test_parse_many() {
    assert_eq!(run(Shape::OptionalOf(ScalarKind::Text), &["-q", "foo", "bar"]), Err(ArgError::TooManyValues));
}

#[test]
fn option_string_test_merge() {
    assert_eq!(run(Shape::OptionalOf(ScalarKind::Text), &["-q", "foo", "--val", "bar"]), Err(ArgError::ConflictingAliases));
}

#[test]
fn vector_string_test_parse_nothing() {
    assert_eq!(run(Shape::ListOf(ScalarKind::Text), &[]), Ok(Value::List(vec![])));
}

#[test]
fn vector_string_test_parse_name_only() {
    assert_eq!(run(Shape::ListOf(ScalarKind::Text), &["-q"]), Ok(Value::List(vec![])));
}

#[test]
fn vector_string_test_parse_value() {
    assert_eq!(run(Shape::ListOf(ScalarKind::Text), &["-q", "foo"]), Ok(Value::List(vec![t("foo")])));
}

#[test]
fn vector_string_test_parse_many() {
    assert_eq!(run(Shape::ListOf(ScalarKind::Text), &["-q", "foo", "bar"]), Ok(Value::List(vec![t("foo"), t("bar")])));
}

#[test]
fn vector_string_test_merge() {
    assert_eq!(run(Shape::ListOf(ScalarKind::Text), &["-q", "foo", "--val", "bar"]), Ok(Value::List(vec![t("foo"), t("bar")])));
}

#[test]
fn option_vector_test_parse_nothing() {
    assert_eq!(run(Shape::OptionalListOf(ScalarKind::Text), &[]), Ok(Value::OptionalList(None)));
}

#[test]
fn option_vector_test_parse_name_only() {
    assert_eq!(run(Shape::OptionalListOf(ScalarKind::Text), &["-q"]), Ok(Value::OptionalList(Some(vec![]))));
}

#[test]
fn option_vector_test_parse_value() {
    assert_eq!(run(Shape::OptionalListOf(ScalarKind::Text), &["-q", "foo"]), Ok(Value::OptionalList(Some(vec![t("foo")]))));
}

#[test]
fn option_vector_test_parse_many() {
    assert_eq!(run(Shape::OptionalListOf(ScalarKind::Text), &["-q", "foo", "bar"]), Ok(Value::OptionalList(Some(vec![t("foo"), t("bar")]))));
}

#[test]
fn option_vector_test_merge() {
    assert_eq!(run(Shape::OptionalListOf(ScalarKind::Text), &["-q", "foo", "--val", "bar"]), Ok(Value::OptionalList(Some(vec![t("foo"), t("bar")]))));
}

#[test]
fn test_multiple_args() {
    let tokens: Vec<String> = ["-q", "foo", "--val2", "100", "-e", "true", "true", "false"]
        .iter()
        .map(|s| s.to_string())
        .collect();
    let fields = vec![
        FieldSpec { shape: Shape::Single(ScalarKind::Text), short: "q".to_string(), long: "val".to_string() },
        FieldSpec { shape: Shape::Single(ScalarKind::Integer), short: "w".to_string(), long: "val2".to_string() },
        FieldSpec { shape: Shape::ListOf(ScalarKind::Boolean), short: "e".to_string(), long: "val3".to_string() },
    ];
    let vs = parse_args(&tokens, &fields).unwrap();
    assert_eq!(vs[0], Value::Single(t("foo")));
    assert_eq!(vs[1], Value::Single(i(100)));
    assert_eq!(vs[2], Value::List(vec![b(true), b(true), b(false)]));
}
