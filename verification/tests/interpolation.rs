use noviq::number::Number;
use noviq::runtime::builtins::print::interpolate_string;
use noviq::runtime::interpreter::expr::ExprEvaluator;
use noviq::runtime::value::Value;

fn create_test_eval(vars: Vec<(&str, Value)>) -> ExprEvaluator {
    let mut eval = ExprEvaluator::new();
    for (name, value) in vars {
        eval.set_variable(name.to_string(), value);
    }
    eval
}

#[test]
fn test_interpolate_string_simple() {
    let eval = create_test_eval(vec![("name", Value::String("Alice".to_string()))]);
    let result = interpolate_string("Hello {name}", &eval).unwrap();
    assert_eq!(result, "Hello Alice");
}

#[test]
fn test_interpolate_string_number() {
    let eval = create_test_eval(vec![("age", Value::Number(Number::parse("25.0")))]);
    let result = interpolate_string("Age: {age}", &eval).unwrap();
    assert_eq!(result, "Age: 25");
}

#[test]
fn test_interpolate_string_boolean() {
    let eval = create_test_eval(vec![("flag", Value::Boolean(true))]);
    let result = interpolate_string("Status: {flag}", &eval).unwrap();
    assert_eq!(result, "Status: true");
}

#[test]
fn test_interpolate_string_multiple() {
    let eval = create_test_eval(vec![
        ("name", Value::String("Bob".to_string())),
        ("age", Value::Number(Number::parse("30.0"))),
    ]);
    let result = interpolate_string("{name} is {age} years old", &eval).unwrap();
    assert_eq!(result, "Bob is 30 years old");
}

#[test]
fn test_interpolate_string_no_variables() {
    let eval = create_test_eval(vec![]);
    let result = interpolate_string("Just plain text", &eval).unwrap();
    assert_eq!(result, "Just plain text");
}

#[test]
fn test_interpolate_string_escaped_braces() {
    let eval = create_test_eval(vec![]);
    let result = interpolate_string("Literal {{braces}}", &eval).unwrap();
    assert_eq!(result, "Literal {braces}");
}

#[test]
fn test_interpolate_string_escaped_closing() {
    let eval = create_test_eval(vec![]);
    let result = interpolate_string("Test }}", &eval).unwrap();
    assert_eq!(result, "Test }");
}

#[test]
fn test_interpolate_string_undefined_variable() {
    let eval = create_test_eval(vec![]);
    let result = interpolate_string("Hello {undefined}", &eval);
    assert!(result.is_err());
    assert!(result.unwrap_err().contains("Undefined variable"));
}

#[test]
fn test_interpolate_string_empty_variable() {
    let eval = create_test_eval(vec![]);
    let result = interpolate_string("Empty {}", &eval);
    assert!(result.is_err());
    assert!(result.unwrap_err().contains("Empty variable name"));
}

#[test]
fn test_interpolate_string_unclosed_brace() {
    let eval = create_test_eval(vec![]);
    let result = interpolate_string("Unclosed {name", &eval);
    assert!(result.is_err());
    assert!(result.unwrap_err().contains("missing '}'"));
}

#[test]
fn escaped_braces_need_no_variable() {
    let eval = create_test_eval(vec![("x", Value::String("never".to_string()))]);
    assert_eq!(interpolate_string("{{x}}", &eval), Ok("{x}".to_string()));
    assert_eq!(interpolate_string("{{braces}}", &eval), Ok("{braces}".to_string()));
}

#[test]
fn exact_error_messages() {
    let eval = create_test_eval(vec![]);
    assert_eq!(
        interpolate_string("{missing}", &eval),
        Err("Undefined variable: missing".to_string())
    );
    assert_eq!(
        interpolate_string("a {", &eval),
        Err("Unclosed variable interpolation: missing '}'".to_string())
    );
    assert_eq!(
        interpolate_string("{}", &eval),
        Err("Empty variable name in interpolation".to_string())
    );
    assert_eq!(
        interpolate_string("{a b}", &eval),
        Err("Invalid character in variable name:  ".to_string())
    );
    assert_eq!(
        interpolate_string("{ }", &eval),
        Err("Invalid character in variable name:  ".to_string())
    );
    assert_eq!(
        interpolate_string("{a-b}", &eval),
        Err("Invalid character in variable name: -".to_string())
    );
    assert_eq!(
        interpolate_string("{a{b}}", &eval),
        Err("Invalid character in variable name: {".to_string())
    );
}

#[test]
fn invalid_character_is_found_before_the_lookup() {
    let eval = create_test_eval(vec![]);
    assert_eq!(
        interpolate_string("{missing!}", &eval),
        Err("Invalid character in variable name: !".to_string())
    );
}

#[test]
fn single_closing_brace_stands_for_itself() {
    let eval = create_test_eval(vec![("x", Value::Null)]);
    assert_eq!(interpolate_string("a } b", &eval), Ok("a } b".to_string()));
    assert_eq!(interpolate_string("}", &eval), Ok("}".to_string()));
    assert_eq!(interpolate_string("}}}", &eval), Ok("}}".to_string()));
    assert_eq!(interpolate_string("{x}}", &eval), Ok("null}".to_string()));
    assert_eq!(interpolate_string("{{{x}}}", &eval), Ok("{null}".to_string()));
}

#[test]
fn substituted_text_is_not_read_again() {
    let eval = create_test_eval(vec![
        ("a", Value::String("{b}".to_string())),
        ("b", Value::String("deep".to_string())),
    ]);
    assert_eq!(interpolate_string("{a}", &eval), Ok("{b}".to_string()));
    assert_eq!(interpolate_string("{a}{b}", &eval), Ok("{b}deep".to_string()));
}

#[test]
fn names_may_hold_digits_and_underscores() {
    let eval = create_test_eval(vec![("_x1", Value::Boolean(false))]);
    assert_eq!(interpolate_string("[{_x1}]", &eval), Ok("[false]".to_string()));
}

#[test]
fn empty_text_stays_empty() {
    let eval = create_test_eval(vec![]);
    assert_eq!(interpolate_string("", &eval), Ok(String::new()));
}

#[test]
fn first_error_wins() {
    let eval = create_test_eval(vec![]);
    assert_eq!(
        interpolate_string("{one} {", &eval),
        Err("Undefined variable: one".to_string())
    );
    assert_eq!(
        interpolate_string("{} {one}", &eval),
        Err("Empty variable name in interpolation".to_string())
    );
}
