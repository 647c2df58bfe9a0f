use noviq::frontend::ast::{Expr, Stmt};
use noviq::frontend::Parser;
use noviq::number::Number;
use noviq::runtime::builtins::{call_builtin, call_print};
use noviq::runtime::interpreter::expr::ExprEvaluator;
use noviq::runtime::interpreter::stmt::StmtExecutor;
use noviq::runtime::interpreter::Interpreter;
use noviq::runtime::value::Value;

/// Runs a program; gives what it printed and how it ended.
fn run(source: &str) -> (String, Result<(), String>) {
    let mut interpreter = Interpreter::new();
    let result = match Parser::new(source).parse() {
        Ok(statements) => interpreter.execute(statements),
        Err(message) => Err(message),
    };
    (interpreter.take_output(), result)
}

fn string(s: &str) -> Expr {
    Expr::String(s.to_string())
}

fn name(s: &str) -> Expr {
    Expr::Identifier(s.to_string())
}

fn call(callee: &str, args: Vec<Expr>) -> Expr {
    Expr::Call { name: callee.to_string(), args }
}

#[test]
fn test_execute_function_call() {
    let mut parser = Parser::new(r#"print("Hello")"#);
    let stmts = parser.parse().unwrap();
    let mut interpreter = Interpreter::new();
    assert!(interpreter.execute(stmts).is_ok());
}

#[test]
fn print_hello_writes_one_line() {
    assert_eq!(run(r#"print("Hello")"#), ("Hello\n".to_string(), Ok(())));
}

#[test]
fn let_then_print_with_reference() {
    assert_eq!(run("let x = \"Bob\"\nprint(\"{x}\")"), ("Bob\n".to_string(), Ok(())));
}

#[test]
fn undefined_reference_fails_and_prints_nothing() {
    let (output, result) = run("print(\"{missing}\")");
    assert_eq!(output, "");
    assert_eq!(result, Err("Undefined variable: missing".to_string()));
    assert!(result.unwrap_err().contains("Undefined variable"));
}

#[test]
fn comment_line_prints_nothing() {
    assert_eq!(run("# just a comment\nprint(\"ok\")"), ("ok\n".to_string(), Ok(())));
}

#[test]
fn print_without_arguments_is_a_blank_line() {
    assert_eq!(run("print()"), ("\n".to_string(), Ok(())));
}

#[test]
fn escaped_braces_print_as_braces() {
    assert_eq!(
        run("print(\"Literal {{braces}}\")"),
        ("Literal {braces}\n".to_string(), Ok(()))
    );
}

#[test]
fn values_print_in_their_display_form() {
    assert_eq!(run("print(25.0)"), ("25\n".to_string(), Ok(())));
    assert_eq!(run("print(1.50)"), ("1.5\n".to_string(), Ok(())));
    assert_eq!(run("print(true)"), ("true\n".to_string(), Ok(())));
    assert_eq!(run("print(false)"), ("false\n".to_string(), Ok(())));
    assert_eq!(run("print(print())"), ("\nnull\n".to_string(), Ok(())));
}

#[test]
fn references_print_values_of_any_kind() {
    assert_eq!(
        run("let n = 30.0\nlet b = true\nlet s = 'Bob'\nprint('{s} is {n}: {b}')"),
        ("Bob is 30: true\n".to_string(), Ok(()))
    );
}

#[test]
fn rebinding_overwrites() {
    assert_eq!(
        run("let x = 'a'\nprint('{x}')\nlet x = 'b'\nprint('{x}')"),
        ("a\nb\n".to_string(), Ok(()))
    );
}

#[test]
fn interpolation_happens_when_printing_not_when_binding() {
    let mut interpreter = Interpreter::new();
    let program = vec![
        Stmt::Let { name: "t".to_string(), value: string("{x}") },
        Stmt::Let { name: "x".to_string(), value: string("late") },
        Stmt::Expr(call("print", vec![name("t")])),
    ];
    assert_eq!(interpreter.execute(program), Ok(()));
    assert_eq!(interpreter.take_output(), "late\n");
}

#[test]
fn unknown_builtin_is_an_error() {
    assert_eq!(run("log(\"x\")"), (String::new(), Err("Unknown builtin: log".to_string())));
}

#[test]
fn first_error_stops_the_run_and_keeps_earlier_output() {
    let (output, result) = run("print('one')\nprint('{nope}')\nprint('three')");
    assert_eq!(output, "one\n");
    assert_eq!(result, Err("Undefined variable: nope".to_string()));
}

#[test]
fn failed_let_binds_nothing() {
    let mut interpreter = Interpreter::new();
    let first = Parser::new("let x = nope()").parse().unwrap();
    assert_eq!(interpreter.execute(first), Err("Unknown builtin: nope".to_string()));
    let second = Parser::new("print('{x}')").parse().unwrap();
    assert_eq!(interpreter.execute(second), Err("Undefined variable: x".to_string()));
}

#[test]
fn variables_live_as_long_as_the_interpreter() {
    let mut interpreter = Interpreter::new();
    let first = Parser::new("let x = 'kept'").parse().unwrap();
    assert_eq!(interpreter.execute(first), Ok(()));
    assert_eq!(interpreter.take_output(), "");
    let second = Parser::new("print('{x}')").parse().unwrap();
    assert_eq!(interpreter.execute(second), Ok(()));
    assert_eq!(interpreter.take_output(), "kept\n");
    assert_eq!(interpreter.take_output(), "");
}

#[test]
fn default_interpreter_is_empty() {
    let mut interpreter = Interpreter::default();
    assert_eq!(interpreter.execute(vec![Stmt::Expr(name("x"))]), Err("Undefined variable: x".to_string()));
    assert_eq!(interpreter.take_output(), "");
}

#[test]
fn evaluate_literals_and_names() {
    let mut eval = ExprEvaluator::new();
    eval.set_variable("x".to_string(), Value::Boolean(true));
    assert_eq!(eval.evaluate(string("s")), Ok(Value::String("s".to_string())));
    assert_eq!(
        eval.evaluate(Expr::Number(Number::parse("2.0"))),
        Ok(Value::Number(Number::parse("2")))
    );
    assert_eq!(eval.evaluate(Expr::Boolean(false)), Ok(Value::Boolean(false)));
    assert_eq!(eval.evaluate(name("x")), Ok(Value::Boolean(true)));
    assert_eq!(eval.evaluate(name("y")), Err("Undefined variable: y".to_string()));
    assert_eq!(eval.take_output(), "");
}

#[test]
fn evaluate_does_not_interpolate_a_string_literal() {
    let mut eval = ExprEvaluator::default();
    assert_eq!(eval.evaluate(string("{x}")), Ok(Value::String("{x}".to_string())));
}

#[test]
fn get_and_set_variable() {
    let mut eval = ExprEvaluator::new();
    assert_eq!(eval.get_variable(&"a".to_string()), Err("Undefined variable: a".to_string()));
    eval.set_variable("a".to_string(), Value::Null);
    eval.set_variable("b".to_string(), Value::Boolean(true));
    eval.set_variable("a".to_string(), Value::String("new".to_string()));
    assert_eq!(eval.get_variable(&"a".to_string()), Ok(Value::String("new".to_string())));
    assert_eq!(eval.get_variable(&"b".to_string()), Ok(Value::Boolean(true)));
}

#[test]
fn print_separates_arguments_with_one_space() {
    let mut eval = ExprEvaluator::new();
    eval.set_variable("x".to_string(), Value::String("X".to_string()));
    let args = vec![string("a {x}"), Expr::Boolean(true), name("x"), Expr::Number(Number::parse("07"))];
    assert_eq!(call_print(args, &mut eval), Ok(Value::Null));
    assert_eq!(eval.take_output(), "a X true X 7\n");
}

#[test]
fn print_keeps_what_it_wrote_before_an_error() {
    let mut eval = ExprEvaluator::new();
    let args = vec![string("a"), name("missing"), string("c")];
    assert_eq!(call_print(args, &mut eval), Err("Undefined variable: missing".to_string()));
    assert_eq!(eval.take_output(), "a");
    let args = vec![string("a"), string("{missing}")];
    assert_eq!(call_print(args, &mut eval), Err("Undefined variable: missing".to_string()));
    assert_eq!(eval.take_output(), "a ");
}

#[test]
fn print_of_a_variable_interpolates_its_text() {
    let mut eval = ExprEvaluator::new();
    eval.set_variable("who".to_string(), Value::String("Bob".to_string()));
    eval.set_variable("t".to_string(), Value::String("hi {who}".to_string()));
    assert_eq!(call_print(vec![name("t")], &mut eval), Ok(Value::Null));
    assert_eq!(eval.take_output(), "hi Bob\n");
}

#[test]
fn call_builtin_finds_print_only() {
    let mut eval = ExprEvaluator::new();
    assert_eq!(call_builtin("print", vec![], &mut eval), Ok(Value::Null));
    assert_eq!(eval.take_output(), "\n");
    assert_eq!(
        call_builtin("Print", vec![], &mut eval),
        Err("Unknown builtin: Print".to_string())
    );
    assert_eq!(
        eval.evaluate(call("println", vec![string("x")])),
        Err("Unknown builtin: println".to_string())
    );
    assert_eq!(eval.take_output(), "");
}

#[test]
fn unknown_builtin_does_not_evaluate_its_arguments() {
    let mut eval = ExprEvaluator::new();
    let e = call("nope", vec![call("print", vec![string("side effect")])]);
    assert_eq!(eval.evaluate(e), Err("Unknown builtin: nope".to_string()));
    assert_eq!(eval.take_output(), "");
}

#[test]
fn nested_print_writes_inner_line_first() {
    let mut eval = ExprEvaluator::new();
    let e = call("print", vec![string("a"), call("print", vec![string("b")])]);
    assert_eq!(eval.evaluate(e), Ok(Value::Null));
    assert_eq!(eval.take_output(), "ab\n null\n");
}

#[test]
fn statement_executor_binds_and_evaluates() {
    let mut eval = ExprEvaluator::new();
    let bind = Stmt::Let { name: "x".to_string(), value: string("v") };
    assert_eq!(StmtExecutor::execute(bind, &mut eval), Ok(()));
    assert_eq!(eval.get_variable(&"x".to_string()), Ok(Value::String("v".to_string())));
    let show = Stmt::Expr(call("print", vec![name("x")]));
    assert_eq!(StmtExecutor::execute(show, &mut eval), Ok(()));
    assert_eq!(eval.take_output(), "v\n");
    let bad = Stmt::Let { name: "y".to_string(), value: name("z") };
    assert_eq!(StmtExecutor::execute(bad, &mut eval), Err("Undefined variable: z".to_string()));
    assert_eq!(eval.get_variable(&"y".to_string()), Err("Undefined variable: y".to_string()));
}

#[test]
fn write_appends_to_the_output() {
    let mut eval = ExprEvaluator::new();
    eval.write("a");
    eval.write("b\n");
    assert_eq!(eval.take_output(), "ab\n");
}

#[test]
fn value_to_text() {
    assert_eq!(Value::String("s p".to_string()).to_text(), "s p");
    assert_eq!(Value::Number(Number::parse("10.50")).to_text(), "10.5");
    assert_eq!(Value::Boolean(true).to_text(), "true");
    assert_eq!(Value::Boolean(false).to_text(), "false");
    assert_eq!(Value::Null.to_text(), "null");
    assert_eq!(Value::Null.clone(), Value::Null);
}
