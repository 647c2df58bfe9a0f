use noviq::execute_program;

fn ok(output: &str) -> (String, Result<(), String>) {
    (output.to_string(), Ok(()))
}

#[test]
fn hello_world() {
    assert_eq!(execute_program("print(\"Hello, World!\")\n"), ok("Hello, World!\n"));
}

#[test]
fn binding_then_reference_prints_the_value() {
    assert_eq!(execute_program("let x = \"Bob\"\nprint(\"{x}\")"), ok("Bob\n"));
}

#[test]
fn escaped_braces_are_printed_as_braces() {
    assert_eq!(execute_program("print(\"Literal {{braces}}\")"), ok("Literal {braces}\n"));
}

#[test]
fn missing_variable_fails_without_output() {
    let (output, result) = execute_program("print(\"{missing}\")");
    assert_eq!(output, "");
    assert!(result.unwrap_err().contains("Undefined variable"));
}

#[test]
fn comment_never_reaches_the_output() {
    assert_eq!(execute_program("# just a comment\nprint(\"ok\")"), ok("ok\n"));
    assert_eq!(execute_program("print(\"ok\") # print(\"no\")\n"), ok("ok\n"));
}

#[test]
fn print_without_arguments_gives_one_blank_line() {
    assert_eq!(execute_program("print()"), ok("\n"));
}

#[test]
fn empty_program_prints_nothing() {
    assert_eq!(execute_program(""), ok(""));
    assert_eq!(execute_program("\n# nothing\n\n"), ok(""));
}

#[test]
fn parse_error_runs_no_statement() {
    assert_eq!(
        execute_program("print(\"first\")\nlet = 1"),
        (String::new(), Err("Expected identifier after 'let'".to_string()))
    );
}

#[test]
fn run_error_keeps_the_output_before_it() {
    assert_eq!(
        execute_program("print(\"first\")\nshout(\"x\")\nprint(\"last\")"),
        ("first\n".to_string(), Err("Unknown builtin: shout".to_string()))
    );
}

#[test]
fn running_twice_gives_the_same() {
    let source = "let a = 1.0\nlet b = 'x{a}'\nprint('{b}')\nprint('{a}')\nprint(true)";
    assert_eq!(execute_program(source), ok("x{a}\n1\ntrue\n"));
    assert_eq!(execute_program(source), execute_program(source));
}
