use noviq::frontend::ast::{Expr, Stmt};
use noviq::frontend::parser::expr::ExprParser;
use noviq::frontend::parser::stmt::StmtParser;
use noviq::frontend::parser::Parser;
use noviq::frontend::token::Token;
use noviq::number::Number;
use noviq::Lexer;

fn parse(source: &str) -> Result<Vec<Stmt>, String> {
    Parser::new(source).parse()
}

fn call(name: &str, args: Vec<Expr>) -> Expr {
    Expr::Call { name: name.to_string(), args }
}

fn string(s: &str) -> Expr {
    Expr::String(s.to_string())
}

#[test]
fn test_parse_function_call() {
    let mut parser = Parser::new(r#"log("Hello")"#);
    let stmts = parser.parse().unwrap();
    assert_eq!(stmts.len(), 1);
    match &stmts[0] {
        Stmt::Expr(Expr::Call { name, args }) => {
            assert_eq!(name, "log");
            assert_eq!(args.len(), 1);
        }
        _ => panic!("Expected function call"),
    }
}

#[test]
fn print_hello_is_one_call_statement() {
    assert_eq!(
        parse(r#"print("Hello")"#),
        Ok(vec![Stmt::Expr(call("print", vec![string("Hello")]))])
    );
}

#[test]
fn empty_program_has_no_statements() {
    assert_eq!(parse(""), Ok(vec![]));
    assert_eq!(parse("\n\n  \n"), Ok(vec![]));
    assert_eq!(parse("# only a comment"), Ok(vec![]));
}

#[test]
fn call_without_arguments() {
    assert_eq!(parse("print()"), Ok(vec![Stmt::Expr(call("print", vec![]))]));
}

#[test]
fn let_statement() {
    assert_eq!(
        parse("let x = \"Bob\""),
        Ok(vec![Stmt::Let { name: "x".to_string(), value: string("Bob") }])
    );
}

#[test]
fn literals_are_expressions() {
    assert_eq!(
        parse("let a = 1.50\nlet b = true\nlet c = false\n\"s\""),
        Ok(vec![
            Stmt::Let { name: "a".to_string(), value: Expr::Number(Number::parse("1.5")) },
            Stmt::Let { name: "b".to_string(), value: Expr::Boolean(true) },
            Stmt::Let { name: "c".to_string(), value: Expr::Boolean(false) },
            Stmt::Expr(string("s")),
        ])
    );
}

#[test]
fn nested_call() {
    assert_eq!(
        parse("print(print(\"a\"))"),
        Ok(vec![Stmt::Expr(call("print", vec![call("print", vec![string("a")])]))])
    );
}

#[test]
fn statements_come_in_order_and_blank_lines_are_skipped() {
    assert_eq!(
        parse("\n\nlet x = \"1\"\n\n# note\nprint(\"{x}\")\n\n"),
        Ok(vec![
            Stmt::Let { name: "x".to_string(), value: string("1") },
            Stmt::Expr(call("print", vec![string("{x}")])),
        ])
    );
}

#[test]
fn statements_on_one_line_are_parsed_one_after_the_other() {
    assert_eq!(
        parse("\"a\" \"b\""),
        Ok(vec![Stmt::Expr(string("a")), Stmt::Expr(string("b"))])
    );
}

#[test]
fn bare_identifier_is_an_error() {
    assert_eq!(parse("x"), Err("Expected '(' after identifier 'x'".to_string()));
    assert_eq!(parse("print(x)"), Err("Expected '(' after identifier 'x'".to_string()));
}

#[test]
fn unexpected_token_is_reported() {
    assert_eq!(parse(")"), Err("Unexpected token in expression: RightParen".to_string()));
    assert_eq!(parse("= 1"), Err("Unexpected token in expression: Assign".to_string()));
    assert_eq!(parse("let x ="), Err("Unexpected token in expression: Eof".to_string()));
    assert_eq!(parse("let x = \n1"), Err("Unexpected token in expression: Newline".to_string()));
    assert_eq!(parse("print(let)"), Err("Unexpected token in expression: Let".to_string()));
}

#[test]
fn missing_right_paren_is_reported() {
    assert_eq!(parse("print(\"a\""), Err("Expected RightParen, got Eof".to_string()));
    assert_eq!(
        parse("print(\"a\" \"b\")"),
        Err("Expected RightParen, got String(\"b\")".to_string())
    );
    assert_eq!(
        parse("print(\"a\" b)"),
        Err("Expected RightParen, got Identifier(\"b\")".to_string())
    );
    assert_eq!(parse("print(1 2)"), Err("Expected RightParen, got Number(2)".to_string()));
}

#[test]
fn let_errors() {
    assert_eq!(parse("let = 1"), Err("Expected identifier after 'let'".to_string()));
    assert_eq!(parse("let"), Err("Expected identifier after 'let'".to_string()));
    assert_eq!(parse("let x 1"), Err("Expected '=' after variable name".to_string()));
    assert_eq!(parse("let x"), Err("Expected '=' after variable name".to_string()));
}

#[test]
fn first_error_ends_the_parse() {
    assert_eq!(
        parse("print(\"ok\")\nx\nlet"),
        Err("Expected '(' after identifier 'x'".to_string())
    );
}

#[test]
fn expr_parser_moves_the_shared_cursor() {
    let tokens = Lexer::new("print(\"a\") \"b\"").tokenize();
    let mut position = 0;
    let first = ExprParser::new(&tokens, &mut position).parse();
    assert_eq!(first, Ok(call("print", vec![string("a")])));
    assert_eq!(position, 4);
    let second = ExprParser::new(&tokens, &mut position).parse();
    assert_eq!(second, Ok(string("b")));
    assert_eq!(position, 5);
    let third = ExprParser::new(&tokens, &mut position).parse();
    assert_eq!(third, Err("Unexpected token in expression: Eof".to_string()));
}

#[test]
fn expr_parser_behind_the_tokens_sees_eof() {
    let tokens = vec![Token::String("a".to_string())];
    let mut position = 7;
    let r = ExprParser::new(&tokens, &mut position).parse();
    assert_eq!(r, Err("Unexpected token in expression: Eof".to_string()));
}

#[test]
fn stmt_parser_takes_one_trailing_newline() {
    let tokens = Lexer::new("let x = \"a\"\n\nprint()").tokenize();
    let mut position = 0;
    let first = StmtParser::new(&tokens, &mut position).parse();
    assert_eq!(first, Ok(Stmt::Let { name: "x".to_string(), value: string("a") }));
    assert_eq!(position, 5);
    assert_eq!(tokens[position], Token::Newline);
}

#[test]
fn clones_are_equal() {
    let e = call("print", vec![call("f", vec![]), string("x"), Expr::Boolean(true)]);
    assert_eq!(e.clone(), e);
    let s = Stmt::Let { name: "x".to_string(), value: e };
    assert_eq!(s.clone(), s);
}
