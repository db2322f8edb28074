use waiir::ast::Boolean;
use waiir::ast::CallExpression;
use waiir::ast::Expression;
use waiir::ast::ExpressionStmt;
use waiir::ast::FunctionLiteral;
use waiir::ast::Identifier;
use waiir::ast::IfExpression;
use waiir::ast::InfixExpression;
use waiir::ast::IntegerLiteral;
use waiir::ast::LetStatement;
use waiir::ast::PrefixExpression;
use waiir::ast::Program;
use waiir::ast::ReturnStatement;
use waiir::ast::Statement;
use waiir::lexer::Lexer;
use waiir::lexer::Token;
use waiir::lexer::TokenType;
use waiir::parser::Parser;

enum Lit {
    Int(i64),
    Bool(bool),
    Ident(&'static str),
}

fn check_parser_errors(p: &Parser) {
    let errors = p.get_errors();
    if errors.len() == 0 {
        return;
    }
    println!("parser has {} errors", errors.len());
    for msg in errors.iter() {
        println!("parser error: {}", *msg);
    }
    assert!(false, "parser error!!!");
}

fn parse(input: &str) -> Program {
    let l = Lexer::new(input);
    let mut p = Parser::new(l);
    let program = p.parse_program().expect("parse_program() returned None");
    check_parser_errors(&p);
    program
}

fn as_expression_stmt(s: &Statement) -> &ExpressionStmt {
    match s {
        Statement::Expression(es) => es,
        _ => panic!("statement is not ExpressionStmt. got={:?}", s),
    }
}

fn as_prefix(e: &Expression) -> &PrefixExpression {
    match e {
        Expression::Prefix(pe) => pe,
        _ => panic!("expression is not PrefixExpression. got={:?}", e),
    }
}

fn as_infix(e: &Expression) -> &InfixExpression {
    match e {
        Expression::Infix(ie) => ie,
        _ => panic!("expression is not InfixExpression. got={:?}", e),
    }
}

fn as_if(e: &Expression) -> &IfExpression {
    match e {
        Expression::If(ie) => ie,
        _ => panic!("expression is not IfExpression. got={:?}", e),
    }
}

fn as_function_literal(e: &Expression) -> &FunctionLiteral {
    match e {
        Expression::FunctionLiteral(fl) => fl,
        _ => panic!("expression is not FunctionLiteral. got={:?}", e),
    }
}

fn as_call(e: &Expression) -> &CallExpression {
    match e {
        Expression::Call(ce) => ce,
        _ => panic!("expression is not CallExpression. got={:?}", e),
    }
}

fn check_integer_literal(il: &Expression, value: i64) {
    let literal = match il {
        Expression::IntegerLiteral(l) => l,
        _ => panic!("exp not IntegerLiteral. got={:?}", il),
    };
    assert!(
        literal.value == value,
        "literal.value not {}, got={}",
        value,
        literal.value
    );
    assert!(
        literal.token_literal() == value.to_string(),
        "literal.token_literal not {}, got={}",
        value,
        literal.token_literal()
    );
}

fn check_identifier(exp: &Expression, value: &str) {
    let ident = match exp {
        Expression::Identifier(id) => id,
        _ => panic!("exp not Identifier. got={:?}", exp),
    };
    assert!(
        ident.value == value,
        "ident.value not {}. got={}",
        value,
        ident.value
    );
    assert!(
        ident.token_literal() == value,
        "ident.token_literal not {}. got={}",
        value,
        ident.token_literal()
    );
}

fn check_bool_literal(exp: &Expression, value: bool) {
    let bo = match exp {
        Expression::Boolean(b) => b,
        _ => panic!("exp not Boolean. got={:?}", exp),
    };
    assert!(bo.value == value, "bo.value not {}. got={}", value, bo.value);
    assert!(
        bo.token_literal() == format!("{}", value),
        "bo.token_literal not {}. got={}",
        value,
        bo.token_literal()
    );
}

fn check_literal_expression(exp: &Expression, expected: &Lit) {
    match expected {
        Lit::Int(v) => check_integer_literal(exp, *v),
        Lit::Bool(v) => check_bool_literal(exp, *v),
        Lit::Ident(v) => check_identifier(exp, v),
    }
}

fn check_infix_expression(exp: &Expression, left: Lit, operator: &str, right: Lit) {
    let op_exp = as_infix(exp);
    check_literal_expression(&op_exp.left, &left);
    assert!(
        op_exp.operator == operator,
        "exp.operator is not '{}'. got={}",
        operator,
        op_exp.operator
    );
    check_literal_expression(&op_exp.right, &right);
}

#[test]
fn parser_test_test_let_statements() {
    let tests = [
        ("let x = 5;", "x", Lit::Int(5)),
        ("let y = true;", "y", Lit::Bool(true)),
        ("let foobar = y;", "foobar", Lit::Ident("y")),
    ];
    for tt in tests.iter() {
        let program = parse(tt.0);
        assert!(
            program.statements.len() == 1,
            "program.statements does not contain 1 statements. got={}",
            program.statements.len()
        );
        let stmt = &program.statements[0];
        assert!(
            stmt.token_literal() == "let",
            "s.token_literal not 'let'. got={}",
            stmt.token_literal()
        );
        let let_stmt: &LetStatement = match stmt {
            Statement::Let(ls) => ls,
            _ => panic!("s not LetStatement. got={:?}", stmt),
        };
        assert!(
            let_stmt.name.value == tt.1,
            "let_stmt.name.value not '{}'. got={}",
            tt.1,
            let_stmt.name.value
        );
        assert!(
            let_stmt.name.token_literal() == tt.1,
            "s.name not '{}'. got={}",
            tt.1,
            let_stmt.name.token_literal()
        );
        check_literal_expression(&let_stmt.value, &tt.2);
    }
}

#[test]
fn test_return_statements() {
    let input = "
        return 5;
        return 10;
        return 993322;
        ";
    let program = parse(input);
    assert!(
        program.statements.len() == 3,
        "program.statements does not contain 3 statements. got={}",
        program.statements.len()
    );
    for stmt in program.statements.iter() {
        let return_stmt: &ReturnStatement = match stmt {
            Statement::Return(rs) => rs,
            _ => panic!("stmt not ReturnStatment. got={:?}", stmt),
        };
        assert!(
            stmt.token_literal() == "return",
            "return_stmt.token_literal not 'return', got {}",
            return_stmt.token_literal()
        );
    }
}

#[test]
fn test_string() {
    let program = Program {
        statements: vec![Statement::Let(LetStatement {
            token: Token {
                tk_type: TokenType::Let,
                literal: String::from("let"),
            },
            name: Identifier {
                token: Token {
                    tk_type: TokenType::Ident,
                    literal: String::from("myVar"),
                },
                value: String::from("myVar"),
            },
            value: Box::new(Expression::Identifier(Identifier {
                token: Token {
                    tk_type: TokenType::Ident,
                    literal: String::from("anotherVar"),
                },
                value: String::from("anotherVar"),
            })),
        })],
    };
    assert!(
        program.string() == "let myVar = anotherVar;",
        "program.string() wrong. got={}",
        program.string()
    );
}

#[test]
fn test_identifier_expresion() {
    let input = "foobar;";
    let program = parse(input);
    assert!(
        program.statements.len() == 1,
        "program has not enough statements. got={}",
        program.statements.len()
    );
    let stmt = as_expression_stmt(&program.statements[0]);
    check_identifier(&stmt.expression, "foobar");
}

#[test]
fn test_integer_literal_expression() {
    let input = "5;";
    let program = parse(input);
    assert!(
        program.statements.len() == 1,
        "program has not enough statements. got={}",
        program.statements.len()
    );
    let stmt = as_expression_stmt(&program.statements[0]);
    check_integer_literal(&stmt.expression, 5);
}

#[test]
fn test_parsing_prefix_expressions() {
    let prefix_tests = [
        ("!5;", "!", Lit::Int(5)),
        ("-15;", "-", Lit::Int(15)),
        ("!true", "!", Lit::Bool(true)),
        ("!false", "!", Lit::Bool(false)),
    ];
    for tt in prefix_tests.iter() {
        let program = parse(tt.0);
        assert!(
            program.statements.len() == 1,
            "program has not enough statements. got={}",
            program.statements.len()
        );
        let stmt = as_expression_stmt(&program.statements[0]);
        let exp = as_prefix(&stmt.expression);
        assert!(
            exp.operator == tt.1,
            "exp.operator is not '{}'. got={}",
            tt.1,
            exp.operator
        );
        check_literal_expression(&exp.right, &tt.2);
    }
}

#[test]
fn test_parsing_infix_expressions() {
    let infix_tests = [
        ("5 + 5;", Lit::Int(5), "+", Lit::Int(5)),
        ("5 - 5;", Lit::Int(5), "-", Lit::Int(5)),
        ("5 * 5;", Lit::Int(5), "*", Lit::Int(5)),
        ("5 / 5;", Lit::Int(5), "/", Lit::Int(5)),
        ("5 > 5;", Lit::Int(5), ">", Lit::Int(5)),
        ("5 < 5;", Lit::Int(5), "<", Lit::Int(5)),
        ("5 == 5;", Lit::Int(5), "==", Lit::Int(5)),
        ("5 != 5;", Lit::Int(5), "!=", Lit::Int(5)),
        ("true == true", Lit::Bool(true), "==", Lit::Bool(true)),
        ("true != false", Lit::Bool(true), "!=", Lit::Bool(false)),
        ("false == false", Lit::Bool(false), "==", Lit::Bool(false)),
        ("5 + 10", Lit::Int(5), "+", Lit::Int(10)),
        ("alice * bob", Lit::Ident("alice"), "*", Lit::Ident("bob")),
    ];
    for tt in infix_tests.iter() {
        let program = parse(tt.0);
        assert!(
            program.statements.len() == 1,
            "program has not enough statements. got={}",
            program.statements.len()
        );
        let stmt = as_expression_stmt(&program.statements[0]);
        let exp = as_infix(&stmt.expression);
        check_literal_expression(&exp.left, &tt.1);
        assert!(
            exp.operator == tt.2,
            "exp.operator is not '{}'. got={:?}",
            tt.2,
            exp.operator
        );
        check_literal_expression(&exp.right, &tt.3);
    }
}

#[test]
fn test_operator_precedence_parsing() {
    let tests = [
        ("-a * b", "((-a) * b)"),
        ("!-a", "(!(-a))"),
        ("a + b + c", "((a + b) + c)"),
        ("a + b - c", "((a + b) - c)"),
        ("a * b * c", "((a * b) * c)"),
        ("a * b / c", "((a * b) / c)"),
        ("a + b / c", "(a + (b / c))"),
        ("a + b * c + d / e - f", "(((a + (b * c)) + (d / e)) - f)"),
        ("3 + 4; -5 * 5", "(3 + 4)((-5) * 5)"),
        ("5 > 4 == 3 < 4", "((5 > 4) == (3 < 4))"),
        ("5 < 4 != 3 > 4", "((5 < 4) != (3 > 4))"),
        (
            "3 + 4 * 5 == 3 * 1 + 4 * 5",
            "((3 + (4 * 5)) == ((3 * 1) + (4 * 5)))",
        ),
        ("true", "true"),
        ("false", "false"),
        ("3 > 5 == false", "((3 > 5) == false)"),
        ("3 < 5 == true", "((3 < 5) == true)"),
        ("1 + (2 + 3) + 4", "((1 + (2 + 3)) + 4)"),
        ("(5 + 5) * 2", "((5 + 5) * 2)"),
        ("2 / (5 + 5)", "(2 / (5 + 5))"),
        ("-(5 + 5)", "(-(5 + 5))"),
        ("!(true == true)", "(!(true == true))"),
        ("a + add(b * c) + d", "((a + add((b * c))) + d)"),
        (
            "add(a, b, 1, 2 * 3, 4 + 5, add(6, 7 * 8))",
            "add(a, b, 1, (2 * 3), (4 + 5), add(6, (7 * 8)))",
        ),
        (
            "add(a + b + c * d / f + g)",
            "add((((a + b) + ((c * d) / f)) + g))",
        ),
    ];
    for tt in tests.iter() {
        let program = parse(tt.0);
        let actual = program.string();
        assert!(actual == tt.1, "expected={}, got={}", tt.1, actual);
    }
}

#[test]
fn test_if_expression() {
    let input = "if (x < y) { x }";
    let program = parse(input);
    assert!(
        program.statements.len() == 1,
        "program.statements does not contain 1 statements. got={}",
        program.statements.len()
    );
    let stmt = as_expression_stmt(&program.statements[0]);
    let exp = as_if(&stmt.expression);
    check_infix_expression(&exp.condition, Lit::Ident("x"), "<", Lit::Ident("y"));
    assert!(
        exp.consequence.statements.len() == 1,
        "consequence is not 1 statements. got={}",
        exp.consequence.statements.len()
    );
    let consequence = as_expression_stmt(&exp.consequence.statements[0]);
    check_identifier(&consequence.expression, "x");
    match &exp.alternative {
        Some(alternative) => {
            assert!(
                false,
                "exp.alternative.statements was not None, got={:?}",
                alternative
            );
        }
        _ => {}
    }
}

#[test]
fn test_if_else_expression() {
    let input = "if (x < y) { x } else { y }";
    let program = parse(input);
    assert!(
        program.statements.len() == 1,
        "program.statements does not contain 1 statements. got={}",
        program.statements.len()
    );
    let stmt = as_expression_stmt(&program.statements[0]);
    let exp = as_if(&stmt.expression);
    check_infix_expression(&exp.condition, Lit::Ident("x"), "<", Lit::Ident("y"));
    assert!(
        exp.consequence.statements.len() == 1,
        "consequence is not 1 statements. got={}",
        exp.consequence.statements.len()
    );
    let consequence = as_expression_stmt(&exp.consequence.statements[0]);
    check_identifier(&consequence.expression, "x");
    match &exp.alternative {
        Some(alternative) => {
            assert!(
                alternative.statements.len() == 1,
                "alternative is not 1 statements. got={}",
                alternative.statements.len()
            );
            let a = as_expression_stmt(&alternative.statements[0]);
            check_identifier(&a.expression, "y");
        }
        _ => panic!("exp.alternative was None"),
    }
}

#[test]
fn test_function_literal_parsing() {
    let input = "fn(x, y) { x + y; }";
    let program = parse(input);
    assert!(
        program.statements.len() == 1,
        "program.statements does not contain 1 statements. got={}",
        program.statements.len()
    );
    let stmt = as_expression_stmt(&program.statements[0]);
    let function = as_function_literal(&stmt.expression);
    assert!(
        function.parameters.len() == 2,
        "function literal parameters wrong. want 2, got={}",
        function.parameters.len()
    );
    assert_eq!(function.parameters[0].value, "x");
    assert_eq!(function.parameters[1].value, "y");
    assert!(
        function.body.statements.len() == 1,
        "function.body.statements has not 1 statements. got={}",
        function.body.statements.len()
    );
    let body_stmt = as_expression_stmt(&function.body.statements[0]);
    check_infix_expression(&body_stmt.expression, Lit::Ident("x"), "+", Lit::Ident("y"));
}

#[test]
fn test_function_parameter_parsing() {
    let tests: [(&str, Vec<&str>); 3] = [
        ("fn() {};", vec![]),
        ("fn(x) {};", vec!["x"]),
        ("fn(x, y, z) {};", vec!["x", "y", "z"]),
    ];
    for tt in tests.iter() {
        let program = parse(tt.0);
        let stmt = as_expression_stmt(&program.statements[0]);
        let function = as_function_literal(&stmt.expression);
        assert!(
            function.parameters.len() == tt.1.len(),
            "length parameters wrong. want {}, got={}",
            tt.1.len(),
            function.parameters.len()
        );
        for (i, ident) in tt.1.iter().enumerate() {
            assert_eq!(function.parameters[i].value, *ident);
        }
    }
}

#[test]
fn test_call_expression_parsing() {
    let input = "add(1, 2 * 3, 4 + 5);";
    let program = parse(input);
    assert!(
        program.statements.len() == 1,
        "program.statements does not contain 1 statements. got={}",
        program.statements.len()
    );
    let stmt = as_expression_stmt(&program.statements[0]);
    let exp = as_call(&stmt.expression);
    check_identifier(&exp.function, "add");
    assert!(
        exp.arguments.len() == 3,
        "wrong length of arguments. got={}",
        exp.arguments.len()
    );
    check_literal_expression(&exp.arguments[0], &Lit::Int(1));
    check_infix_expression(&exp.arguments[1], Lit::Int(2), "*", Lit::Int(3));
    check_infix_expression(&exp.arguments[2], Lit::Int(4), "+", Lit::Int(5));
}

#[test]
fn test_parse_idempotent() {
    let inputs = [
        "let x = 5; let y = x + 2; if (x < y) { x } else { y }",
        "add(a, b, 1, 2 * 3, 4 + 5, add(6, 7 * 8))",
        "fn(x, y) { x + y; }(2, 3);",
    ];
    for input in inputs.iter() {
        let first = parse(input).string();
        let second = parse(input).string();
        assert_eq!(first, second);
    }
}

#[test]
fn test_parser_error_messages() {
    let l = Lexer::new("let = 5;");
    let mut p = Parser::new(l);
    p.parse_program().unwrap();
    let errors = p.get_errors();
    assert!(errors.len() > 0);
    assert_eq!(
        errors[0],
        "expected next token to be Ident, got Assign instead"
    );

    let l = Lexer::new("@");
    let mut p = Parser::new(l);
    p.parse_program().unwrap();
    let errors = p.get_errors();
    assert!(errors.len() > 0);
    assert_eq!(errors[0], "no prefix parse function for Illegal found");

    let l = Lexer::new("99999999999999999999;");
    let mut p = Parser::new(l);
    p.parse_program().unwrap();
    let errors = p.get_errors();
    assert!(errors.len() > 0);
    assert_eq!(
        errors[0],
        "could not parse 99999999999999999999 as integer"
    );
}

#[test]
fn test_parse_empty_program() {
    let program = parse("");
    assert_eq!(program.statements.len(), 0);
    assert_eq!(program.string(), "");
    assert_eq!(program.token_literal(), "");
}
