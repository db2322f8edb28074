use waiir::environment::Environment;
use waiir::environment::new_environment;
use waiir::evaluator::eval;
use waiir::lexer::Lexer;
use waiir::object::Object;
use waiir::parser::Parser;

const FUEL: u64 = u64::MAX;

fn test_eval(input: &str) -> Object {
    let mut envs: Vec<Environment> = vec![new_environment()];
    let l = Lexer::new(input);
    let mut p = Parser::new(l);
    let program = p.parse_program().unwrap();
    eval(&program, &mut envs, 0, FUEL).unwrap()
}

fn check_integer_object(obj: Object, expected: i64) {
    let result = match &obj {
        Object::Integer(i) => i,
        _ => panic!("object is not Integer. got={:?}", obj),
    };
    assert!(
        result.value == expected,
        "object has wrong value. got={}, want={}",
        result.value,
        expected
    );
}

fn check_boolean_object(obj: Object, expected: bool) {
    let result = match &obj {
        Object::Boolean(b) => b,
        _ => panic!("object is not Boolean. got={:?}", obj),
    };
    assert!(
        result.value == expected,
        "object has wrong value. got={}, want={}",
        result.value,
        expected
    );
}

fn check_null_object(obj: Object) {
    match &obj {
        Object::Null(_) => {}
        _ => panic!("object is not NULL. got={:?}", obj),
    }
}

#[test]
fn test_eval_integer_expression() {
    let tests = [
        ("5", 5),
        ("10", 10),
        ("-5", -5),
        ("-10", -10),
        ("5 + 5 + 5 + 5 - 10", 10),
        ("2 * 2 * 2 * 2 * 2", 32),
        ("-50 + 100 + -50", 0),
        ("5 * 2 + 10", 20),
        ("5 + 2 * 10", 25),
        ("20 + 2 * -10", 0),
        ("50 / 2 * 2 + 10", 60),
        ("2 * (5 + 10)", 30),
        ("3 * 3 * 3 + 10", 37),
        ("3 * (3 * 3) + 10", 37),
        ("(5 + 10 * 2 + 15 / 3) * 2 + -10", 50),
    ];
    for tt in tests.iter() {
        let evaluated = test_eval(tt.0);
        check_integer_object(evaluated, tt.1);
    }
}

#[test]
fn test_eval_boolean_expression() {
    let tests = [
        ("true", true),
        ("false", false),
        ("1 < 2", true),
        ("1 > 2", false),
        ("1 < 1", false),
        ("1 > 1", false),
        ("1 == 1", true),
        ("1 != 1", false),
        ("1 == 2", false),
        ("1 != 2", true),
        ("true == false", false),
        ("true != false", true),
        ("false != true", true),
        ("(1 < 2) == true", true),
        ("(1 < 2) == false", false),
        ("(1 > 2) == true", false),
        ("(1 > 2) == false", true),
    ];
    for tt in tests.iter() {
        let evaluated = test_eval(tt.0);
        check_boolean_object(evaluated, tt.1);
    }
}

#[test]
fn test_bang_operator() {
    let tests = [
        ("!true", false),
        ("!false", true),
        ("!5", false),
        ("!!true", true),
        ("!!false", false),
        ("!!5", true),
    ];
    for tt in tests.iter() {
        let evaluated = test_eval(tt.0);
        check_boolean_object(evaluated, tt.1);
    }
}

#[test]
fn test_if_else_expressions() {
    let tests: [(&str, Option<i64>); 7] = [
        ("if (true) { 10 }", Some(10)),
        ("if (false) { 10 }", None),
        ("if (1) { 10 }", Some(10)),
        ("if (1 < 2) { 10 }", Some(10)),
        ("if (1 > 2) { 10 }", None),
        ("if (1 > 2) { 10 } else { 20 }", Some(20)),
        ("if (1 < 2) { 10 } else { 20 }", Some(10)),
    ];
    for tt in tests.iter() {
        let evaluated = test_eval(tt.0);
        match tt.1 {
            Some(integer) => check_integer_object(evaluated, integer),
            None => check_null_object(evaluated),
        }
    }
}

#[test]
fn test_return_statement() {
    let tests = [
        ("return 10;", 10),
        ("return 10; 9;", 10),
        ("return 2 * 5; 9;", 10),
        ("9; return 2 * 5; 9;", 10),
        (
            "if (10 > 1) { if (10 > 1) {
            return 10; }
            return 1; }",
            10,
        ),
    ];
    for tt in tests.iter() {
        let evaluated = test_eval(tt.0);
        check_integer_object(evaluated, tt.1);
    }
}

fn check_error_object(obj: Object, expected: &str) {
    let err_obj = match &obj {
        Object::Error(e) => e,
        _ => panic!("no error object returned. got={:?}", obj),
    };
    assert!(
        err_obj.message == expected,
        "wrong error message. expected={}, got={}",
        expected,
        err_obj.message
    );
}

#[test]
fn test_error_handling() {
    let tests = [
        ("5 + true;", "type mismatch: INTEGER + BOOLEAN"),
        ("5 + true; 5;", "type mismatch: INTEGER + BOOLEAN"),
        ("-true", "unknown operator: -BOOLEAN"),
        ("true + false;", "unknown operator: BOOLEAN + BOOLEAN"),
        ("5; true + false; 5", "unknown operator: BOOLEAN + BOOLEAN"),
        (
            "if (10 > 1) { true + false; }",
            "unknown operator: BOOLEAN + BOOLEAN",
        ),
        (
            "if (10 > 1) {
                if (10 > 1) {
                    return true + false;
                }
                return 1;
            }",
            "unknown operator: BOOLEAN + BOOLEAN",
        ),
        ("foobar", "identifier not found: foobar"),
    ];
    for tt in tests.iter() {
        let evaluated = test_eval(tt.0);
        check_error_object(evaluated, tt.1);
    }
}

#[test]
fn evaluator_test_test_let_statements() {
    let tests = [
        ("let a = 5; a;", 5),
        ("let a = 5 * 5; a;", 25),
        ("let a = 5; let b = a; b;", 5),
        ("let a = 5; let b = a; let c = a + b + 5; c;", 15),
    ];
    for tt in tests.iter() {
        check_integer_object(test_eval(tt.0), tt.1);
    }
}

#[test]
fn test_function_object() {
    let input = "fn(x) { x + 2; };";
    let evaluated = test_eval(input);
    let func = match &evaluated {
        Object::Function(f) => f,
        _ => panic!("object is not FUNCTION. got={:?}", evaluated),
    };
    assert!(
        func.parameters.len() == 1,
        "function has wrong parameters. parameters={:?}",
        func.parameters
    );
    assert!(
        func.parameters[0].string() == "x",
        "parameter is not 'x'. got={:?}",
        func.parameters[0]
    );
    let expected_body = "(x + 2)";
    assert!(
        func.body.string() == expected_body,
        "body is not {}. got={}",
        expected_body,
        func.body.string()
    );
}

#[test]
fn test_function_application() {
    let tests = [
        ("let identity = fn(x) { x; }; identity(5);", 5),
        ("let identity = fn(x) { return x; }; identity(5);", 5),
        ("let double = fn(x) { x * 2; }; double(5);", 10),
        ("let add = fn(x, y) { x + y; }; add(5, 5);", 10),
        ("let add = fn(x, y) { x + y; }; add(5 + 5, add(5, 5));", 20),
        ("fn(x) { x; }(5)", 5),
    ];
    for tt in tests.iter() {
        check_integer_object(test_eval(tt.0), tt.1);
    }
}

#[test]
fn test_closures() {
    let input = "let newAdder = fn(x) {
            fn(y) { x + y };
        };
        let addTwo = newAdder(2);
        addTwo(2);
        ";
    check_integer_object(test_eval(input), 4);
}

#[test]
fn test_closures_capture_persists() {
    // The captured `x` persists across calls of the closure in the
    // same run, without being re-evaluated.
    let mut envs: Vec<Environment> = vec![new_environment()];
    let l = Lexer::new(
        "let newAdder = fn(x) { fn(y) { x + y } };
         let addTwo = newAdder(2);
         addTwo(2);",
    );
    let mut p = Parser::new(l);
    let program = p.parse_program().unwrap();
    let first = eval(&program, &mut envs, 0, FUEL).unwrap();
    check_integer_object(first, 4);

    let l2 = Lexer::new("addTwo(3);");
    let mut p2 = Parser::new(l2);
    let program2 = p2.parse_program().unwrap();
    let second = eval(&program2, &mut envs, 0, FUEL).unwrap();
    check_integer_object(second, 5);
}

#[test]
fn test_division() {
    check_integer_object(test_eval("7 / 2"), 3);
    check_integer_object(test_eval("-7 / 2"), -3);
    check_integer_object(test_eval("7 / -2"), -3);
    check_integer_object(test_eval("-7 / -2"), 3);
    check_error_object(test_eval("5 / 0"), "division by zero");
    check_error_object(test_eval("5 / (2 - 2)"), "division by zero");
}

#[test]
fn test_call_arity_mismatch() {
    check_error_object(
        test_eval("let f = fn(x) { x; }; f(1, 2);"),
        "wrong number of arguments: expected 1, got 2",
    );
    check_error_object(
        test_eval("let add = fn(x, y) { x + y; }; add(1);"),
        "wrong number of arguments: expected 2, got 1",
    );
}

#[test]
fn test_not_a_function() {
    check_error_object(test_eval("5(1);"), "not a function: INTEGER");
    check_error_object(test_eval("true(1);"), "not a function: BOOLEAN");
}

#[test]
fn test_error_propagates_through_arguments() {
    check_error_object(
        test_eval("let f = fn(x) { x; }; f(5 + true);"),
        "type mismatch: INTEGER + BOOLEAN",
    );
}

#[test]
fn test_inspect() {
    assert_eq!(test_eval("5").inspect(), "5");
    assert_eq!(test_eval("-5").inspect(), "-5");
    assert_eq!(test_eval("1 < 2").inspect(), "true");
    assert_eq!(test_eval("if (false) { 1 }").inspect(), "null");
    assert_eq!(test_eval("foobar").inspect(), "ERROR: identifier not found: foobar");
    assert_eq!(test_eval("fn(x) { x + 2; }").inspect(), "fn(x) {\n(x + 2)\n}");
}

#[test]
fn test_eval_budget_exhausted() {
    // Unbounded interpreted recursion ends in an error object rather
    // than a host fault: with a tiny budget even a small program
    // reports it.
    let mut envs: Vec<Environment> = vec![new_environment()];
    let l = Lexer::new("5;");
    let mut p = Parser::new(l);
    let program = p.parse_program().unwrap();
    let result = eval(&program, &mut envs, 0, 1).unwrap();
    check_error_object(result, "evaluation is nested too deeply");
}
