//! Tests of the evaluator and the environment: arithmetic, scoping,
//! constants, and every run-time error.

use minilang::ast::{BinaryExpr, Expr, NodeType, NumericLiteral, Stmt};
use minilang::environment::Environment;
use minilang::errors::{InterpError, NameErrorKind};
use minilang::interpreter::{eval_binary_expr, evaluate};
use minilang::parser::Parser;
use minilang::values::{Bool, BooleanVal, NullVal, NumberVal, RuntimeVal, Value, ValueType};

fn run(src: &str, env: &mut Environment) -> Result<RuntimeVal, InterpError> {
    let mut parser = Parser::new(String::from(src)).expect("lexing should succeed");
    let program = parser.produce_ast().expect("parsing should succeed");
    evaluate(Stmt::Program(program), env)
}

fn run_fresh(src: &str) -> Result<RuntimeVal, InterpError> {
    let mut env = Environment::new(None);
    run(src, &mut env)
}

fn number(r: Result<RuntimeVal, InterpError>) -> i64 {
    match r.expect("evaluation should succeed") {
        RuntimeVal::NumberVal(n) => n.value,
        other => panic!("expected a number, got {:?}", other),
    }
}

#[test]
fn evaluate_declaration_reassignment_and_use() {
    assert_eq!(number(run_fresh("let x = 10; x = x + 5; x")), 15);
}

#[test]
fn evaluate_constant_reassignment_fails_and_keeps_value() {
    let mut env = Environment::new(None);
    let e = run("const y = 1; y = 2;", &mut env).expect_err("reassignment should fail");
    match e {
        InterpError::NameError { kind, name } => {
            assert_eq!(kind, NameErrorKind::ConstantReassignment);
            assert_eq!(name, "y");
        }
        other => panic!("expected a name error, got {:?}", other),
    }
    assert_eq!(number(run("y", &mut env)), 1);
}

#[test]
fn evaluate_declaration_without_initializer_defaults_to_null() {
    let mut env = Environment::new(None);
    run("let z;", &mut env).expect("declaration should succeed");
    let v = env
        .lookup_var(String::from("z"))
        .expect("lookup should succeed");
    assert!(matches!(v, RuntimeVal::NullVal(_)));
}

#[test]
fn evaluate_division_by_zero_fails() {
    let e = run_fresh("10 / 0").expect_err("division by zero should fail");
    assert!(matches!(e, InterpError::ArithmeticError));
}

#[test]
fn evaluate_modulo_by_zero_fails() {
    let e = run_fresh("10 % 0").expect_err("modulo by zero should fail");
    assert!(matches!(e, InterpError::ArithmeticError));
}

#[test]
fn evaluate_division_by_zero_keeps_environment() {
    let mut env = Environment::new(None);
    let e = run("let a = 3; a / 0;", &mut env).expect_err("division by zero should fail");
    assert!(matches!(e, InterpError::ArithmeticError));
    assert_eq!(number(run("a", &mut env)), 3);
}

#[test]
fn evaluate_unbound_identifier_fails() {
    let e = run_fresh("q").expect_err("unbound lookup should fail");
    match e {
        InterpError::NameError { kind, name } => {
            assert_eq!(kind, NameErrorKind::Unbound);
            assert_eq!(name, "q");
        }
        other => panic!("expected a name error, got {:?}", other),
    }
}

#[test]
fn evaluate_redeclaration_fails() {
    let e = run_fresh("let d = 1; let d = 2;").expect_err("redeclaration should fail");
    assert!(matches!(
        e,
        InterpError::NameError { kind: NameErrorKind::AlreadyDeclared, .. }
    ));
}

#[test]
fn evaluate_invalid_assignment_target_fails() {
    let e = run_fresh("1 = 2").expect_err("assignment to a literal should fail");
    assert!(matches!(e, InterpError::EvalTypeError));
}

#[test]
fn evaluate_is_deterministic_for_the_same_input() {
    let mut env = Environment::new(None);
    let first = run("1 + 2 * 3", &mut env);
    let second = run("1 + 2 * 3", &mut env);
    assert_eq!(number(first), 7);
    assert_eq!(number(second), 7);
}

#[test]
fn evaluate_nested_parentheses() {
    assert_eq!(number(run_fresh("((1))")), 1);
    assert_eq!(number(run_fresh("let x = (2 + 3) * 4; x")), 20);
}

#[test]
fn evaluate_unicode_identifier() {
    assert_eq!(number(run_fresh("let caf\u{e9} = 41; caf\u{e9} + 1")), 42);
}

#[test]
fn evaluate_arithmetic_results() {
    assert_eq!(number(run_fresh("2 + 3 * 4")), 14);
    assert_eq!(number(run_fresh("(2 + 3) * 4")), 20);
    assert_eq!(number(run_fresh("7 / 2")), 3);
    assert_eq!(number(run_fresh("10 % 3")), 1);
    assert_eq!(number(run_fresh("100 / 5 / 2")), 10);
    assert_eq!(number(run_fresh("0 - 5")), -5);
}

#[test]
fn evaluate_addition_wraps_on_overflow() {
    assert_eq!(number(run_fresh("9223372036854775807 + 1")), i64::MIN);
}

#[test]
fn evaluate_multiplication_wraps_on_overflow() {
    assert_eq!(
        number(run_fresh("9223372036854775807 * 2")),
        i64::MAX.wrapping_mul(2)
    );
}

#[test]
fn evaluate_mixed_operand_types_yield_null() {
    let v = run_fresh("null + 1").expect("evaluation should succeed");
    assert!(matches!(v, RuntimeVal::NullVal(_)));
}

#[test]
fn evaluate_null_literal() {
    let v = run_fresh("null").expect("evaluation should succeed");
    assert!(matches!(v, RuntimeVal::NullVal(_)));
}

#[test]
fn evaluate_empty_program_yields_null() {
    let v = run_fresh("").expect("evaluation should succeed");
    assert!(matches!(v, RuntimeVal::NullVal(_)));
}

#[test]
fn evaluate_program_value_is_last_statement() {
    assert_eq!(number(run_fresh("1; 2; 3")), 3);
}

#[test]
fn evaluate_assignment_returns_and_chains() {
    assert_eq!(number(run_fresh("let a = 1; let b = 2; a = b = 5; a")), 5);
}

#[test]
fn eval_binary_expr_applies_the_operator() {
    let mut parser = Parser::new(String::from("6 * 7")).expect("lexing should succeed");
    let program = parser.produce_ast().expect("parsing should succeed");
    let b = program.body[0].get_stmt_expr().to_binaryexpr();
    let mut env = Environment::new(None);
    let v = eval_binary_expr(b, &mut env).expect("evaluation should succeed");
    match v {
        RuntimeVal::NumberVal(n) => assert_eq!(n.value, 42),
        other => panic!("expected a number, got {:?}", other),
    }
}

#[test]
fn eval_binary_expr_unknown_operator_yields_zero() {
    let b = BinaryExpr {
        kind: NodeType::BinaryExpr,
        left: Expr::NumericLiteral(NumericLiteral { kind: NodeType::NumericLiteral, value: 8 }),
        right: Expr::NumericLiteral(NumericLiteral { kind: NodeType::NumericLiteral, value: 9 }),
        operator: String::from("^"),
    };
    let mut env = Environment::new(None);
    let v = eval_binary_expr(b, &mut env).expect("evaluation should succeed");
    match v {
        RuntimeVal::NumberVal(n) => assert_eq!(n.value, 0),
        other => panic!("expected a number, got {:?}", other),
    }
}

#[test]
fn expr_to_runtime_val_evaluates() {
    let mut parser = Parser::new(String::from("2 + 9")).expect("lexing should succeed");
    let program = parser.produce_ast().expect("parsing should succeed");
    let expr = program.body[0].get_stmt_expr();
    let mut env = Environment::new(None);
    let v = expr
        .expr_to_runtime_val(&mut env)
        .expect("evaluation should succeed");
    match v {
        RuntimeVal::NumberVal(n) => assert_eq!(n.value, 11),
        other => panic!("expected a number, got {:?}", other),
    }
}

#[test]
fn global_environment_seeds_boolean_constants() {
    let mut env = Environment::new_global();
    let t = env
        .lookup_var(String::from("true"))
        .expect("lookup should succeed");
    match t {
        RuntimeVal::BooleanVal(b) => assert_eq!(b.value, Bool::True),
        other => panic!("expected a boolean, got {:?}", other),
    }
    let f = env
        .lookup_var(String::from("false"))
        .expect("lookup should succeed");
    match f {
        RuntimeVal::BooleanVal(b) => assert_eq!(b.value, Bool::False),
        other => panic!("expected a boolean, got {:?}", other),
    }
    let e = run("true = 5", &mut env).expect_err("the seeded constants are constant");
    assert!(matches!(
        e,
        InterpError::NameError { kind: NameErrorKind::ConstantReassignment, .. }
    ));
}

#[test]
fn child_scope_shadows_and_outer_assignment_lands_outside() {
    let mut root = Environment::new(None);
    root.declare_var(String::from("v"), NumberVal::make_number(1).to_runtime_val(), false)
        .expect("declaration should succeed");
    let mut child = Environment::new(Some(Box::new(root)));
    child
        .declare_var(String::from("v"), NumberVal::make_number(2).to_runtime_val(), false)
        .expect("shadowing in a child scope is allowed");
    match child.lookup_var(String::from("v")) {
        Ok(RuntimeVal::NumberVal(n)) => assert_eq!(n.value, 2),
        other => panic!("expected the inner binding, got {:?}", other),
    }
    child
        .assign_var(String::from("v"), NumberVal::make_number(9).to_runtime_val())
        .expect("assignment should succeed");
    match child.lookup_var(String::from("v")) {
        Ok(RuntimeVal::NumberVal(n)) => assert_eq!(n.value, 9),
        other => panic!("expected the inner binding, got {:?}", other),
    }
    let w = child
        .declare_var(String::from("w"), NumberVal::make_number(4).to_runtime_val(), false)
        .expect("declaration should succeed");
    match w {
        RuntimeVal::NumberVal(n) => assert_eq!(n.value, 4),
        other => panic!("expected the declared value back, got {:?}", other),
    }
}

#[test]
fn resolve_reports_the_owning_scope() {
    let mut root = Environment::new(None);
    root.declare_var(String::from("outer"), NullVal::make_null().to_runtime_val(), false)
        .expect("declaration should succeed");
    let child = Environment::new(Some(Box::new(root)));
    match child.resolve(&String::from("outer")) {
        Ok(k) => assert_eq!(k, 0),
        other => panic!("expected the root scope, got {:?}", other),
    }
    let missing = child.resolve(&String::from("missing"));
    assert!(matches!(
        missing,
        Err(InterpError::NameError { kind: NameErrorKind::Unbound, .. })
    ));
}

#[test]
fn runtime_value_accessors() {
    let n = NumberVal::make_number(12);
    assert_eq!(n.value_type, ValueType::Number);
    let rv = n.to_runtime_val();
    assert_eq!(rv.get_value_type(), ValueType::Number);
    assert_eq!(rv.get_number_value(), 12);
    assert_eq!(rv.to_number_val().value, 12);

    let null = NullVal::make_null();
    let rn = null.to_runtime_val();
    assert_eq!(rn.get_value_type(), ValueType::Null);
    assert_eq!(rn.get_null_value(), Value::Null);
    assert_eq!(rn.to_null_val().value, Value::Null);

    let b = BooleanVal::make_bool(Bool::True);
    let rb = b.to_runtime_val();
    assert_eq!(rb.get_value_type(), ValueType::Boolean);
    assert_eq!(rb.get_bool_val(), Bool::True);
    assert_eq!(rb.to_boolean_val().value, Bool::True);
}
