//! The evaluator: a structural recursion over the AST against an
//! environment, defined mathematically by `spec_eval_stmt` and proved
//! to be implemented exactly.
//!
//! Arithmetic on `+ - *` is two's-complement wrapping; `/` and `%`
//! truncate toward zero, wrap on the one overflowing pair, and fail
//! with an `ArithmeticError` when the right operand is zero. A binary
//! operation between operands that are not both numbers yields Null.

use vstd::prelude::*;
use crate::ast::AssignmentExpr;
use crate::ast::BinaryExpr;
use crate::ast::Expr;
use crate::ast::Identifier;
use crate::ast::Program;
use crate::ast::Stmt;
use crate::ast::VarDeclaration;
use crate::environment::Environment;
use crate::environment::ScopeChain;
use crate::environment::env_model;
use crate::environment::env_resolve;
use crate::environment::spec_assign;
use crate::environment::spec_declare;
use crate::environment::spec_lookup;
use crate::errors::ErrModel;
use crate::errors::InterpError;
use crate::errors::NameErrorKind;
use crate::errors::result_model;
use crate::values::NullVal;
use crate::values::NumberVal;
use crate::values::RuntimeVal;
use crate::values::ValueType;
use crate::values::null_value;
use crate::values::number_value;

verus! {

/// Truncating 64-bit division for a nonzero divisor; the one
/// overflowing pair wraps to the minimum.
pub open spec fn div_wrap(a: i64, b: i64) -> i64
    recommends
        b != 0,
{
    match a.checked_div(b) {
        Some(q) => q,
        None => i64::MIN,
    }
}

/// Truncating 64-bit remainder for a nonzero divisor; the one
/// overflowing pair wraps to zero.
pub open spec fn rem_wrap(a: i64, b: i64) -> i64
    recommends
        b != 0,
{
    match a.checked_rem(b) {
        Some(r) => r,
        None => 0,
    }
}

/// What applying an operator symbol to two 64-bit numbers yields:
/// wrapping arithmetic for `+ - *`, truncating division and remainder
/// for `/ %` with an `ArithmeticError` when the divisor is zero, and
/// zero for any other symbol (no such symbol is ever produced by the
/// lexer).
pub open spec fn binop_of(op: Seq<char>, a: i64, b: i64) -> Result<i64, ErrModel> {
    if op == "+"@ {
        Ok(a.wrapping_add(b))
    } else if op == "-"@ {
        Ok(a.wrapping_sub(b))
    } else if op == "*"@ {
        Ok(a.wrapping_mul(b))
    } else if op == "/"@ {
        if b == 0 {
            Err(ErrModel::ArithmeticError)
        } else {
            Ok(div_wrap(a, b))
        }
    } else if op == "%"@ {
        if b == 0 {
            Err(ErrModel::ArithmeticError)
        } else {
            Ok(rem_wrap(a, b))
        }
    } else {
        Ok(0)
    }
}

/// What evaluating an expression yields, and the environment it leaves
/// behind. Literals evaluate to themselves, identifiers by lookup;
/// binary expressions evaluate left then right, then apply the
/// operator when both operands are numbers and yield Null otherwise;
/// assignments evaluate the value, then require the target to be an
/// identifier and assign to it. An error stops evaluation and keeps
/// the environment reached so far.
pub open spec fn spec_eval_expr(e: Expr, env: ScopeChain) -> (Result<RuntimeVal, ErrModel>, ScopeChain)
    decreases e,
{
    match e {
        Expr::NumericLiteral(n) => (Ok(number_value(n.value)), env),
        Expr::NullLiteral(_) => (Ok(null_value()), env),
        Expr::Identifier(id) => (spec_lookup(env, id.symbol@), env),
        Expr::BinaryExpr(b) => spec_eval_binexpr(*b, env),
        Expr::AssignmentExpr(a) => spec_eval_assignment(*a, env),
    }
}

/// What evaluating a binary expression yields: see `spec_eval_expr`.
pub open spec fn spec_eval_binexpr(b: BinaryExpr, env: ScopeChain) -> (Result<RuntimeVal, ErrModel>, ScopeChain)
    decreases b,
{
    let (rl, env1) = spec_eval_expr(b.left, env);
    match rl {
        Err(e) => (Err(e), env1),
        Ok(lv) => {
            let (rr, env2) = spec_eval_expr(b.right, env1);
            match rr {
                Err(e) => (Err(e), env2),
                Ok(rv) => if lv is NumberVal && rv is NumberVal {
                    match binop_of(b.operator@, lv->NumberVal_0.value, rv->NumberVal_0.value) {
                        Ok(n) => (Ok(number_value(n)), env2),
                        Err(e) => (Err(e), env2),
                    }
                } else {
                    (Ok(null_value()), env2)
                },
            }
        },
    }
}

/// What evaluating an assignment yields: the value expression is
/// evaluated first; then the target must be an identifier, else the
/// whole assignment fails with `EvalTypeError`.
pub open spec fn spec_eval_assignment(a: AssignmentExpr, env: ScopeChain) -> (Result<RuntimeVal, ErrModel>, ScopeChain)
    decreases a,
{
    let (rv, env1) = spec_eval_expr(a.value, env);
    match rv {
        Err(e) => (Err(e), env1),
        Ok(v) => match a.assigne {
            Expr::Identifier(id) => spec_assign(env1, id.symbol@, v),
            _ => (Err(ErrModel::EvalTypeError), env1),
        },
    }
}

/// What evaluating a declaration yields: the optional initializer
/// (defaulting to Null) is evaluated in the current environment, then
/// the name is declared with the stated constant-ness.
pub open spec fn spec_eval_declaration(d: VarDeclaration, env: ScopeChain) -> (Result<RuntimeVal, ErrModel>, ScopeChain)
    decreases d,
{
    match d.value {
        None => spec_declare(env, d.identifier@, null_value(), d.constant),
        Some(init) => {
            let (r, env1) = spec_eval_expr(init, env);
            match r {
                Err(e) => (Err(e), env1),
                Ok(v) => spec_declare(env1, d.identifier@, v, d.constant),
            }
        },
    }
}

/// What evaluating a statement sequence yields: each statement in
/// order, the value of the last one (Null for an empty sequence); an
/// error stops the sequence and keeps the effects made so far.
pub open spec fn spec_eval_stmts(body: Seq<Stmt>, env: ScopeChain) -> (Result<RuntimeVal, ErrModel>, ScopeChain)
    decreases body,
{
    if body.len() == 0 {
        (Ok(null_value()), env)
    } else {
        let (r0, env0) = spec_eval_stmt(body[0], env);
        match r0 {
            Err(e) => (Err(e), env0),
            Ok(v) => if body.len() == 1 {
                (Ok(v), env0)
            } else {
                spec_eval_stmts(body.subrange(1, body.len() as int), env0)
            },
        }
    }
}

/// What evaluating a statement yields: the definition of evaluation.
pub open spec fn spec_eval_stmt(s: Stmt, env: ScopeChain) -> (Result<RuntimeVal, ErrModel>, ScopeChain)
    decreases s,
{
    match s {
        Stmt::Program(p) => spec_eval_stmts(p.body@, env),
        Stmt::VarDeclaration(d) => spec_eval_declaration(d, env),
        Stmt::Expr(e) => spec_eval_expr(e, env),
    }
}

/// Applies an operator symbol to two numbers, exactly as `binop_of`
/// says: wrapping `+ - *`, truncating `/ %` with an arithmetic error
/// on a zero divisor.
fn eval_numeric_binary_expr(lhs: NumberVal, rhs: NumberVal, operator: &String) -> (r: Result<
    NumberVal,
    InterpError,
>)
    ensures
        match binop_of(operator@, lhs.value, rhs.value) {
            Ok(n) => r == Ok::<NumberVal, InterpError>(
                NumberVal { value_type: ValueType::Number, value: n },
            ),
            Err(em) => r is Err && crate::errors::err_model(r->Err_0) == em,
        },
{
    let a = lhs.value;
    let b = rhs.value;
    if operator.eq(&String::from_str("+")) {
        Ok(NumberVal { value_type: ValueType::Number, value: a.wrapping_add(b) })
    } else if operator.eq(&String::from_str("-")) {
        Ok(NumberVal { value_type: ValueType::Number, value: a.wrapping_sub(b) })
    } else if operator.eq(&String::from_str("*")) {
        Ok(NumberVal { value_type: ValueType::Number, value: a.wrapping_mul(b) })
    } else if operator.eq(&String::from_str("/")) {
        if b == 0 {
            Err(InterpError::ArithmeticError)
        } else {
            match a.checked_div(b) {
                Some(q) => Ok(NumberVal { value_type: ValueType::Number, value: q }),
                None => Ok(NumberVal { value_type: ValueType::Number, value: i64::MIN }),
            }
        }
    } else if operator.eq(&String::from_str("%")) {
        if b == 0 {
            Err(InterpError::ArithmeticError)
        } else {
            match a.checked_rem(b) {
                Some(q) => Ok(NumberVal { value_type: ValueType::Number, value: q }),
                None => Ok(NumberVal { value_type: ValueType::Number, value: 0 }),
            }
        }
    } else {
        Ok(NumberVal { value_type: ValueType::Number, value: 0 })
    }
}

/// Evaluates a binary expression: left operand first, then right, then
/// the operator; exactly as `spec_eval_binexpr` says.
pub fn eval_binary_expr(binop: BinaryExpr, env: &mut Environment) -> (r: Result<
    RuntimeVal,
    InterpError,
>)
    requires
        old(env).wf(),
    ensures
        final(env).wf(),
        (result_model(r), env_model(*final(env))) == spec_eval_binexpr(binop, env_model(*old(env))),
    decreases binop,
{
    let lhs = match eval_expr(&binop.left, env) {
        Ok(v) => v,
        Err(e) => {
            return Err(e);
        },
    };
    let rhs = match eval_expr(&binop.right, env) {
        Ok(v) => v,
        Err(e) => {
            return Err(e);
        },
    };
    match (lhs, rhs) {
        (RuntimeVal::NumberVal(ln), RuntimeVal::NumberVal(rn)) => {
            match eval_numeric_binary_expr(ln, rn, &binop.operator) {
                Ok(n) => Ok(n.to_runtime_val()),
                Err(e) => Err(e),
            }
        },
        _ => Ok(RuntimeVal::NullVal(NullVal::make_null())),
    }
}

/// Evaluates an identifier by looking its name up.
fn eval_identifier(ident: &Identifier, env: &mut Environment) -> (r: Result<
    RuntimeVal,
    InterpError,
>)
    ensures
        *final(env) == *old(env),
        result_model(r) == spec_lookup(env_model(*old(env)), ident.symbol@),
{
    env.lookup_var(ident.symbol.clone())
}

/// Evaluates the statements of a program in order; the program's value
/// is the value of its last statement, Null for an empty program.
fn eval_program(program: &Program, env: &mut Environment) -> (r: Result<RuntimeVal, InterpError>)
    requires
        old(env).wf(),
    ensures
        final(env).wf(),
        (result_model(r), env_model(*final(env))) == spec_eval_stmts(
            program.body@,
            env_model(*old(env)),
        ),
    decreases program,
{
    let ghost body = program.body@;
    let ghost chain0 = env_model(*old(env));
    let mut last_evaluated = RuntimeVal::NullVal(NullVal::make_null());
    let mut idx: usize = 0;
    proof {
        assert(body.subrange(0, body.len() as int) =~= body);
    }
    while idx < program.body.len()
        invariant
            old(env).wf(),
            env.wf(),
            body == program.body@,
            chain0 == env_model(*old(env)),
            0 <= idx <= body.len(),
            spec_eval_stmts(body, chain0) == if idx == body.len() {
                (Ok::<RuntimeVal, ErrModel>(last_evaluated), env_model(*env))
            } else {
                spec_eval_stmts(body.subrange(idx as int, body.len() as int), env_model(*env))
            },
        decreases program.body.len() - idx,
    {
        let ghost chain_before = env_model(*env);
        let ghost rest = body.subrange(idx as int, body.len() as int);
        proof {
            assert(rest[0] == body[idx as int]);
        }
        let r = eval_stmt(&program.body[idx], env);
        match r {
            Err(e) => {
                return Err(e);
            },
            Ok(v) => {
                last_evaluated = v;
                proof {
                    if idx + 1 < body.len() {
                        assert(rest.subrange(1, rest.len() as int) =~= body.subrange(
                            idx + 1 as int,
                            body.len() as int,
                        ));
                    }
                }
                idx = idx + 1;
            },
        }
    }
    Ok(last_evaluated)
}

/// Evaluates an expression, exactly as `spec_eval_expr` says.
pub(crate) fn eval_expr(ast_node: &Expr, env: &mut Environment) -> (r: Result<
    RuntimeVal,
    InterpError,
>)
    requires
        old(env).wf(),
    ensures
        final(env).wf(),
        (result_model(r), env_model(*final(env))) == spec_eval_expr(
            *ast_node,
            env_model(*old(env)),
        ),
    decreases ast_node,
{
    match ast_node {
        Expr::NumericLiteral(value) => Ok(
            RuntimeVal::NumberVal(NumberVal { value_type: ValueType::Number, value: value.value }),
        ),
        Expr::NullLiteral(_null_literal) => Ok(RuntimeVal::NullVal(NullVal::make_null())),
        Expr::Identifier(identifier) => eval_identifier(identifier, env),
        Expr::BinaryExpr(binary_expr) => {
            let b = BinaryExpr {
                kind: binary_expr.kind,
                left: crate::ast::clone_expr(&binary_expr.left),
                right: crate::ast::clone_expr(&binary_expr.right),
                operator: binary_expr.operator.clone(),
            };
            eval_binary_expr(b, env)
        },
        Expr::AssignmentExpr(assignment_expr) => eval_assignment(assignment_expr, env),
    }
}

/// Evaluates a `let` declaration: the optional initializer (defaulting
/// to Null) in the current environment, then a non-constant
/// declaration.
fn eval_var_declaration(declaration: &VarDeclaration, env: &mut Environment) -> (r: Result<
    RuntimeVal,
    InterpError,
>)
    requires
        old(env).wf(),
        declaration.constant == false,
    ensures
        final(env).wf(),
        (result_model(r), env_model(*final(env))) == spec_eval_declaration(
            *declaration,
            env_model(*old(env)),
        ),
    decreases declaration,
{
    match &declaration.value {
        Some(init) => {
            let v = match eval_expr(init, env) {
                Ok(v) => v,
                Err(e) => {
                    return Err(e);
                },
            };
            env.declare_var(declaration.identifier.clone(), v, false)
        },
        None => env.declare_var(
            declaration.identifier.clone(),
            RuntimeVal::NullVal(NullVal::make_null()),
            false,
        ),
    }
}

/// Evaluates a `const` declaration: as `eval_var_declaration`, but the
/// binding is recorded constant.
fn eval_const_declaration(declaration: &VarDeclaration, env: &mut Environment) -> (r: Result<
    RuntimeVal,
    InterpError,
>)
    requires
        old(env).wf(),
        declaration.constant == true,
    ensures
        final(env).wf(),
        (result_model(r), env_model(*final(env))) == spec_eval_declaration(
            *declaration,
            env_model(*old(env)),
        ),
    decreases declaration,
{
    match &declaration.value {
        Some(init) => {
            let v = match eval_expr(init, env) {
                Ok(v) => v,
                Err(e) => {
                    return Err(e);
                },
            };
            env.declare_var(declaration.identifier.clone(), v, true)
        },
        None => env.declare_var(
            declaration.identifier.clone(),
            RuntimeVal::NullVal(NullVal::make_null()),
            true,
        ),
    }
}

/// Evaluates an assignment: the value expression first, then the
/// target, which must be an identifier.
fn eval_assignment(node: &AssignmentExpr, env: &mut Environment) -> (r: Result<
    RuntimeVal,
    InterpError,
>)
    requires
        old(env).wf(),
    ensures
        final(env).wf(),
        (result_model(r), env_model(*final(env))) == spec_eval_assignment(
            *node,
            env_model(*old(env)),
        ),
    decreases node,
{
    let value = match eval_expr(&node.value, env) {
        Ok(v) => v,
        Err(e) => {
            return Err(e);
        },
    };
    match &node.assigne {
        Expr::Identifier(identifier) => env.assign_var(identifier.symbol.clone(), value),
        _ => Err(InterpError::EvalTypeError),
    }
}

/// Evaluates one statement against the environment, dispatching on its
/// variant; exactly as `spec_eval_stmt` says.
fn eval_stmt(ast_node: &Stmt, env: &mut Environment) -> (r: Result<RuntimeVal, InterpError>)
    requires
        old(env).wf(),
    ensures
        final(env).wf(),
        (result_model(r), env_model(*final(env))) == spec_eval_stmt(
            *ast_node,
            env_model(*old(env)),
        ),
    decreases ast_node,
{
    match ast_node {
        Stmt::Program(program) => eval_program(program, env),
        Stmt::VarDeclaration(var_declaration) => {
            if var_declaration.constant {
                eval_const_declaration(var_declaration, env)
            } else {
                eval_var_declaration(var_declaration, env)
            }
        },
        Stmt::Expr(e) => eval_expr(e, env),
    }
}

/// Evaluates a statement against the environment. The result and the
/// new environment are exactly `spec_eval_stmt` of the statement and
/// the old environment — a function of those two alone, so evaluation
/// is deterministic and touches no state but the passed environment.
pub fn evaluate(ast_node: Stmt, env: &mut Environment) -> (r: Result<RuntimeVal, InterpError>)
    requires
        old(env).wf(),
    ensures
        final(env).wf(),
        (result_model(r), env_model(*final(env))) == spec_eval_stmt(
            ast_node,
            env_model(*old(env)),
        ),
{
    eval_stmt(&ast_node, env)
}

/// Law: dividing or taking the remainder of any two number operands
/// fails with an `ArithmeticError` when the right operand evaluates to
/// zero, and the environment stays as the operand evaluations left it.
pub proof fn lemma_division_by_zero_errors(b: BinaryExpr, env: ScopeChain, a: i64)
    requires
        b.operator@ == "/"@ || b.operator@ == "%"@,
        spec_eval_expr(b.left, env).0 == Ok::<RuntimeVal, ErrModel>(number_value(a)),
        spec_eval_expr(b.right, spec_eval_expr(b.left, env).1).0 == Ok::<RuntimeVal, ErrModel>(
            number_value(0),
        ),
    ensures
        spec_eval_binexpr(b, env) == (
            Err::<RuntimeVal, ErrModel>(ErrModel::ArithmeticError),
            spec_eval_expr(b.right, spec_eval_expr(b.left, env).1).1,
        ),
{
    reveal_strlit("+");
    reveal_strlit("-");
    reveal_strlit("*");
    reveal_strlit("/");
    reveal_strlit("%");
    assert("+"@[0] == '+');
    assert("-"@[0] == '-');
    assert("*"@[0] == '*');
    assert("/"@[0] == '/');
    assert("%"@[0] == '%');
    assert(binop_of(b.operator@, a, 0) == Err::<i64, ErrModel>(ErrModel::ArithmeticError));
}

/// Law: an identifier bound in no reachable scope evaluates to an
/// `Unbound` name error, never to a silent Null, and leaves the
/// environment unchanged.
pub proof fn lemma_unbound_identifier_errors(id: Identifier, env: ScopeChain)
    requires
        env_resolve(env, id.symbol@) is None,
    ensures
        spec_eval_expr(Expr::Identifier(id), env) == (
            Err::<RuntimeVal, ErrModel>(
                ErrModel::NameError { kind: NameErrorKind::Unbound, name: id.symbol@ },
            ),
            env,
        ),
{
}

/// Law: evaluation is deterministic. The contract of `evaluate` pins
/// its result and final environment to `spec_eval_stmt` of the
/// statement and the starting environment alone, and that is a
/// mathematical function: the same statement against the same
/// environment yields the same outcome, with no hidden state.
pub proof fn lemma_evaluation_deterministic(s1: Stmt, s2: Stmt, env1: ScopeChain, env2: ScopeChain)
    requires
        s1 == s2,
        env1 == env2,
    ensures
        spec_eval_stmt(s1, env1) == spec_eval_stmt(s2, env2),
{
}

} // verus!
