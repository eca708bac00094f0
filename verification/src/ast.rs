//! The abstract syntax tree: statements and expressions as tagged
//! variants, plus their mathematical models (names as character
//! sequences) that the parser's specification builds.

use vstd::prelude::*;
use crate::environment::Environment;
use crate::environment::env_model;
use crate::errors::InterpError;
use crate::errors::result_model;
use crate::values::RuntimeVal;
use crate::values::Value;

verus! {

/// The tag of an AST node.
#[derive(Debug, Clone, Copy, PartialEq, Eq, Structural)]
pub enum NodeType {
    // statements
    Program,
    VarDeclaration,
    // expressions
    AssignmentExpr,
    NumericLiteral,
    NullLiteral,
    Identifier,
    BinaryExpr,
}

/// The root node: an ordered sequence of statements.
#[derive(Debug)]
pub struct Program {
    pub kind: NodeType,
    pub body: Vec<Stmt>,
}

/// A `let` or `const` declaration with an optional initializer.
#[derive(Debug)]
pub struct VarDeclaration {
    pub kind: NodeType,
    pub constant: bool,
    pub identifier: String,
    pub value: Option<Expr>,
}

/// A statement: a program, a declaration, or a bare expression.
#[derive(Debug)]
pub enum Stmt {
    Program(Program),
    VarDeclaration(VarDeclaration),
    Expr(Expr),
}

/// An expression.
#[derive(Debug)]
pub enum Expr {
    AssignmentExpr(Box<AssignmentExpr>),
    NumericLiteral(NumericLiteral),
    NullLiteral(NullLiteral),
    Identifier(Identifier),
    BinaryExpr(Box<BinaryExpr>),
}

/// An assignment: a target expression and a value expression. The
/// grammar accepts any target; that it is an identifier is checked
/// during evaluation.
#[derive(Debug)]
pub struct AssignmentExpr {
    pub kind: NodeType,
    pub assigne: Expr,
    pub value: Expr,
}

/// A binary arithmetic expression with its operator symbol.
#[derive(Debug)]
pub struct BinaryExpr {
    pub kind: NodeType,
    pub left: Expr,
    pub right: Expr,
    pub operator: String,
}

/// A name reference.
#[derive(Debug)]
pub struct Identifier {
    pub kind: NodeType,
    pub symbol: String,
}

/// An integer literal.
#[derive(Debug)]
pub struct NumericLiteral {
    pub kind: NodeType,
    pub value: i64,
}

/// The `null` literal.
#[derive(Debug)]
pub struct NullLiteral {
    pub kind: NodeType,
    pub value: Value,
}

/// Model of a `Program`: names become character sequences.
pub struct ProgramModel {
    pub kind: NodeType,
    pub body: Seq<StmtModel>,
}

/// Model of a `VarDeclaration`.
pub struct VarDeclarationModel {
    pub kind: NodeType,
    pub constant: bool,
    pub identifier: Seq<char>,
    pub value: Option<ExprModel>,
}

/// Model of a `Stmt`.
pub enum StmtModel {
    Program(ProgramModel),
    VarDeclaration(VarDeclarationModel),
    Expr(ExprModel),
}

/// Model of an `Expr`.
pub enum ExprModel {
    AssignmentExpr(Box<AssignmentExprModel>),
    NumericLiteral(NumericLiteralModel),
    NullLiteral(NullLiteralModel),
    Identifier(IdentifierModel),
    BinaryExpr(Box<BinaryExprModel>),
}

/// Model of an `AssignmentExpr`.
pub struct AssignmentExprModel {
    pub kind: NodeType,
    pub assigne: ExprModel,
    pub value: ExprModel,
}

/// Model of a `BinaryExpr`.
pub struct BinaryExprModel {
    pub kind: NodeType,
    pub left: ExprModel,
    pub right: ExprModel,
    pub operator: Seq<char>,
}

/// Model of an `Identifier`.
pub struct IdentifierModel {
    pub kind: NodeType,
    pub symbol: Seq<char>,
}

/// Model of a `NumericLiteral`.
pub struct NumericLiteralModel {
    pub kind: NodeType,
    pub value: i64,
}

/// Model of a `NullLiteral`.
pub struct NullLiteralModel {
    pub kind: NodeType,
    pub value: Value,
}

/// The model of an expression.
pub open spec fn expr_model(e: Expr) -> ExprModel
    decreases e,
{
    match e {
        Expr::AssignmentExpr(a) => ExprModel::AssignmentExpr(
            Box::new(
                AssignmentExprModel {
                    kind: a.kind,
                    assigne: expr_model(a.assigne),
                    value: expr_model(a.value),
                },
            ),
        ),
        Expr::NumericLiteral(n) => ExprModel::NumericLiteral(
            NumericLiteralModel { kind: n.kind, value: n.value },
        ),
        Expr::NullLiteral(n) => ExprModel::NullLiteral(
            NullLiteralModel { kind: n.kind, value: n.value },
        ),
        Expr::Identifier(i) => ExprModel::Identifier(
            IdentifierModel { kind: i.kind, symbol: i.symbol@ },
        ),
        Expr::BinaryExpr(b) => ExprModel::BinaryExpr(
            Box::new(
                BinaryExprModel {
                    kind: b.kind,
                    left: expr_model(b.left),
                    right: expr_model(b.right),
                    operator: b.operator@,
                },
            ),
        ),
    }
}

/// The model of a declaration.
pub open spec fn var_declaration_model(d: VarDeclaration) -> VarDeclarationModel {
    VarDeclarationModel {
        kind: d.kind,
        constant: d.constant,
        identifier: d.identifier@,
        value: match d.value {
            None => None,
            Some(e) => Some(expr_model(e)),
        },
    }
}

/// The models of a statement sequence, element by element.
pub open spec fn stmts_model(ss: Seq<Stmt>) -> Seq<StmtModel>
    decreases ss,
{
    if ss.len() == 0 {
        Seq::empty()
    } else {
        seq![stmt_model(ss[0])] + stmts_model(ss.subrange(1, ss.len() as int))
    }
}

/// The model of a statement.
pub open spec fn stmt_model(s: Stmt) -> StmtModel
    decreases s,
{
    match s {
        Stmt::Program(p) => StmtModel::Program(program_model(p)),
        Stmt::VarDeclaration(d) => StmtModel::VarDeclaration(var_declaration_model(d)),
        Stmt::Expr(e) => StmtModel::Expr(expr_model(e)),
    }
}

/// The model of a program.
pub open spec fn program_model(p: Program) -> ProgramModel
    decreases p,
{
    ProgramModel { kind: p.kind, body: stmts_model(p.body@) }
}

/// A deep copy of an expression.
pub(crate) fn clone_expr(e: &Expr) -> (r: Expr)
    ensures
        r == *e,
    decreases e,
{
    match e {
        Expr::AssignmentExpr(a) => Expr::AssignmentExpr(
            Box::new(
                AssignmentExpr {
                    kind: a.kind,
                    assigne: clone_expr(&a.assigne),
                    value: clone_expr(&a.value),
                },
            ),
        ),
        Expr::NumericLiteral(n) => Expr::NumericLiteral(
            NumericLiteral { kind: n.kind, value: n.value },
        ),
        Expr::NullLiteral(n) => Expr::NullLiteral(NullLiteral { kind: n.kind, value: n.value }),
        Expr::Identifier(i) => Expr::Identifier(
            Identifier { kind: i.kind, symbol: i.symbol.clone() },
        ),
        Expr::BinaryExpr(b) => Expr::BinaryExpr(
            Box::new(
                BinaryExpr {
                    kind: b.kind,
                    left: clone_expr(&b.left),
                    right: clone_expr(&b.right),
                    operator: b.operator.clone(),
                },
            ),
        ),
    }
}

impl Stmt {
    /// The expression inside an expression statement, as an owned copy.
    pub fn get_stmt_expr(&self) -> (r: Expr)
        requires
            self is Expr,
        ensures
            Some(r) == (match *self {
                Stmt::Expr(e) => Some(e),
                _ => None,
            }),
    {
        match self {
            Stmt::Expr(expr) => clone_expr(expr),
            _ => unreached(),
        }
    }
}

impl Expr {
    /// The binary expression inside this expression, as an owned copy.
    pub fn to_binaryexpr(&self) -> (r: BinaryExpr)
        requires
            self is BinaryExpr,
        ensures
            Some(Box::new(r)) == (match *self {
                Expr::BinaryExpr(b) => Some(b),
                _ => None,
            }),
    {
        match self {
            Expr::BinaryExpr(b) => BinaryExpr {
                kind: b.kind,
                left: clone_expr(&b.left),
                right: clone_expr(&b.right),
                operator: b.operator.clone(),
            },
            _ => unreached(),
        }
    }

    /// Evaluates this expression against the given environment, exactly
    /// as `spec_eval_expr` says.
    pub fn expr_to_runtime_val(&self, env: &mut Environment) -> (r: Result<
        RuntimeVal,
        InterpError,
    >)
        requires
            old(env).wf(),
        ensures
            final(env).wf(),
            (result_model(r), env_model(*final(env))) == crate::interpreter::spec_eval_expr(
                *self,
                env_model(*old(env)),
            ),
    {
        crate::interpreter::eval_expr(self, env)
    }
}

} // verus!
