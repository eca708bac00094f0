//! The parser: recursive descent with explicit precedence levels over
//! the token stream of the lexer.
//!
//! Precedence, lowest to highest: assignment, additive (`+ -`),
//! multiplicative (`* / %`), primary. (Future tiers — logical,
//! comparison, unary, call — would sit between assignment and
//! additive.) The `sp_*` spec functions are the mathematical definition
//! of parsing, position by position, and every method is proved to
//! return exactly what they say: the parsed node's model and the new
//! position, or the first offending token as a `ParseError`.

use vstd::prelude::*;
use crate::ast::AssignmentExpr;
use crate::ast::AssignmentExprModel;
use crate::ast::BinaryExpr;
use crate::ast::BinaryExprModel;
use crate::ast::Expr;
use crate::ast::ExprModel;
use crate::ast::Identifier;
use crate::ast::IdentifierModel;
use crate::ast::NodeType;
use crate::ast::NullLiteral;
use crate::ast::NullLiteralModel;
use crate::ast::NumericLiteral;
use crate::ast::NumericLiteralModel;
use crate::ast::Program;
use crate::ast::ProgramModel;
use crate::ast::Stmt;
use crate::ast::StmtModel;
use crate::ast::VarDeclaration;
use crate::ast::VarDeclarationModel;
use crate::ast::expr_model;
use crate::ast::program_model;
use crate::ast::stmt_model;
use crate::ast::stmts_model;
use crate::ast::var_declaration_model;
use crate::errors::ErrModel;
use crate::errors::InterpError;
use crate::errors::ParseErrorKind;
use crate::errors::err_model;
use crate::lexer::Token;
use crate::lexer::TokenModel;
use crate::lexer::TokenType;
use crate::lexer::clip;
use crate::lexer::digit_text;
use crate::lexer::spec_is_digit;
use crate::lexer::spec_lex;
use crate::lexer::string_chars;
use crate::lexer::token_model;
use crate::lexer::tokenize;
use crate::lexer::tokens_model;
use crate::lexer::tokens_wf;
use crate::lexer::lemma_spec_lex_wf;
use crate::values::Value;

verus! {

/// The token at position `i`, or a stand-in `EOF` token out of range.
/// A well-formed stream ends in `EOF`, so in-range reads never need the
/// stand-in.
pub open spec fn tok_at(toks: Seq<TokenModel>, i: int) -> TokenModel {
    if 0 <= i && i < toks.len() {
        toks[i]
    } else {
        TokenModel { text: "EndOfFile"@, kind: TokenType::EOF }
    }
}

/// What consuming one token of a required kind yields: the token and
/// the next position, or a `ParseError` naming the expected kind and
/// the token found. The token is consumed either way.
pub open spec fn sp_expect(toks: Seq<TokenModel>, i: int, kind: TokenType) -> (Result<
    TokenModel,
    ErrModel,
>, int) {
    let t = tok_at(toks, i);
    if t.text.len() == 0 || t.kind != kind {
        (Err(ErrModel::ParseError { kind: ParseErrorKind::Expected(kind), found: t }), i + 1)
    } else {
        (Ok(t), i + 1)
    }
}

/// The number a run of decimal digits denotes.
pub open spec fn digits_val(s: Seq<char>) -> int
    decreases s.len(),
{
    if s.len() == 0 {
        0
    } else {
        digits_val(s.subrange(0, s.len() - 1)) * 10 + (s[s.len() - 1] as int - '0' as int)
    }
}

/// What parsing a primary expression at `i` yields: a numeric literal
/// (a `NumberTooLarge` failure if its digits exceed the 64-bit range),
/// the `null` literal, an identifier, or a parenthesized expression;
/// any other token is an `UnexpectedToken` failure, left unconsumed.
pub open spec fn sp_primary(toks: Seq<TokenModel>, i: int) -> (Result<ExprModel, ErrModel>, int)
    decreases toks.len() - i, 0int,
{
    let t = tok_at(toks, i);
    if t.kind == TokenType::Number {
        if digits_val(t.text) <= i64::MAX {
            (
                Ok(
                    ExprModel::NumericLiteral(
                        NumericLiteralModel {
                            kind: NodeType::NumericLiteral,
                            value: digits_val(t.text) as i64,
                        },
                    ),
                ),
                i + 1,
            )
        } else {
            (Err(ErrModel::ParseError { kind: ParseErrorKind::NumberTooLarge, found: t }), i + 1)
        }
    } else if t.kind == TokenType::Null {
        (
            Ok(
                ExprModel::NullLiteral(
                    NullLiteralModel { kind: NodeType::NullLiteral, value: Value::Null },
                ),
            ),
            i + 1,
        )
    } else if t.kind == TokenType::Identifier {
        (
            Ok(ExprModel::Identifier(IdentifierModel { kind: NodeType::Identifier, symbol: t.text })),
            i + 1,
        )
    } else if t.kind == TokenType::OpenParen {
        let (r, j) = sp_assignment(toks, i + 1);
        match r {
            Err(e) => (Err(e), j),
            Ok(inner) => {
                let (r2, j2) = sp_expect(toks, j, TokenType::CloseParen);
                match r2 {
                    Err(e) => (Err(e), j2),
                    Ok(_) => (Ok(inner), j2),
                }
            },
        }
    } else {
        (Err(ErrModel::ParseError { kind: ParseErrorKind::UnexpectedToken, found: t }), i)
    }
}

/// The multiplicative continuation: folds `* / %` operators after an
/// already-parsed left operand into a left-leaning chain.
pub open spec fn sp_mult_rest(toks: Seq<TokenModel>, i: int, left: ExprModel) -> (Result<
    ExprModel,
    ErrModel,
>, int)
    decreases toks.len() - i, 1int,
{
    let t = tok_at(toks, i);
    if t.kind == TokenType::BinaryOperator && (t.text == "*"@ || t.text == "/"@ || t.text == "%"@) {
        let (r, j) = sp_primary(toks, i + 1);
        match r {
            Err(e) => (Err(e), j),
            Ok(right) => {
                let jj = clip(j, i + 1, toks.len() as int);
                sp_mult_rest(
                    toks,
                    jj,
                    ExprModel::BinaryExpr(
                        Box::new(
                            BinaryExprModel {
                                kind: NodeType::BinaryExpr,
                                left,
                                right,
                                operator: t.text,
                            },
                        ),
                    ),
                )
            },
        }
    } else {
        (Ok(left), i)
    }
}

/// What parsing a multiplicative expression at `i` yields.
pub open spec fn sp_mult(toks: Seq<TokenModel>, i: int) -> (Result<ExprModel, ErrModel>, int)
    decreases toks.len() - i, 2int,
{
    let (r, j) = sp_primary(toks, i);
    match r {
        Err(e) => (Err(e), j),
        Ok(left) => sp_mult_rest(toks, clip(j, i, toks.len() as int), left),
    }
}

/// The additive continuation: folds `+ -` operators after an
/// already-parsed left operand into a left-leaning chain.
pub open spec fn sp_add_rest(toks: Seq<TokenModel>, i: int, left: ExprModel) -> (Result<
    ExprModel,
    ErrModel,
>, int)
    decreases toks.len() - i, 3int,
{
    let t = tok_at(toks, i);
    if t.kind == TokenType::BinaryOperator && (t.text == "+"@ || t.text == "-"@) {
        let (r, j) = sp_mult(toks, i + 1);
        match r {
            Err(e) => (Err(e), j),
            Ok(right) => {
                let jj = clip(j, i + 1, toks.len() as int);
                sp_add_rest(
                    toks,
                    jj,
                    ExprModel::BinaryExpr(
                        Box::new(
                            BinaryExprModel {
                                kind: NodeType::BinaryExpr,
                                left,
                                right,
                                operator: t.text,
                            },
                        ),
                    ),
                )
            },
        }
    } else {
        (Ok(left), i)
    }
}

/// What parsing an additive expression at `i` yields.
pub open spec fn sp_add(toks: Seq<TokenModel>, i: int) -> (Result<ExprModel, ErrModel>, int)
    decreases toks.len() - i, 4int,
{
    let (r, j) = sp_mult(toks, i);
    match r {
        Err(e) => (Err(e), j),
        Ok(left) => sp_add_rest(toks, clip(j, i, toks.len() as int), left),
    }
}

/// What parsing an assignment expression at `i` yields: an additive
/// expression, optionally followed by `=` and a right-recursive
/// assignment (right-associative). This is the whole expression
/// grammar's entry point.
pub open spec fn sp_assignment(toks: Seq<TokenModel>, i: int) -> (Result<ExprModel, ErrModel>, int)
    decreases toks.len() - i, 5int,
{
    let (r, j) = sp_add(toks, i);
    match r {
        Err(e) => (Err(e), j),
        Ok(left) => {
            let jj = clip(j, i, toks.len() as int);
            if tok_at(toks, jj).kind == TokenType::Equals {
                let (r2, j2) = sp_assignment(toks, jj + 1);
                match r2 {
                    Err(e) => (Err(e), j2),
                    Ok(v) => (
                        Ok(
                            ExprModel::AssignmentExpr(
                                Box::new(
                                    AssignmentExprModel {
                                        kind: NodeType::AssignmentExpr,
                                        assigne: left,
                                        value: v,
                                    },
                                ),
                            ),
                        ),
                        j2,
                    ),
                }
            } else {
                (Ok(left), jj)
            }
        },
    }
}

/// What parsing a variable declaration at `i` yields: the `let` or
/// `const` keyword, a required identifier, then either an immediate
/// semicolon (no initializer — a `ConstWithoutValue` failure for
/// `const`) or `=`, an expression and a required trailing semicolon.
pub open spec fn sp_vardecl(toks: Seq<TokenModel>, i: int) -> (Result<
    VarDeclarationModel,
    ErrModel,
>, int)
    decreases toks.len() - i, 7int,
{
    let kw = tok_at(toks, i);
    let constant = kw.kind == TokenType::Const;
    let (ri, j1) = sp_expect(toks, i + 1, TokenType::Identifier);
    match ri {
        Err(e) => (Err(e), j1),
        Ok(ident_t) => if tok_at(toks, j1).kind == TokenType::Semicolon {
            if constant {
                (
                    Err(
                        ErrModel::ParseError {
                            kind: ParseErrorKind::ConstWithoutValue,
                            found: tok_at(toks, j1),
                        },
                    ),
                    j1 + 1,
                )
            } else {
                (
                    Ok(
                        VarDeclarationModel {
                            kind: NodeType::VarDeclaration,
                            constant: false,
                            identifier: ident_t.text,
                            value: None,
                        },
                    ),
                    j1 + 1,
                )
            }
        } else {
            let (re, j2) = sp_expect(toks, j1, TokenType::Equals);
            match re {
                Err(e) => (Err(e), j2),
                Ok(_) => {
                    let (rv, j3) = sp_assignment(toks, j2);
                    match rv {
                        Err(e) => (Err(e), j3),
                        Ok(val) => {
                            let (rs, j4) = sp_expect(toks, j3, TokenType::Semicolon);
                            match rs {
                                Err(e) => (Err(e), j4),
                                Ok(_) => (
                                    Ok(
                                        VarDeclarationModel {
                                            kind: NodeType::VarDeclaration,
                                            constant,
                                            identifier: ident_t.text,
                                            value: Some(val),
                                        },
                                    ),
                                    j4,
                                ),
                            }
                        },
                    }
                },
            }
        },
    }
}

/// What parsing one statement at `i` yields: a declaration after `let`
/// or `const`, else a bare expression statement with one optional
/// trailing semicolon (so statements may be separated by `;`).
pub open spec fn sp_stmt(toks: Seq<TokenModel>, i: int) -> (Result<StmtModel, ErrModel>, int)
    decreases toks.len() - i, 8int,
{
    let t = tok_at(toks, i);
    if t.kind == TokenType::Let || t.kind == TokenType::Const {
        let (r, j) = sp_vardecl(toks, i);
        match r {
            Err(e) => (Err(e), j),
            Ok(d) => (Ok(StmtModel::VarDeclaration(d)), j),
        }
    } else {
        let (r, j) = sp_assignment(toks, i);
        match r {
            Err(e) => (Err(e), j),
            Ok(e2) => if tok_at(toks, j).kind == TokenType::Semicolon {
                (Ok(StmtModel::Expr(e2)), j + 1)
            } else {
                (Ok(StmtModel::Expr(e2)), j)
            },
        }
    }
}

/// What parsing statements up to `EOF` yields: the statement models in
/// order, or the first failure.
pub open spec fn sp_program_rest(toks: Seq<TokenModel>, i: int) -> (Result<
    Seq<StmtModel>,
    ErrModel,
>, int)
    decreases toks.len() - i, 9int,
{
    if i < 0 || i >= toks.len() || tok_at(toks, i).kind == TokenType::EOF {
        (Ok(Seq::empty()), i)
    } else {
        let (r, j) = sp_stmt(toks, i);
        match r {
            Err(e) => (Err(e), j),
            Ok(st) => {
                let jj = clip(j, i + 1, toks.len() as int);
                let (r2, j2) = sp_program_rest(toks, jj);
                match r2 {
                    Err(e) => (Err(e), j2),
                    Ok(rest) => (Ok(seq![st] + rest), j2),
                }
            },
        }
    }
}

/// What parsing a whole program at `i` yields: the definition of the
/// parser.
pub open spec fn sp_program(toks: Seq<TokenModel>, i: int) -> (Result<ProgramModel, ErrModel>, int) {
    let (r, j) = sp_program_rest(toks, i);
    match r {
        Err(e) => (Err(e), j),
        Ok(body) => (Ok(ProgramModel { kind: NodeType::Program, body }), j),
    }
}

/// The model of a parsed expression result.
pub open spec fn parsed_expr(r: Result<Expr, InterpError>) -> Result<ExprModel, ErrModel> {
    match r {
        Ok(e) => Ok(expr_model(e)),
        Err(e) => Err(err_model(e)),
    }
}

/// The model of a parsed token result.
pub open spec fn parsed_token(r: Result<Token, InterpError>) -> Result<TokenModel, ErrModel> {
    match r {
        Ok(t) => Ok(token_model(t)),
        Err(e) => Err(err_model(e)),
    }
}

/// The model of a parsed declaration result.
pub open spec fn parsed_vardecl(r: Result<VarDeclaration, InterpError>) -> Result<
    VarDeclarationModel,
    ErrModel,
> {
    match r {
        Ok(d) => Ok(var_declaration_model(d)),
        Err(e) => Err(err_model(e)),
    }
}

/// The model of a parsed statement result.
pub open spec fn parsed_stmt(r: Result<Stmt, InterpError>) -> Result<StmtModel, ErrModel> {
    match r {
        Ok(s) => Ok(stmt_model(s)),
        Err(e) => Err(err_model(e)),
    }
}

/// The model of a parsed program result.
pub open spec fn parsed_program(r: Result<Program, InterpError>) -> Result<ProgramModel, ErrModel> {
    match r {
        Ok(p) => Ok(program_model(p)),
        Err(e) => Err(err_model(e)),
    }
}

proof fn lemma_digits_val_nonneg(s: Seq<char>)
    requires
        forall|j: int| 0 <= j < s.len() ==> spec_is_digit(s[j]),
    ensures
        digits_val(s) >= 0,
    decreases s.len(),
{
    if s.len() > 0 {
        lemma_digits_val_nonneg(s.subrange(0, s.len() - 1));
    }
}

proof fn lemma_digits_val_prefix(s: Seq<char>, j: int)
    requires
        forall|k: int| 0 <= k < s.len() ==> spec_is_digit(s[k]),
        0 <= j <= s.len(),
    ensures
        digits_val(s.subrange(0, j)) <= digits_val(s),
    decreases s.len() - j,
{
    if j == s.len() {
        assert(s.subrange(0, j) =~= s);
    } else {
        lemma_digits_val_prefix(s, j + 1);
        let a = s.subrange(0, j);
        let b = s.subrange(0, j + 1);
        assert(b.subrange(0, b.len() - 1) =~= a);
        lemma_digits_val_nonneg(a);
        assert(digits_val(b) == digits_val(a) * 10 + (s[j] as int - '0' as int));
    }
}

/// The numeric value of a token's digit run, or nothing when it
/// exceeds the 64-bit signed range.
fn parse_digits(text: &String) -> (r: Option<i64>)
    requires
        digit_text(text@),
    ensures
        match r {
            Some(v) => digits_val(text@) <= i64::MAX && v == digits_val(text@),
            None => digits_val(text@) > i64::MAX,
        },
{
    let chars = string_chars(text);
    let mut acc: u64 = 0;
    let mut j: usize = 0;
    proof {
        assert(text@.subrange(0, 0) =~= Seq::<char>::empty());
    }
    while j < chars.len()
        invariant
            chars@ == text@,
            digit_text(text@),
            0 <= j <= chars.len(),
            acc == digits_val(text@.subrange(0, j as int)),
            acc <= 0x7fff_ffff_ffff_ffff,
        decreases chars.len() - j,
    {
        let c = chars[j];
        proof {
            assert(spec_is_digit(text@[j as int]));
        }
        let d: u64 = (c as u32 as u64) - 48;
        let limit: u64 = 9223372036854775807;
        let ghost prefix = text@.subrange(0, j as int);
        let ghost prefix1 = text@.subrange(0, j + 1 as int);
        proof {
            assert(prefix1.subrange(0, prefix1.len() - 1) =~= prefix);
            assert(digits_val(prefix1) == digits_val(prefix) * 10 + (text@[j as int] as int
                - '0' as int));
            assert(digits_val(prefix1) == acc * 10 + d);
        }
        if acc > (limit - d) / 10 {
            proof {
                assert(acc * 10 + d > limit);
                lemma_digits_val_prefix(text@, j + 1);
            }
            return None;
        }
        proof {
            assert(acc * 10 + d <= limit);
        }
        acc = acc * 10 + d;
        j = j + 1;
    }
    proof {
        assert(text@.subrange(0, chars.len() as int) =~= text@);
    }
    Some(acc as i64)
}

/// The recursive-descent parser: the token stream of a source text and
/// a cursor over it.
#[derive(Debug)]
pub struct Parser {
    tokens: Vec<Token>,
    current: usize,
}

impl Parser {
    /// The models of this parser's tokens.
    pub closed spec fn toks(&self) -> Seq<TokenModel> {
        tokens_model(self.tokens@)
    }

    /// The position of the next unconsumed token.
    pub closed spec fn pos(&self) -> int {
        self.current as int
    }

    /// A parser is well-formed when its stream is a lexer's output
    /// shape (`tokens_wf`) and the cursor is within it.
    pub closed spec fn wf(&self) -> bool {
        tokens_wf(self.toks()) && 0 <= self.pos() <= self.toks().len()
    }

    /// Builds a parser over the token stream of `source_code`, or
    /// reports the lexer's failure.
    pub fn new(source_code: String) -> (r: Result<Parser, InterpError>)
        ensures
            match r {
                Ok(p) => {
                    &&& spec_lex(source_code@, 0) == Ok::<_, char>(p.toks())
                    &&& p.pos() == 0
                    &&& p.wf()
                },
                Err(e) => {
                    &&& spec_lex(source_code@, 0) is Err
                    &&& e == (InterpError::LexError {
                        character: spec_lex(source_code@, 0)->Err_0,
                    })
                },
            },
    {
        let ghost sv = source_code@;
        let tokens = match tokenize(source_code) {
            Ok(t) => t,
            Err(e) => {
                return Err(e);
            },
        };
        proof {
            lemma_spec_lex_wf(sv, 0);
        }
        Ok(Parser { tokens, current: 0 })
    }

    /// Whether unconsumed tokens remain before `EOF`.
    fn not_eof(&self) -> (r: bool)
        ensures
            r == (self.pos() < self.toks().len() && tok_at(self.toks(), self.pos()).kind
                != TokenType::EOF),
    {
        self.current < self.tokens.len() && self.tokens[self.current].ttype != TokenType::EOF
    }

    /// The token under the cursor, unconsumed.
    fn at(&self) -> (r: &Token)
        requires
            self.pos() < self.toks().len(),
            0 <= self.pos(),
        ensures
            token_model(*r) == tok_at(self.toks(), self.pos()),
    {
        &self.tokens[self.current]
    }

    /// Consumes and returns the token under the cursor.
    fn eat(&mut self) -> (r: Token)
        requires
            old(self).pos() < old(self).toks().len(),
            0 <= old(self).pos(),
        ensures
            final(self).toks() == old(self).toks(),
            final(self).pos() == old(self).pos() + 1,
            token_model(r) == tok_at(old(self).toks(), old(self).pos()),
            old(self).wf() ==> final(self).wf(),
    {
        let n = self.tokens.len();
        proof {
            assert(n == self.toks().len());
        }
        self.current = self.current + 1;
        self.tokens[self.current - 1].clone()
    }

    /// Consumes one token that must be of the given kind, exactly as
    /// `sp_expect` says.
    fn expect(&mut self, ttype: TokenType) -> (r: Result<Token, InterpError>)
        requires
            old(self).wf(),
            old(self).pos() < old(self).toks().len(),
        ensures
            final(self).wf(),
            final(self).toks() == old(self).toks(),
            (parsed_token(r), final(self).pos()) == sp_expect(
                old(self).toks(),
                old(self).pos(),
                ttype,
            ),
    {
        let prev = self.eat();
        if prev.tvalue.as_str().is_empty() || !token_types_equal(prev.ttype, ttype) {
            Err(
                InterpError::ParseError {
                    kind: ParseErrorKind::Expected(ttype),
                    found: prev,
                },
            )
        } else {
            Ok(prev)
        }
    }
    /// Parses a primary expression, exactly as `sp_primary` says.
    fn parse_primary_expr(&mut self) -> (r: Result<Expr, InterpError>)
        requires
            old(self).wf(),
            old(self).pos() < old(self).toks().len(),
        ensures
            final(self).wf(),
            final(self).toks() == old(self).toks(),
            old(self).pos() <= final(self).pos(),
            (parsed_expr(r), final(self).pos()) == sp_primary(old(self).toks(), old(self).pos()),
            r is Ok ==> old(self).pos() < final(self).pos() < final(self).toks().len(),
        decreases self.toks().len() - self.pos(), 0int,
    {
        let ghost toks = self.toks();
        let ghost i = self.pos();
        let ttype = self.at().ttype;
        if token_types_equal(ttype, TokenType::Number) {
            let tok = self.eat();
            proof {
                assert(tok_at(toks, i).kind == TokenType::Number);
                assert(digit_text(tok.tvalue@));
                lemma_digits_val_nonneg(tok.tvalue@);
            }
            match parse_digits(&tok.tvalue) {
                Some(v) => Ok(
                    Expr::NumericLiteral(
                        NumericLiteral { kind: NodeType::NumericLiteral, value: v },
                    ),
                ),
                None => Err(
                    InterpError::ParseError { kind: ParseErrorKind::NumberTooLarge, found: tok },
                ),
            }
        } else if token_types_equal(ttype, TokenType::Null) {
            let _ = self.eat();
            Ok(Expr::NullLiteral(NullLiteral { kind: NodeType::NullLiteral, value: Value::Null }))
        } else if token_types_equal(ttype, TokenType::Identifier) {
            let tok = self.eat();
            Ok(Expr::Identifier(Identifier { kind: NodeType::Identifier, symbol: tok.tvalue }))
        } else if token_types_equal(ttype, TokenType::OpenParen) {
            let _ = self.eat();
            proof {
                assert(toks[toks.len() - 1].kind == TokenType::EOF);
                assert(i < toks.len() - 1);
            }
            let value = match self.parse_expr() {
                Ok(v) => v,
                Err(e) => {
                    return Err(e);
                },
            };
            match self.expect(TokenType::CloseParen) {
                Ok(_) => Ok(value),
                Err(e) => Err(e),
            }
        } else {
            let t = self.at().clone();
            Err(InterpError::ParseError { kind: ParseErrorKind::UnexpectedToken, found: t })
        }
    }

    /// Folds `* / %` operators onto an already-parsed left operand,
    /// exactly as `sp_mult_rest` says.
    fn parse_multiplicative_rest(&mut self, left: Expr) -> (r: Result<Expr, InterpError>)
        requires
            old(self).wf(),
            old(self).pos() < old(self).toks().len(),
        ensures
            final(self).wf(),
            final(self).toks() == old(self).toks(),
            old(self).pos() <= final(self).pos(),
            (parsed_expr(r), final(self).pos()) == sp_mult_rest(
                old(self).toks(),
                old(self).pos(),
                expr_model(left),
            ),
            r is Ok ==> final(self).pos() < final(self).toks().len(),
        decreases self.toks().len() - self.pos(), 1int,
    {
        let ghost toks = self.toks();
        let ghost i = self.pos();
        let is_op = {
            let t = self.at();
            token_types_equal(t.ttype, TokenType::BinaryOperator) && (t.tvalue.eq(
                &String::from_str("*"),
            ) || t.tvalue.eq(&String::from_str("/")) || t.tvalue.eq(&String::from_str("%")))
        };
        if is_op {
            let op = self.eat();
            proof {
                assert(toks[toks.len() - 1].kind == TokenType::EOF);
                assert(i < toks.len() - 1);
            }
            let right = match self.parse_primary_expr() {
                Ok(v) => v,
                Err(e) => {
                    return Err(e);
                },
            };
            proof {
                assert(clip(self.pos(), i + 1, toks.len() as int) == self.pos());
            }
            let new_left = Expr::BinaryExpr(
                Box::new(
                    BinaryExpr { kind: NodeType::BinaryExpr, left, right, operator: op.tvalue },
                ),
            );
            self.parse_multiplicative_rest(new_left)
        } else {
            Ok(left)
        }
    }

    /// Parses a multiplicative expression, exactly as `sp_mult` says.
    fn parse_multiplicative_expr(&mut self) -> (r: Result<Expr, InterpError>)
        requires
            old(self).wf(),
            old(self).pos() < old(self).toks().len(),
        ensures
            final(self).wf(),
            final(self).toks() == old(self).toks(),
            old(self).pos() <= final(self).pos(),
            (parsed_expr(r), final(self).pos()) == sp_mult(old(self).toks(), old(self).pos()),
            r is Ok ==> old(self).pos() < final(self).pos() < final(self).toks().len(),
        decreases self.toks().len() - self.pos(), 2int,
    {
        let ghost toks = self.toks();
        let ghost i = self.pos();
        let left = match self.parse_primary_expr() {
            Ok(v) => v,
            Err(e) => {
                return Err(e);
            },
        };
        proof {
            assert(clip(self.pos(), i, toks.len() as int) == self.pos());
        }
        self.parse_multiplicative_rest(left)
    }

    /// Folds `+ -` operators onto an already-parsed left operand,
    /// exactly as `sp_add_rest` says.
    fn parse_additive_rest(&mut self, left: Expr) -> (r: Result<Expr, InterpError>)
        requires
            old(self).wf(),
            old(self).pos() < old(self).toks().len(),
        ensures
            final(self).wf(),
            final(self).toks() == old(self).toks(),
            old(self).pos() <= final(self).pos(),
            (parsed_expr(r), final(self).pos()) == sp_add_rest(
                old(self).toks(),
                old(self).pos(),
                expr_model(left),
            ),
            r is Ok ==> final(self).pos() < final(self).toks().len(),
        decreases self.toks().len() - self.pos(), 3int,
    {
        let ghost toks = self.toks();
        let ghost i = self.pos();
        let is_op = {
            let t = self.at();
            token_types_equal(t.ttype, TokenType::BinaryOperator) && (t.tvalue.eq(
                &String::from_str("+"),
            ) || t.tvalue.eq(&String::from_str("-")))
        };
        if is_op {
            let op = self.eat();
            proof {
                assert(toks[toks.len() - 1].kind == TokenType::EOF);
                assert(i < toks.len() - 1);
            }
            let right = match self.parse_multiplicative_expr() {
                Ok(v) => v,
                Err(e) => {
                    return Err(e);
                },
            };
            proof {
                assert(clip(self.pos(), i + 1, toks.len() as int) == self.pos());
            }
            let new_left = Expr::BinaryExpr(
                Box::new(
                    BinaryExpr { kind: NodeType::BinaryExpr, left, right, operator: op.tvalue },
                ),
            );
            self.parse_additive_rest(new_left)
        } else {
            Ok(left)
        }
    }

    /// Parses an additive expression, exactly as `sp_add` says.
    fn parse_additive_expr(&mut self) -> (r: Result<Expr, InterpError>)
        requires
            old(self).wf(),
            old(self).pos() < old(self).toks().len(),
        ensures
            final(self).wf(),
            final(self).toks() == old(self).toks(),
            old(self).pos() <= final(self).pos(),
            (parsed_expr(r), final(self).pos()) == sp_add(old(self).toks(), old(self).pos()),
            r is Ok ==> old(self).pos() < final(self).pos() < final(self).toks().len(),
        decreases self.toks().len() - self.pos(), 4int,
    {
        let ghost toks = self.toks();
        let ghost i = self.pos();
        let left = match self.parse_multiplicative_expr() {
            Ok(v) => v,
            Err(e) => {
                return Err(e);
            },
        };
        proof {
            assert(clip(self.pos(), i, toks.len() as int) == self.pos());
        }
        self.parse_additive_rest(left)
    }

    /// Parses an assignment expression — an additive expression,
    /// optionally `=` and a right-recursive assignment — exactly as
    /// `sp_assignment` says.
    fn parse_assignment_expr(&mut self) -> (r: Result<Expr, InterpError>)
        requires
            old(self).wf(),
            old(self).pos() < old(self).toks().len(),
        ensures
            final(self).wf(),
            final(self).toks() == old(self).toks(),
            old(self).pos() <= final(self).pos(),
            (parsed_expr(r), final(self).pos()) == sp_assignment(old(self).toks(), old(self).pos()),
            r is Ok ==> old(self).pos() < final(self).pos() < final(self).toks().len(),
        decreases self.toks().len() - self.pos(), 5int,
    {
        let ghost toks = self.toks();
        let ghost i = self.pos();
        let left = match self.parse_additive_expr() {
            Ok(v) => v,
            Err(e) => {
                return Err(e);
            },
        };
        proof {
            assert(clip(self.pos(), i, toks.len() as int) == self.pos());
        }
        let is_eq = {
            let t = self.at();
            token_types_equal(t.ttype, TokenType::Equals)
        };
        if is_eq {
            let _ = self.eat();
            proof {
                assert(toks[toks.len() - 1].kind == TokenType::EOF);
            }
            let value = match self.parse_assignment_expr() {
                Ok(v) => v,
                Err(e) => {
                    return Err(e);
                },
            };
            Ok(
                Expr::AssignmentExpr(
                    Box::new(
                        AssignmentExpr { kind: NodeType::AssignmentExpr, assigne: left, value },
                    ),
                ),
            )
        } else {
            Ok(left)
        }
    }

    /// Parses one expression: the assignment tier is the entry point of
    /// the expression grammar.
    fn parse_expr(&mut self) -> (r: Result<Expr, InterpError>)
        requires
            old(self).wf(),
            old(self).pos() < old(self).toks().len(),
        ensures
            final(self).wf(),
            final(self).toks() == old(self).toks(),
            old(self).pos() <= final(self).pos(),
            (parsed_expr(r), final(self).pos()) == sp_assignment(old(self).toks(), old(self).pos()),
            r is Ok ==> old(self).pos() < final(self).pos() < final(self).toks().len(),
        decreases self.toks().len() - self.pos(), 6int,
    {
        self.parse_assignment_expr()
    }

    /// Parses a variable declaration after a `let` or `const` keyword,
    /// exactly as `sp_vardecl` says.
    fn parse_var_declaration(&mut self) -> (r: Result<VarDeclaration, InterpError>)
        requires
            old(self).wf(),
            old(self).pos() < old(self).toks().len(),
            tok_at(old(self).toks(), old(self).pos()).kind != TokenType::EOF,
        ensures
            final(self).wf(),
            final(self).toks() == old(self).toks(),
            old(self).pos() <= final(self).pos(),
            (parsed_vardecl(r), final(self).pos()) == sp_vardecl(old(self).toks(), old(self).pos()),
            r is Ok ==> old(self).pos() < final(self).pos() < final(self).toks().len(),
        decreases self.toks().len() - self.pos(), 7int,
    {
        let ghost toks = self.toks();
        let ghost i = self.pos();
        proof {
            assert(toks[toks.len() - 1].kind == TokenType::EOF);
            assert(i < toks.len() - 1);
        }
        let kw = self.eat();
        let is_constant = token_types_equal(kw.ttype, TokenType::Const);
        let ident = match self.expect(TokenType::Identifier) {
            Ok(t) => t,
            Err(e) => {
                return Err(e);
            },
        };
        proof {
            assert(tok_at(toks, i + 1).kind == TokenType::Identifier);
            assert(i + 1 < toks.len() - 1);
        }
        let is_semi = {
            let t = self.at();
            token_types_equal(t.ttype, TokenType::Semicolon)
        };
        if is_semi {
            let sc = self.eat();
            if is_constant {
                Err(InterpError::ParseError { kind: ParseErrorKind::ConstWithoutValue, found: sc })
            } else {
                Ok(
                    VarDeclaration {
                        kind: NodeType::VarDeclaration,
                        constant: false,
                        identifier: ident.tvalue,
                        value: None,
                    },
                )
            }
        } else {
            match self.expect(TokenType::Equals) {
                Ok(_) => {},
                Err(e) => {
                    return Err(e);
                },
            }
            proof {
                assert(tok_at(toks, i + 2).kind == TokenType::Equals);
                assert(i + 2 < toks.len() - 1);
            }
            let val = match self.parse_expr() {
                Ok(v) => v,
                Err(e) => {
                    return Err(e);
                },
            };
            match self.expect(TokenType::Semicolon) {
                Ok(_) => Ok(
                    VarDeclaration {
                        kind: NodeType::VarDeclaration,
                        constant: is_constant,
                        identifier: ident.tvalue,
                        value: Some(val),
                    },
                ),
                Err(e) => Err(e),
            }
        }
    }

    /// Parses one statement: a declaration after `let` or `const`, else
    /// an expression statement with one optional trailing semicolon;
    /// exactly as `sp_stmt` says.
    fn parse_stmt(&mut self) -> (r: Result<Stmt, InterpError>)
        requires
            old(self).wf(),
            old(self).pos() < old(self).toks().len(),
        ensures
            final(self).wf(),
            final(self).toks() == old(self).toks(),
            old(self).pos() <= final(self).pos(),
            (parsed_stmt(r), final(self).pos()) == sp_stmt(old(self).toks(), old(self).pos()),
            r is Ok ==> old(self).pos() < final(self).pos() < final(self).toks().len(),
        decreases self.toks().len() - self.pos(), 8int,
    {
        let ttype = self.at().ttype;
        if token_types_equal(ttype, TokenType::Let) || token_types_equal(ttype, TokenType::Const) {
            match self.parse_var_declaration() {
                Ok(d) => Ok(Stmt::VarDeclaration(d)),
                Err(e) => Err(e),
            }
        } else {
            let ghost toks = self.toks();
            match self.parse_expr() {
                Ok(e) => {
                    let is_semi = {
                        let t = self.at();
                        token_types_equal(t.ttype, TokenType::Semicolon)
                    };
                    if is_semi {
                        proof {
                            assert(toks[toks.len() - 1].kind == TokenType::EOF);
                        }
                        let _ = self.eat();
                    }
                    Ok(Stmt::Expr(e))
                },
                Err(e) => Err(e),
            }
        }
    }

    /// Parses the whole token stream into a `Program`, consuming
    /// statements until `EOF`; exactly as `sp_program` says.
    pub fn produce_ast(&mut self) -> (r: Result<Program, InterpError>)
        requires
            old(self).wf(),
        ensures
            final(self).wf(),
            final(self).toks() == old(self).toks(),
            (parsed_program(r), final(self).pos()) == sp_program(old(self).toks(), old(self).pos()),
    {
        let ghost toks = self.toks();
        let ghost i0 = self.pos();
        let mut body: Vec<Stmt> = Vec::new();
        proof {
            assert(stmts_model(body@) =~= Seq::<StmtModel>::empty());
            match sp_program_rest(toks, i0).0 {
                Ok(ss) => {
                    assert(Seq::<StmtModel>::empty() + ss =~= ss);
                },
                Err(_) => {},
            }
        }
        while self.not_eof()
            invariant
                self.wf(),
                self.toks() == toks,
                toks == old(self).toks(),
                i0 == old(self).pos(),
                i0 <= self.pos() <= toks.len(),
                prog_concat(stmts_model(body@), sp_program_rest(toks, self.pos()))
                    == sp_program_rest(toks, i0),
            decreases toks.len() - self.pos(),
        {
            let ghost cur = self.pos();
            let ghost done = stmts_model(body@);
            let st = match self.parse_stmt() {
                Ok(st) => st,
                Err(e) => {
                    return Err(e);
                },
            };
            proof {
                assert(clip(self.pos(), cur + 1, toks.len() as int) == self.pos());
                lemma_stmts_model_push(body@, st);
                match sp_program_rest(toks, self.pos()).0 {
                    Ok(rest) => {
                        assert(done + (seq![stmt_model(st)] + rest) =~= done.push(stmt_model(st))
                            + rest);
                    },
                    Err(_) => {},
                }
            }
            body.push(st);
        }
        proof {
            assert(sp_program_rest(toks, self.pos()) == (
                Ok::<Seq<StmtModel>, ErrModel>(Seq::empty()),
                self.pos(),
            ));
            assert(stmts_model(body@) + Seq::<StmtModel>::empty() =~= stmts_model(body@));
        }
        Ok(Program { kind: NodeType::Program, body })
    }
}

/// Appends already-parsed statements in front of the result for the
/// rest of the stream.
pub open spec fn prog_concat(done: Seq<StmtModel>, rest: (Result<Seq<StmtModel>, ErrModel>, int)) -> (
    Result<Seq<StmtModel>, ErrModel>,
    int,
) {
    match rest.0 {
        Ok(ss) => (Ok(done + ss), rest.1),
        Err(e) => (Err(e), rest.1),
    }
}

proof fn lemma_stmts_model_push(ss: Seq<Stmt>, x: Stmt)
    ensures
        stmts_model(ss.push(x)) == stmts_model(ss).push(stmt_model(x)),
    decreases ss.len(),
{
    if ss.len() == 0 {
        assert(ss.push(x)[0] == x);
        assert(ss.push(x).subrange(1, 1) =~= Seq::<Stmt>::empty());
        assert(stmts_model(ss.push(x).subrange(1, 1)) =~= Seq::<StmtModel>::empty());
        assert(stmts_model(ss) =~= Seq::<StmtModel>::empty());
        assert(stmts_model(ss.push(x)) =~= stmts_model(ss).push(stmt_model(x)));
    } else {
        let tail = ss.subrange(1, ss.len() as int);
        lemma_stmts_model_push(tail, x);
        assert(ss.push(x).subrange(1, ss.push(x).len() as int) =~= tail.push(x));
        assert(ss.push(x)[0] == ss[0]);
        assert(stmts_model(ss.push(x)) == seq![stmt_model(ss[0])] + stmts_model(tail).push(
            stmt_model(x),
        ));
        assert(stmts_model(ss) == seq![stmt_model(ss[0])] + stmts_model(tail));
        assert(seq![stmt_model(ss[0])] + stmts_model(tail).push(stmt_model(x)) =~= (seq![
            stmt_model(ss[0]),
        ] + stmts_model(tail)).push(stmt_model(x)));
    }
}

/// Whether two token kinds are the same.
fn token_types_equal(a: TokenType, b: TokenType) -> (r: bool)
    ensures
        r == (a == b),
{
    a == b
}

} // verus!
