use vstd::prelude::*;

use crate::token::TokenType;

verus! {

/// A handle of one expression node in the store that one parse built.
pub type ExpRef = usize;

/// The store of expression nodes: a node's handle is its index.
pub type Program = Vec<Expression>;

/// A typed parameter of a function declaration.
pub struct Parameter {
    pub name: String,
    pub param_type: String,
}

pub enum Statement {
    IfElseStatement {
        condition: ExpRef,
        if_body: Vec<Statement>,
        else_body: Option<Vec<Statement>>,
    },
    FuncStatement {
        name: String,
        call_inputs: Vec<Parameter>,
        return_type: Option<String>,
        body: Vec<Statement>,
    },
    VarStatement { name: String, value: Option<ExpRef>, var_type: String },
    ReturnStatement { value: ExpRef },
    ExpressionStatement(ExpRef),
}

pub enum Expression {
    FunctionCall { left: ExpRef, parameters: Vec<ExpRef> },
    InfixExpression { left: ExpRef, op: TokenType, right: ExpRef },
    PrefixExpression { op: TokenType, right: ExpRef },
    AssignExpression { left: ExpRef, right: ExpRef },
    Integer(i64),
    String(String),
    Identifier { value: String, ident_type: String },
}

/// Every handle that `e` holds is below `k`.
pub open spec fn refs_below(e: Expression, k: int) -> bool {
    match e {
        Expression::FunctionCall { left, parameters } => left < k && forall|j: int|
            0 <= j < parameters@.len() ==> #[trigger] parameters@[j] < k,
        Expression::InfixExpression { left, right, .. } => left < k && right < k,
        Expression::PrefixExpression { right, .. } => right < k,
        Expression::AssignExpression { left, right } => left < k && right < k,
        _ => true,
    }
}

/// A well-formed store: each node refers only to nodes made before it, so
/// the nodes form a forest and every handle in it is valid.
pub open spec fn store_wf(p: Seq<Expression>) -> bool {
    forall|i: int| 0 <= i < p.len() ==> refs_below(#[trigger] p[i], i)
}

/// Every handle that statement `s` holds, at any depth, is below `n`.
pub open spec fn stmt_refs_below(s: Statement, n: int) -> bool
    decreases s,
{
    match s {
        Statement::IfElseStatement { condition, if_body, else_body } => {
            &&& condition < n
            &&& body_refs_below(if_body@, n, 0)
            &&& match else_body {
                Some(b) => body_refs_below(b@, n, 0),
                None => true,
            }
        },
        Statement::FuncStatement { body, .. } => body_refs_below(body@, n, 0),
        Statement::VarStatement { value, .. } => match value {
            Some(v) => v < n,
            None => true,
        },
        Statement::ReturnStatement { value } => value < n,
        Statement::ExpressionStatement(e) => e < n,
    }
}

/// Every handle that the statements of `v` from index `i` on hold is below `n`.
pub open spec fn body_refs_below(v: Seq<Statement>, n: int, i: int) -> bool
    decreases v, v.len() - i,
{
    if 0 <= i < v.len() {
        stmt_refs_below(v[i], n) && body_refs_below(v, n, i + 1)
    } else {
        true
    }
}

pub proof fn lemma_stmt_refs_mono(s: Statement, n: int, m: int)
    requires
        stmt_refs_below(s, n),
        n <= m,
    ensures
        stmt_refs_below(s, m),
    decreases s,
{
    match s {
        Statement::IfElseStatement { if_body, else_body, .. } => {
            lemma_body_refs_mono(if_body@, n, m, 0);
            match else_body {
                Some(b) => lemma_body_refs_mono(b@, n, m, 0),
                None => {},
            }
        },
        Statement::FuncStatement { body, .. } => lemma_body_refs_mono(body@, n, m, 0),
        _ => {},
    }
}

pub proof fn lemma_body_refs_mono(v: Seq<Statement>, n: int, m: int, i: int)
    requires
        body_refs_below(v, n, i),
        n <= m,
    ensures
        body_refs_below(v, m, i),
    decreases v, v.len() - i,
{
    if 0 <= i < v.len() {
        lemma_stmt_refs_mono(v[i], n, m);
        lemma_body_refs_mono(v, n, m, i + 1);
    }
}

/// `body_refs_below` from `i` on holds exactly when it holds of each statement.
pub proof fn lemma_body_refs_all(v: Seq<Statement>, n: int, i: int)
    requires
        0 <= i <= v.len(),
    ensures
        body_refs_below(v, n, i) <==> forall|j: int|
            i <= j < v.len() ==> stmt_refs_below(#[trigger] v[j], n),
    decreases v.len() - i,
{
    if i < v.len() {
        lemma_body_refs_all(v, n, i + 1);
    }
}

} // verus!
