use vstd::prelude::*;

use crate::ast::{Expression, Parameter, Statement};
use crate::error::ErrorKind;
use crate::parser::{all_digits, digits_value, prio_of, rank, Prio};
use crate::token::TokenType;

verus! {

/// An expression node as a value.
pub enum ExprV {
    Call(usize, Seq<usize>),
    Infix(usize, TokenType, usize),
    Prefix(TokenType, usize),
    Assign(usize, usize),
    Int(i64),
    Str(Seq<char>),
    Ident(Seq<char>, Seq<char>),
}

/// A statement as a value.
pub enum StmtV {
    If(usize, Seq<StmtV>, Option<Seq<StmtV>>),
    Func(Seq<char>, Seq<(Seq<char>, Seq<char>)>, Option<Seq<char>>, Seq<StmtV>),
    Var(Seq<char>, Option<usize>, Seq<char>),
    Ret(usize),
    Expr(usize),
}

pub open spec fn expr_view(e: Expression) -> ExprV {
    match e {
        Expression::FunctionCall { left, parameters } => ExprV::Call(left, parameters@),
        Expression::InfixExpression { left, op, right } => ExprV::Infix(left, op, right),
        Expression::PrefixExpression { op, right } => ExprV::Prefix(op, right),
        Expression::AssignExpression { left, right } => ExprV::Assign(left, right),
        Expression::Integer(i) => ExprV::Int(i),
        Expression::String(s) => ExprV::Str(s@),
        Expression::Identifier { value, ident_type } => ExprV::Ident(value@, ident_type@),
    }
}

pub open spec fn store_view(p: Seq<Expression>) -> Seq<ExprV> {
    p.map_values(|e: Expression| expr_view(e))
}

pub open spec fn params_view(ps: Seq<Parameter>) -> Seq<(Seq<char>, Seq<char>)> {
    ps.map_values(|p: Parameter| (p.name@, p.param_type@))
}

pub open spec fn stmt_view(s: Statement) -> StmtV
    decreases s, 0nat,
{
    match s {
        Statement::IfElseStatement { condition, if_body, else_body } => StmtV::If(
            condition,
            body_view(if_body@, if_body@.len() as int),
            match else_body {
                Some(b) => Some(body_view(b@, b@.len() as int)),
                None => None,
            },
        ),
        Statement::FuncStatement { name, call_inputs, return_type, body } => StmtV::Func(
            name@,
            params_view(call_inputs@),
            match return_type {
                Some(t) => Some(t@),
                None => None,
            },
            body_view(body@, body@.len() as int),
        ),
        Statement::VarStatement { name, value, var_type } => StmtV::Var(name@, value, var_type@),
        Statement::ReturnStatement { value } => StmtV::Ret(value),
        Statement::ExpressionStatement(e) => StmtV::Expr(e),
    }
}

/// The views of statements `v[..k]`.
pub open spec fn body_view(v: Seq<Statement>, k: int) -> Seq<StmtV>
    decreases v, k,
{
    if k <= 0 || k > v.len() {
        Seq::empty()
    } else {
        body_view(v, k - 1).push(stmt_view(v[k - 1]))
    }
}

/// `body_view` of a prefix depends on that prefix only.
pub proof fn lemma_body_view_push(v: Seq<Statement>, s: Statement)
    ensures
        body_view(v.push(s), v.len() + 1int) == body_view(v, v.len() as int).push(stmt_view(s)),
{
    lemma_body_view_prefix(v, s, v.len() as int);
}

proof fn lemma_body_view_prefix(v: Seq<Statement>, s: Statement, k: int)
    requires
        0 <= k <= v.len(),
    ensures
        body_view(v.push(s), k) == body_view(v, k),
    decreases k,
{
    if k > 0 {
        lemma_body_view_prefix(v, s, k - 1);
        assert(v.push(s)[k - 1] == v[k - 1]);
    }
}

/// The kind of token `i`, `EOF` outside the tokens.
pub open spec fn kind(ts: Seq<(TokenType, Seq<char>)>, i: int) -> TokenType {
    if 0 <= i < ts.len() {
        ts[i].0
    } else {
        TokenType::EOF
    }
}

/// The text of token `i`.
pub open spec fn text(ts: Seq<(TokenType, Seq<char>)>, i: int) -> Seq<char> {
    if 0 <= i < ts.len() {
        ts[i].1
    } else {
        Seq::empty()
    }
}

/// The position after token `i`; the last token is never passed.
pub open spec fn adv(ts: Seq<(TokenType, Seq<char>)>, i: int) -> int {
    if i < ts.len() - 1 {
        i + 1
    } else {
        i
    }
}

/// What parsing an expression gives: the position after it, the store, and
/// the handle of its node.
pub type ExprResult = Result<(int, Seq<ExprV>, usize), ErrorKind>;

/// Parsing an expression at `pos` whose operators bind more strongly than
/// `p`.
pub open spec fn sp_expr(ts: Seq<(TokenType, Seq<char>)>, pos: int, st: Seq<ExprV>, p: Prio) -> ExprResult
    decreases ts.len() - pos, 3nat,
{
    if pos < 0 || pos >= ts.len() {
        Err(ErrorKind::Syntax)
    } else {
        let c = kind(ts, pos);
        let first: ExprResult = if c == TokenType::Plus || c == TokenType::Minus {
            sp_prefix(ts, pos, st)
        } else if c == TokenType::Integer || c == TokenType::String {
            sp_literal(ts, pos, st)
        } else if c == TokenType::Identifier {
            Ok((adv(ts, pos), st.push(ExprV::Ident(text(ts, pos), Seq::empty())), st.len() as usize))
        } else if c == TokenType::LParent {
            let q = adv(ts, pos);
            if q <= pos {
                Err(ErrorKind::Syntax)
            } else {
                match sp_expr(ts, q, st, Prio::Lowest) {
                    Err(x) => Err(x),
                    Ok((q2, st2, inner)) => if kind(ts, q2) == TokenType::RParent {
                        Ok((adv(ts, q2), st2, inner))
                    } else {
                        Err(ErrorKind::Syntax)
                    },
                }
            }
        } else {
            Err(ErrorKind::Syntax)
        };
        match first {
            Err(x) => Err(x),
            Ok((q, st1, left)) => if q <= pos || q >= ts.len() {
                Err(ErrorKind::Syntax)
            } else {
                sp_loop(ts, q, st1, p, left)
            },
        }
    }
}

/// Folding infix operators that bind more strongly than `p` into `left`,
/// from `pos` on.
pub open spec fn sp_loop(ts: Seq<(TokenType, Seq<char>)>, pos: int, st: Seq<ExprV>, p: Prio, left: usize) -> ExprResult
    decreases ts.len() - pos, 5nat,
{
    if pos < 0 || pos >= ts.len() {
        Err(ErrorKind::Syntax)
    } else if rank(p) < rank(prio_of(kind(ts, pos))) {
        match sp_infix(ts, pos, st, left) {
            Err(x) => Err(x),
            Ok((q, st1, l1)) => if q <= pos || q >= ts.len() {
                Err(ErrorKind::Syntax)
            } else {
                sp_loop(ts, q, st1, p, l1)
            },
        }
    } else {
        Ok((pos, st, left))
    }
}

/// Folding the infix operator at `pos` into `left`.
pub open spec fn sp_infix(ts: Seq<(TokenType, Seq<char>)>, pos: int, st: Seq<ExprV>, left: usize) -> ExprResult
    decreases ts.len() - pos, 4nat,
{
    if pos < 0 || pos >= ts.len() {
        Err(ErrorKind::Syntax)
    } else {
        let op = kind(ts, pos);
        if op == TokenType::LParent {
            match sp_list(ts, pos, st) {
                Err(x) => Err(x),
                Ok((q, st1, args)) => Ok((q, st1.push(ExprV::Call(left, args)), st1.len() as usize)),
            }
        } else {
            let q = adv(ts, pos);
            if q <= pos {
                Err(ErrorKind::Syntax)
            } else {
                match sp_expr(ts, q, st, prio_of(op)) {
                    Err(x) => Err(x),
                    Ok((q2, st2, right)) => Ok(
                        (
                            q2,
                            st2.push(
                                if op == TokenType::Assign {
                                    ExprV::Assign(left, right)
                                } else {
                                    ExprV::Infix(left, op, right)
                                },
                            ),
                            st2.len() as usize,
                        ),
                    ),
                }
            }
        }
    }
}

/// Parsing an argument list whose `(` is at `pos`.
pub open spec fn sp_list(ts: Seq<(TokenType, Seq<char>)>, pos: int, st: Seq<ExprV>) -> Result<
    (int, Seq<ExprV>, Seq<usize>),
    ErrorKind,
>
    decreases ts.len() - pos, 3nat,
{
    let q = adv(ts, pos);
    if pos < 0 || q <= pos {
        Err(ErrorKind::Syntax)
    } else {
        sp_args(ts, q, st, Seq::empty())
    }
}

/// Parsing arguments from `pos` through the closing `)`, after those in `acc`.
pub open spec fn sp_args(ts: Seq<(TokenType, Seq<char>)>, pos: int, st: Seq<ExprV>, acc: Seq<usize>) -> Result<
    (int, Seq<ExprV>, Seq<usize>),
    ErrorKind,
>
    decreases ts.len() - pos, 4nat,
{
    if pos < 0 || pos >= ts.len() {
        Err(ErrorKind::Syntax)
    } else if kind(ts, pos) == TokenType::RParent {
        Ok((adv(ts, pos), st, acc))
    } else {
        match sp_expr(ts, pos, st, Prio::Lowest) {
            Err(x) => Err(x),
            Ok((q, st1, e)) => {
                let c = kind(ts, q);
                if c == TokenType::Comma {
                    let q2 = adv(ts, q);
                    if q2 <= pos || q2 >= ts.len() {
                        Err(ErrorKind::Syntax)
                    } else {
                        sp_args(ts, q2, st1, acc.push(e))
                    }
                } else if c != TokenType::RParent {
                    Err(ErrorKind::Syntax)
                } else if q <= pos || q >= ts.len() {
                    Err(ErrorKind::Syntax)
                } else {
                    sp_args(ts, q, st1, acc.push(e))
                }
            },
        }
    }
}

/// Parsing an expression after the prefix `+` or `-` at `pos`.
pub open spec fn sp_prefix(ts: Seq<(TokenType, Seq<char>)>, pos: int, st: Seq<ExprV>) -> ExprResult
    decreases ts.len() - pos, 2nat,
{
    let c = kind(ts, pos);
    let q = adv(ts, pos);
    if pos < 0 || q <= pos {
        Err(ErrorKind::Syntax)
    } else {
        match sp_expr(ts, q, st, Prio::Prefix) {
            Err(x) => Err(x),
            Ok((q2, st2, operand)) => if c == TokenType::Plus {
                Ok((q2, st2, operand))
            } else {
                Ok((q2, st2.push(ExprV::Prefix(TokenType::Minus, operand)), st2.len() as usize))
            },
        }
    }
}

/// The node for the integer or string literal at `pos`.
pub open spec fn sp_literal(ts: Seq<(TokenType, Seq<char>)>, pos: int, st: Seq<ExprV>) -> ExprResult {
    let t = text(ts, pos);
    if kind(ts, pos) == TokenType::String {
        Ok((adv(ts, pos), st.push(ExprV::Str(t)), st.len() as usize))
    } else if all_digits(t) && digits_value(t) <= i64::MAX {
        Ok((adv(ts, pos), st.push(ExprV::Int(digits_value(t) as i64)), st.len() as usize))
    } else {
        Err(ErrorKind::InvalidInteger)
    }
}

/// What parsing a statement gives: the position after it, the store, and
/// the statement.
pub type StmtResult = Result<(int, Seq<ExprV>, StmtV), ErrorKind>;

/// What parsing a sequence of statements gives.
pub type BodyResult = Result<(int, Seq<ExprV>, Seq<StmtV>), ErrorKind>;

/// Parsing typed parameters from `pos` through the closing `)`, after those
/// in `acc`.
pub open spec fn sp_params(ts: Seq<(TokenType, Seq<char>)>, pos: int, acc: Seq<(Seq<char>, Seq<char>)>) -> Result<
    (int, Seq<(Seq<char>, Seq<char>)>),
    ErrorKind,
>
    decreases ts.len() - pos,
{
    if pos < 0 || pos >= ts.len() {
        Err(ErrorKind::Syntax)
    } else if kind(ts, pos) == TokenType::RParent {
        Ok((adv(ts, pos), acc))
    } else if kind(ts, pos) != TokenType::Identifier {
        Err(ErrorKind::Syntax)
    } else {
        let name = text(ts, pos);
        let q1 = adv(ts, pos);
        if kind(ts, q1) != TokenType::Colon {
            Err(ErrorKind::Syntax)
        } else {
            let q2 = adv(ts, q1);
            if kind(ts, q2) != TokenType::Identifier {
                Err(ErrorKind::Syntax)
            } else {
                let ty = text(ts, q2);
                let q3 = adv(ts, q2);
                let c = kind(ts, q3);
                if c == TokenType::Comma {
                    let q4 = adv(ts, q3);
                    if q4 <= pos || q4 >= ts.len() {
                        Err(ErrorKind::Syntax)
                    } else {
                        sp_params(ts, q4, acc.push((name, ty)))
                    }
                } else if c != TokenType::RParent {
                    Err(ErrorKind::Syntax)
                } else if q3 <= pos || q3 >= ts.len() {
                    Err(ErrorKind::Syntax)
                } else {
                    sp_params(ts, q3, acc.push((name, ty)))
                }
            }
        }
    }
}

/// Parsing a parameter list whose `(` is at `pos`.
pub open spec fn sp_param_list(ts: Seq<(TokenType, Seq<char>)>, pos: int) -> Result<
    (int, Seq<(Seq<char>, Seq<char>)>),
    ErrorKind,
> {
    if kind(ts, pos) != TokenType::LParent {
        Err(ErrorKind::Syntax)
    } else {
        sp_params(ts, adv(ts, pos), Seq::empty())
    }
}

/// Parsing a block whose `{` is at `pos`, through its `}`.
pub open spec fn sp_block(ts: Seq<(TokenType, Seq<char>)>, pos: int, st: Seq<ExprV>) -> BodyResult
    decreases ts.len() - pos, 0nat,
{
    let q = adv(ts, pos);
    if pos < 0 || kind(ts, pos) != TokenType::LBrace {
        Err(ErrorKind::Syntax)
    } else if q <= pos || q >= ts.len() {
        Err(ErrorKind::Syntax)
    } else {
        sp_block_items(ts, q, st, Seq::empty())
    }
}

/// Parsing the statements of a block from `pos` through its `}`, after
/// those in `acc`.
pub open spec fn sp_block_items(ts: Seq<(TokenType, Seq<char>)>, pos: int, st: Seq<ExprV>, acc: Seq<StmtV>) -> BodyResult
    decreases ts.len() - pos, 2nat,
{
    if pos < 0 || pos >= ts.len() {
        Err(ErrorKind::Syntax)
    } else if kind(ts, pos) == TokenType::RBrace {
        Ok((adv(ts, pos), st, acc))
    } else {
        match sp_stmt(ts, pos, st) {
            Err(x) => Err(x),
            Ok((q, st1, s)) => if q <= pos || q >= ts.len() {
                Err(ErrorKind::Syntax)
            } else {
                sp_block_items(ts, q, st1, acc.push(s))
            },
        }
    }
}

/// Parsing one statement at `pos`.
pub open spec fn sp_stmt(ts: Seq<(TokenType, Seq<char>)>, pos: int, st: Seq<ExprV>) -> StmtResult
    decreases ts.len() - pos, 1nat,
{
    if pos < 0 || pos >= ts.len() {
        Err(ErrorKind::Syntax)
    } else {
        let c = kind(ts, pos);
        if c == TokenType::Var {
            let q = adv(ts, pos);
            let name = text(ts, q);
            let q1 = adv(ts, q);
            let q2 = adv(ts, q1);
            let ty = text(ts, q2);
            let q3 = adv(ts, q2);
            if kind(ts, q) != TokenType::Identifier || kind(ts, q1) != TokenType::Colon || kind(ts, q2)
                != TokenType::Identifier {
                Err(ErrorKind::Syntax)
            } else if kind(ts, q3) == TokenType::Semicolon {
                Ok((adv(ts, q3), st, StmtV::Var(name, None, ty)))
            } else if kind(ts, q3) != TokenType::Assign {
                Err(ErrorKind::Syntax)
            } else {
                match sp_expr(ts, adv(ts, q3), st, Prio::Lowest) {
                    Err(x) => Err(x),
                    Ok((q5, st1, v)) => if kind(ts, q5) != TokenType::Semicolon {
                        Err(ErrorKind::Syntax)
                    } else {
                        Ok((adv(ts, q5), st1, StmtV::Var(name, Some(v), ty)))
                    },
                }
            }
        } else if c == TokenType::If {
            match sp_expr(ts, adv(ts, pos), st, Prio::Lowest) {
                Err(x) => Err(x),
                Ok((q1, st1, cond)) => if q1 <= pos || q1 >= ts.len() {
                    Err(ErrorKind::Syntax)
                } else {
                    match sp_block(ts, q1, st1) {
                        Err(x) => Err(x),
                        Ok((q2, st2, then_)) => if kind(ts, q2) != TokenType::Else {
                            Ok((q2, st2, StmtV::If(cond, then_, None)))
                        } else {
                            let q3 = adv(ts, q2);
                            if q3 <= pos || q3 >= ts.len() {
                                Err(ErrorKind::Syntax)
                            } else {
                                match sp_block(ts, q3, st2) {
                                    Err(x) => Err(x),
                                    Ok((q4, st3, else_)) => Ok(
                                        (q4, st3, StmtV::If(cond, then_, Some(else_))),
                                    ),
                                }
                            }
                        },
                    }
                },
            }
        } else if c == TokenType::Return {
            match sp_expr(ts, adv(ts, pos), st, Prio::Lowest) {
                Err(x) => Err(x),
                Ok((q1, st1, v)) => if kind(ts, q1) != TokenType::Semicolon {
                    Err(ErrorKind::Syntax)
                } else {
                    Ok((adv(ts, q1), st1, StmtV::Ret(v)))
                },
            }
        } else if c == TokenType::Func {
            let q = adv(ts, pos);
            let name = text(ts, q);
            if kind(ts, q) != TokenType::Identifier {
                Err(ErrorKind::Syntax)
            } else {
                match sp_param_list(ts, adv(ts, q)) {
                    Err(x) => Err(x),
                    Ok((q2, params)) => if kind(ts, q2) == TokenType::Colon {
                        let q3 = adv(ts, q2);
                        let q4 = adv(ts, q3);
                        if kind(ts, q3) != TokenType::Identifier {
                            Err(ErrorKind::Syntax)
                        } else if q4 <= pos || q4 >= ts.len() {
                            Err(ErrorKind::Syntax)
                        } else {
                            match sp_block(ts, q4, st) {
                                Err(x) => Err(x),
                                Ok((q5, st1, body)) => Ok(
                                    (q5, st1, StmtV::Func(name, params, Some(text(ts, q3)), body)),
                                ),
                            }
                        }
                    } else if q2 <= pos || q2 >= ts.len() {
                        Err(ErrorKind::Syntax)
                    } else {
                        match sp_block(ts, q2, st) {
                            Err(x) => Err(x),
                            Ok((q5, st1, body)) => Ok((q5, st1, StmtV::Func(name, params, None, body))),
                        }
                    },
                }
            }
        } else {
            match sp_expr(ts, pos, st, Prio::Lowest) {
                Err(x) => Err(x),
                Ok((q1, st1, e)) => if kind(ts, q1) != TokenType::Semicolon {
                    Err(ErrorKind::Syntax)
                } else {
                    Ok((adv(ts, q1), st1, StmtV::Expr(e)))
                },
            }
        }
    }
}

/// Parsing statements from `pos` up to `EOF`, after those in `acc`.
pub open spec fn sp_program(ts: Seq<(TokenType, Seq<char>)>, pos: int, st: Seq<ExprV>, acc: Seq<StmtV>) -> BodyResult
    decreases ts.len() - pos,
{
    if pos < 0 || pos >= ts.len() {
        Err(ErrorKind::Syntax)
    } else if kind(ts, pos) == TokenType::EOF {
        Ok((pos, st, acc))
    } else {
        match sp_stmt(ts, pos, st) {
            Err(x) => Err(x),
            Ok((q, st1, s)) => if q <= pos || q >= ts.len() {
                Err(ErrorKind::Syntax)
            } else {
                sp_program(ts, q, st1, acc.push(s))
            },
        }
    }
}

} // verus!
