use vstd::prelude::*;

use crate::ast::{Expression, Parameter, Statement};
use crate::codegen::{
    local_slot,
    GenState, branch_label, compile_fails, compiled_from, compiles_to, emit, enter_block, epilogue, find_fn, gen_args, gen_body, gen_expr, gen_infix, gen_params, gen_stmt, initial_state, ins1, ins2, leave_scope, listing, max_u64, param_slot, param_source, parsed, prologue, rax, with_builtins,
};
use crate::compiler::{reg_name, OpCodeTypes, Registers};
use crate::error::ErrorKind;
use crate::grammar::{body_view, expr_view, params_view, stmt_view, store_view, StmtV};
use crate::symbols::{declare, enter, top_offset, ScopeView};
use crate::text::decimal;
use crate::token::TokenType;

verus! {

/// Compiling a source text cannot both succeed and fail: two compiles of
/// the same text end alike.
pub proof fn lemma_compile_outcome_fixed(src: Seq<char>, t: Seq<char>)
    requires
        compiled_from(src, t),
    ensures
        !compile_fails(src),
{
    let (s1, st1) = choose|stmts: Seq<Statement>, store: Seq<Expression>|
        #[trigger] compiles_to(stmts, store, t) && parsed(src) is Ok && body_view(stmts, stmts.len() as int)
            == parsed(src)->Ok_0.2 && store_view(store) == parsed(src)->Ok_0.1;
    assert(gen_body(st1, with_builtins(initial_state()), s1, 0) is Ok);
}

pub(crate) proof fn lemma_body_view_index(v: Seq<Statement>, k: int)
    requires
        0 <= k <= v.len(),
    ensures
        body_view(v, k).len() == k,
        forall|j: int| 0 <= j < k ==> #[trigger] body_view(v, k)[j] == stmt_view(v[j]),
    decreases k,
{
    if k > 0 {
        lemma_body_view_index(v, k - 1);
    }
}

proof fn lemma_gen_expr_cong(a: Seq<Expression>, b: Seq<Expression>, g: GenState, e: int)
    requires
        store_view(a) == store_view(b),
    ensures
        gen_expr(a, g, e) == gen_expr(b, g, e),
    decreases e + 1, 0nat,
{
    assert(a.len() == store_view(a).len());
    assert(b.len() == store_view(b).len());
    if 0 <= e < a.len() {
        assert(store_view(a)[e] == expr_view(a[e]));
        assert(store_view(b)[e] == expr_view(b[e]));
        match a[e] {
            Expression::InfixExpression { left, op, right } => {
                if left < e && right < e {
                    lemma_gen_infix_cong(a, b, g, left as int, right as int, op);
                }
            },
            Expression::PrefixExpression { op, right } => {
                if right < e {
                    lemma_gen_expr_cong(a, b, emit(g, seq![ins1(OpCodeTypes::Push, "0"@)]), right as int);
                }
            },
            Expression::AssignExpression { left, right } => {
                if left < e && right < e {
                    lemma_gen_expr_cong(a, b, g, right as int);
                    assert(store_view(a)[left as int] == expr_view(a[left as int]));
                    assert(store_view(b)[left as int] == expr_view(b[left as int]));
                }
            },
            Expression::FunctionCall { left, parameters } => {
                if left < e {
                    assert(store_view(a)[left as int] == expr_view(a[left as int]));
                    assert(store_view(b)[left as int] == expr_view(b[left as int]));
                    lemma_gen_args_cong(a, b, g, parameters@, e, parameters@.len() as int);
                }
            },
            _ => {},
        }
    }
}

proof fn lemma_gen_infix_cong(
    a: Seq<Expression>,
    b: Seq<Expression>,
    g: GenState,
    left: int,
    right: int,
    op: TokenType,
)
    requires
        store_view(a) == store_view(b),
    ensures
        gen_infix(a, g, left, right, op) == gen_infix(b, g, left, right, op),
    decreases (if left > right {
        left
    } else {
        right
    }) + 1, 1nat,
{
    if left >= 0 && right >= 0 {
        lemma_gen_expr_cong(a, b, g, left);
        match gen_expr(a, g, left) {
            Ok(g1) => lemma_gen_expr_cong(a, b, g1, right),
            Err(_) => {},
        }
    }
}

proof fn lemma_gen_args_cong(
    a: Seq<Expression>,
    b: Seq<Expression>,
    g: GenState,
    args: Seq<usize>,
    e: int,
    k: int,
)
    requires
        store_view(a) == store_view(b),
    ensures
        gen_args(a, g, args, e, k) == gen_args(b, g, args, e, k),
    decreases e, k,
{
    if 0 < k <= args.len() && args[k - 1] < e {
        lemma_gen_expr_cong(a, b, g, args[k - 1] as int);
        match gen_expr(a, g, args[k - 1] as int) {
            Ok(g1) => lemma_gen_args_cong(a, b, g1, args, e, k - 1),
            Err(_) => {},
        }
    }
}

proof fn lemma_gen_params_cong(g: GenState, ps1: Seq<Parameter>, ps2: Seq<Parameter>, i: int, off: u64)
    requires
        params_view(ps1) == params_view(ps2),
    ensures
        gen_params(g, ps1, i, off) == gen_params(g, ps2, i, off),
    decreases ps1.len() - i,
{
    assert(ps1.len() == params_view(ps1).len());
    assert(ps2.len() == params_view(ps2).len());
    if 0 <= i < ps1.len() && off <= u64::MAX - 8 {
        assert(params_view(ps1)[i] == (ps1[i].name@, ps1[i].param_type@));
        assert(params_view(ps2)[i] == (ps2[i].name@, ps2[i].param_type@));
        let o = (off + 8) as u64;
        let g1 = GenState {
            scopes: declare(g.scopes, ps1[i].name@, ps1[i].param_type@, o),
            frame: max_u64(g.frame, o),
            ..emit(
                g,
                seq![
                    ins2(OpCodeTypes::Mov, rax(), param_source(o)),
                    ins2(OpCodeTypes::Mov, param_slot(o), rax()),
                ],
            )
        };
        lemma_gen_params_cong(g1, ps1, ps2, i + 1, o);
    }
}

proof fn lemma_gen_stmt_cong(a: Seq<Expression>, b: Seq<Expression>, g: GenState, s1: Statement, s2: Statement)
    requires
        store_view(a) == store_view(b),
        stmt_view(s1) == stmt_view(s2),
    ensures
        gen_stmt(a, g, s1) == gen_stmt(b, g, s2),
    decreases s1, 1nat,
{
    match s1 {
        Statement::ExpressionStatement(e) => {
            match s2 {
                Statement::ExpressionStatement(e2) => {
                    assert(e == e2);
                    lemma_gen_expr_cong(a, b, g, e as int);
                    assert(gen_stmt(a, g, s1) == gen_expr(a, g, e as int));
                    assert(gen_stmt(b, g, s2) == gen_expr(b, g, e as int));
                },
                _ => {
                    assert(stmt_view(s1) == StmtV::Expr(e));
                    assert(stmt_view(s2) != StmtV::Expr(e));
                },
            }
        },
        Statement::ReturnStatement { value } => {
            match s2 {
                Statement::ReturnStatement { value: v2 } => {
                    assert(value == v2);
                    lemma_gen_expr_cong(a, b, g, value as int);
                },
                _ => {},
            }
        },
        Statement::VarStatement { name, value, var_type } => {
            match s2 {
                Statement::VarStatement { name: n2, value: v2, var_type: t2 } => {
                    assert(name@ == n2@ && value == v2 && var_type@ == t2@);
                    if top_offset(g.scopes) <= u64::MAX - 8 {
                        let off = (top_offset(g.scopes) + 8) as u64;
                        let g1 = GenState {
                            scopes: declare(g.scopes, name@, var_type@, off),
                            frame: max_u64(g.frame, off),
                            ..g
                        };
                        match value {
                            Some(v) => lemma_gen_expr_cong(a, b, g1, v as int),
                            None => {},
                        }
                    }
                },
                _ => {},
            }
        },
        Statement::IfElseStatement { .. } => lemma_gen_if_cong(a, b, g, s1, s2),
        Statement::FuncStatement { .. } => lemma_gen_func_cong(a, b, g, s1, s2),
    }
}

proof fn lemma_gen_if_cong(a: Seq<Expression>, b: Seq<Expression>, g: GenState, s1: Statement, s2: Statement)
    requires
        store_view(a) == store_view(b),
        stmt_view(s1) == stmt_view(s2),
        s1 is IfElseStatement,
    ensures
        gen_stmt(a, g, s1) == gen_stmt(b, g, s2),
    decreases s1, 0nat,
{
    match s1 {
        Statement::IfElseStatement { condition, if_body, else_body } => {
            match s2 {
                Statement::IfElseStatement { condition: c2, if_body: ib2, else_body: eb2 } => {
                    assert(condition == c2);
                    assert(else_body is Some <==> eb2 is Some);
                    lemma_gen_expr_cong(a, b, g, condition as int);
                    lemma_body_view_index(if_body@, if_body@.len() as int);
                    lemma_body_view_index(ib2@, ib2@.len() as int);
                    assert forall|j: int| 0 <= j < if_body@.len() implies stmt_view(#[trigger] if_body@[j]) == stmt_view(ib2@[j]) by {
                        assert(body_view(if_body@, if_body@.len() as int)[j] == body_view(ib2@, ib2@.len() as int)[j]);
                    }
                    assert forall|g2: GenState| #[trigger] gen_body(a, g2, if_body@, 0) == gen_body(b, g2, ib2@, 0) by {
                        lemma_gen_body_cong(a, b, g2, if_body@, ib2@, 0);
                    }
                    match gen_expr(a, g, condition as int) {
                        Ok(g1) => {
                            if g1.labels != u64::MAX {
                                let la = g1.labels;
                                let g2 = enter_block(
                                    GenState {
                                        labels: (la + 1) as u64,
                                        ..emit(
                                            g1,
                                            seq![
                                                ins1(OpCodeTypes::Pop, rax()),
                                                ins2(OpCodeTypes::Cmp, rax(), "0"@),
                                                ins1(OpCodeTypes::Je, branch_label(la)),
                                            ],
                                        )
                                    },
                                );
                                assert(gen_body(a, g2, if_body@, 0) == gen_body(b, g2, ib2@, 0));
                            }
                        },
                        Err(_) => {},
                    }
                    match (else_body, eb2) {
                        (Some(e1), Some(e2)) => {
                            lemma_body_view_index(e1@, e1@.len() as int);
                            lemma_body_view_index(e2@, e2@.len() as int);
                    assert forall|j: int| 0 <= j < e1@.len() implies stmt_view(#[trigger] e1@[j]) == stmt_view(e2@[j]) by {
                        assert(body_view(e1@, e1@.len() as int)[j] == body_view(e2@, e2@.len() as int)[j]);
                    }
                            assert forall|g2: GenState| #[trigger] gen_body(a, g2, e1@, 0) == gen_body(b, g2, e2@, 0) by {
                                lemma_gen_body_cong(a, b, g2, e1@, e2@, 0);
                            }
                        },
                        _ => {},
                    }
                    assert(gen_stmt(a, g, s1) == match gen_expr(a, g, condition as int) {
                        Err(x) => Err(x),
                        Ok(g1) => if g1.labels == u64::MAX {
                            Err(ErrorKind::LimitExceeded)
                        } else {
                            let la = g1.labels;
                            let g2 = enter_block(
                                GenState {
                                    labels: (la + 1) as u64,
                                    ..emit(
                                        g1,
                                        seq![
                                            ins1(OpCodeTypes::Pop, rax()),
                                            ins2(OpCodeTypes::Cmp, rax(), "0"@),
                                            ins1(OpCodeTypes::Je, branch_label(la)),
                                        ],
                                    )
                                },
                            );
                            match gen_body(a, g2, if_body@, 0) {
                                Err(x) => Err(x),
                                Ok(g3) => match leave_scope(g3) {
                                    Err(x) => Err(x),
                                    Ok(g4) => if g4.labels == u64::MAX {
                                        Err(ErrorKind::LimitExceeded)
                                    } else {
                                        let lb = g4.labels;
                                        let g5 = GenState {
                                            labels: (lb + 1) as u64,
                                            ..emit(
                                                g4,
                                                seq![
                                                    ins1(OpCodeTypes::Jmp, branch_label(lb)),
                                                    ins1(OpCodeTypes::Label, branch_label(la)),
                                                ],
                                            )
                                        };
                                        match else_body {
                                            None => Ok(emit(g5, seq![ins1(OpCodeTypes::Label, branch_label(lb))])),
                                            Some(e) => match gen_body(a, enter_block(g5), e@, 0) {
                                                Err(x) => Err(x),
                                                Ok(g6) => match leave_scope(g6) {
                                                    Err(x) => Err(x),
                                                    Ok(g7) => Ok(
                                                        emit(g7, seq![ins1(OpCodeTypes::Label, branch_label(lb))]),
                                                    ),
                                                },
                                            },
                                        }
                                    },
                                },
                            }
                        },
                    });
                    assert(gen_stmt(b, g, s2) == match gen_expr(b, g, c2 as int) {
                        Err(x) => Err(x),
                        Ok(g1) => if g1.labels == u64::MAX {
                            Err(ErrorKind::LimitExceeded)
                        } else {
                            let la = g1.labels;
                            let g2 = enter_block(
                                GenState {
                                    labels: (la + 1) as u64,
                                    ..emit(
                                        g1,
                                        seq![
                                            ins1(OpCodeTypes::Pop, rax()),
                                            ins2(OpCodeTypes::Cmp, rax(), "0"@),
                                            ins1(OpCodeTypes::Je, branch_label(la)),
                                        ],
                                    )
                                },
                            );
                            match gen_body(b, g2, ib2@, 0) {
                                Err(x) => Err(x),
                                Ok(g3) => match leave_scope(g3) {
                                    Err(x) => Err(x),
                                    Ok(g4) => if g4.labels == u64::MAX {
                                        Err(ErrorKind::LimitExceeded)
                                    } else {
                                        let lb = g4.labels;
                                        let g5 = GenState {
                                            labels: (lb + 1) as u64,
                                            ..emit(
                                                g4,
                                                seq![
                                                    ins1(OpCodeTypes::Jmp, branch_label(lb)),
                                                    ins1(OpCodeTypes::Label, branch_label(la)),
                                                ],
                                            )
                                        };
                                        match eb2 {
                                            None => Ok(emit(g5, seq![ins1(OpCodeTypes::Label, branch_label(lb))])),
                                            Some(e) => match gen_body(b, enter_block(g5), e@, 0) {
                                                Err(x) => Err(x),
                                                Ok(g6) => match leave_scope(g6) {
                                                    Err(x) => Err(x),
                                                    Ok(g7) => Ok(
                                                        emit(g7, seq![ins1(OpCodeTypes::Label, branch_label(lb))]),
                                                    ),
                                                },
                                            },
                                        }
                                    },
                                },
                            }
                        },
                    });
                },
                _ => {},
            }
        },
        _ => {},
    }
}

proof fn lemma_gen_func_cong(a: Seq<Expression>, b: Seq<Expression>, g: GenState, s1: Statement, s2: Statement)
    requires
        store_view(a) == store_view(b),
        stmt_view(s1) == stmt_view(s2),
        s1 is FuncStatement,
    ensures
        gen_stmt(a, g, s1) == gen_stmt(b, g, s2),
    decreases s1, 0nat,
{
    match s1 {
        Statement::FuncStatement { name, call_inputs, return_type, body } => {
            match s2 {
                Statement::FuncStatement { name: n2, call_inputs: c2, return_type: r2, body: b2 } => {
                    assert(name@ == n2@);
                    assert(params_view(call_inputs@) == params_view(c2@));
                    assert(call_inputs@.len() == params_view(call_inputs@).len());
                    assert(c2@.len() == params_view(c2@).len());
                    lemma_body_view_index(body@, body@.len() as int);
                    lemma_body_view_index(b2@, b2@.len() as int);
                    assert forall|j: int| 0 <= j < body@.len() implies stmt_view(#[trigger] body@[j]) == stmt_view(b2@[j]) by {
                        assert(body_view(body@, body@.len() as int)[j] == body_view(b2@, b2@.len() as int)[j]);
                    }
                    assert forall|g2: GenState, off: u64| #[trigger] gen_params(g2, call_inputs@, 0, off) == gen_params(g2, c2@, 0, off) by {
                        lemma_gen_params_cong(g2, call_inputs@, c2@, 0, off);
                    }
                    assert forall|g2: GenState| #[trigger] gen_body(a, g2, body@, 0) == gen_body(b, g2, b2@, 0) by {
                        lemma_gen_body_cong(a, b, g2, body@, b2@, 0);
                    }
                    let g1 = GenState { funcs: g.funcs.push((name@, call_inputs@.len())), ..g };
                    let g2 = emit(g1, prologue(name@));
                    let g3 = GenState { scopes: enter(g2.scopes, 0), frame: 0, ..g2 };
                    assert(gen_params(g3, call_inputs@, 0, 8) == gen_params(g3, c2@, 0, 8));
                    assert(gen_stmt(a, g, s1) == match gen_params(g3, call_inputs@, 0, 8) {
                        Err(x) => Err(x),
                        Ok(g4) => match gen_body(a, g4, body@, 0) {
                            Err(x) => Err(x),
                            Ok(g5) => match leave_scope(
                                GenState {
                                    code: g5.code.update(
                                        g2.code.len() - 1,
                                        ins2(
                                            OpCodeTypes::Sub,
                                            reg_name(Registers::RSP),
                                            decimal(max_u64(g5.frame, 16) as nat),
                                        ),
                                    ),
                                    frame: g.frame,
                                    ..g5
                                },
                            ) {
                                Err(x) => Err(x),
                                Ok(g6) => Ok(emit(g6, epilogue(name@))),
                            },
                        },
                    });
                },
                _ => {},
            }
        },
        _ => {},
    }
}

pub(crate) proof fn lemma_gen_body_cong(a: Seq<Expression>, b: Seq<Expression>, g: GenState, v1: Seq<Statement>, v2: Seq<Statement>, i: int)
    requires
        store_view(a) == store_view(b),
        v1.len() == v2.len(),
        forall|j: int| 0 <= j < v1.len() ==> stmt_view(#[trigger] v1[j]) == stmt_view(v2[j]),
    ensures
        gen_body(a, g, v1, i) == gen_body(b, g, v2, i),
    decreases v1, v1.len() - i,
{
    if 0 <= i < v1.len() {
        lemma_gen_stmt_cong(a, b, g, v1[i], v2[i]);
        match gen_stmt(a, g, v1[i]) {
            Ok(g1) => lemma_gen_body_cong(a, b, g1, v1, v2, i + 1),
            Err(_) => {},
        }
    }
}

/// Compiling the same source text twice gives the same listing: the
/// listing depends on the text alone.
pub proof fn lemma_compile_idempotent(src: Seq<char>, t1: Seq<char>, t2: Seq<char>)
    requires
        compiled_from(src, t1),
        compiled_from(src, t2),
    ensures
        t1 == t2,
{
    let (s1, st1) = choose|stmts: Seq<Statement>, store: Seq<Expression>|
        #[trigger] compiles_to(stmts, store, t1) && parsed(src) is Ok && body_view(stmts, stmts.len() as int)
            == parsed(src)->Ok_0.2 && store_view(store) == parsed(src)->Ok_0.1;
    let (s2, st2) = choose|stmts: Seq<Statement>, store: Seq<Expression>|
        #[trigger] compiles_to(stmts, store, t2) && parsed(src) is Ok && body_view(stmts, stmts.len() as int)
            == parsed(src)->Ok_0.2 && store_view(store) == parsed(src)->Ok_0.1;
    lemma_body_view_index(s1, s1.len() as int);
    lemma_body_view_index(s2, s2.len() as int);
    assert forall|j: int| 0 <= j < s1.len() implies stmt_view(#[trigger] s1[j]) == stmt_view(s2[j]) by {
        assert(body_view(s1, s1.len() as int)[j] == body_view(s2, s2.len() as int)[j]);
    }
    lemma_gen_body_cong(st1, st2, with_builtins(initial_state()), s1, s2, 0);
}

proof fn lemma_gen_expr_scopes(store: Seq<Expression>, g: GenState, e: int)
    ensures
        gen_expr(store, g, e) is Ok ==> gen_expr(store, g, e)->Ok_0.scopes == g.scopes
            && gen_expr(store, g, e)->Ok_0.frame == g.frame && gen_expr(store, g, e)->Ok_0.code.len()
            >= g.code.len(),
    decreases e + 1, 0nat,
{
    if 0 <= e < store.len() {
        match store[e] {
            Expression::InfixExpression { left, op, right } => {
                if left < e && right < e {
                    lemma_gen_infix_scopes(store, g, left as int, right as int, op);
                }
            },
            Expression::PrefixExpression { right, .. } => {
                if right < e {
                    lemma_gen_expr_scopes(store, emit(g, seq![ins1(OpCodeTypes::Push, "0"@)]), right as int);
                }
            },
            Expression::AssignExpression { left, right } => {
                if left < e && right < e {
                    lemma_gen_expr_scopes(store, g, right as int);
                }
            },
            Expression::FunctionCall { left, parameters } => {
                if left < e {
                    lemma_gen_args_scopes(store, g, parameters@, e, parameters@.len() as int);
                }
            },
            _ => {},
        }
    }
}

proof fn lemma_gen_infix_scopes(store: Seq<Expression>, g: GenState, left: int, right: int, op: TokenType)
    ensures
        gen_infix(store, g, left, right, op) is Ok ==> gen_infix(store, g, left, right, op)->Ok_0.scopes
            == g.scopes && gen_infix(store, g, left, right, op)->Ok_0.frame == g.frame && gen_infix(
            store,
            g,
            left,
            right,
            op,
        )->Ok_0.code.len() >= g.code.len(),
    decreases (if left > right {
        left
    } else {
        right
    }) + 1, 1nat,
{
    if left >= 0 && right >= 0 {
        lemma_gen_expr_scopes(store, g, left);
        match gen_expr(store, g, left) {
            Ok(g1) => lemma_gen_expr_scopes(store, g1, right),
            Err(_) => {},
        }
    }
}

proof fn lemma_gen_args_scopes(store: Seq<Expression>, g: GenState, args: Seq<usize>, e: int, k: int)
    ensures
        gen_args(store, g, args, e, k) is Ok ==> gen_args(store, g, args, e, k)->Ok_0.scopes == g.scopes
            && gen_args(store, g, args, e, k)->Ok_0.frame == g.frame && gen_args(store, g, args, e, k)->Ok_0.code.len()
            >= g.code.len(),
    decreases e, k,
{
    if 0 < k <= args.len() && args[k - 1] < e {
        lemma_gen_expr_scopes(store, g, args[k - 1] as int);
        match gen_expr(store, g, args[k - 1] as int) {
            Ok(g1) => lemma_gen_args_scopes(store, g1, args, e, k - 1),
            Err(_) => {},
        }
    }
}

/// The scopes `t` differ from `s` at most in the innermost one.
pub open spec fn same_outer_scopes(s: Seq<ScopeView>, t: Seq<ScopeView>) -> bool {
    &&& s.len() == t.len()
    &&& s.drop_last() == t.drop_last()
}

proof fn lemma_gen_params_scopes(g: GenState, ps: Seq<Parameter>, i: int, off: u64)
    requires
        g.scopes.len() > 0,
    ensures
        gen_params(g, ps, i, off) is Ok ==> same_outer_scopes(g.scopes, gen_params(g, ps, i, off)->Ok_0.scopes),
    decreases ps.len() - i,
{
    if 0 <= i < ps.len() && off <= u64::MAX - 8 {
        let o = (off + 8) as u64;
        let g1 = GenState {
            scopes: declare(g.scopes, ps[i].name@, ps[i].param_type@, o),
            frame: max_u64(g.frame, o),
            ..emit(
                g,
                seq![
                    ins2(OpCodeTypes::Mov, rax(), param_source(o)),
                    ins2(OpCodeTypes::Mov, param_slot(o), rax()),
                ],
            )
        };
        assert(g1.scopes.drop_last() =~= g.scopes.drop_last());
        lemma_gen_params_scopes(g1, ps, i + 1, o);
    }
}

proof fn lemma_gen_stmt_scopes(store: Seq<Expression>, g: GenState, s: Statement)
    requires
        g.scopes.len() > 0,
    ensures
        gen_stmt(store, g, s) is Ok ==> same_outer_scopes(g.scopes, gen_stmt(store, g, s)->Ok_0.scopes),
        gen_stmt(store, g, s) is Ok && (s is IfElseStatement || s is FuncStatement) ==> gen_stmt(
            store,
            g,
            s,
        )->Ok_0.scopes == g.scopes,
    decreases s, 1nat,
{
    match s {
        Statement::ExpressionStatement(e) => lemma_gen_expr_scopes(store, g, e as int),
        Statement::ReturnStatement { value } => lemma_gen_expr_scopes(store, g, value as int),
        Statement::VarStatement { name, value, var_type } => {
            if top_offset(g.scopes) <= u64::MAX - 8 {
                let off = (top_offset(g.scopes) + 8) as u64;
                let g1 = GenState {
                    scopes: declare(g.scopes, name@, var_type@, off),
                    frame: max_u64(g.frame, off),
                    ..g
                };
                assert(g1.scopes.drop_last() =~= g.scopes.drop_last());
                match value {
                    Some(v) => lemma_gen_expr_scopes(store, g1, v as int),
                    None => {},
                }
            }
        },
        Statement::IfElseStatement { .. } => lemma_gen_if_scopes(store, g, s),
        Statement::FuncStatement { .. } => lemma_gen_func_scopes(store, g, s),
    }
}

proof fn lemma_gen_if_scopes(store: Seq<Expression>, g: GenState, s: Statement)
    requires
        g.scopes.len() > 0,
        s is IfElseStatement,
    ensures
        gen_stmt(store, g, s) is Ok ==> gen_stmt(store, g, s)->Ok_0.scopes == g.scopes,
    decreases s, 0nat,
{
    match s {
        Statement::IfElseStatement { condition, if_body, else_body } => {
            lemma_gen_expr_scopes(store, g, condition as int);
            match gen_expr(store, g, condition as int) {
                Ok(g1) => {
                    if g1.labels != u64::MAX {
                        let la = g1.labels;
                        let g2 = enter_block(
                            GenState {
                                labels: (la + 1) as u64,
                                ..emit(
                                    g1,
                                    seq![
                                        ins1(OpCodeTypes::Pop, rax()),
                                        ins2(OpCodeTypes::Cmp, rax(), "0"@),
                                        ins1(OpCodeTypes::Je, branch_label(la)),
                                    ],
                                )
                            },
                        );
                        lemma_gen_body_scopes(store, g2, if_body@, 0);
                        assert(g2.scopes.drop_last() =~= g.scopes);
                        match gen_body(store, g2, if_body@, 0) {
                            Ok(g3) => match leave_scope(g3) {
                                Ok(g4) => {
                                    if g4.labels != u64::MAX {
                                        let lb = g4.labels;
                                        let g5 = GenState {
                                            labels: (lb + 1) as u64,
                                            ..emit(
                                                g4,
                                                seq![
                                                    ins1(OpCodeTypes::Jmp, branch_label(lb)),
                                                    ins1(OpCodeTypes::Label, branch_label(la)),
                                                ],
                                            )
                                        };
                                        match else_body {
                                            Some(eb) => {
                                                lemma_gen_body_scopes(store, enter_block(g5), eb@, 0);
                                                assert(enter_block(g5).scopes.drop_last() =~= g.scopes);
                                            },
                                            None => {},
                                        }
                                    }
                                },
                                Err(_) => {},
                            },
                            Err(_) => {},
                        }
                    }
                },
                Err(_) => {},
            }
        },
        _ => {},
    }
}

proof fn lemma_gen_func_scopes(store: Seq<Expression>, g: GenState, s: Statement)
    requires
        g.scopes.len() > 0,
        s is FuncStatement,
    ensures
        gen_stmt(store, g, s) is Ok ==> gen_stmt(store, g, s)->Ok_0.scopes == g.scopes,
    decreases s, 0nat,
{
    match s {
        Statement::FuncStatement { name, call_inputs, return_type, body } => {
            let g1 = GenState { funcs: g.funcs.push((name@, call_inputs@.len())), ..g };
            let g2 = emit(g1, prologue(name@));
            let g3 = GenState { scopes: enter(g2.scopes, 0), frame: 0, ..g2 };
            lemma_gen_params_scopes(g3, call_inputs@, 0, 8);
            assert(g3.scopes.drop_last() =~= g.scopes);
            match gen_params(g3, call_inputs@, 0, 8) {
                Ok(g4) => lemma_gen_body_scopes(store, g4, body@, 0),
                Err(_) => {},
            }
        },
        _ => {},
    }
}

proof fn lemma_gen_body_scopes(store: Seq<Expression>, g: GenState, v: Seq<Statement>, i: int)
    requires
        g.scopes.len() > 0,
    ensures
        gen_body(store, g, v, i) is Ok ==> same_outer_scopes(g.scopes, gen_body(store, g, v, i)->Ok_0.scopes),
    decreases v, v.len() - i,
{
    if 0 <= i < v.len() {
        lemma_gen_stmt_scopes(store, g, v[i]);
        match gen_stmt(store, g, v[i]) {
            Ok(g1) => lemma_gen_body_scopes(store, g1, v, i + 1),
            Err(_) => {},
        }
    }
}

/// Compiling an `if` statement leaves the scopes exactly as it found them:
/// a variable that one of its branches declares is not visible after it,
/// and the running maximum offset of the enclosing scope is the one that
/// scope had before the statement.
pub proof fn lemma_if_restores_scopes(store: Seq<Expression>, g: GenState, s: Statement)
    requires
        g.scopes.len() > 0,
        s is IfElseStatement,
        gen_stmt(store, g, s) is Ok,
    ensures
        gen_stmt(store, g, s)->Ok_0.scopes == g.scopes,
        top_offset(gen_stmt(store, g, s)->Ok_0.scopes) == top_offset(g.scopes),
{
    lemma_gen_if_scopes(store, g, s);
}

/// A call whose argument count differs from the number of parameters of
/// the function it names fails with an argument-count error, whatever its
/// arguments are: no argument is compiled before the check.
pub proof fn lemma_call_arity_checked(store: Seq<Expression>, g: GenState, e: int)
    requires
        0 <= e < store.len(),
        store[e] matches Expression::FunctionCall { left, parameters } && left < e && (
        store[left as int] matches Expression::Identifier { value, .. } && find_fn(g.funcs, value@)
            matches Some(n) && n != parameters@.len()),
    ensures
        gen_expr(store, g, e) == Err::<GenState, ErrorKind>(ErrorKind::ArgumentCount),
{
}

/// A function without parameters whose body declares `n` variables, and
/// that compiles, reserves `max(8 * n, 16)` bytes of stack: its reservation,
/// the fourth instruction it emits, reflects the largest offset its
/// variables use.
pub proof fn lemma_frame_size(store: Seq<Expression>, g: GenState, s: Statement)
    requires
        g.scopes.len() > 0,
        gen_stmt(store, g, s) is Ok,
        s matches Statement::FuncStatement { call_inputs, body, .. } && call_inputs@.len() == 0
            && forall|j: int|
            0 <= j < body@.len() ==> #[trigger] body@[j] is VarStatement,
    ensures
        s matches Statement::FuncStatement { body, .. } && gen_stmt(store, g, s)->Ok_0.code[g.code.len()
            + 3int] == ins2(
            OpCodeTypes::Sub,
            reg_name(Registers::RSP),
            decimal(max_u64((body@.len() * 8) as u64, 16) as nat),
        ),
{
    match s {
        Statement::FuncStatement { name, call_inputs, return_type, body } => {
            let g1 = GenState { funcs: g.funcs.push((name@, call_inputs@.len())), ..g };
            let g2 = emit(g1, prologue(name@));
            let g3 = GenState { scopes: enter(g2.scopes, 0), frame: 0, ..g2 };
            assert(gen_params(g3, call_inputs@, 0, 8) == Ok::<GenState, ErrorKind>(g3));
            lemma_vars_frame(store, g3, body@, 0);
        },
        _ => {},
    }
}

proof fn lemma_vars_frame(store: Seq<Expression>, g: GenState, v: Seq<Statement>, i: int)
    requires
        0 <= i <= v.len(),
        g.scopes.len() > 0,
        g.frame == top_offset(g.scopes),
        forall|j: int| 0 <= j < v.len() ==> #[trigger] v[j] is VarStatement,
    ensures
        gen_body(store, g, v, i) is Ok ==> gen_body(store, g, v, i)->Ok_0.code.len() >= g.code.len()
            && gen_body(store, g, v, i)->Ok_0.scopes.len() == g.scopes.len() && gen_body(
            store,
            g,
            v,
            i,
        )->Ok_0.frame == top_offset(g.scopes) + 8 * (v.len() - i) && top_offset(
            gen_body(store, g, v, i)->Ok_0.scopes,
        ) == top_offset(g.scopes) + 8 * (v.len() - i),
    decreases v.len() - i,
{
    if i < v.len() {
        match v[i] {
            Statement::VarStatement { name, value, var_type } => {
                if top_offset(g.scopes) <= u64::MAX - 8 {
                    let off = (top_offset(g.scopes) + 8) as u64;
                    let g1 = GenState {
                        scopes: declare(g.scopes, name@, var_type@, off),
                        frame: max_u64(g.frame, off),
                        ..g
                    };
                    match value {
                        Some(e) => {
                            lemma_gen_expr_scopes(store, g1, e as int);
                            match gen_expr(store, g1, e as int) {
                                Ok(g2) => {
                                    let g3 = emit(
                                        g2,
                                        seq![
                                            ins1(OpCodeTypes::Pop, rax()),
                                            ins2(OpCodeTypes::Mov, local_slot(off), rax()),
                                        ],
                                    );
                                    assert(gen_stmt(store, g, v[i]) == Ok::<GenState, ErrorKind>(g3));
                                    lemma_vars_frame(store, g3, v, i + 1);
                                },
                                Err(_) => {},
                            }
                        },
                        None => {
                            assert(gen_stmt(store, g, v[i]) == Ok::<GenState, ErrorKind>(g1));
                            lemma_vars_frame(store, g1, v, i + 1);
                        },
                    }
                }
            },
            _ => {},
        }
    }
}

} // verus!
