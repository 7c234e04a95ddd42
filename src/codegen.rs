use vstd::prelude::*;

use crate::ast::{store_wf, stmt_refs_below, Expression, Parameter, Statement};
use crate::compiler::{reg_name, InstrView, OpCodeTypes, Registers};
use crate::error::{error_kind, CompileError, ErrorKind};
use crate::grammar::{body_view, sp_program, store_view, ExprV, StmtV};
use crate::parser::lex_all;
use crate::symbols::{declare, enter, lookup, top_offset, ScopeView};
use crate::text::{decimal, signed_decimal};
use crate::token::TokenType;
use crate::tokenizer::skip_space;

verus! {

/// The stack slot of a local variable at `off` below the frame base.
pub open spec fn local_slot(off: u64) -> Seq<char> {
    "QWORD [rbp-"@ + decimal(off as nat) + "]"@
}

/// Where the caller left a parameter, `off` above the frame base.
pub open spec fn param_source(off: u64) -> Seq<char> {
    "QWORD [RBP + "@ + decimal(off as nat) + "]"@
}

/// The local slot a parameter is copied to, `off` below the frame base.
pub open spec fn param_slot(off: u64) -> Seq<char> {
    "QWORD [RBP - "@ + decimal(off as nat) + "]"@
}

/// The label of the `n`th string constant.
pub open spec fn string_label(n: u64) -> Seq<char> {
    ".S"@ + decimal(n as nat)
}

/// The label of the `n`th branch target.
pub open spec fn branch_label(n: u64) -> Seq<char> {
    ".A"@ + decimal(n as nat)
}

pub open spec fn quoted(s: Seq<char>) -> Seq<char> {
    "\""@ + s + "\""@
}

pub open spec fn ins0(op: OpCodeTypes) -> InstrView {
    (op, Seq::empty())
}

pub open spec fn ins1(op: OpCodeTypes, a: Seq<char>) -> InstrView {
    (op, seq![a])
}

pub open spec fn ins2(op: OpCodeTypes, a: Seq<char>, b: Seq<char>) -> InstrView {
    (op, seq![a, b])
}

pub open spec fn rax() -> Seq<char> {
    reg_name(Registers::RAX)
}

pub open spec fn rbx() -> Seq<char> {
    reg_name(Registers::RBX)
}

/// What an arithmetic or comparison operator emits once its operands are
/// in RAX (left) and RBX (right); `None` for an operator the code
/// generator has no instructions for.
pub open spec fn infix_tail(op: TokenType) -> Option<Seq<InstrView>> {
    match op {
        TokenType::Plus => Some(
            seq![ins2(OpCodeTypes::Add, rax(), rbx()), ins1(OpCodeTypes::Push, rax())],
        ),
        TokenType::Minus => Some(
            seq![ins2(OpCodeTypes::Sub, rax(), rbx()), ins1(OpCodeTypes::Push, rax())],
        ),
        TokenType::Astrik => Some(
            seq![ins2(OpCodeTypes::Mul, rax(), rbx()), ins1(OpCodeTypes::Push, rax())],
        ),
        TokenType::LT => Some(compare_tail(OpCodeTypes::Setl)),
        TokenType::GT => Some(compare_tail(OpCodeTypes::Setg)),
        TokenType::LTEQ => Some(compare_tail(OpCodeTypes::Setle)),
        TokenType::GTEQ => Some(compare_tail(OpCodeTypes::Setge)),
        TokenType::EQ => Some(compare_tail(OpCodeTypes::Sete)),
        _ => None,
    }
}

pub open spec fn compare_tail(set: OpCodeTypes) -> Seq<InstrView> {
    seq![
        ins2(OpCodeTypes::Cmp, rax(), rbx()),
        ins1(set, reg_name(Registers::AL)),
        ins2(OpCodeTypes::Movzx, rax(), reg_name(Registers::AL)),
        ins1(OpCodeTypes::Push, rax()),
    ]
}

/// The state of the code generator, as a value.
pub struct GenState {
    /// The text section, in order.
    pub code: Seq<InstrView>,
    /// The data section, in order.
    pub data: Seq<InstrView>,
    /// The scopes, innermost last.
    pub scopes: Seq<ScopeView>,
    /// The functions declared so far: name and number of parameters.
    pub funcs: Seq<(Seq<char>, nat)>,
    /// The next branch label number.
    pub labels: u64,
    /// The next string constant number.
    pub strings: u64,
    /// The largest stack offset used so far in the current function.
    pub frame: u64,
}

pub open spec fn emit(g: GenState, is: Seq<InstrView>) -> GenState {
    GenState { code: g.code + is, ..g }
}

/// The number of parameters of the latest function declared as `name`.
pub open spec fn find_fn(funcs: Seq<(Seq<char>, nat)>, name: Seq<char>) -> Option<nat>
    decreases funcs.len(),
{
    if funcs.len() == 0 {
        None
    } else if funcs.last().0 == name {
        Some(funcs.last().1)
    } else {
        find_fn(funcs.drop_last(), name)
    }
}

/// The code for expression `e` of `store`: it leaves the expression's value
/// on the operand stack (an assignment and a call leave none).
pub open spec fn gen_expr(store: Seq<Expression>, g: GenState, e: int) -> Result<
    GenState,
    ErrorKind,
>
    decreases e + 1, 0nat,
{
    if e < 0 || e >= store.len() {
        Err(ErrorKind::InvalidHandle)
    } else {
        match store[e] {
            Expression::Integer(i) => Ok(
                emit(g, seq![ins1(OpCodeTypes::Push, signed_decimal(i as int))]),
            ),
            Expression::String(s) => if g.strings == u64::MAX {
                Err(ErrorKind::LimitExceeded)
            } else {
                Ok(
                    GenState {
                        data: g.data + seq![
                            ins1(OpCodeTypes::Label, string_label(g.strings)),
                            ins2(OpCodeTypes::Db, quoted(s@), "0"@),
                        ],
                        code: g.code + seq![
                            ins2(OpCodeTypes::Mov, rax(), string_label(g.strings)),
                            ins1(OpCodeTypes::Push, rax()),
                        ],
                        strings: (g.strings + 1) as u64,
                        ..g
                    },
                )
            },
            Expression::Identifier { value, .. } => match lookup(g.scopes, value@) {
                None => Err(ErrorKind::UndefinedVariable),
                Some(b) => Ok(
                    emit(
                        g,
                        seq![
                            ins2(OpCodeTypes::Mov, rax(), local_slot(b.1)),
                            ins1(OpCodeTypes::Push, rax()),
                        ],
                    ),
                ),
            },
            Expression::InfixExpression { left, op, right } => if left >= e || right >= e {
                Err(ErrorKind::InvalidHandle)
            } else {
                gen_infix(store, g, left as int, right as int, op)
            },
            Expression::PrefixExpression { op, right } => if right >= e {
                Err(ErrorKind::InvalidHandle)
            } else if op != TokenType::Minus {
                Err(ErrorKind::UnsupportedOperator)
            } else {
                match gen_expr(store, emit(g, seq![ins1(OpCodeTypes::Push, "0"@)]), right as int) {
                    Err(x) => Err(x),
                    Ok(g1) => Ok(
                        emit(
                            g1,
                            seq![
                                ins1(OpCodeTypes::Pop, rbx()),
                                ins1(OpCodeTypes::Pop, rax()),
                                ins2(OpCodeTypes::Sub, rax(), rbx()),
                                ins1(OpCodeTypes::Push, rax()),
                            ],
                        ),
                    ),
                }
            },
            Expression::AssignExpression { left, right } => if left >= e || right >= e {
                Err(ErrorKind::InvalidHandle)
            } else {
                match gen_expr(store, g, right as int) {
                    Err(x) => Err(x),
                    Ok(g1) => match store[left as int] {
                        Expression::Identifier { value, .. } => match lookup(g1.scopes, value@) {
                            None => Err(ErrorKind::UndefinedVariable),
                            Some(b) => Ok(
                                emit(
                                    g1,
                                    seq![
                                        ins1(OpCodeTypes::Pop, rax()),
                                        ins2(OpCodeTypes::Mov, local_slot(b.1), rax()),
                                    ],
                                ),
                            ),
                        },
                        _ => Err(ErrorKind::AssignToNonIdentifier),
                    },
                }
            },
            Expression::FunctionCall { left, parameters } => if left >= e {
                Err(ErrorKind::InvalidHandle)
            } else {
                match store[left as int] {
                    Expression::Identifier { value, .. } => match find_fn(g.funcs, value@) {
                        None => Err(ErrorKind::UndefinedFunction),
                        Some(n) => if n != parameters@.len() {
                            Err(ErrorKind::ArgumentCount)
                        } else {
                            match gen_args(store, g, parameters@, e, parameters@.len() as int) {
                                Err(x) => Err(x),
                                Ok(g1) => Ok(emit(g1, seq![ins1(OpCodeTypes::Call, value@)])),
                            }
                        },
                    },
                    _ => Err(ErrorKind::UndefinedFunction),
                }
            },
        }
    }
}

/// The code for an arithmetic or comparison node: the left operand, the
/// right operand, both popped into registers, then the operation, whose
/// result is pushed.
pub open spec fn gen_infix(store: Seq<Expression>, g: GenState, left: int, right: int, op: TokenType) -> Result<
    GenState,
    ErrorKind,
>
    decreases (if left > right {
        left
    } else {
        right
    }) + 1, 1nat,
{
    if left < 0 || right < 0 {
        Err(ErrorKind::InvalidHandle)
    } else {
        match gen_expr(store, g, left) {
            Err(x) => Err(x),
            Ok(g1) => match gen_expr(store, g1, right) {
                Err(x) => Err(x),
                Ok(g2) => match infix_tail(op) {
                    None => Err(ErrorKind::UnsupportedOperator),
                    Some(t) => Ok(
                        emit(g2, seq![ins1(OpCodeTypes::Pop, rbx()), ins1(OpCodeTypes::Pop, rax())] + t),
                    ),
                },
            },
        }
    }
}

/// A compile step ended as the spec says: with the state it gives, or with
/// an error of the kind it names.
pub open spec fn agrees(r: Result<(), CompileError>, after: GenState, s: Result<GenState, ErrorKind>) -> bool {
    match s {
        Ok(g) => r is Ok && after == g,
        Err(k) => r is Err && error_kind(r->Err_0) == k,
    }
}

/// The code for arguments `args[k - 1]`, ..., `args[0]` of a call at node
/// `e`, last argument first, so that the first lands on top of the stack.
pub open spec fn gen_args(store: Seq<Expression>, g: GenState, args: Seq<usize>, e: int, k: int) -> Result<
    GenState,
    ErrorKind,
>
    decreases e, k,
{
    if k <= 0 || k > args.len() {
        Ok(g)
    } else if args[k - 1] >= e {
        Err(ErrorKind::InvalidHandle)
    } else {
        match gen_expr(store, g, args[k - 1] as int) {
            Err(x) => Err(x),
            Ok(g1) => gen_args(store, g1, args, e, k - 1),
        }
    }
}

pub open spec fn max_u64(a: u64, b: u64) -> u64 {
    if a < b {
        b
    } else {
        a
    }
}

/// What a function declaration emits before its body: its label, the frame
/// set-up, and the stack reservation that is rewritten once the body is done.
pub open spec fn prologue(name: Seq<char>) -> Seq<InstrView> {
    seq![
        ins1(OpCodeTypes::Label, name),
        ins1(OpCodeTypes::Push, reg_name(Registers::RBP)),
        ins2(OpCodeTypes::Mov, reg_name(Registers::RBP), reg_name(Registers::RSP)),
        ins2(OpCodeTypes::Sub, reg_name(Registers::RSP), decimal(16)),
    ]
}

/// What a function declaration emits after its body: the entry function
/// clears the return register; the others restore the caller's frame.
pub open spec fn epilogue(name: Seq<char>) -> Seq<InstrView> {
    if name == "main"@ {
        seq![
            ins2(OpCodeTypes::Xor, reg_name(Registers::EAX), reg_name(Registers::EAX)),
            ins0(OpCodeTypes::Leave),
            ins0(OpCodeTypes::Ret),
        ]
    } else {
        seq![
            ins2(OpCodeTypes::Mov, reg_name(Registers::RSP), reg_name(Registers::RBP)),
            ins1(OpCodeTypes::Pop, reg_name(Registers::RBP)),
            ins0(OpCodeTypes::Ret),
        ]
    }
}

/// Binds parameters `params[i..]` in the innermost scope, each 8 bytes past
/// the one before (the first at `off + 8`), and copies each from where the
/// caller left it into its local slot.
pub open spec fn gen_params(g: GenState, params: Seq<Parameter>, i: int, off: u64) -> Result<
    GenState,
    ErrorKind,
>
    decreases params.len() - i,
{
    if i < 0 || i >= params.len() {
        Ok(g)
    } else if off > u64::MAX - 8 {
        Err(ErrorKind::LimitExceeded)
    } else {
        let o = (off + 8) as u64;
        let g1 = GenState {
            scopes: declare(g.scopes, params[i].name@, params[i].param_type@, o),
            frame: max_u64(g.frame, o),
            ..emit(
                g,
                seq![
                    ins2(OpCodeTypes::Mov, rax(), param_source(o)),
                    ins2(OpCodeTypes::Mov, param_slot(o), rax()),
                ],
            )
        };
        gen_params(g1, params, i + 1, o)
    }
}

/// `g` with its innermost scope left; an error where only the root is left.
pub open spec fn leave_scope(g: GenState) -> Result<GenState, ErrorKind> {
    if g.scopes.len() <= 1 {
        Err(ErrorKind::ScopeUnderflow)
    } else {
        Ok(GenState { scopes: g.scopes.drop_last(), ..g })
    }
}

/// `g` with a new block scope that goes on from the offsets of the current one.
pub open spec fn enter_block(g: GenState) -> GenState {
    GenState { scopes: enter(g.scopes, top_offset(g.scopes)), ..g }
}

/// The code for statement `s`.
pub open spec fn gen_stmt(store: Seq<Expression>, g: GenState, s: Statement) -> Result<
    GenState,
    ErrorKind,
>
    decreases s, 0nat,
{
    match s {
        Statement::ExpressionStatement(e) => gen_expr(store, g, e as int),
        Statement::ReturnStatement { value } => match gen_expr(store, g, value as int) {
            Err(x) => Err(x),
            Ok(g1) => Ok(emit(g1, seq![ins0(OpCodeTypes::Leave), ins0(OpCodeTypes::Ret)])),
        },
        Statement::VarStatement { name, value, var_type } => if top_offset(g.scopes) > u64::MAX
            - 8 {
            Err(ErrorKind::LimitExceeded)
        } else {
            let off = (top_offset(g.scopes) + 8) as u64;
            let g1 = GenState {
                scopes: declare(g.scopes, name@, var_type@, off),
                frame: max_u64(g.frame, off),
                ..g
            };
            match value {
                None => Ok(g1),
                Some(v) => match gen_expr(store, g1, v as int) {
                    Err(x) => Err(x),
                    Ok(g2) => Ok(
                        emit(
                            g2,
                            seq![
                                ins1(OpCodeTypes::Pop, rax()),
                                ins2(OpCodeTypes::Mov, local_slot(off), rax()),
                            ],
                        ),
                    ),
                },
            }
        },
        Statement::IfElseStatement { condition, if_body, else_body } => match gen_expr(
            store,
            g,
            condition as int,
        ) {
            Err(x) => Err(x),
            Ok(g1) => if g1.labels == u64::MAX {
                Err(ErrorKind::LimitExceeded)
            } else {
                let a = g1.labels;
                let g2 = enter_block(
                    GenState {
                        labels: (a + 1) as u64,
                        ..emit(
                            g1,
                            seq![
                                ins1(OpCodeTypes::Pop, rax()),
                                ins2(OpCodeTypes::Cmp, rax(), "0"@),
                                ins1(OpCodeTypes::Je, branch_label(a)),
                            ],
                        )
                    },
                );
                match gen_body(store, g2, if_body@, 0) {
                    Err(x) => Err(x),
                    Ok(g3) => match leave_scope(g3) {
                        Err(x) => Err(x),
                        Ok(g4) => if g4.labels == u64::MAX {
                            Err(ErrorKind::LimitExceeded)
                        } else {
                            let b = g4.labels;
                            let g5 = GenState {
                                labels: (b + 1) as u64,
                                ..emit(
                                    g4,
                                    seq![
                                        ins1(OpCodeTypes::Jmp, branch_label(b)),
                                        ins1(OpCodeTypes::Label, branch_label(a)),
                                    ],
                                )
                            };
                            match else_body {
                                None => Ok(emit(g5, seq![ins1(OpCodeTypes::Label, branch_label(b))])),
                                Some(eb) => match gen_body(store, enter_block(g5), eb@, 0) {
                                    Err(x) => Err(x),
                                    Ok(g6) => match leave_scope(g6) {
                                        Err(x) => Err(x),
                                        Ok(g7) => Ok(
                                            emit(g7, seq![ins1(OpCodeTypes::Label, branch_label(b))]),
                                        ),
                                    },
                                },
                            }
                        },
                    },
                }
            },
        },
        Statement::FuncStatement { name, call_inputs, return_type, body } => {
            let g1 = GenState { funcs: g.funcs.push((name@, call_inputs@.len())), ..g };
            let g2 = emit(g1, prologue(name@));
            let idx = g2.code.len() - 1;
            let g3 = GenState { scopes: enter(g2.scopes, 0), frame: 0, ..g2 };
            match gen_params(g3, call_inputs@, 0, 8) {
                Err(x) => Err(x),
                Ok(g4) => match gen_body(store, g4, body@, 0) {
                    Err(x) => Err(x),
                    Ok(g5) => match leave_scope(
                        GenState {
                            code: g5.code.update(
                                idx,
                                ins2(
                                    OpCodeTypes::Sub,
                                    reg_name(Registers::RSP),
                                    decimal(max_u64(g5.frame, 16) as nat),
                                ),
                            ),
                            frame: g.frame,
                            ..g5
                        },
                    ) {
                        Err(x) => Err(x),
                        Ok(g6) => Ok(emit(g6, epilogue(name@))),
                    },
                },
            }
        },
    }
}

/// The code for statements `v[i..]`, in order; the first error ends it.
pub open spec fn gen_body(store: Seq<Expression>, g: GenState, v: Seq<Statement>, i: int) -> Result<
    GenState,
    ErrorKind,
>
    decreases v, v.len() - i,
{
    if i < 0 || i >= v.len() {
        Ok(g)
    } else {
        match gen_stmt(store, g, v[i]) {
            Err(x) => Err(x),
            Ok(g1) => gen_body(store, g1, v, i + 1),
        }
    }
}

/// The hand-written body of the built-in formatted print, after its label:
/// it hands its two arguments to the C library's `printf`.
pub open spec fn print_body() -> Seq<InstrView> {
    seq![
        ins1(OpCodeTypes::Push, reg_name(Registers::RBP)),
        ins2(OpCodeTypes::Mov, reg_name(Registers::RBP), reg_name(Registers::RSP)),
        ins2(OpCodeTypes::Mov, reg_name(Registers::RDI), "[RBP + 16]"@),
        ins2(OpCodeTypes::Mov, reg_name(Registers::RSI), "[RBP + 24]"@),
        ins2(OpCodeTypes::Xor, rax(), rax()),
        ins1(OpCodeTypes::Call, "printf"@),
        ins0(OpCodeTypes::Leave),
        ins0(OpCodeTypes::Ret),
    ]
}

/// The state after the header directives and the built-in print, which
/// takes two parameters.
pub open spec fn with_builtins(g: GenState) -> GenState {
    GenState {
        code: g.code + seq![
            ins1(OpCodeTypes::Global, "main"@),
            ins1(OpCodeTypes::Import, "printf"@),
            ins1(OpCodeTypes::Label, "print"@),
        ] + print_body(),
        funcs: g.funcs.push(("print"@, 2)),
        ..g
    }
}

/// The mnemonic of an operation, in upper case.
pub open spec fn opcode_name(op: OpCodeTypes) -> Seq<char> {
    match op {
        OpCodeTypes::Add => "ADD"@,
        OpCodeTypes::Sub => "SUB"@,
        OpCodeTypes::Mul => "MUL"@,
        OpCodeTypes::Mov => "MOV"@,
        OpCodeTypes::Push => "PUSH"@,
        OpCodeTypes::Pop => "POP"@,
        OpCodeTypes::Xor => "XOR"@,
        OpCodeTypes::Call => "CALL"@,
        OpCodeTypes::Label => Seq::empty(),
        OpCodeTypes::Global => "global"@,
        OpCodeTypes::Import => seq!['e', 'x', 't', 'e', 'r', 'n'],
        OpCodeTypes::Leave => "LEAVE"@,
        OpCodeTypes::Ret => "RET"@,
        OpCodeTypes::Cmp => "CMP"@,
        OpCodeTypes::Movzx => "MOVZX"@,
        OpCodeTypes::Setl => "SETL"@,
        OpCodeTypes::Setg => "SETG"@,
        OpCodeTypes::Setle => "SETLE"@,
        OpCodeTypes::Setge => "SETGE"@,
        OpCodeTypes::Sete => "SETE"@,
        OpCodeTypes::Je => "JE"@,
        OpCodeTypes::Jmp => "JMP"@,
        OpCodeTypes::Db => "DB"@,
    }
}

/// The parts, with `sep` between each two.
pub open spec fn join(parts: Seq<Seq<char>>, sep: Seq<char>) -> Seq<char>
    decreases parts.len(),
{
    if parts.len() == 0 {
        Seq::empty()
    } else if parts.len() == 1 {
        parts[0]
    } else {
        join(parts.drop_last(), sep) + sep + parts.last()
    }
}

/// The text line of an instruction: a label as `name:`, a directive bare,
/// any other instruction as a tab, its mnemonic and its operands separated
/// by commas.
pub open spec fn render(i: InstrView) -> Seq<char> {
    let ops = join(i.1, ", "@);
    match i.0 {
        OpCodeTypes::Label => ops + ":"@,
        OpCodeTypes::Global | OpCodeTypes::Import => opcode_name(i.0) + " "@ + ops,
        _ => if i.1.len() == 0 {
            "\t"@ + opcode_name(i.0)
        } else {
            "\t"@ + opcode_name(i.0) + " "@ + ops
        },
    }
}

pub open spec fn render_all(is: Seq<InstrView>) -> Seq<Seq<char>> {
    is.map_values(|i: InstrView| render(i))
}

/// The assembly listing: the data section (left out when empty), then the
/// text section.
pub open spec fn listing(g: GenState) -> Seq<char> {
    (if g.data.len() == 0 {
        Seq::empty()
    } else {
        "section .data\n"@ + join(render_all(g.data), "\n"@) + "\n"@
    }) + "section .text\n"@ + join(render_all(g.code), "\n"@)
}

/// The state of a fresh code generator: nothing emitted, only the root
/// scope, no function declared.
pub open spec fn initial_state() -> GenState {
    GenState {
        code: Seq::empty(),
        data: Seq::empty(),
        scopes: seq![ScopeView { bindings: Seq::empty(), cur_offset: 0 }],
        funcs: Seq::empty(),
        labels: 0,
        strings: 0,
        frame: 0,
    }
}

/// `text` is the listing that compiling statements `stmts` over `store`
/// gives.
pub open spec fn compiles_to(stmts: Seq<Statement>, store: Seq<Expression>, text: Seq<char>) -> bool {
    &&& gen_body(store, with_builtins(initial_state()), stmts, 0) is Ok
    &&& text == listing(gen_body(store, with_builtins(initial_state()), stmts, 0)->Ok_0)
}

/// `text` is the listing of some well-formed parsed program: statements
/// whose handles are all valid in a well-formed store.
pub open spec fn is_listing_of_some_program(text: Seq<char>) -> bool {
    exists|stmts: Seq<Statement>, store: Seq<Expression>|
        #[trigger] compiles_to(stmts, store, text) && store_wf(store) && forall|j: int|
            0 <= j < stmts.len() ==> stmt_refs_below(#[trigger] stmts[j], store.len() as int)
}

/// What parsing `src` gives: the position of `EOF`, the store and the
/// statements, as values.
pub open spec fn parsed(src: Seq<char>) -> Result<(int, Seq<ExprV>, Seq<StmtV>), ErrorKind> {
    sp_program(lex_all(src, skip_space(src, 0)), 0, Seq::empty(), Seq::empty())
}

/// `text` is the listing of the program that `src` parses to.
pub open spec fn compiled_from(src: Seq<char>, text: Seq<char>) -> bool {
    exists|stmts: Seq<Statement>, store: Seq<Expression>|
        #[trigger] compiles_to(stmts, store, text) && parsed(src) is Ok && body_view(
            stmts,
            stmts.len() as int,
        ) == parsed(src)->Ok_0.2 && store_view(store) == parsed(src)->Ok_0.1
}

/// Compiling `src` fails: it does not parse, or every program with the
/// parsed statements and store fails to compile.
pub open spec fn compile_fails(src: Seq<char>) -> bool {
    parsed(src) is Err || forall|stmts: Seq<Statement>, store: Seq<Expression>|
        body_view(stmts, stmts.len() as int) == parsed(src)->Ok_0.2 && store_view(store) == parsed(
            src,
        )->Ok_0.1 ==> #[trigger] gen_body(store, with_builtins(initial_state()), stmts, 0) is Err
}

} // verus!
