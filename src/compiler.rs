use vstd::prelude::*;

use crate::ast::{store_wf, stmt_refs_below, ExpRef, Expression, Parameter, Program, Statement};
use crate::grammar::{body_view, stmt_view, store_view, ExprV};
use crate::parser::Parser;
use crate::tokenizer::Tokenizer;
use crate::laws::{lemma_body_view_index, lemma_gen_body_cong};
use crate::codegen::{
    GenState, agrees, branch_label, compile_fails, compiled_from, compiles_to, emit, epilogue, find_fn, gen_args, gen_body, gen_expr, gen_infix, gen_params, gen_stmt, infix_tail, initial_state, ins0, ins1, ins2, is_listing_of_some_program, join, listing, local_slot, opcode_name, param_slot, param_source, parsed, print_body, prologue, quoted, rax, rbx, render, render_all, string_label, with_builtins,
};
use crate::error::{CompileError, ErrorKind};
use crate::symbols::{Symbol, SymbolTable};
use crate::text::{decimal, decimal_string, push_signed_decimal, signed_decimal, chars_to_string};
use crate::token::TokenType;

verus! {

/// The operations of the target assembly.  `Label` names a position,
/// `Global` exports a symbol and `Import` names a symbol that another object
/// file defines.
#[derive(Clone, Copy, Debug, PartialEq, Eq, Structural)]
pub enum OpCodeTypes {
    Add,
    Sub,
    Mul,
    Mov,
    Push,
    Pop,
    Xor,
    Call,
    Label,
    Global,
    Import,
    Leave,
    Ret,
    Cmp,
    Movzx,
    Setl,
    Setg,
    Setle,
    Setge,
    Sete,
    Je,
    Jmp,
    Db,
}

/// One instruction of the output: an operation and its operands.
pub struct Instruction {
    opcode: OpCodeTypes,
    operands: Vec<String>,
}

/// An instruction as a value: its operation and the text of each operand.
pub type InstrView = (OpCodeTypes, Seq<Seq<char>>);

pub open spec fn strings_view(v: Seq<String>) -> Seq<Seq<char>> {
    v.map_values(|s: String| s@)
}

impl Instruction {
    pub closed spec fn view(&self) -> InstrView {
        (self.opcode, strings_view(self.operands@))
    }

    pub fn opcode(&self) -> (r: OpCodeTypes)
        ensures
            r == self.view().0,
    {
        self.opcode
    }

    pub fn operands(&self) -> (r: &Vec<String>)
        ensures
            strings_view(r@) == self.view().1,
    {
        &self.operands
    }
}

fn opcode_text(op: OpCodeTypes) -> (r: String)
    ensures
        r@ == opcode_name(op),
{
    match op {
        OpCodeTypes::Add => String::from_str("ADD"),
        OpCodeTypes::Sub => String::from_str("SUB"),
        OpCodeTypes::Mul => String::from_str("MUL"),
        OpCodeTypes::Mov => String::from_str("MOV"),
        OpCodeTypes::Push => String::from_str("PUSH"),
        OpCodeTypes::Pop => String::from_str("POP"),
        OpCodeTypes::Xor => String::from_str("XOR"),
        OpCodeTypes::Call => String::from_str("CALL"),
        OpCodeTypes::Label => String::new(),
        OpCodeTypes::Global => String::from_str("global"),
        OpCodeTypes::Import => {
            let mut w: Vec<char> = Vec::new();
            w.push('e');
            w.push('x');
            w.push('t');
            w.push('e');
            w.push('r');
            w.push('n');
            assert(w@ =~= seq!['e', 'x', 't', 'e', 'r', 'n']);
            chars_to_string(&w)
        },
        OpCodeTypes::Leave => String::from_str("LEAVE"),
        OpCodeTypes::Ret => String::from_str("RET"),
        OpCodeTypes::Cmp => String::from_str("CMP"),
        OpCodeTypes::Movzx => String::from_str("MOVZX"),
        OpCodeTypes::Setl => String::from_str("SETL"),
        OpCodeTypes::Setg => String::from_str("SETG"),
        OpCodeTypes::Setle => String::from_str("SETLE"),
        OpCodeTypes::Setge => String::from_str("SETGE"),
        OpCodeTypes::Sete => String::from_str("SETE"),
        OpCodeTypes::Je => String::from_str("JE"),
        OpCodeTypes::Jmp => String::from_str("JMP"),
        OpCodeTypes::Db => String::from_str("DB"),
    }
}

/// The parts, with `sep` between each two.
pub fn join_strings(parts: &Vec<String>, sep: &str) -> (r: String)
    ensures
        r@ == join(strings_view(parts@), sep@),
{
    let mut r = String::new();
    let mut i: usize = 0;
    while i < parts.len()
        invariant
            i <= parts@.len(),
            r@ == join(strings_view(parts@).subrange(0, i as int), sep@),
        decreases parts@.len() - i,
    {
        let ghost pre = strings_view(parts@).subrange(0, i as int);
        let ghost next = strings_view(parts@).subrange(0, i + 1);
        assert(next.drop_last() =~= pre);
        if i > 0 {
            r.append(sep);
        }
        r.append(parts[i].as_str());
        proof {
            if i == 0 {
                assert(pre =~= Seq::<Seq<char>>::empty());
                assert(r@ =~= next[0]);
            }
        }
        i = i + 1;
    }
    assert(strings_view(parts@).subrange(0, parts@.len() as int) =~= strings_view(parts@));
    r
}

impl Instruction {
    /// The instruction as one line of assembly text.
    pub fn render(&self) -> (r: String)
        ensures
            r@ == render(self.view()),
    {
        let ops = join_strings(&self.operands, ", ");
        match self.opcode {
            OpCodeTypes::Label => {
                let mut s = ops;
                s.append(":");
                s
            },
            OpCodeTypes::Global | OpCodeTypes::Import => {
                let mut s = opcode_text(self.opcode);
                s.append(" ");
                s.append(ops.as_str());
                s
            },
            _ => {
                let mut s = String::from_str("\t");
                let name = opcode_text(self.opcode);
                s.append(name.as_str());
                if self.operands.len() > 0 {
                    s.append(" ");
                    s.append(ops.as_str());
                }
                s
            },
        }
    }
}

fn render_lines(v: &Vec<Instruction>) -> (r: Vec<String>)
    ensures
        strings_view(r@) == render_all(instrs_view(v@)),
{
    let mut r: Vec<String> = Vec::new();
    let mut i: usize = 0;
    while i < v.len()
        invariant
            i <= v@.len(),
            strings_view(r@) == render_all(instrs_view(v@)).subrange(0, i as int),
        decreases v@.len() - i,
    {
        let line = v[i].render();
        assert(instrs_view(v@)[i as int] == v@[i as int].view());
        assert(render_all(instrs_view(v@))[i as int] == render(v@[i as int].view()));
        let ghost lv = line@;
        let ghost old_r = r@;
        r.push(line);
        assert(strings_view(r@) =~= strings_view(old_r).push(lv));
        assert(render_all(instrs_view(v@)).subrange(0, i + 1) =~= render_all(instrs_view(v@)).subrange(0, i as int).push(lv));
        i = i + 1;
        assert(strings_view(r@) =~= render_all(instrs_view(v@)).subrange(0, i as int));
    }
    assert(render_all(instrs_view(v@)).subrange(0, v@.len() as int) =~= render_all(
        instrs_view(v@),
    ));
    r
}

pub open spec fn instrs_view(v: Seq<Instruction>) -> Seq<InstrView> {
    v.map_values(|i: Instruction| i.view())
}

#[derive(Debug)]
pub enum Registers {
    AL,
    EAX,
    RAX,
    RDI,
    RSI,
    RBX,
    RSP,
    RBP,
}

pub open spec fn reg_name(r: Registers) -> Seq<char> {
    match r {
        Registers::AL => "AL"@,
        Registers::EAX => "EAX"@,
        Registers::RAX => "RAX"@,
        Registers::RDI => "RDI"@,
        Registers::RSI => "RSI"@,
        Registers::RBX => "RBX"@,
        Registers::RSP => "RSP"@,
        Registers::RBP => "RBP"@,
    }
}

impl Registers {
    /// The register's name in upper case.
    pub fn to_string(&self) -> (r: String)
        ensures
            r@ == reg_name(*self),
    {
        match self {
            Registers::AL => String::from_str("AL"),
            Registers::EAX => String::from_str("EAX"),
            Registers::RAX => String::from_str("RAX"),
            Registers::RDI => String::from_str("RDI"),
            Registers::RSI => String::from_str("RSI"),
            Registers::RBX => String::from_str("RBX"),
            Registers::RSP => String::from_str("RSP"),
            Registers::RBP => String::from_str("RBP"),
        }
    }
}

struct FunctionSig {
    name: String,
    params: Vec<Parameter>,
    return_type: Option<String>,
}

spec fn sig_view(f: FunctionSig) -> (Seq<char>, nat) {
    (f.name@, f.params@.len())
}

/// The code generator: it walks statements and expressions and emits the
/// text and data sections of the output.
pub struct Compiler {
    stmts: Vec<Statement>,
    program: Program,
    output: Vec<Instruction>,
    table: SymbolTable,
    data_section: Vec<Instruction>,
    functions: Vec<FunctionSig>,
    cur_cond_idx: u64,
    cur_str_idx: u64,
    frame_size: u64,
}

fn no_ops() -> (v: Vec<String>)
    ensures
        strings_view(v@) == Seq::<Seq<char>>::empty(),
{
    let v: Vec<String> = Vec::new();
    assert(strings_view(v@) =~= Seq::<Seq<char>>::empty());
    v
}

fn ops1(a: String) -> (v: Vec<String>)
    ensures
        strings_view(v@) == seq![a@],
{
    let mut v: Vec<String> = Vec::new();
    v.push(a);
    assert(strings_view(v@) =~= seq![a@]);
    v
}

fn ops2(a: String, b: String) -> (v: Vec<String>)
    ensures
        strings_view(v@) == seq![a@, b@],
{
    let mut v: Vec<String> = Vec::new();
    v.push(a);
    v.push(b);
    assert(strings_view(v@) =~= seq![a@, b@]);
    v
}

fn with_number(prefix: &str, n: u64, suffix: &str) -> (r: String)
    ensures
        r@ == prefix@ + decimal(n as nat) + suffix@,
{
    let mut s = String::from_str(prefix);
    let d = decimal_string(n);
    s.append(d.as_str());
    s.append(suffix);
    s
}

fn prefixed_number(prefix: &str, n: u64) -> (r: String)
    ensures
        r@ == prefix@ + decimal(n as nat),
{
    let mut s = String::from_str(prefix);
    let d = decimal_string(n);
    s.append(d.as_str());
    s
}

fn copy_params(v: &Vec<Parameter>) -> (r: Vec<Parameter>)
    ensures
        r@.len() == v@.len(),
{
    let mut r: Vec<Parameter> = Vec::new();
    let mut i: usize = 0;
    while i < v.len()
        invariant
            i <= v@.len(),
            r@.len() == i,
        decreases v@.len() - i,
    {
        r.push(Parameter { name: v[i].name.clone(), param_type: v[i].param_type.clone() });
        i = i + 1;
    }
    r
}

fn copy_refs(v: &Vec<ExpRef>) -> (r: Vec<ExpRef>)
    ensures
        r@ == v@,
{
    let mut r: Vec<ExpRef> = Vec::new();
    let mut i: usize = 0;
    while i < v.len()
        invariant
            i <= v@.len(),
            r@ == v@.subrange(0, i as int),
        decreases v@.len() - i,
    {
        r.push(v[i]);
        i = i + 1;
        assert(r@ =~= v@.subrange(0, i as int));
    }
    assert(v@.subrange(0, v@.len() as int) =~= v@);
    r
}

/// Compiling an expression changes neither the statements, nor the store,
/// nor the scopes, the functions, the label counter or the frame size.
pub open spec fn unchanged_context(before: &Compiler, after: &Compiler) -> bool {
    &&& after.store() == before.store()
    &&& after.statements() == before.statements()
    &&& after.state().scopes == before.state().scopes
    &&& after.state().funcs == before.state().funcs
    &&& after.state().labels == before.state().labels
    &&& after.state().frame == before.state().frame
    &&& before.state().code.len() <= after.state().code.len()
}

fn local_slot_text(off: u64) -> (r: String)
    ensures
        r@ == local_slot(off),
{
    with_number("QWORD [rbp-", off, "]")
}

impl Compiler {
    /// The state of the code generator, as a value.
    pub closed spec fn state(&self) -> GenState {
        GenState {
            code: instrs_view(self.output@),
            data: instrs_view(self.data_section@),
            scopes: self.table.view(),
            funcs: self.functions@.map_values(|f: FunctionSig| sig_view(f)),
            labels: self.cur_cond_idx,
            strings: self.cur_str_idx,
            frame: self.frame_size,
        }
    }

    /// The expression store the generator reads.
    pub closed spec fn store(&self) -> Seq<Expression> {
        self.program@
    }

    /// The top-level statements the generator compiles.
    pub closed spec fn statements(&self) -> Seq<Statement> {
        self.stmts@
    }

    pub open spec fn wf(&self) -> bool {
        self.state().scopes.len() > 0
    }

    /// A generator for `stmts`, whose expressions are in `program`, with
    /// empty output, the root scope only and no function declared.
    pub fn new(stmts: Vec<Statement>, program: Program) -> (r: Compiler)
        ensures
            r.wf(),
            r.statements() == stmts@,
            r.store() == program@,
            r.state() == initial_state(),
    {
        let r = Compiler {
            stmts,
            program,
            output: Vec::new(),
            data_section: Vec::new(),
            table: SymbolTable::new(),
            functions: Vec::new(),
            cur_cond_idx: 0,
            cur_str_idx: 0,
            frame_size: 0,
        };
        assert(r.state().code =~= Seq::<InstrView>::empty());
        assert(r.state().data =~= Seq::<InstrView>::empty());
        assert(r.state().funcs =~= Seq::<(Seq<char>, nat)>::empty());
        r
    }

    /// Appends one instruction to the text section.
    fn new_instruction(&mut self, opcode: OpCodeTypes, operands: Vec<String>)
        ensures
            final(self).state() == emit(old(self).state(), seq![(opcode, strings_view(operands@))]),
            final(self).store() == old(self).store(),
            final(self).statements() == old(self).statements(),
    {
        let ghost ops = strings_view(operands@);
        self.output.push(Instruction { opcode, operands });
        assert(self.state().code =~= old(self).state().code + seq![(opcode, ops)]);
        assert(self.state() == emit(old(self).state(), seq![(opcode, ops)]));
    }

    /// Reserves `bytes` of stack.
    fn reserve_stack(&mut self, bytes: u64)
        ensures
            final(self).state() == emit(
                old(self).state(),
                seq![ins2(OpCodeTypes::Sub, reg_name(Registers::RSP), decimal(bytes as nat))],
            ),
            final(self).store() == old(self).store(),
            final(self).statements() == old(self).statements(),
    {
        self.new_instruction(OpCodeTypes::Sub, ops2(Registers::RSP.to_string(), decimal_string(bytes)));
    }

    fn push_reg(&mut self, reg: Registers)
        ensures
            final(self).state() == emit(old(self).state(), seq![ins1(OpCodeTypes::Push, reg_name(reg))]),
            final(self).store() == old(self).store(),
            final(self).statements() == old(self).statements(),
    {
        self.new_instruction(OpCodeTypes::Push, ops1(reg.to_string()));
    }

    fn push_const(&mut self, constant: String)
        ensures
            final(self).state() == emit(old(self).state(), seq![ins1(OpCodeTypes::Push, constant@)]),
            final(self).store() == old(self).store(),
            final(self).statements() == old(self).statements(),
    {
        self.new_instruction(OpCodeTypes::Push, ops1(constant));
    }

    fn pop(&mut self, reg: Registers)
        ensures
            final(self).state() == emit(old(self).state(), seq![ins1(OpCodeTypes::Pop, reg_name(reg))]),
            final(self).store() == old(self).store(),
            final(self).statements() == old(self).statements(),
    {
        self.new_instruction(OpCodeTypes::Pop, ops1(reg.to_string()));
    }

    fn register_op(&mut self, opcode: OpCodeTypes, reg1: Registers, reg2: Registers)
        ensures
            final(self).state() == emit(
                old(self).state(),
                seq![ins2(opcode, reg_name(reg1), reg_name(reg2))],
            ),
            final(self).store() == old(self).store(),
            final(self).statements() == old(self).statements(),
    {
        self.new_instruction(opcode, ops2(reg1.to_string(), reg2.to_string()));
    }

    fn store_reg_on_stack(&mut self, offset: u64, reg: Registers)
        ensures
            final(self).state() == emit(
                old(self).state(),
                seq![ins2(OpCodeTypes::Mov, local_slot(offset), reg_name(reg))],
            ),
            final(self).store() == old(self).store(),
            final(self).statements() == old(self).statements(),
    {
        self.new_instruction(OpCodeTypes::Mov, ops2(local_slot_text(offset), reg.to_string()));
    }

    fn new_data(&mut self, opcode: OpCodeTypes, operands: Vec<String>)
        ensures
            final(self).state() == (GenState {
                data: old(self).state().data + seq![(opcode, strings_view(operands@))],
                ..old(self).state()
            }),
            final(self).store() == old(self).store(),
            final(self).statements() == old(self).statements(),
    {
        let ghost ops = strings_view(operands@);
        self.data_section.push(Instruction { opcode, operands });
        assert(self.state().data =~= old(self).state().data + seq![(opcode, ops)]);
    }

    fn find_function(&self, name: &String) -> (r: Option<usize>)
        ensures
            r is None <==> find_fn(self.state().funcs, name@) is None,
            r is Some ==> find_fn(self.state().funcs, name@) == Some(r->0 as nat),
    {
        let ghost all = self.state().funcs;
        let mut i: usize = self.functions.len();
        assert(all.subrange(0, i as int) =~= all);
        while i > 0
            invariant
                i <= self.functions@.len(),
                all == self.state().funcs,
                find_fn(all, name@) == find_fn(all.subrange(0, i as int), name@),
            decreases i,
        {
            let f = &self.functions[i - 1];
            assert(all.subrange(0, i as int).last() == sig_view(*f));
            assert(all.subrange(0, i as int).drop_last() =~= all.subrange(0, i - 1));
            if f.name == *name {
                return Some(f.params.len());
            }
            i = i - 1;
        }
        assert(all.subrange(0, 0) =~= Seq::<(Seq<char>, nat)>::empty());
        None
    }

    /// Emits the comparison of RAX with RBX and pushes its outcome, 1 or 0.
    fn comp(&mut self, op: TokenType)
        requires
            op == TokenType::LT || op == TokenType::GT || op == TokenType::LTEQ || op
                == TokenType::GTEQ || op == TokenType::EQ,
        ensures
            final(self).state() == emit(old(self).state(), infix_tail(op)->0),
            final(self).store() == old(self).store(),
            final(self).statements() == old(self).statements(),
    {
        self.register_op(OpCodeTypes::Cmp, Registers::RAX, Registers::RBX);
        let set = match op {
            TokenType::LT => OpCodeTypes::Setl,
            TokenType::GT => OpCodeTypes::Setg,
            TokenType::LTEQ => OpCodeTypes::Setle,
            TokenType::GTEQ => OpCodeTypes::Setge,
            _ => OpCodeTypes::Sete,
        };
        self.new_instruction(set, ops1(Registers::AL.to_string()));
        self.register_op(OpCodeTypes::Movzx, Registers::RAX, Registers::AL);
        self.push_reg(Registers::RAX);
        assert(self.state().code =~= old(self).state().code + infix_tail(op)->0);
    }

    /// Compiles an arithmetic or comparison node over `left` and `right`.
    fn compile_infix(&mut self, left: ExpRef, right: ExpRef, op: TokenType) -> (r: Result<
        (),
        CompileError,
    >)
        requires
            old(self).wf(),
        ensures
            unchanged_context(old(self), final(self)),
            agrees(r, final(self).state(), gen_infix(old(self).store(), old(self).state(), left as int, right as int, op)),
        decreases (if left > right {
            left
        } else {
            right
        }) + 1, 1nat,
    {
        let ghost g0 = self.state();
        self.compile_expression(left)?;
        let ghost g1 = self.state();
        self.compile_expression(right)?;
        let ghost g2 = self.state();
        assert(gen_expr(old(self).store(), g0, left as int) == Ok::<GenState, ErrorKind>(g1));
        assert(gen_expr(old(self).store(), g1, right as int) == Ok::<GenState, ErrorKind>(g2));
        self.pop(Registers::RBX);
        self.pop(Registers::RAX);
        let ghost pops = seq![ins1(OpCodeTypes::Pop, rbx()), ins1(OpCodeTypes::Pop, rax())];
        match op {
            TokenType::Plus => {
                self.register_op(OpCodeTypes::Add, Registers::RAX, Registers::RBX);
                self.push_reg(Registers::RAX);
            },
            TokenType::Minus => {
                self.register_op(OpCodeTypes::Sub, Registers::RAX, Registers::RBX);
                self.push_reg(Registers::RAX);
            },
            TokenType::Astrik => {
                self.register_op(OpCodeTypes::Mul, Registers::RAX, Registers::RBX);
                self.push_reg(Registers::RAX);
            },
            TokenType::LT | TokenType::GT | TokenType::LTEQ | TokenType::GTEQ | TokenType::EQ => {
                self.comp(op);
            },
            _ => {
                return Err(CompileError::UnsupportedOperator(op));
            },
        }
        assert(self.state().code =~= g2.code + (pops + infix_tail(op)->0));
        assert(self.state().data == g2.data);
        assert(self.state().scopes == g2.scopes);
        assert(self.state().funcs == g2.funcs);
        assert(self.state().strings == g2.strings);
        assert(self.state().labels == g2.labels);
        assert(self.state().frame == g2.frame);
        assert(self.state() == emit(g2, pops + infix_tail(op)->0));
        Ok(())
    }

    /// Compiles expression `exp`: its code goes to the text section (and a
    /// string's bytes to the data section), and leaves its value on the
    /// operand stack, but for an assignment or a call, which leave none.
    pub fn compile_expression(&mut self, exp: ExpRef) -> (r: Result<(), CompileError>)
        requires
            old(self).wf(),
        ensures
            unchanged_context(old(self), final(self)),
            agrees(r, final(self).state(), gen_expr(old(self).store(), old(self).state(), exp as int)),
        decreases exp + 1, 0nat,
    {
        if exp >= self.program.len() {
            return Err(CompileError::InvalidHandle);
        }
        let ghost g0 = self.state();
        match &self.program[exp] {
            Expression::Integer(i) => {
                let i = *i;
                let mut digits: Vec<char> = Vec::new();
                push_signed_decimal(i, &mut digits);
                assert(digits@ =~= signed_decimal(i as int));
                self.push_const(chars_to_string(&digits));
                Ok(())
            },
            Expression::String(s) => {
                let text = s.clone();
                if self.cur_str_idx == u64::MAX {
                    return Err(CompileError::LimitExceeded);
                }
                let label = prefixed_number(".S", self.cur_str_idx);
                let mut q = String::from_str("\"");
                q.append(text.as_str());
                q.append("\"");
                self.new_data(OpCodeTypes::Label, ops1(label.clone()));
                self.new_data(OpCodeTypes::Db, ops2(q, String::from_str("0")));
                self.new_instruction(OpCodeTypes::Mov, ops2(Registers::RAX.to_string(), label));
                self.cur_str_idx = self.cur_str_idx + 1;
                self.push_reg(Registers::RAX);
                assert(self.state().data =~= g0.data + seq![
                    ins1(OpCodeTypes::Label, string_label(g0.strings)),
                    ins2(OpCodeTypes::Db, quoted(text@), "0"@),
                ]);
                assert(self.state().code =~= g0.code + seq![
                    ins2(OpCodeTypes::Mov, rax(), string_label(g0.strings)),
                    ins1(OpCodeTypes::Push, rax()),
                ]);
                Ok(())
            },
            Expression::Identifier { value, .. } => {
                let name = value.clone();
                match self.table.get(&name) {
                    None => Err(CompileError::UndefinedVariable(name)),
                    Some(sym) => {
                        self.get_from_stack(sym.offset, Registers::RAX);
                        self.push_reg(Registers::RAX);
                        assert(self.state().code =~= g0.code + seq![
                            ins2(OpCodeTypes::Mov, rax(), local_slot(sym.offset)),
                            ins1(OpCodeTypes::Push, rax()),
                        ]);
                        Ok(())
                    },
                }
            },
            Expression::InfixExpression { left, op, right } => {
                let (l, o, rt) = (*left, *op, *right);
                if l >= exp || rt >= exp {
                    return Err(CompileError::InvalidHandle);
                }
                self.compile_infix(l, rt, o)
            },
            Expression::PrefixExpression { op, right } => {
                let (o, rt) = (*op, *right);
                if rt >= exp {
                    return Err(CompileError::InvalidHandle);
                }
                if o != TokenType::Minus {
                    return Err(CompileError::UnsupportedOperator(o));
                }
                self.push_const(String::from_str("0"));
                self.compile_expression(rt)?;
                let ghost g1 = self.state();
                self.pop(Registers::RBX);
                self.pop(Registers::RAX);
                self.register_op(OpCodeTypes::Sub, Registers::RAX, Registers::RBX);
                self.push_reg(Registers::RAX);
                assert(self.state().code =~= g1.code + seq![
                    ins1(OpCodeTypes::Pop, rbx()),
                    ins1(OpCodeTypes::Pop, rax()),
                    ins2(OpCodeTypes::Sub, rax(), rbx()),
                    ins1(OpCodeTypes::Push, rax()),
                ]);
                Ok(())
            },
            Expression::AssignExpression { left, right } => {
                let (l, rt) = (*left, *right);
                if l >= exp || rt >= exp {
                    return Err(CompileError::InvalidHandle);
                }
                self.compile_expression(rt)?;
                let ghost g1 = self.state();
                let name = match &self.program[l] {
                    Expression::Identifier { value, .. } => value.clone(),
                    _ => {
                        return Err(CompileError::AssignToNonIdentifier);
                    },
                };
                match self.table.get(&name) {
                    None => Err(CompileError::UndefinedVariable(name)),
                    Some(sym) => {
                        self.pop(Registers::RAX);
                        self.store_reg_on_stack(sym.offset, Registers::RAX);
                        assert(self.state().code =~= g1.code + seq![
                            ins1(OpCodeTypes::Pop, rax()),
                            ins2(OpCodeTypes::Mov, local_slot(sym.offset), rax()),
                        ]);
                        Ok(())
                    },
                }
            },
            Expression::FunctionCall { left, parameters } => {
                let callee = *left;
                let args = copy_refs(parameters);
                if callee >= exp {
                    return Err(CompileError::InvalidHandle);
                }
                let name = match &self.program[callee] {
                    Expression::Identifier { value, .. } => value.clone(),
                    _ => {
                        return Err(CompileError::UndefinedFunction(String::new()));
                    },
                };
                let count = match self.find_function(&name) {
                    None => {
                        return Err(CompileError::UndefinedFunction(name));
                    },
                    Some(n) => n,
                };
                if count != args.len() {
                    return Err(
                        CompileError::ArgumentCount { name, expected: count, found: args.len() },
                    );
                }
                let n = args.len();
                let mut k = n;
                assert(gen_expr(old(self).store(), g0, exp as int) == match gen_args(
                    old(self).store(),
                    g0,
                    args@,
                    exp as int,
                    n as int,
                ) {
                    Err(x) => Err(x),
                    Ok(g1) => Ok(emit(g1, seq![ins1(OpCodeTypes::Call, name@)])),
                });
                while k > 0
                    invariant
                        k <= n,
                        n == args@.len(),
                        g0 == old(self).state(),
                        self.wf(),
                        unchanged_context(old(self), self),
                        gen_args(old(self).store(), g0, args@, exp as int, n as int) == gen_args(
                            old(self).store(),
                            self.state(),
                            args@,
                            exp as int,
                            k as int,
                        ),
                        gen_expr(old(self).store(), g0, exp as int) == match gen_args(
                            old(self).store(),
                            g0,
                            args@,
                            exp as int,
                            n as int,
                        ) {
                            Err(x) => Err(x),
                            Ok(g1) => Ok(emit(g1, seq![ins1(OpCodeTypes::Call, name@)])),
                        },
                    decreases k,
                {
                    let a = args[k - 1];
                    let ghost sk = self.state();
                    if a >= exp {
                        assert(gen_args(old(self).store(), sk, args@, exp as int, k as int) == Err::<
                            GenState,
                            ErrorKind,
                        >(ErrorKind::InvalidHandle));
                        return Err(CompileError::InvalidHandle);
                    }
                    let res = self.compile_expression(a);
                    if res.is_err() {
                        assert(gen_args(old(self).store(), sk, args@, exp as int, k as int) == match gen_expr(
                            old(self).store(),
                            sk,
                            a as int,
                        ) {
                            Err(x) => Err(x),
                            Ok(g1) => gen_args(old(self).store(), g1, args@, exp as int, k - 1),
                        });
                        return res;
                    }
                    k = k - 1;
                }
                self.new_instruction(OpCodeTypes::Call, ops1(name));
                Ok(())
            },
        }
    }

    fn setup_stackfram(&mut self)
        ensures
            final(self).state() == emit(
                old(self).state(),
                seq![
                    ins1(OpCodeTypes::Push, reg_name(Registers::RBP)),
                    ins2(OpCodeTypes::Mov, reg_name(Registers::RBP), reg_name(Registers::RSP)),
                ],
            ),
            final(self).store() == old(self).store(),
            final(self).statements() == old(self).statements(),
    {
        self.push_reg(Registers::RBP);
        self.register_op(OpCodeTypes::Mov, Registers::RBP, Registers::RSP);
        assert(self.state().code =~= old(self).state().code + seq![
            ins1(OpCodeTypes::Push, reg_name(Registers::RBP)),
            ins2(OpCodeTypes::Mov, reg_name(Registers::RBP), reg_name(Registers::RSP)),
        ]);
    }

    fn cleanup_stackframe(&mut self)
        ensures
            final(self).state() == emit(
                old(self).state(),
                seq![
                    ins2(OpCodeTypes::Mov, reg_name(Registers::RSP), reg_name(Registers::RBP)),
                    ins1(OpCodeTypes::Pop, reg_name(Registers::RBP)),
                ],
            ),
            final(self).store() == old(self).store(),
            final(self).statements() == old(self).statements(),
    {
        self.register_op(OpCodeTypes::Mov, Registers::RSP, Registers::RBP);
        self.pop(Registers::RBP);
        assert(self.state().code =~= old(self).state().code + seq![
            ins2(OpCodeTypes::Mov, reg_name(Registers::RSP), reg_name(Registers::RBP)),
            ins1(OpCodeTypes::Pop, reg_name(Registers::RBP)),
        ]);
    }

    /// Compiles statements `body`, in order, stopping at the first error.
    fn compile_body(&mut self, body: &Vec<Statement>) -> (r: Result<(), CompileError>)
        requires
            old(self).wf(),
        ensures
            final(self).wf(),
            final(self).store() == old(self).store(),
            final(self).statements() == old(self).statements(),
            old(self).state().code.len() <= final(self).state().code.len(),
            agrees(r, final(self).state(), gen_body(old(self).store(), old(self).state(), body@, 0)),
        decreases body,
    {
        let mut i: usize = 0;
        while i < body.len()
            invariant
                i <= body@.len(),
                self.wf(),
                self.store() == old(self).store(),
                self.statements() == old(self).statements(),
                old(self).state().code.len() <= self.state().code.len(),
                gen_body(old(self).store(), old(self).state(), body@, 0) == gen_body(
                    old(self).store(),
                    self.state(),
                    body@,
                    i as int,
                ),
            decreases body@.len() - i,
        {
            let ghost gi = self.state();
            let res = self.compile_stmt(&body[i]);
            if res.is_err() {
                assert(gen_body(old(self).store(), gi, body@, i as int) == match gen_stmt(
                    old(self).store(),
                    gi,
                    body@[i as int],
                ) {
                    Err(x) => Err(x),
                    Ok(g1) => gen_body(old(self).store(), g1, body@, i + 1),
                });
                return res;
            }
            i = i + 1;
        }
        Ok(())
    }

    /// Binds the parameters of a function in the innermost scope and copies
    /// each into its local slot.
    fn compile_params(&mut self, params: &Vec<Parameter>) -> (r: Result<(), CompileError>)
        requires
            old(self).wf(),
        ensures
            final(self).wf(),
            final(self).store() == old(self).store(),
            final(self).statements() == old(self).statements(),
            old(self).state().code.len() <= final(self).state().code.len(),
            agrees(r, final(self).state(), gen_params(old(self).state(), params@, 0, 8)),
    {
        let mut offset: u64 = 8;
        let mut i: usize = 0;
        while i < params.len()
            invariant
                i <= params@.len(),
                self.wf(),
                self.store() == old(self).store(),
                self.statements() == old(self).statements(),
                old(self).state().code.len() <= self.state().code.len(),
                gen_params(old(self).state(), params@, 0, 8) == gen_params(
                    self.state(),
                    params@,
                    i as int,
                    offset,
                ),
            decreases params@.len() - i,
        {
            if offset > u64::MAX - 8 {
                return Err(CompileError::LimitExceeded);
            }
            offset = offset + 8;
            let p = &params[i];
            let ghost gi = self.state();
            self.table.add(p.name.clone(), Symbol { symb_type: p.param_type.clone(), offset });
            if self.frame_size < offset {
                self.frame_size = offset;
            }
            self.new_instruction(
                OpCodeTypes::Mov,
                ops2(Registers::RAX.to_string(), with_number("QWORD [RBP + ", offset, "]")),
            );
            self.new_instruction(
                OpCodeTypes::Mov,
                ops2(with_number("QWORD [RBP - ", offset, "]"), Registers::RAX.to_string()),
            );
            assert(self.state().code =~= gi.code + seq![
                ins2(OpCodeTypes::Mov, rax(), param_source(offset)),
                ins2(OpCodeTypes::Mov, param_slot(offset), rax()),
            ]);
            i = i + 1;
        }
        Ok(())
    }

    /// Compiles one statement.  A function declaration is registered before
    /// its body is compiled, so it may call itself; its stack reservation is
    /// rewritten after the body with the largest offset the body used (at
    /// least 16).  The branches of an `if` get scopes of their own.  An
    /// expression statement leaves its value on the operand stack; the
    /// frame teardown of the function discards it.
    #[verifier::rlimit(50)]
    pub fn compile_stmt(&mut self, stmt: &Statement) -> (r: Result<(), CompileError>)
        requires
            old(self).wf(),
        ensures
            final(self).wf(),
            final(self).store() == old(self).store(),
            final(self).statements() == old(self).statements(),
            old(self).state().code.len() <= final(self).state().code.len(),
            agrees(r, final(self).state(), gen_stmt(old(self).store(), old(self).state(), *stmt)),
        decreases stmt,
    {
        let ghost g0 = self.state();
        match stmt {
            Statement::ExpressionStatement(e) => self.compile_expression(*e),
            Statement::ReturnStatement { value } => {
                self.compile_expression(*value)?;
                let ghost g1 = self.state();
                self.new_instruction(OpCodeTypes::Leave, no_ops());
                self.new_instruction(OpCodeTypes::Ret, no_ops());
                assert(self.state().code =~= g1.code + seq![
                    ins0(OpCodeTypes::Leave),
                    ins0(OpCodeTypes::Ret),
                ]);
                Ok(())
            },
            Statement::VarStatement { name, value, var_type } => {
                let base = self.table.cur_offset();
                if base > u64::MAX - 8 {
                    return Err(CompileError::LimitExceeded);
                }
                let offset = base + 8;
                self.table.add(name.clone(), Symbol { symb_type: var_type.clone(), offset });
                if self.frame_size < offset {
                    self.frame_size = offset;
                }
                match value {
                    None => Ok(()),
                    Some(v) => {
                        self.compile_expression(*v)?;
                        let ghost g2 = self.state();
                        self.pop(Registers::RAX);
                        self.store_reg_on_stack(offset, Registers::RAX);
                        assert(self.state().code =~= g2.code + seq![
                            ins1(OpCodeTypes::Pop, rax()),
                            ins2(OpCodeTypes::Mov, local_slot(offset), rax()),
                        ]);
                        Ok(())
                    },
                }
            },
            Statement::IfElseStatement { condition, if_body, else_body } => {
                self.compile_expression(*condition)?;
                let ghost g1 = self.state();
                self.pop(Registers::RAX);
                self.new_instruction(
                    OpCodeTypes::Cmp,
                    ops2(Registers::RAX.to_string(), String::from_str("0")),
                );
                if self.cur_cond_idx == u64::MAX {
                    return Err(CompileError::LimitExceeded);
                }
                let idx1 = self.cur_cond_idx;
                self.cur_cond_idx = self.cur_cond_idx + 1;
                self.new_instruction(OpCodeTypes::Je, ops1(prefixed_number(".A", idx1)));
                let base = self.table.cur_offset();
                self.table.enter_scope(base);
                assert(self.state().code =~= g1.code + seq![
                    ins1(OpCodeTypes::Pop, rax()),
                    ins2(OpCodeTypes::Cmp, rax(), "0"@),
                    ins1(OpCodeTypes::Je, branch_label(idx1)),
                ]);
                self.compile_body(if_body)?;
                self.table.move_out()?;
                if self.cur_cond_idx == u64::MAX {
                    return Err(CompileError::LimitExceeded);
                }
                let ghost g4 = self.state();
                let idx2 = self.cur_cond_idx;
                self.cur_cond_idx = self.cur_cond_idx + 1;
                self.new_instruction(OpCodeTypes::Jmp, ops1(prefixed_number(".A", idx2)));
                self.new_instruction(OpCodeTypes::Label, ops1(prefixed_number(".A", idx1)));
                assert(self.state().code =~= g4.code + seq![
                    ins1(OpCodeTypes::Jmp, branch_label(idx2)),
                    ins1(OpCodeTypes::Label, branch_label(idx1)),
                ]);
                match else_body {
                    None => {},
                    Some(eb) => {
                        let base = self.table.cur_offset();
                        self.table.enter_scope(base);
                        self.compile_body(eb)?;
                        self.table.move_out()?;
                    },
                }
                let ghost g7 = self.state();
                self.new_instruction(OpCodeTypes::Label, ops1(prefixed_number(".A", idx2)));
                assert(self.state().code =~= g7.code + seq![
                    ins1(OpCodeTypes::Label, branch_label(idx2)),
                ]);
                Ok(())
            },
            Statement::FuncStatement { name, call_inputs, return_type, body } => {
                let sig = FunctionSig {
                    name: name.clone(),
                    params: copy_params(call_inputs),
                    return_type: match return_type {
                        Some(t) => Some(t.clone()),
                        None => None,
                    },
                };
                self.functions.push(sig);
                assert(self.state().funcs =~= g0.funcs.push((name@, call_inputs@.len())));
                self.new_instruction(OpCodeTypes::Label, ops1(name.clone()));
                self.setup_stackfram();
                self.reserve_stack(16);
                assert(self.state().code =~= g0.code + prologue(name@));
                let idx = self.output.len() - 1;
                let saved = self.frame_size;
                self.table.enter_scope(0);
                self.frame_size = 0;
                self.compile_params(call_inputs)?;
                self.compile_body(body)?;
                let ghost g5 = self.state();
                let size = if self.frame_size < 16 {
                    16
                } else {
                    self.frame_size
                };
                let patched = Instruction {
                    opcode: OpCodeTypes::Sub,
                    operands: ops2(Registers::RSP.to_string(), decimal_string(size)),
                };
                self.output.remove(idx);
                self.output.insert(idx, patched);
                assert(self.state().code =~= g5.code.update(
                    idx as int,
                    ins2(OpCodeTypes::Sub, reg_name(Registers::RSP), decimal(size as nat)),
                ));
                self.frame_size = saved;
                self.table.move_out()?;
                let ghost g6 = self.state();
                let main_name = String::from_str("main");
                if *name == main_name {
                    self.register_op(OpCodeTypes::Xor, Registers::EAX, Registers::EAX);
                    self.new_instruction(OpCodeTypes::Leave, no_ops());
                    self.new_instruction(OpCodeTypes::Ret, no_ops());
                } else {
                    self.cleanup_stackframe();
                    self.new_instruction(OpCodeTypes::Ret, no_ops());
                }
                assert(self.state().code =~= g6.code + epilogue(name@));
                Ok(())
            },
        }
    }

    fn print_builtin(&mut self)
        ensures
            final(self).state() == emit(old(self).state(), print_body()),
            final(self).store() == old(self).store(),
            final(self).statements() == old(self).statements(),
    {
        self.setup_stackfram();
        self.new_instruction(
            OpCodeTypes::Mov,
            ops2(Registers::RDI.to_string(), String::from_str("[RBP + 16]")),
        );
        self.new_instruction(
            OpCodeTypes::Mov,
            ops2(Registers::RSI.to_string(), String::from_str("[RBP + 24]")),
        );
        self.register_op(OpCodeTypes::Xor, Registers::RAX, Registers::RAX);
        self.new_instruction(OpCodeTypes::Call, ops1(String::from_str("printf")));
        self.new_instruction(OpCodeTypes::Leave, no_ops());
        self.new_instruction(OpCodeTypes::Ret, no_ops());
        assert(self.state().code =~= old(self).state().code + print_body());
    }

    /// Registers the built-in print under `name`, with a format and one
    /// value as its parameters, and emits its body.
    pub fn add_builtin_function(&mut self, name: String)
        ensures
            final(self).wf() == old(self).wf(),
            final(self).store() == old(self).store(),
            final(self).statements() == old(self).statements(),
            final(self).state() == (GenState {
                code: old(self).state().code + seq![ins1(OpCodeTypes::Label, name@)] + print_body(),
                funcs: old(self).state().funcs.push((name@, 2)),
                ..old(self).state()
            }),
    {
        let mut params: Vec<Parameter> = Vec::new();
        params.push(Parameter { name: String::from_str("fmt"), param_type: String::from_str("string") });
        params.push(Parameter { name: String::from_str("x"), param_type: String::from_str("any") });
        self.functions.push(FunctionSig { name: name.clone(), params, return_type: None });
        assert(self.state().funcs =~= old(self).state().funcs.push((name@, 2)));
        self.new_instruction(OpCodeTypes::Label, ops1(name));
        self.print_builtin();
        assert(self.state().code =~= old(self).state().code + seq![ins1(OpCodeTypes::Label, name@)]
            + print_body());
    }

    /// Compiles the whole program: the header directives, the built-in
    /// print, then each top-level statement in order.  The first error ends
    /// the compile.
    pub fn compile(&mut self) -> (r: Result<(), CompileError>)
        requires
            old(self).wf(),
        ensures
            final(self).store() == old(self).store(),
            final(self).statements() == old(self).statements(),
            agrees(
                r,
                final(self).state(),
                gen_body(old(self).store(), with_builtins(old(self).state()), old(self).statements(), 0),
            ),
    {
        self.new_instruction(OpCodeTypes::Global, ops1(String::from_str("main")));
        self.new_instruction(OpCodeTypes::Import, ops1(String::from_str("printf")));
        self.add_builtin_function(String::from_str("print"));
        assert(self.state().code =~= with_builtins(old(self).state()).code);
        assert(self.state() == with_builtins(old(self).state()));
        let mut stmts: Vec<Statement> = Vec::new();
        core::mem::swap(&mut stmts, &mut self.stmts);
        let r = self.compile_body(&stmts);
        core::mem::swap(&mut stmts, &mut self.stmts);
        r
    }

    /// The assembly listing of what has been emitted.
    pub fn to_assembly(&self) -> (r: String)
        ensures
            r@ == listing(self.state()),
    {
        let mut out = String::new();
        if self.data_section.len() > 0 {
            out.append("section .data\n");
            let data = render_lines(&self.data_section);
            let text = join_strings(&data, "\n");
            out.append(text.as_str());
            out.append("\n");
        }
        out.append("section .text\n");
        let code = render_lines(&self.output);
        let text = join_strings(&code, "\n");
        out.append(text.as_str());
        out
    }

    fn get_from_stack(&mut self, offset: u64, reg: Registers)
        ensures
            final(self).state() == emit(
                old(self).state(),
                seq![ins2(OpCodeTypes::Mov, reg_name(reg), local_slot(offset))],
            ),
            final(self).store() == old(self).store(),
            final(self).statements() == old(self).statements(),
    {
        self.new_instruction(OpCodeTypes::Mov, ops2(reg.to_string(), local_slot_text(offset)));
    }
}

/// Compiles source text to an assembly listing: lexes and parses it, then
/// generates code for the statements it holds.  On success the listing is
/// the one that compiling the parsed statements over the parsed store gives.
pub fn compile_source(source: String) -> (r: Result<String, CompileError>)
    ensures
        r is Ok ==> is_listing_of_some_program(r->Ok_0@),
        r is Ok ==> compiled_from(source@, r->Ok_0@),
        r is Err ==> compile_fails(source@),
{
    let ghost src = source@;
    let t = Tokenizer::new(source);
    let mut p = Parser::new(t);
    assert(store_view(p.store()) =~= Seq::<ExprV>::empty());
    let parsed_stmts = p.parse_program();
    let stmts = match parsed_stmts {
        Ok(v) => v,
        Err(x) => {
            return Err(x);
        },
    };
    let ghost ss = stmts@;
    let ghost store = p.store();
    assert(store_wf(store));
    assert(forall|j: int|
        0 <= j < ss.len() ==> stmt_refs_below(#[trigger] ss[j], store.len() as int));
    let program = p.get_program();
    let mut c = Compiler::new(stmts, program);
    let outcome = c.compile();
    if outcome.is_err() {
        proof {
            assert forall|stmts2: Seq<Statement>, store2: Seq<Expression>|
                body_view(stmts2, stmts2.len() as int) == parsed(src)->Ok_0.2 && store_view(store2)
                    == parsed(src)->Ok_0.1 implies #[trigger] gen_body(
                store2,
                with_builtins(initial_state()),
                stmts2,
                0,
            ) is Err by {
                lemma_body_view_index(ss, ss.len() as int);
                lemma_body_view_index(stmts2, stmts2.len() as int);
                assert forall|j: int| 0 <= j < ss.len() implies stmt_view(#[trigger] ss[j]) == stmt_view(
                    stmts2[j],
                ) by {
                    assert(body_view(ss, ss.len() as int)[j] == body_view(stmts2, stmts2.len() as int)[j]);
                }
                lemma_gen_body_cong(store, store2, with_builtins(initial_state()), ss, stmts2, 0);
            }
        }
        return Err(outcome.unwrap_err());
    }
    let text = c.to_assembly();
    assert(compiles_to(ss, store, text@));
    assert(is_listing_of_some_program(text@));
    assert(parsed(src) is Ok && body_view(ss, ss.len() as int) == parsed(src)->Ok_0.2 && store_view(
        store,
    ) == parsed(src)->Ok_0.1);
    assert(compiled_from(src, text@));
    Ok(text)
}

} // verus!
