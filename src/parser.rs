use vstd::prelude::*;

use crate::ast::{
    body_refs_below, lemma_body_refs_all, lemma_body_refs_mono, lemma_stmt_refs_mono, refs_below,
    stmt_refs_below, store_wf, ExpRef, Expression, Parameter, Program, Statement,
};
use crate::error::{error_kind, CompileError};
use crate::grammar::{
    adv, body_view, expr_view, lemma_body_view_push, params_view, sp_block, sp_block_items, sp_expr,
    sp_infix, sp_list, sp_literal, sp_loop, sp_param_list, sp_params, sp_prefix, sp_program, sp_stmt,
    stmt_view, store_view, ExprResult,
};
use crate::text::string_to_chars;
use crate::token::{Token, TokenType};
use crate::tokenizer::{lex_at, skip_space, Tokenizer};

verus! {

/// Binding strength of operators, weakest first.
#[derive(Clone, Copy, Debug, PartialEq, Eq, Structural)]
pub enum Prio {
    Lowest,
    Assign,
    Or,
    And,
    Equal,
    Compare,
    Add,
    Mult,
    Prefix,
    Call,
}

pub open spec fn rank(p: Prio) -> nat {
    match p {
        Prio::Lowest => 0,
        Prio::Assign => 1,
        Prio::Or => 2,
        Prio::And => 3,
        Prio::Equal => 4,
        Prio::Compare => 5,
        Prio::Add => 6,
        Prio::Mult => 7,
        Prio::Prefix => 8,
        Prio::Call => 9,
    }
}

/// The binding strength of a token in infix position.
pub open spec fn prio_of(t: TokenType) -> Prio {
    match t {
        TokenType::Plus | TokenType::Minus => Prio::Add,
        TokenType::Astrik | TokenType::Slash => Prio::Mult,
        TokenType::LParent => Prio::Call,
        TokenType::Assign => Prio::Assign,
        TokenType::And => Prio::And,
        TokenType::Or => Prio::Or,
        TokenType::LT | TokenType::GT | TokenType::LTEQ | TokenType::GTEQ => Prio::Compare,
        TokenType::EQ => Prio::Equal,
        _ => Prio::Lowest,
    }
}

fn op_string(op: TokenType) -> (r: String)
    ensures
        r@ == op_text(op),
{
    match op {
        TokenType::Plus => String::from_str("+"),
        TokenType::Minus => String::from_str("-"),
        TokenType::Astrik => String::from_str("*"),
        TokenType::Slash => String::from_str("/"),
        TokenType::LT => String::from_str("<"),
        TokenType::GT => String::from_str(">"),
        TokenType::LTEQ => String::from_str("<="),
        TokenType::GTEQ => String::from_str(">="),
        TokenType::EQ => String::from_str("=="),
        TokenType::And => String::from_str("&&"),
        TokenType::Or => String::from_str("||"),
        TokenType::Assign => String::from_str("="),
        _ => String::new(),
    }
}

fn rank_of(p: Prio) -> (r: u8)
    ensures
        r == rank(p),
{
    match p {
        Prio::Lowest => 0,
        Prio::Assign => 1,
        Prio::Or => 2,
        Prio::And => 3,
        Prio::Equal => 4,
        Prio::Compare => 5,
        Prio::Add => 6,
        Prio::Mult => 7,
        Prio::Prefix => 8,
        Prio::Call => 9,
    }
}

/// The tokens that lexing `s` from position `i` gives, up to and including
/// the first `EOF`: each as its kind and its text.
pub open spec fn lex_all(s: Seq<char>, i: int) -> Seq<(TokenType, Seq<char>)>
    decreases s.len() - i,
{
    let (k, text, e) = lex_at(s, i);
    if k == TokenType::EOF || i < 0 || i >= s.len() || skip_space(s, e) <= i || skip_space(s, e)
        > s.len() {
        seq![(k, text)]
    } else {
        seq![(k, text)] + lex_all(s, skip_space(s, e))
    }
}

/// A parse step ended as the grammar says: at the position, with the store
/// and the node it gives, or with an error of the kind it names.
pub open spec fn agrees_expr(r: Result<ExpRef, CompileError>, after: &Parser, s: ExprResult) -> bool {
    match s {
        Ok((q, st, e)) => r is Ok && r->Ok_0 == e && after.position() == q && store_view(after.store())
            == st,
        Err(k) => r is Err && error_kind(r->Err_0) == k,
    }
}

/// The kind of statement that a statement starting with a token of kind `k` is.
pub open spec fn stmt_fits(k: TokenType, s: Statement) -> bool {
    match k {
        TokenType::Var => s is VarStatement,
        TokenType::If => s is IfElseStatement,
        TokenType::Return => s is ReturnStatement,
        TokenType::Func => s is FuncStatement,
        _ => s is ExpressionStatement,
    }
}

/// The kinds and texts of a sequence of tokens.
pub open spec fn token_views(ts: Seq<Token>) -> Seq<(TokenType, Seq<char>)> {
    ts.map_values(|t: Token| (t.token_type, t.value@))
}

/// The value of a run of decimal digits.
pub open spec fn digits_value(s: Seq<char>) -> int
    decreases s.len(),
{
    if s.len() == 0 {
        0
    } else {
        digits_value(s.drop_last()) * 10 + (s.last() as int - '0' as int)
    }
}

proof fn lemma_lex_advances(s: Seq<char>, i: int)
    requires
        0 <= i < s.len(),
    ensures
        lex_at(s, i).0 != TokenType::EOF,
        lex_at(s, i).2 > i,
        skip_space(s, lex_at(s, i).2) >= lex_at(s, i).2,
{
    lemma_skip_space_ge(s, lex_at(s, i).2);
    let c = s[i];
    if crate::tokenizer::is_number(c) {
        lemma_digits_end_ge(s, i);
        assert(s[i] == c);
    } else if c == '"' {
        lemma_quote_end_ge(s, i + 1);
    } else {
        lemma_word_end_ge(s, i + 1);
    }
}

proof fn lemma_skip_space_ge(s: Seq<char>, i: int)
    ensures
        skip_space(s, i) >= i,
    decreases s.len() - i,
{
    if 0 <= i < s.len() && crate::tokenizer::is_space(s[i]) {
        lemma_skip_space_ge(s, i + 1);
    }
}

proof fn lemma_digits_end_ge(s: Seq<char>, i: int)
    ensures
        digits_end_ge(s, i),
    decreases s.len() - i,
{
    if 0 <= i < s.len() && crate::tokenizer::is_number(s[i]) {
        lemma_digits_end_ge(s, i + 1);
    }
}

spec fn digits_end_ge(s: Seq<char>, i: int) -> bool {
    &&& crate::tokenizer::digits_end(s, i) >= i
    &&& (0 <= i < s.len() && crate::tokenizer::is_number(s[i])) ==> crate::tokenizer::digits_end(
        s,
        i,
    ) > i
}

proof fn lemma_quote_end_ge(s: Seq<char>, i: int)
    ensures
        crate::tokenizer::quote_end(s, i) >= i,
    decreases s.len() - i,
{
    if 0 <= i < s.len() && s[i] != '"' {
        lemma_quote_end_ge(s, i + 1);
    }
}

proof fn lemma_word_end_ge(s: Seq<char>, i: int)
    ensures
        crate::tokenizer::word_end(s, i) >= i,
    decreases s.len() - i,
{
    if 0 <= i < s.len() && crate::tokenizer::is_word_char(s[i]) {
        lemma_word_end_ge(s, i + 1);
    }
}

pub open spec fn all_digits(s: Seq<char>) -> bool {
    forall|j: int| 0 <= j < s.len() ==> crate::tokenizer::is_number(#[trigger] s[j])
}

/// Reads the value of a run of decimal digits, or `None` when the text holds
/// another character or the value does not fit in an `i64`.
pub fn parse_integer(s: &Vec<char>) -> (r: Option<i64>)
    ensures
        r is Some <==> all_digits(s@) && digits_value(s@) <= i64::MAX,
        r is Some ==> r->0 == digits_value(s@),
{
    let mut j: usize = 0;
    while j < s.len()
        invariant
            j <= s@.len(),
            forall|k: int| 0 <= k < j ==> crate::tokenizer::is_number(#[trigger] s@[k]),
        decreases s@.len() - j,
    {
        if !Tokenizer::is_number(s[j]) {
            return None;
        }
        j = j + 1;
    }
    let mut acc: i64 = 0;
    let mut i: usize = 0;
    while i < s.len()
        invariant
            i <= s@.len(),
            forall|j: int| 0 <= j < s@.len() ==> crate::tokenizer::is_number(#[trigger] s@[j]),
            acc == digits_value(s@.subrange(0, i as int)),
            0 <= acc,
        decreases s@.len() - i,
    {
        let d = (s[i] as u32 - '0' as u32) as i64;
        assert(s@.subrange(0, i + 1).drop_last() =~= s@.subrange(0, i as int));
        proof {
            lemma_digits_value_mono(s@, i as int + 1);
        }
        if acc > (i64::MAX - d) / 10 {
            proof {
                assert(digits_value(s@.subrange(0, i + 1)) > i64::MAX) by (nonlinear_arith)
                    requires
                        acc > (i64::MAX - d) / 10,
                        digits_value(s@.subrange(0, i + 1)) == acc * 10 + d,
                        0 <= d <= 9,
                ;
            }
            assert(s@.subrange(0, s@.len() as int) =~= s@);
            return None;
        }
        assert(acc * 10 + d <= i64::MAX) by (nonlinear_arith)
            requires
                acc <= (i64::MAX - d) / 10,
                0 <= d <= 9,
                0 <= acc,
        ;
        acc = acc * 10 + d;
        i = i + 1;
    }
    assert(s@.subrange(0, s@.len() as int) =~= s@);
    Some(acc)
}

/// The value of a longer run of digits is at least that of its prefix.
proof fn lemma_digits_value_mono(s: Seq<char>, k: int)
    requires
        0 <= k <= s.len(),
        forall|j: int| 0 <= j < s.len() ==> crate::tokenizer::is_number(#[trigger] s[j]),
    ensures
        forall|m: int|
            k <= m <= s.len() ==> digits_value(s.subrange(0, k)) <= #[trigger] digits_value(
                s.subrange(0, m),
            ),
        digits_value(s.subrange(0, k)) >= 0,
    decreases k,
{
    if k > 0 {
        lemma_digits_value_mono(s, k - 1);
        assert(s.subrange(0, k).drop_last() =~= s.subrange(0, k - 1));
    } else {
        assert(s.subrange(0, 0) =~= Seq::<char>::empty());
    }
    assert forall|m: int| k <= m <= s.len() implies digits_value(s.subrange(0, k))
        <= #[trigger] digits_value(s.subrange(0, m)) by {
        lemma_digits_value_step(s, k, m);
    }
}

proof fn lemma_digits_value_step(s: Seq<char>, k: int, m: int)
    requires
        0 <= k <= m <= s.len(),
        forall|j: int| 0 <= j < s.len() ==> crate::tokenizer::is_number(#[trigger] s[j]),
    ensures
        0 <= digits_value(s.subrange(0, k)) <= digits_value(s.subrange(0, m)),
    decreases m,
{
    if m > k {
        lemma_digits_value_step(s, k, m - 1);
        assert(s.subrange(0, m).drop_last() =~= s.subrange(0, m - 1));
        assert(crate::tokenizer::is_number(s[m - 1]));
    } else {
        lemma_digits_value_nonneg(s, k);
    }
}

proof fn lemma_digits_value_nonneg(s: Seq<char>, m: int)
    requires
        0 <= m <= s.len(),
        forall|j: int| 0 <= j < s.len() ==> crate::tokenizer::is_number(#[trigger] s[j]),
    ensures
        0 <= digits_value(s.subrange(0, m)),
    decreases m,
{
    if m > 0 {
        lemma_digits_value_nonneg(s, m - 1);
        assert(s.subrange(0, m).drop_last() =~= s.subrange(0, m - 1));
        assert(crate::tokenizer::is_number(s[m - 1]));
    } else {
        assert(s.subrange(0, 0) =~= Seq::<char>::empty());
    }
}

/// The source text of an operator.
pub open spec fn op_text(op: TokenType) -> Seq<char> {
    match op {
        TokenType::Plus => "+"@,
        TokenType::Minus => "-"@,
        TokenType::Astrik => "*"@,
        TokenType::Slash => "/"@,
        TokenType::LT => "<"@,
        TokenType::GT => ">"@,
        TokenType::LTEQ => "<="@,
        TokenType::GTEQ => ">="@,
        TokenType::EQ => "=="@,
        TokenType::And => "&&"@,
        TokenType::Or => "||"@,
        TokenType::Assign => "="@,
        _ => Seq::empty(),
    }
}

/// The source text of expression `e` of `store`, with every operator node
/// in parentheses so that no precedence is needed to group it.
pub open spec fn print_expr(store: Seq<Expression>, e: int) -> Seq<char>
    decreases e + 1, 0nat,
{
    if e < 0 || e >= store.len() {
        Seq::empty()
    } else {
        match store[e] {
            Expression::InfixExpression { left, op, right } => if left < e && right < e {
                "("@ + print_expr(store, left as int) + " "@ + op_text(op) + " "@ + print_expr(
                    store,
                    right as int,
                ) + ")"@
            } else {
                Seq::empty()
            },
            Expression::PrefixExpression { op, right } => if right < e {
                "("@ + op_text(op) + print_expr(store, right as int) + ")"@
            } else {
                Seq::empty()
            },
            Expression::AssignExpression { left, right } => if left < e && right < e {
                "("@ + print_expr(store, left as int) + " = "@ + print_expr(store, right as int)
                    + ")"@
            } else {
                Seq::empty()
            },
            Expression::FunctionCall { left, parameters } => if left < e {
                print_expr(store, left as int) + "("@ + print_args(
                    store,
                    parameters@,
                    e,
                    parameters@.len() as int,
                ) + ")"@
            } else {
                Seq::empty()
            },
            Expression::Integer(i) => crate::text::signed_decimal(i as int),
            Expression::String(s) => "\""@ + s@ + "\""@,
            Expression::Identifier { value, .. } => value@,
        }
    }
}

/// The source text of arguments `args[..k]` of a call at node `e`,
/// separated by commas.
pub open spec fn print_args(store: Seq<Expression>, args: Seq<usize>, e: int, k: int) -> Seq<char>
    decreases e, k,
{
    if k <= 0 || k > args.len() {
        Seq::empty()
    } else {
        let last = if args[k - 1] < e {
            print_expr(store, args[k - 1] as int)
        } else {
            Seq::empty()
        };
        if k == 1 {
            last
        } else {
            print_args(store, args, e, k - 1) + ", "@ + last
        }
    }
}

/// `n` tabs.
pub open spec fn tabs(n: nat) -> Seq<char>
    decreases n,
{
    if n == 0 {
        Seq::empty()
    } else {
        tabs((n - 1) as nat) + "\t"@
    }
}

/// The source text of parameters `ps[..k]`, as `name: type`, separated by
/// commas.
pub open spec fn print_params(ps: Seq<Parameter>, k: int) -> Seq<char>
    decreases k,
{
    if k <= 0 || k > ps.len() {
        Seq::empty()
    } else {
        let last = ps[k - 1].name@ + ": "@ + ps[k - 1].param_type@;
        if k == 1 {
            last
        } else {
            print_params(ps, k - 1) + ", "@ + last
        }
    }
}

/// The source text of statement `s`, each line starting with `pre`, a
/// block's statements one tab further in.
pub open spec fn print_stmt(store: Seq<Expression>, s: Statement, pre: Seq<char>) -> Seq<char>
    decreases s, 0nat,
{
    match s {
        Statement::VarStatement { name, value, var_type } => pre + "var "@ + name@ + ": "@
            + var_type@ + match value {
            Some(v) => " = "@ + print_expr(store, v as int),
            None => Seq::empty(),
        } + ";\n"@,
        Statement::ReturnStatement { value } => pre + "return "@ + print_expr(store, value as int)
            + ";\n"@,
        Statement::ExpressionStatement(e) => pre + print_expr(store, e as int) + ";\n"@,
        Statement::IfElseStatement { condition, if_body, else_body } => pre + "if "@ + print_expr(
            store,
            condition as int,
        ) + " {\n"@ + print_body(store, if_body@, pre + "\t"@, if_body@.len() as int) + pre
            + "}"@ + match else_body {
            Some(b) => " else {\n"@ + print_body(store, b@, pre + "\t"@, b@.len() as int) + pre
                + "}"@,
            None => Seq::empty(),
        } + "\n"@,
        Statement::FuncStatement { name, call_inputs, return_type, body } => pre + "func "@ + name@
            + "("@ + print_params(call_inputs@, call_inputs@.len() as int) + ")"@ + match return_type {
            Some(t) => ": "@ + t@,
            None => Seq::empty(),
        } + " {\n"@ + print_body(store, body@, pre + "\t"@, body@.len() as int) + pre + "}\n"@,
    }
}

/// The source text of statements `v[..k]`, each line starting with `pre`.
pub open spec fn print_body(store: Seq<Expression>, v: Seq<Statement>, pre: Seq<char>, k: int) -> Seq<
    char,
>
    decreases v, k,
{
    if k <= 0 || k > v.len() {
        Seq::empty()
    } else {
        print_body(store, v, pre, k - 1) + print_stmt(store, v[k - 1], pre)
    }
}

/// A recursive-descent, precedence-climbing parser over the tokens of one
/// source text.  It fills one store of expression nodes.
pub struct Parser {
    tokens: Vec<Token>,
    pos: usize,
    program: Program,
}

impl Parser {
    /// The tokens of the source text, the last of them `EOF`.
    pub closed spec fn tokens(&self) -> Seq<Token> {
        self.tokens@
    }

    /// The index of the current token.
    pub closed spec fn position(&self) -> int {
        self.pos as int
    }

    /// The expression nodes made so far.
    pub closed spec fn store(&self) -> Seq<Expression> {
        self.program@
    }

    pub open spec fn cur_kind(&self) -> TokenType {
        self.tokens()[self.position()].token_type
    }

    pub open spec fn wf(&self) -> bool {
        &&& self.tokens().len() > 0
        &&& self.tokens().last().token_type == TokenType::EOF
        &&& 0 <= self.position() < self.tokens().len()
        &&& store_wf(self.store())
    }

    /// `self` is what parsing on from `before` can lead to: the same tokens,
    /// a position no earlier, and the earlier nodes kept as they were.
    pub open spec fn follows(&self, before: &Parser) -> bool {
        &&& self.wf()
        &&& self.tokens() == before.tokens()
        &&& before.position() <= self.position()
        &&& before.store().len() <= self.store().len()
        &&& forall|i: int|
            0 <= i < before.store().len() ==> #[trigger] self.store()[i] == before.store()[i]
    }

    /// Reads every token of `t` up to and including `EOF`.
    pub fn new(t: Tokenizer) -> (r: Parser)
        requires
            t.wf(),
        ensures
            r.wf(),
            r.position() == 0,
            r.store().len() == 0,
            token_views(r.tokens()) == lex_all(t.input(), t.position()),
    {
        let ghost s = t.input();
        let ghost start = t.position();
        let mut lexer = t;
        proof {
            lexer.lemma_position();
        }
        let mut tokens: Vec<Token> = Vec::new();
        loop
            invariant
                lexer.wf(),
                lexer.input() == s,
                s == t.input(),
                start == t.position(),
                0 <= lexer.position() <= s.len(),
                lex_all(s, start) == token_views(tokens@) + lex_all(s, lexer.position()),
                forall|j: int| 0 <= j < tokens@.len() ==> #[trigger] tokens@[j].token_type
                    != TokenType::EOF,
            decreases s.len() - lexer.position(),
        {
            let ghost before = lexer.position();
            let tok = lexer.next_token();
            let is_eof = tok.token_type == TokenType::EOF;
            proof {
                if before < s.len() {
                    lemma_lex_advances(s, before);
                }
                let tail = lex_all(s, before);
                assert(tail[0] == (tok.token_type, tok.value@));
            }
            let ghost old_tokens = tokens@;
            tokens.push(tok);
            proof {
                assert(token_views(tokens@) =~= token_views(old_tokens).push(
                    (tokens@.last().token_type, tokens@.last().value@),
                ));
            }
            if is_eof {
                proof {
                    assert(lex_all(s, before) =~= seq![(TokenType::EOF, lex_at(s, before).1)]);
                    assert(lex_all(s, start) =~= token_views(tokens@));
                }
                let r = Parser { tokens, pos: 0, program: Vec::new() };
                assert(r.tokens() == tokens@);
                assert(token_views(r.tokens()) == lex_all(s, start));
                return r;
            }
            proof {
                assert(lex_all(s, before) =~= seq![(tok.token_type, tok.value@)] + lex_all(
                    s,
                    lexer.position(),
                ));
                assert(lex_all(s, start) =~= token_views(tokens@) + lex_all(s, lexer.position()));
            }
        }
    }

    fn cur(&self) -> (k: TokenType)
        requires
            self.wf(),
        ensures
            k == self.cur_kind(),
    {
        self.tokens[self.pos].token_type
    }

    /// Moves to the next token; at `EOF` it stays.
    fn shift(&mut self)
        requires
            old(self).wf(),
        ensures
            final(self).follows(old(self)),
            final(self).store() == old(self).store(),
            old(self).cur_kind() != TokenType::EOF ==> final(self).position() == old(
                self,
            ).position() + 1,
            final(self).position() == adv(token_views(old(self).tokens()), old(self).position()),
    {
        if self.pos < self.tokens.len() - 1 {
            self.pos = self.pos + 1;
        }
    }

    /// Requires the current token to be of kind `k`, and moves past it.
    fn expect(&mut self, k: TokenType) -> (r: Result<(), CompileError>)
        requires
            old(self).wf(),
            k != TokenType::EOF,
        ensures
            final(self).follows(old(self)),
            final(self).store() == old(self).store(),
            r is Ok <==> old(self).cur_kind() == k,
            r is Ok ==> final(self).position() == old(self).position() + 1,
            r is Ok ==> final(self).position() == adv(token_views(old(self).tokens()), old(self).position()),
            r matches Err(CompileError::SyntaxError { expected, found }) ==> expected == Some(k)
                && found == old(self).cur_kind(),
            r is Err ==> r matches Err(CompileError::SyntaxError { .. }),
    {
        let c = self.cur();
        if c == k {
            self.shift();
            Ok(())
        } else {
            Err(CompileError::SyntaxError { expected: Some(k), found: c })
        }
    }

    /// Appends a node to the store and returns its handle.
    fn new_expression(&mut self, exp: Expression) -> (r: ExpRef)
        requires
            old(self).wf(),
            refs_below(exp, old(self).store().len() as int),
        ensures
            final(self).follows(old(self)),
            final(self).position() == old(self).position(),
            final(self).store() == old(self).store().push(exp),
            store_view(final(self).store()) == store_view(old(self).store()).push(expr_view(exp)),
            r == old(self).store().len(),
            r == old(self).store().len() as usize,
    {
        self.program.push(exp);
        assert(store_view(self.store()) =~= store_view(old(self).store()).push(expr_view(exp)));
        self.program.len() - 1
    }

    /// The binding strength of a token in infix position.
    pub fn get_prio(t: &TokenType) -> (p: Prio)
        ensures
            p == prio_of(*t),
    {
        match t {
            TokenType::Plus | TokenType::Minus => Prio::Add,
            TokenType::Astrik | TokenType::Slash => Prio::Mult,
            TokenType::LParent => Prio::Call,
            TokenType::Assign => Prio::Assign,
            TokenType::And => Prio::And,
            TokenType::Or => Prio::Or,
            TokenType::LT | TokenType::GT | TokenType::LTEQ | TokenType::GTEQ => Prio::Compare,
            TokenType::EQ => Prio::Equal,
            _ => Prio::Lowest,
        }
    }

    fn cur_value(&self) -> (v: String)
        requires
            self.wf(),
        ensures
            v@ == self.tokens()[self.position()].value@,
    {
        self.tokens[self.pos].value.clone()
    }

    /// Parses an expression after a prefix `+` or `-`.  A `+` changes
    /// nothing; a `-` makes a prefix node over the operand.
    fn parse_prefix(&mut self) -> (r: Result<ExpRef, CompileError>)
        requires
            old(self).wf(),
            old(self).cur_kind() == TokenType::Plus || old(self).cur_kind() == TokenType::Minus,
        ensures
            final(self).follows(old(self)),
            r is Ok ==> r->Ok_0 < final(self).store().len() && final(self).position() > old(
                self,
            ).position(),
            r is Ok && old(self).cur_kind() == TokenType::Minus ==> (final(self).store()[r->Ok_0 as int]
                matches Expression::PrefixExpression { op: TokenType::Minus, .. }),
            agrees_expr(r, final(self), sp_prefix(token_views(old(self).tokens()), old(self).position(), store_view(old(self).store()))),
        decreases old(self).tokens().len() - old(self).position(), 2nat,
    {
        let c = self.cur();
        self.shift();
        let operand = self.parse(Prio::Prefix)?;
        if c == TokenType::Plus {
            Ok(operand)
        } else {
            Ok(self.new_expression(Expression::PrefixExpression { op: TokenType::Minus, right: operand }))
        }
    }

    /// Makes a node for the integer or string literal at the current token.
    fn parse_literal(&mut self) -> (r: Result<ExpRef, CompileError>)
        requires
            old(self).wf(),
            old(self).cur_kind() == TokenType::Integer || old(self).cur_kind() == TokenType::String,
        ensures
            final(self).follows(old(self)),
            r is Ok ==> r->Ok_0 == old(self).store().len() && final(self).store().len() == r->Ok_0 + 1
                && final(self).position() == old(self).position() + 1,
            r is Ok && old(self).cur_kind() == TokenType::Integer ==> final(self).store()[r->Ok_0 as int]
                == Expression::Integer(
                digits_value(old(self).tokens()[old(self).position()].value@) as i64,
            ),
            r is Ok && old(self).cur_kind() == TokenType::String ==> (final(self).store()[r->Ok_0 as int] matches Expression::String(
                v,
            ) && v@ == old(self).tokens()[old(self).position()].value@),
            r is Err <==> old(self).cur_kind() == TokenType::Integer && !(all_digits(
                old(self).tokens()[old(self).position()].value@,
            ) && digits_value(old(self).tokens()[old(self).position()].value@) <= i64::MAX),
            r is Err ==> r matches Err(CompileError::InvalidInteger),
            agrees_expr(r, final(self), sp_literal(token_views(old(self).tokens()), old(self).position(), store_view(old(self).store()))),
    {
        let v = self.cur_value();
        let e = if self.cur() == TokenType::String {
            Expression::String(v)
        } else {
            let digits = string_to_chars(v.as_str());
            match parse_integer(&digits) {
                Some(i) => Expression::Integer(i),
                None => {
                    return Err(CompileError::InvalidInteger);
                },
            }
        };
        let r = self.new_expression(e);
        self.shift();
        Ok(r)
    }

    /// Parses the argument list of a call, from `(` through `)`.
    fn parse_list(&mut self) -> (r: Result<Vec<ExpRef>, CompileError>)
        requires
            old(self).wf(),
            old(self).cur_kind() == TokenType::LParent,
        ensures
            final(self).follows(old(self)),
            r is Ok ==> final(self).position() > old(self).position() && forall|j: int|
                0 <= j < r->Ok_0@.len() ==> #[trigger] r->Ok_0@[j] < final(self).store().len(),
            match sp_list(token_views(old(self).tokens()), old(self).position(), store_view(old(self).store())) {
                Ok((q, st, args)) => r is Ok && r->Ok_0@ == args && final(self).position() == q
                    && store_view(final(self).store()) == st,
                Err(k) => r is Err && error_kind(r->Err_0) == k,
            },
        decreases old(self).tokens().len() - old(self).position(), 1nat,
    {
        let ghost ts = token_views(self.tokens());
        let ghost goal = sp_list(ts, self.position(), store_view(self.store()));
        self.shift();
        let mut list: Vec<ExpRef> = Vec::new();
        assert(list@ =~= Seq::<usize>::empty());
        while self.cur() != TokenType::RParent
            invariant
                self.follows(old(self)),
                self.position() > old(self).position(),
                forall|j: int| 0 <= j < list@.len() ==> #[trigger] list@[j] < self.store().len(),
                ts == token_views(self.tokens()),
                goal == sp_list(ts, old(self).position(), store_view(old(self).store())),
                goal == crate::grammar::sp_args(ts, self.position(), store_view(self.store()), list@),
            decreases self.tokens().len() - self.position(),
        {
            let ghost pos0 = self.position();
            let ghost st0 = store_view(self.store());
            let res = self.parse(Prio::Lowest);
            let e = match res {
                Ok(e) => e,
                Err(x) => {
                    return Err(x);
                },
            };
            let ghost acc = list@;
            list.push(e);
            let c = self.cur();
            if c == TokenType::Comma {
                self.shift();
            } else if c != TokenType::RParent {
                return Err(CompileError::SyntaxError { expected: Some(TokenType::RParent), found: c });
            }
            assert(list@ == acc.push(e));
        }
        self.shift();
        Ok(list)
    }

    /// Folds the infix operator at the current token into a node whose left
    /// operand is `left`: a call for `(`, an assignment for `=`, and an infix
    /// node for the others.
    fn parse_infix(&mut self, left: ExpRef) -> (r: Result<ExpRef, CompileError>)
        requires
            old(self).wf(),
            left < old(self).store().len(),
            prio_of(old(self).cur_kind()) != Prio::Lowest,
        ensures
            final(self).follows(old(self)),
            r is Ok ==> r->Ok_0 < final(self).store().len() && final(self).position() > old(
                self,
            ).position(),
            r is Ok ==> match old(self).cur_kind() {
                TokenType::LParent => (final(self).store()[r->Ok_0 as int] matches Expression::FunctionCall {
                    left: l,
                    ..
                } && l == left),
                TokenType::Assign => (final(self).store()[r->Ok_0 as int] matches Expression::AssignExpression {
                    left: l,
                    ..
                } && l == left),
                k => (final(self).store()[r->Ok_0 as int] matches Expression::InfixExpression {
                    left: l,
                    op,
                    ..
                } && l == left && op == k),
            },
            agrees_expr(r, final(self), sp_infix(token_views(old(self).tokens()), old(self).position(), store_view(old(self).store()), left)),
        decreases old(self).tokens().len() - old(self).position(), 2nat,
    {
        let op = self.cur();
        if op == TokenType::LParent {
            let args = self.parse_list()?;
            return Ok(self.new_expression(Expression::FunctionCall { left, parameters: args }));
        }
        let p = Self::get_prio(&op);
        self.shift();
        let right = self.parse(p)?;
        if op == TokenType::Assign {
            Ok(self.new_expression(Expression::AssignExpression { left, right }))
        } else {
            Ok(self.new_expression(Expression::InfixExpression { left, op, right }))
        }
    }

    /// Parses one expression whose infix operators all bind more strongly
    /// than `p`; operators of equal strength group to the left.  It stops
    /// before the first token that binds no more strongly than `p`.
    pub fn parse(&mut self, p: Prio) -> (r: Result<ExpRef, CompileError>)
        requires
            old(self).wf(),
        ensures
            final(self).follows(old(self)),
            r is Ok ==> r->Ok_0 < final(self).store().len() && final(self).position() > old(
                self,
            ).position(),
            r is Ok ==> rank(prio_of(final(self).cur_kind())) <= rank(p),
            agrees_expr(r, final(self), sp_expr(token_views(old(self).tokens()), old(self).position(), store_view(old(self).store()), p)),
        decreases old(self).tokens().len() - old(self).position(), 3nat,
    {
        let c = self.cur();
        let mut left = match c {
            TokenType::Plus | TokenType::Minus => self.parse_prefix()?,
            TokenType::Integer | TokenType::String => self.parse_literal()?,
            TokenType::Identifier => {
                let name = self.cur_value();
                let e = self.new_expression(
                    Expression::Identifier { value: name, ident_type: String::new() },
                );
                self.shift();
                e
            },
            TokenType::LParent => {
                self.shift();
                let inner = self.parse(Prio::Lowest)?;
                self.expect(TokenType::RParent)?;
                inner
            },
            _ => {
                return Err(CompileError::SyntaxError { expected: None, found: c });
            },
        };
        let ghost ts = token_views(self.tokens());
        let ghost goal = sp_expr(ts, old(self).position(), store_view(old(self).store()), p);
        assert(goal == sp_loop(ts, self.position(), store_view(self.store()), p, left));
        while rank_of(p) < rank_of(Self::get_prio(&self.cur()))
            invariant
                self.follows(old(self)),
                self.position() > old(self).position(),
                left < self.store().len(),
                ts == token_views(self.tokens()),
                goal == sp_expr(ts, old(self).position(), store_view(old(self).store()), p),
                goal == sp_loop(ts, self.position(), store_view(self.store()), p, left),
            decreases self.tokens().len() - self.position(),
        {
            let res = self.parse_infix(left);
            left = match res {
                Ok(l) => l,
                Err(x) => {
                    return Err(x);
                },
            };
        }
        Ok(left)
    }

    /// Parses a typed parameter list, `(name: type, ...)`, through its `)`.
    fn parse_param_list(&mut self) -> (r: Result<Vec<Parameter>, CompileError>)
        requires
            old(self).wf(),
        ensures
            final(self).follows(old(self)),
            final(self).store() == old(self).store(),
            r is Ok ==> final(self).position() > old(self).position(),
            match sp_param_list(token_views(old(self).tokens()), old(self).position()) {
                Ok((q, ps)) => r is Ok && params_view(r->Ok_0@) == ps && final(self).position() == q,
                Err(k) => r is Err && error_kind(r->Err_0) == k,
            },
    {
        let ghost ts = token_views(self.tokens());
        let ghost goal = sp_param_list(ts, self.position());
        self.expect(TokenType::LParent)?;
        let mut list: Vec<Parameter> = Vec::new();
        assert(params_view(list@) =~= Seq::<(Seq<char>, Seq<char>)>::empty());
        while self.cur() != TokenType::RParent
            invariant
                self.follows(old(self)),
                self.store() == old(self).store(),
                self.position() > old(self).position(),
                ts == token_views(self.tokens()),
                goal == sp_param_list(ts, old(self).position()),
                goal == sp_params(ts, self.position(), params_view(list@)),
            decreases self.tokens().len() - self.position(),
        {
            let name = self.cur_value();
            self.expect(TokenType::Identifier)?;
            self.expect(TokenType::Colon)?;
            let param_type = self.cur_value();
            self.expect(TokenType::Identifier)?;
            let ghost acc = params_view(list@);
            let ghost entry = (name@, param_type@);
            list.push(Parameter { name, param_type });
            assert(params_view(list@) =~= acc.push(entry));
            let c = self.cur();
            if c == TokenType::Comma {
                self.shift();
            } else if c != TokenType::RParent {
                return Err(CompileError::SyntaxError { expected: Some(TokenType::RParent), found: c });
            }
        }
        self.shift();
        Ok(list)
    }

    /// Parses a block, `{ statement ... }`, through its `}`.
    fn parse_block(&mut self) -> (r: Result<Vec<Statement>, CompileError>)
        requires
            old(self).wf(),
        ensures
            final(self).follows(old(self)),
            r is Ok ==> final(self).position() > old(self).position() && body_refs_below(
                r->Ok_0@,
                final(self).store().len() as int,
                0,
            ),
            match sp_block(token_views(old(self).tokens()), old(self).position(), store_view(old(self).store())) {
                Ok((q, st, b)) => r is Ok && body_view(r->Ok_0@, r->Ok_0@.len() as int) == b
                    && final(self).position() == q && store_view(final(self).store()) == st,
                Err(k) => r is Err && error_kind(r->Err_0) == k,
            },
        decreases old(self).tokens().len() - old(self).position(), 0nat,
    {
        let ghost ts = token_views(self.tokens());
        let ghost goal = sp_block(ts, self.position(), store_view(self.store()));
        self.expect(TokenType::LBrace)?;
        let mut body: Vec<Statement> = Vec::new();
        assert(body_view(body@, 0) =~= Seq::<crate::grammar::StmtV>::empty());
        while self.cur() != TokenType::RBrace
            invariant
                self.follows(old(self)),
                self.position() > old(self).position(),
                forall|j: int|
                    0 <= j < body@.len() ==> stmt_refs_below(
                        #[trigger] body@[j],
                        self.store().len() as int,
                    ),
                ts == token_views(self.tokens()),
                goal == sp_block(ts, old(self).position(), store_view(old(self).store())),
                goal == sp_block_items(
                    ts,
                    self.position(),
                    store_view(self.store()),
                    body_view(body@, body@.len() as int),
                ),
            decreases self.tokens().len() - self.position(),
        {
            let ghost n0 = self.store().len() as int;
            let res = self.parse_stmt();
            let stmt = match res {
                Ok(s) => s,
                Err(x) => {
                    return Err(x);
                },
            };
            proof {
                assert forall|j: int| 0 <= j < body@.len() implies stmt_refs_below(
                    #[trigger] body@[j],
                    self.store().len() as int,
                ) by {
                    lemma_stmt_refs_mono(body@[j], n0, self.store().len() as int);
                }
                lemma_body_view_push(body@, stmt);
            }
            body.push(stmt);
        }
        self.shift();
        proof {
            lemma_body_refs_all(body@, self.store().len() as int, 0);
        }
        Ok(body)
    }

    /// Parses one statement: a variable declaration, an `if`, a `return`, a
    /// function declaration, or an expression followed by `;`.
    pub fn parse_stmt(&mut self) -> (r: Result<Statement, CompileError>)
        requires
            old(self).wf(),
        ensures
            final(self).follows(old(self)),
            r is Ok ==> final(self).position() > old(self).position() && stmt_refs_below(
                r->Ok_0,
                final(self).store().len() as int,
            ),
            r is Ok ==> stmt_fits(old(self).cur_kind(), r->Ok_0),
            match sp_stmt(token_views(old(self).tokens()), old(self).position(), store_view(old(self).store())) {
                Ok((q, st, v)) => r is Ok && stmt_view(r->Ok_0) == v && final(self).position() == q
                    && store_view(final(self).store()) == st,
                Err(k) => r is Err && error_kind(r->Err_0) == k,
            },
        decreases old(self).tokens().len() - old(self).position(), 1nat,
    {
        let c = self.cur();
        match c {
            TokenType::Var => {
                self.shift();
                let name = self.cur_value();
                self.expect(TokenType::Identifier)?;
                self.expect(TokenType::Colon)?;
                let var_type = self.cur_value();
                self.expect(TokenType::Identifier)?;
                if self.cur() == TokenType::Semicolon {
                    self.shift();
                    return Ok(Statement::VarStatement { name, value: None, var_type });
                }
                self.expect(TokenType::Assign)?;
                let value = self.parse(Prio::Lowest)?;
                self.expect(TokenType::Semicolon)?;
                Ok(Statement::VarStatement { name, value: Some(value), var_type })
            },
            TokenType::If => {
                self.shift();
                let condition = self.parse(Prio::Lowest)?;
                let if_body = self.parse_block()?;
                if self.cur() != TokenType::Else {
                    return Ok(Statement::IfElseStatement { condition, if_body, else_body: None });
                }
                self.shift();
                let ghost n2 = self.store().len() as int;
                let else_body = self.parse_block()?;
                proof {
                    lemma_body_refs_mono(if_body@, n2, self.store().len() as int, 0);
                }
                Ok(Statement::IfElseStatement { condition, if_body, else_body: Some(else_body) })
            },
            TokenType::Return => {
                self.shift();
                let value = self.parse(Prio::Lowest)?;
                self.expect(TokenType::Semicolon)?;
                Ok(Statement::ReturnStatement { value })
            },
            TokenType::Func => {
                self.shift();
                let name = self.cur_value();
                self.expect(TokenType::Identifier)?;
                let call_inputs = self.parse_param_list()?;
                let return_type = if self.cur() == TokenType::Colon {
                    self.shift();
                    let t = self.cur_value();
                    self.expect(TokenType::Identifier)?;
                    Some(t)
                } else {
                    None
                };
                let body = self.parse_block()?;
                Ok(Statement::FuncStatement { name, call_inputs, return_type, body })
            },
            _ => {
                let e = self.parse(Prio::Lowest)?;
                self.expect(TokenType::Semicolon)?;
                Ok(Statement::ExpressionStatement(e))
            },
        }
    }

    /// Parses statements up to the end of the input.
    pub fn parse_program(&mut self) -> (r: Result<Vec<Statement>, CompileError>)
        requires
            old(self).wf(),
        ensures
            final(self).follows(old(self)),
            r is Ok ==> final(self).cur_kind() == TokenType::EOF && forall|j: int|
                0 <= j < r->Ok_0@.len() ==> stmt_refs_below(
                    #[trigger] r->Ok_0@[j],
                    final(self).store().len() as int,
                ),
            match sp_program(token_views(old(self).tokens()), old(self).position(), store_view(old(self).store()), Seq::empty()) {
                Ok((q, st, b)) => r is Ok && body_view(r->Ok_0@, r->Ok_0@.len() as int) == b
                    && final(self).position() == q && store_view(final(self).store()) == st,
                Err(k) => r is Err && error_kind(r->Err_0) == k,
            },
    {
        let ghost ts = token_views(self.tokens());
        let mut v: Vec<Statement> = Vec::new();
        assert(body_view(v@, 0) =~= Seq::<crate::grammar::StmtV>::empty());
        while self.cur() != TokenType::EOF
            invariant
                self.follows(old(self)),
                forall|j: int|
                    0 <= j < v@.len() ==> stmt_refs_below(
                        #[trigger] v@[j],
                        self.store().len() as int,
                    ),
                ts == token_views(self.tokens()),
                sp_program(ts, old(self).position(), store_view(old(self).store()), Seq::empty())
                    == sp_program(ts, self.position(), store_view(self.store()), body_view(v@, v@.len() as int)),
            decreases self.tokens().len() - self.position(),
        {
            let ghost n0 = self.store().len() as int;
            let res = self.parse_stmt();
            let stmt = match res {
                Ok(s) => s,
                Err(x) => {
                    return Err(x);
                },
            };
            proof {
                assert forall|j: int| 0 <= j < v@.len() implies stmt_refs_below(
                    #[trigger] v@[j],
                    self.store().len() as int,
                ) by {
                    lemma_stmt_refs_mono(v@[j], n0, self.store().len() as int);
                }
                lemma_body_view_push(v@, stmt);
            }
            v.push(stmt);
        }
        Ok(v)
    }

    /// The source text of expression `exp`.
    pub fn exp_to_string(&self, exp: ExpRef) -> (r: String)
        ensures
            r@ == print_expr(self.store(), exp as int),
        decreases exp + 1, 0nat,
    {
        if exp >= self.program.len() {
            return String::new();
        }
        match &self.program[exp] {
            Expression::InfixExpression { left, op, right } => {
                if *left >= exp || *right >= exp {
                    return String::new();
                }
                let mut s = String::from_str("(");
                s.append(self.exp_to_string(*left).as_str());
                s.append(" ");
                s.append(op_string(*op).as_str());
                s.append(" ");
                s.append(self.exp_to_string(*right).as_str());
                s.append(")");
                s
            },
            Expression::PrefixExpression { op, right } => {
                if *right >= exp {
                    return String::new();
                }
                let mut s = String::from_str("(");
                s.append(op_string(*op).as_str());
                s.append(self.exp_to_string(*right).as_str());
                s.append(")");
                s
            },
            Expression::AssignExpression { left, right } => {
                if *left >= exp || *right >= exp {
                    return String::new();
                }
                let mut s = String::from_str("(");
                s.append(self.exp_to_string(*left).as_str());
                s.append(" = ");
                s.append(self.exp_to_string(*right).as_str());
                s.append(")");
                s
            },
            Expression::FunctionCall { left, parameters } => {
                if *left >= exp {
                    return String::new();
                }
                let mut s = self.exp_to_string(*left);
                s.append("(");
                let mut k: usize = 0;
                while k < parameters.len()
                    invariant
                        k <= parameters@.len(),
                        self.store()[exp as int] == (Expression::FunctionCall {
                            left: *left,
                            parameters: *parameters,
                        }),
                        s@ == print_expr(self.store(), *left as int) + "("@ + print_args(
                            self.store(),
                            parameters@,
                            exp as int,
                            k as int,
                        ),
                    decreases parameters@.len() - k,
                {
                    if k > 0 {
                        s.append(", ");
                    }
                    let a = parameters[k];
                    if a < exp {
                        s.append(self.exp_to_string(a).as_str());
                    }
                    k = k + 1;
                }
                s.append(")");
                s
            },
            Expression::Integer(i) => {
                let mut digits: Vec<char> = Vec::new();
                crate::text::push_signed_decimal(*i, &mut digits);
                assert(digits@ =~= crate::text::signed_decimal(*i as int));
                crate::text::chars_to_string(&digits)
            },
            Expression::String(v) => {
                let mut s = String::from_str("\"");
                s.append(v.as_str());
                s.append("\"");
                s
            },
            Expression::Identifier { value, .. } => value.clone(),
        }
    }

    fn params_to_string(ps: &Vec<Parameter>) -> (r: String)
        ensures
            r@ == print_params(ps@, ps@.len() as int),
    {
        let mut s = String::new();
        let mut k: usize = 0;
        while k < ps.len()
            invariant
                k <= ps@.len(),
                s@ == print_params(ps@, k as int),
            decreases ps@.len() - k,
        {
            if k > 0 {
                s.append(", ");
            }
            s.append(ps[k].name.as_str());
            s.append(": ");
            s.append(ps[k].param_type.as_str());
            k = k + 1;
        }
        s
    }

    fn body_to_string(&self, v: &Vec<Statement>, pre: &String) -> (r: String)
        ensures
            r@ == print_body(self.store(), v@, pre@, v@.len() as int),
        decreases v,
    {
        let mut s = String::new();
        let mut k: usize = 0;
        while k < v.len()
            invariant
                k <= v@.len(),
                s@ == print_body(self.store(), v@, pre@, k as int),
            decreases v@.len() - k,
        {
            s.append(self.stmt_text(&v[k], pre).as_str());
            k = k + 1;
        }
        s
    }

    fn stmt_text(&self, stmt: &Statement, pre: &String) -> (r: String)
        ensures
            r@ == print_stmt(self.store(), *stmt, pre@),
        decreases stmt,
    {
        let mut s = pre.clone();
        let mut inner = pre.clone();
        inner.append("\t");
        match stmt {
            Statement::VarStatement { name, value, var_type } => {
                s.append("var ");
                s.append(name.as_str());
                s.append(": ");
                s.append(var_type.as_str());
                match value {
                    Some(v) => {
                        s.append(" = ");
                        s.append(self.exp_to_string(*v).as_str());
                    },
                    None => {},
                }
                s.append(";\n");
            },
            Statement::ReturnStatement { value } => {
                s.append("return ");
                s.append(self.exp_to_string(*value).as_str());
                s.append(";\n");
            },
            Statement::ExpressionStatement(e) => {
                s.append(self.exp_to_string(*e).as_str());
                s.append(";\n");
            },
            Statement::IfElseStatement { condition, if_body, else_body } => {
                s.append("if ");
                s.append(self.exp_to_string(*condition).as_str());
                s.append(" {\n");
                s.append(self.body_to_string(if_body, &inner).as_str());
                s.append(pre.as_str());
                s.append("}");
                match else_body {
                    Some(b) => {
                        s.append(" else {\n");
                        s.append(self.body_to_string(b, &inner).as_str());
                        s.append(pre.as_str());
                        s.append("}");
                    },
                    None => {},
                }
                s.append("\n");
            },
            Statement::FuncStatement { name, call_inputs, return_type, body } => {
                s.append("func ");
                s.append(name.as_str());
                s.append("(");
                s.append(Self::params_to_string(call_inputs).as_str());
                s.append(")");
                match return_type {
                    Some(t) => {
                        s.append(": ");
                        s.append(t.as_str());
                    },
                    None => {},
                }
                s.append(" {\n");
                s.append(self.body_to_string(body, &inner).as_str());
                s.append(pre.as_str());
                s.append("}\n");
            },
        }
        s
    }

    /// The source text of `stmt`, indented by `ident` tabs (none when
    /// `ident` is not positive), with every operator node in parentheses.
    pub fn stmt_to_string(&self, stmt: &Statement, ident: i64) -> (r: String)
        ensures
            r@ == print_stmt(self.store(), *stmt, tabs(if ident < 0 { 0 } else { ident as nat })),
    {
        let mut pre = String::new();
        let mut k: i64 = 0;
        while k < ident
            invariant
                0 <= k,
                ident < 0 ==> k == 0,
                ident >= 0 ==> k <= ident,
                pre@ == tabs(k as nat),
            decreases ident - k,
        {
            pre.append("\t");
            k = k + 1;
        }
        self.stmt_text(stmt, &pre)
    }

    /// The store of expression nodes built so far.
    pub fn get_program(self) -> (r: Program)
        ensures
            r@ == self.store(),
    {
        self.program
    }
}

} // verus!
