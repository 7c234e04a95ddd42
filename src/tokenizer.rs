use vstd::prelude::*;

use crate::text::{chars_to_string, string_to_chars};
use crate::token::{Token, TokenType};

verus! {

pub open spec fn is_space(c: char) -> bool {
    c == ' ' || c == '\t' || c == '\n' || c == '\r'
}

pub open spec fn is_number(c: char) -> bool {
    '0' <= c && c <= '9'
}

pub open spec fn is_letter(c: char) -> bool {
    ('a' <= c && c <= 'z') || ('A' <= c && c <= 'Z')
}

pub open spec fn is_word_char(c: char) -> bool {
    is_number(c) || is_letter(c) || c == '_'
}

/// The character at `i`, or NUL past the end of the input.
pub open spec fn char_at(s: Seq<char>, i: int) -> char {
    if 0 <= i < s.len() {
        s[i]
    } else {
        '\0'
    }
}

/// The first position at or after `i` that holds no whitespace.
pub open spec fn skip_space(s: Seq<char>, i: int) -> int
    decreases s.len() - i,
{
    if 0 <= i < s.len() && is_space(s[i]) {
        skip_space(s, i + 1)
    } else {
        i
    }
}

/// The first position at or after `i` that holds no decimal digit.
pub open spec fn digits_end(s: Seq<char>, i: int) -> int
    decreases s.len() - i,
{
    if 0 <= i < s.len() && is_number(s[i]) {
        digits_end(s, i + 1)
    } else {
        i
    }
}

/// The first position at or after `i` that holds no letter, digit or underscore.
pub open spec fn word_end(s: Seq<char>, i: int) -> int
    decreases s.len() - i,
{
    if 0 <= i < s.len() && is_word_char(s[i]) {
        word_end(s, i + 1)
    } else {
        i
    }
}

/// The position of the first `"` at or after `i`, or the end of the input.
pub open spec fn quote_end(s: Seq<char>, i: int) -> int
    decreases s.len() - i,
{
    if 0 <= i < s.len() && s[i] != '"' {
        quote_end(s, i + 1)
    } else {
        i
    }
}

/// The kind of a token made of the one character `c`, if there is one.
pub open spec fn single_kind(c: char) -> Option<TokenType> {
    if c == '+' {
        Some(TokenType::Plus)
    } else if c == '-' {
        Some(TokenType::Minus)
    } else if c == '*' {
        Some(TokenType::Astrik)
    } else if c == '/' {
        Some(TokenType::Slash)
    } else if c == '(' {
        Some(TokenType::LParent)
    } else if c == ')' {
        Some(TokenType::RParent)
    } else if c == '{' {
        Some(TokenType::LBrace)
    } else if c == '}' {
        Some(TokenType::RBrace)
    } else if c == '[' {
        Some(TokenType::LBrack)
    } else if c == ']' {
        Some(TokenType::RBrack)
    } else if c == '=' {
        Some(TokenType::Assign)
    } else if c == ':' {
        Some(TokenType::Colon)
    } else if c == ';' {
        Some(TokenType::Semicolon)
    } else if c == ',' {
        Some(TokenType::Comma)
    } else if c == '.' {
        Some(TokenType::Dot)
    } else if c == '<' {
        Some(TokenType::LT)
    } else if c == '>' {
        Some(TokenType::GT)
    } else {
        None
    }
}

/// The kind of a token made of the two characters `c` and `d`, if there is one.
pub open spec fn double_kind(c: char, d: char) -> Option<TokenType> {
    if c == '=' && d == '=' {
        Some(TokenType::EQ)
    } else if c == '<' && d == '=' {
        Some(TokenType::LTEQ)
    } else if c == '>' && d == '=' {
        Some(TokenType::GTEQ)
    } else if c == '&' && d == '&' {
        Some(TokenType::And)
    } else if c == '|' && d == '|' {
        Some(TokenType::Or)
    } else {
        None
    }
}

/// The keyword that a word spells, if it spells one.
pub open spec fn keyword_kind(w: Seq<char>) -> Option<TokenType> {
    if w == seq!['f', 'u', 'n', 'c'] {
        Some(TokenType::Func)
    } else if w == seq!['v', 'a', 'r'] {
        Some(TokenType::Var)
    } else if w == seq!['c', 'o', 'n', 's', 't'] {
        Some(TokenType::Const)
    } else if w == seq!['r', 'e', 't', 'u', 'r', 'n'] {
        Some(TokenType::Return)
    } else if w == seq!['i', 'f'] {
        Some(TokenType::If)
    } else if w == seq!['e', 'l', 's', 'e'] {
        Some(TokenType::Else)
    } else {
        None
    }
}

/// The token that starts at position `i` of `s`: its kind, its text, and the
/// position just after it.  Past the end of the input this is `EOF`, again
/// and again.  A string literal runs to the closing quote, or to the end of
/// the input when there is none; any character that starts no other token
/// starts a word.
pub open spec fn lex_at(s: Seq<char>, i: int) -> (TokenType, Seq<char>, int) {
    let c = char_at(s, i);
    if i < 0 || i >= s.len() {
        (TokenType::EOF, Seq::empty(), i)
    } else if is_number(c) {
        let e = digits_end(s, i);
        (TokenType::Integer, s.subrange(i, e), e)
    } else if c == '"' {
        let e = quote_end(s, i + 1);
        (TokenType::String, s.subrange(i + 1, e), if e < s.len() { e + 1 } else { e })
    } else if double_kind(c, char_at(s, i + 1)) is Some {
        (double_kind(c, char_at(s, i + 1))->0, s.subrange(i, i + 2), i + 2)
    } else if single_kind(c) is Some {
        (single_kind(c)->0, seq![c], i + 1)
    } else {
        let e = word_end(s, i + 1);
        let w = s.subrange(i, e);
        (
            if keyword_kind(w) is Some {
                keyword_kind(w)->0
            } else {
                TokenType::Identifier
            },
            w,
            e,
        )
    }
}

/// Turns source text into tokens, one call of `next_token` at a time.
pub struct Tokenizer {
    input: Vec<char>,
    cur_idx: usize,
}

fn is_space_char(c: char) -> (r: bool)
    ensures
        r == is_space(c),
{
    c == ' ' || c == '\t' || c == '\n' || c == '\r'
}

fn is_word(c: char) -> (r: bool)
    ensures
        r == is_word_char(c),
{
    Tokenizer::is_number(c) || Tokenizer::is_letter(c) || c == '_'
}

fn single(c: char) -> (r: Option<TokenType>)
    ensures
        r == single_kind(c),
{
    match c {
        '+' => Some(TokenType::Plus),
        '-' => Some(TokenType::Minus),
        '*' => Some(TokenType::Astrik),
        '/' => Some(TokenType::Slash),
        '(' => Some(TokenType::LParent),
        ')' => Some(TokenType::RParent),
        '{' => Some(TokenType::LBrace),
        '}' => Some(TokenType::RBrace),
        '[' => Some(TokenType::LBrack),
        ']' => Some(TokenType::RBrack),
        '=' => Some(TokenType::Assign),
        ':' => Some(TokenType::Colon),
        ';' => Some(TokenType::Semicolon),
        ',' => Some(TokenType::Comma),
        '.' => Some(TokenType::Dot),
        '<' => Some(TokenType::LT),
        '>' => Some(TokenType::GT),
        _ => None,
    }
}

fn double(c: char, d: char) -> (r: Option<TokenType>)
    ensures
        r == double_kind(c, d),
{
    if c == '=' && d == '=' {
        Some(TokenType::EQ)
    } else if c == '<' && d == '=' {
        Some(TokenType::LTEQ)
    } else if c == '>' && d == '=' {
        Some(TokenType::GTEQ)
    } else if c == '&' && d == '&' {
        Some(TokenType::And)
    } else if c == '|' && d == '|' {
        Some(TokenType::Or)
    } else {
        None
    }
}

fn spells(w: &Vec<char>, word: &[char]) -> (r: bool)
    ensures
        r == (w@ == word@),
{
    if w.len() != word.len() {
        return false;
    }
    let mut i: usize = 0;
    while i < w.len()
        invariant
            w@.len() == word@.len(),
            i <= w@.len(),
            forall|j: int| 0 <= j < i ==> w@[j] == word@[j],
        decreases w@.len() - i,
    {
        if w[i] != word[i] {
            return false;
        }
        i = i + 1;
    }
    assert(w@ =~= word@);
    true
}

fn keyword(w: &Vec<char>) -> (r: Option<TokenType>)
    ensures
        r == keyword_kind(w@),
{
    let func_word: [char; 4] = ['f', 'u', 'n', 'c'];
    let var_word: [char; 3] = ['v', 'a', 'r'];
    let const_word: [char; 5] = ['c', 'o', 'n', 's', 't'];
    let return_word: [char; 6] = ['r', 'e', 't', 'u', 'r', 'n'];
    let if_word: [char; 2] = ['i', 'f'];
    let else_word: [char; 4] = ['e', 'l', 's', 'e'];
    assert(func_word@ =~= seq!['f', 'u', 'n', 'c']);
    assert(var_word@ =~= seq!['v', 'a', 'r']);
    assert(const_word@ =~= seq!['c', 'o', 'n', 's', 't']);
    assert(return_word@ =~= seq!['r', 'e', 't', 'u', 'r', 'n']);
    assert(if_word@ =~= seq!['i', 'f']);
    assert(else_word@ =~= seq!['e', 'l', 's', 'e']);
    if spells(w, func_word.as_slice()) {
        Some(TokenType::Func)
    } else if spells(w, var_word.as_slice()) {
        Some(TokenType::Var)
    } else if spells(w, const_word.as_slice()) {
        Some(TokenType::Const)
    } else if spells(w, return_word.as_slice()) {
        Some(TokenType::Return)
    } else if spells(w, if_word.as_slice()) {
        Some(TokenType::If)
    } else if spells(w, else_word.as_slice()) {
        Some(TokenType::Else)
    } else {
        None
    }
}

impl Tokenizer {
    /// The characters of the source text.
    pub closed spec fn input(&self) -> Seq<char> {
        self.input@
    }

    /// The position of the next token in the source text.
    pub closed spec fn position(&self) -> int {
        self.cur_idx as int
    }

    pub closed spec fn wf(&self) -> bool {
        self.cur_idx <= self.input@.len()
    }

    pub proof fn lemma_position(&self)
        requires
            self.wf(),
        ensures
            0 <= self.position() <= self.input().len(),
    {
    }

    /// A tokenizer at the first token of `s`: leading whitespace is skipped.
    pub fn new(s: String) -> (r: Tokenizer)
        ensures
            r.wf(),
            0 <= r.position() <= r.input().len(),
            r.input() == s@,
            r.position() == skip_space(s@, 0),
    {
        let input = string_to_chars(s.as_str());
        let mut t = Tokenizer { input, cur_idx: 0 };
        t.skip_spaces();
        t
    }

    fn cur_char(&self) -> (c: char)
        ensures
            c == char_at(self.input@, self.cur_idx as int),
    {
        if self.cur_idx < self.input.len() {
            self.input[self.cur_idx]
        } else {
            '\0'
        }
    }

    fn char_after(&self) -> (c: char)
        ensures
            c == char_at(self.input@, self.cur_idx + 1),
    {
        if self.cur_idx < self.input.len() && self.cur_idx + 1 < self.input.len() {
            self.input[self.cur_idx + 1]
        } else {
            '\0'
        }
    }

    /// Moves one character on, stopping at the end of the input.
    fn shift(&mut self)
        requires
            old(self).wf(),
        ensures
            final(self).wf(),
            final(self).input@ == old(self).input@,
            final(self).cur_idx == if old(self).cur_idx < old(self).input@.len() {
                old(self).cur_idx + 1
            } else {
                old(self).cur_idx as int
            },
    {
        if self.cur_idx < self.input.len() {
            self.cur_idx = self.cur_idx + 1;
        }
    }

    fn skip_spaces(&mut self)
        requires
            old(self).wf(),
        ensures
            final(self).wf(),
            final(self).input@ == old(self).input@,
            final(self).cur_idx == skip_space(old(self).input@, old(self).cur_idx as int),
    {
        while self.cur_idx < self.input.len() && is_space_char(self.input[self.cur_idx])
            invariant
                self.wf(),
                self.input@ == old(self).input@,
                skip_space(self.input@, self.cur_idx as int) == skip_space(
                    old(self).input@,
                    old(self).cur_idx as int,
                ),
            decreases self.input@.len() - self.cur_idx,
        {
            self.shift();
        }
    }

    pub fn is_number(c: char) -> (r: bool)
        ensures
            r == is_number(c),
    {
        '0' <= c && c <= '9'
    }

    pub fn is_letter(c: char) -> (r: bool)
        ensures
            r == is_letter(c),
    {
        ('a' <= c && c <= 'z') || ('A' <= c && c <= 'Z')
    }

    /// Collects the run of digits that starts at the current position.
    fn get_integer(&mut self) -> (s: Vec<char>)
        requires
            old(self).wf(),
        ensures
            final(self).wf(),
            final(self).input@ == old(self).input@,
            final(self).cur_idx == digits_end(old(self).input@, old(self).cur_idx as int),
            s@ == old(self).input@.subrange(old(self).cur_idx as int, final(self).cur_idx as int),
    {
        let start = self.cur_idx;
        let mut s: Vec<char> = Vec::new();
        while self.cur_idx < self.input.len() && Self::is_number(self.input[self.cur_idx])
            invariant
                self.wf(),
                start <= self.cur_idx,
                self.input@ == old(self).input@,
                start == old(self).cur_idx,
                digits_end(self.input@, self.cur_idx as int) == digits_end(
                    self.input@,
                    start as int,
                ),
                s@ == self.input@.subrange(start as int, self.cur_idx as int),
            decreases self.input@.len() - self.cur_idx,
        {
            s.push(self.input[self.cur_idx]);
            self.shift();
            assert(s@ =~= self.input@.subrange(start as int, self.cur_idx as int));
        }
        s
    }

    /// Collects the characters up to the closing quote (or the end of the
    /// input), starting at the current position.
    fn get_string(&mut self) -> (s: Vec<char>)
        requires
            old(self).wf(),
        ensures
            final(self).wf(),
            final(self).input@ == old(self).input@,
            final(self).cur_idx == quote_end(old(self).input@, old(self).cur_idx as int),
            s@ == old(self).input@.subrange(old(self).cur_idx as int, final(self).cur_idx as int),
    {
        let start = self.cur_idx;
        let mut s: Vec<char> = Vec::new();
        while self.cur_idx < self.input.len() && self.input[self.cur_idx] != '"'
            invariant
                self.wf(),
                start <= self.cur_idx,
                self.input@ == old(self).input@,
                start == old(self).cur_idx,
                quote_end(self.input@, self.cur_idx as int) == quote_end(
                    self.input@,
                    start as int,
                ),
                s@ == self.input@.subrange(start as int, self.cur_idx as int),
            decreases self.input@.len() - self.cur_idx,
        {
            s.push(self.input[self.cur_idx]);
            self.shift();
            assert(s@ =~= self.input@.subrange(start as int, self.cur_idx as int));
        }
        s
    }

    /// Collects a word: the current character and the letters, digits and
    /// underscores that follow it.
    fn get_identifier(&mut self) -> (s: Vec<char>)
        requires
            old(self).wf(),
            old(self).cur_idx < old(self).input@.len(),
        ensures
            final(self).wf(),
            final(self).input@ == old(self).input@,
            final(self).cur_idx == word_end(old(self).input@, old(self).cur_idx + 1),
            s@ == old(self).input@.subrange(old(self).cur_idx as int, final(self).cur_idx as int),
    {
        let start = self.cur_idx;
        let mut s: Vec<char> = Vec::new();
        s.push(self.input[self.cur_idx]);
        self.shift();
        assert(s@ =~= self.input@.subrange(start as int, self.cur_idx as int));
        while self.cur_idx < self.input.len() && is_word(self.input[self.cur_idx])
            invariant
                self.wf(),
                start < self.cur_idx,
                self.input@ == old(self).input@,
                start == old(self).cur_idx,
                word_end(self.input@, self.cur_idx as int) == word_end(
                    self.input@,
                    start + 1,
                ),
                s@ == self.input@.subrange(start as int, self.cur_idx as int),
            decreases self.input@.len() - self.cur_idx,
        {
            s.push(self.input[self.cur_idx]);
            self.shift();
            assert(s@ =~= self.input@.subrange(start as int, self.cur_idx as int));
        }
        s
    }

    /// Reads the token at the current position and moves past it and past the
    /// whitespace that follows.  At the end of the input it returns `EOF` and
    /// stays there.
    pub fn next_token(&mut self) -> (t: Token)
        requires
            old(self).wf(),
        ensures
            final(self).wf(),
            0 <= final(self).position() <= final(self).input().len(),
            final(self).input() == old(self).input(),
            t.token_type == lex_at(old(self).input(), old(self).position()).0,
            t.value@ == lex_at(old(self).input(), old(self).position()).1,
            final(self).position() == skip_space(
                old(self).input(),
                lex_at(old(self).input(), old(self).position()).2,
            ),
    {
        let ghost s = self.input@;
        let ghost i = self.cur_idx as int;
        let c = self.cur_char();
        let kind: TokenType;
        let value: Vec<char>;
        if self.cur_idx >= self.input.len() {
            kind = TokenType::EOF;
            value = Vec::new();
            assert(value@ =~= Seq::<char>::empty());
        } else if Self::is_number(c) {
            kind = TokenType::Integer;
            value = self.get_integer();
        } else if c == '"' {
            self.shift();
            kind = TokenType::String;
            value = self.get_string();
            self.shift();
        } else {
            let d = self.char_after();
            match double(c, d) {
                Some(k) => {
                    kind = k;
                    let mut v: Vec<char> = Vec::new();
                    v.push(c);
                    v.push(d);
                    value = v;
                    self.shift();
                    self.shift();
                    assert(value@ =~= s.subrange(i, i + 2));
                },
                None => match single(c) {
                    Some(k) => {
                        kind = k;
                        let mut v: Vec<char> = Vec::new();
                        v.push(c);
                        value = v;
                        self.shift();
                        assert(value@ =~= seq![c]);
                    },
                    None => {
                        value = self.get_identifier();
                        kind = match keyword(&value) {
                            Some(k) => k,
                            None => TokenType::Identifier,
                        };
                    },
                },
            }
        }
        self.skip_spaces();
        Token { token_type: kind, value: chars_to_string(&value) }
    }
}

} // verus!
