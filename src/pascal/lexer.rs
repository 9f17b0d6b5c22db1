//! Splits program text into tokens.
use vstd::prelude::*;
use vstd::string::{StrSliceExecFns, StringExecFns};
use crate::numeral::digits_value;
use crate::pascal::token::{Token, TokenModel};
use crate::render::push_char;

verus! {

/// Whether `c` is Unicode whitespace.
pub uninterp spec fn whitespace(c: char) -> bool;

/// Whether `c` is Unicode alphabetic.
pub uninterp spec fn alphabetic(c: char) -> bool;

/// Whether `c` is Unicode alphabetic or numeric.
pub uninterp spec fn alphanumeric(c: char) -> bool;

/// The Unicode upper-case form of a text.
pub uninterp spec fn upper_of(s: Seq<char>) -> Seq<char>;

/// Relies on `char::is_whitespace`.
#[verifier::external_body]
fn is_whitespace(c: char) -> (r: bool)
    ensures
        r == whitespace(c),
{
    c.is_whitespace()
}

/// Relies on `char::is_alphabetic`; `char::is_alphanumeric` holds of every
/// alphabetic character.
#[verifier::external_body]
fn is_alphabetic(c: char) -> (r: bool)
    ensures
        r == alphabetic(c),
        r ==> alphanumeric(c),
{
    c.is_alphabetic()
}

/// Relies on `char::is_alphanumeric`.
#[verifier::external_body]
fn is_alphanumeric(c: char) -> (r: bool)
    ensures
        r == alphanumeric(c),
{
    c.is_alphanumeric()
}

/// Relies on `str::to_uppercase`.
#[verifier::external_body]
fn to_upper(s: &str) -> (r: String)
    ensures
        r@ == upper_of(s@),
{
    s.to_uppercase()
}

pub open spec fn is_digit(c: char) -> bool {
    '0' <= c && c <= '9'
}

pub open spec fn is_word_char(c: char) -> bool {
    alphanumeric(c) || c == '_'
}

/// First position from `p` on that does not hold whitespace.
pub open spec fn ws_end(t: Seq<char>, p: int) -> int
    decreases t.len() - p,
{
    if 0 <= p < t.len() && whitespace(t[p]) {
        ws_end(t, p + 1)
    } else {
        p
    }
}

/// End of the run of digits that starts at `p`.
pub open spec fn digit_end(t: Seq<char>, p: int) -> int
    decreases t.len() - p,
{
    if 0 <= p < t.len() && is_digit(t[p]) {
        digit_end(t, p + 1)
    } else {
        p
    }
}

/// End of the run of identifier characters that starts at `p`.
pub open spec fn word_end(t: Seq<char>, p: int) -> int
    decreases t.len() - p,
{
    if 0 <= p < t.len() && is_word_char(t[p]) {
        word_end(t, p + 1)
    } else {
        p
    }
}

/// The token of a single punctuation character.
pub open spec fn punct_token(c: char) -> Option<TokenModel> {
    if c == '+' {
        Some(TokenModel::Plus)
    } else if c == '-' {
        Some(TokenModel::Minus)
    } else if c == '*' {
        Some(TokenModel::Multiply)
    } else if c == '/' {
        Some(TokenModel::Divide)
    } else if c == '(' {
        Some(TokenModel::LParen)
    } else if c == ')' {
        Some(TokenModel::RParen)
    } else if c == ';' {
        Some(TokenModel::Semi)
    } else if c == '.' {
        Some(TokenModel::Dot)
    } else {
        None
    }
}

/// The next token of `t` from position `p`, and the position after it; on
/// an error, the position where lexing stopped.
pub open spec fn next_token(t: Seq<char>, p: int) -> (Option<TokenModel>, int) {
    let q = ws_end(t, p);
    if q >= t.len() {
        (Some(TokenModel::Eof), q)
    } else if is_digit(t[q]) {
        let e = digit_end(t, q);
        let v = digits_value(t.subrange(q, e));
        if v <= i32::MAX {
            (Some(TokenModel::Integer(v as i32)), e)
        } else {
            (None, e)
        }
    } else if alphabetic(t[q]) {
        let e = word_end(t, q);
        let w = t.subrange(q, e);
        if upper_of(w) == "BEGIN"@ {
            (Some(TokenModel::Begin), e)
        } else if upper_of(w) == "END"@ {
            (Some(TokenModel::End), e)
        } else {
            (Some(TokenModel::Id(w)), e)
        }
    } else if t[q] == ':' && q + 1 < t.len() && t[q + 1] == '=' {
        (Some(TokenModel::Assign), q + 2)
    } else {
        match punct_token(t[q]) {
            Some(tok) => (Some(tok), q + 1),
            None => (None, q),
        }
    }
}

/// The program text and the position reached in it.
pub struct Lexer {
    text: Vec<char>,
    pos: usize,
    current_char: Option<char>,
}

impl Lexer {
    pub closed spec fn text_spec(&self) -> Seq<char> {
        self.text@
    }

    pub closed spec fn pos_spec(&self) -> int {
        self.pos as int
    }

    pub closed spec fn wf(&self) -> bool {
        &&& self.pos <= self.text@.len()
        &&& self.current_char == if self.pos < self.text@.len() {
            Some(self.text@[self.pos as int])
        } else {
            None
        }
    }

    /// Characters not yet consumed.
    pub open spec fn remaining(&self) -> nat {
        (self.text_spec().len() - self.pos_spec()) as nat
    }

    pub fn new(text: &str) -> (r: Self)
        ensures
            r.wf(),
            r.text_spec() == text@,
            r.pos_spec() == 0,
    {
        let n = text.unicode_len();
        let mut chars: Vec<char> = Vec::new();
        let mut i: usize = 0;
        while i < n
            invariant
                n == text@.len(),
                i <= n,
                chars@ == text@.take(i as int),
            decreases n - i,
        {
            chars.push(text.get_char(i));
            i = i + 1;
            proof {
                assert(chars@ =~= text@.take(i as int));
            }
        }
        proof {
            assert(text@.take(n as int) =~= text@);
        }
        let current_char = if chars.len() == 0 {
            None
        } else {
            Some(chars[0])
        };
        Lexer { text: chars, pos: 0, current_char }
    }

    fn advance(&mut self)
        requires
            old(self).wf(),
            old(self).pos < old(self).text@.len(),
        ensures
            final(self).wf(),
            final(self).text@ == old(self).text@,
            final(self).pos == old(self).pos + 1,
    {
        let n = self.text.len();
        self.pos = self.pos + 1;
        if self.pos >= n {
            self.current_char = None;
        } else {
            self.current_char = Some(self.text[self.pos]);
        }
    }

    fn peek(&self) -> (r: Option<char>)
        requires
            self.wf(),
        ensures
            r == if self.pos + 1 < self.text@.len() {
                Some(self.text@[self.pos + 1])
            } else {
                None
            },
    {
        let n = self.text.len();
        if n - self.pos <= 1 {
            None
        } else {
            Some(self.text[self.pos + 1])
        }
    }

    fn skip_whitespace(&mut self)
        requires
            old(self).wf(),
        ensures
            final(self).wf(),
            final(self).text@ == old(self).text@,
            final(self).pos == ws_end(old(self).text@, old(self).pos as int),
    {
        while self.current_char.is_some() && is_whitespace(self.current_char.unwrap())
            invariant
                self.wf(),
                self.text@ == old(self).text@,
                ws_end(self.text@, self.pos as int) == ws_end(old(self).text@, old(self).pos as int),
            decreases self.text@.len() - self.pos,
        {
            self.advance();
        }
    }

    fn integer(&mut self) -> (r: Option<i32>)
        requires
            old(self).wf(),
        ensures
            final(self).wf(),
            final(self).text@ == old(self).text@,
            final(self).pos == digit_end(old(self).text@, old(self).pos as int),
            r == if digits_value(
                old(self).text@.subrange(old(self).pos as int, final(self).pos as int),
            ) <= i32::MAX {
                Some(
                    digits_value(
                        old(self).text@.subrange(old(self).pos as int, final(self).pos as int),
                    ) as i32,
                )
            } else {
                None
            },
    {
        let start = self.pos;
        let mut acc: u64 = 0;
        let mut over = false;
        while self.current_char.is_some() && '0' <= self.current_char.unwrap()
            && self.current_char.unwrap() <= '9'
            invariant
                self.wf(),
                self.text@ == old(self).text@,
                start == old(self).pos,
                start <= self.pos,
                digit_end(self.text@, self.pos as int) == digit_end(self.text@, start as int),
                !over ==> acc == digits_value(self.text@.subrange(start as int, self.pos as int)),
                !over ==> acc <= i32::MAX,
                over ==> digits_value(self.text@.subrange(start as int, self.pos as int)) > i32::MAX,
            decreases self.text@.len() - self.pos,
        {
            let c = self.current_char.unwrap();
            let d = (c as u32 - 48) as u64;
            let ghost before = self.text@.subrange(start as int, self.pos as int);
            self.advance();
            proof {
                let now = self.text@.subrange(start as int, self.pos as int);
                assert(now.drop_last() =~= before);
                assert(now.last() == c);
                assert(digits_value(now) == digits_value(before) * 10 + d);
            }
            if !over {
                if acc * 10 + d > 0x7fff_ffff {
                    over = true;
                } else {
                    acc = acc * 10 + d;
                }
            }
        }
        if over {
            None
        } else {
            Some(acc as i32)
        }
    }

    fn id(&mut self) -> (r: String)
        requires
            old(self).wf(),
        ensures
            final(self).wf(),
            final(self).text@ == old(self).text@,
            final(self).pos == word_end(old(self).text@, old(self).pos as int),
            r@ == old(self).text@.subrange(old(self).pos as int, final(self).pos as int),
    {
        let start = self.pos;
        let mut result = String::new();
        while self.current_char.is_some() && (is_alphanumeric(self.current_char.unwrap())
            || self.current_char.unwrap() == '_')
            invariant
                self.wf(),
                self.text@ == old(self).text@,
                start == old(self).pos,
                start <= self.pos,
                word_end(self.text@, self.pos as int) == word_end(self.text@, start as int),
                result@ == self.text@.subrange(start as int, self.pos as int),
            decreases self.text@.len() - self.pos,
        {
            let c = self.current_char.unwrap();
            push_char(&mut result, c);
            self.advance();
            proof {
                assert(result@ =~= self.text@.subrange(start as int, self.pos as int));
            }
        }
        result
    }

    /// Reads the next token, or fails on a character that starts none (or
    /// on an integer literal too large for `i32`).
    pub fn get_next_token(&mut self) -> (r: Result<Token, String>)
        requires
            old(self).wf(),
        ensures
            final(self).wf(),
            final(self).text_spec() == old(self).text_spec(),
            final(self).pos_spec() == next_token(old(self).text_spec(), old(self).pos_spec()).1,
            r matches Ok(t) ==> next_token(old(self).text_spec(), old(self).pos_spec()).0 == Some(t@),
            r is Err ==> next_token(old(self).text_spec(), old(self).pos_spec()).0 is None,
            final(self).pos_spec() >= old(self).pos_spec(),
            old(self).pos_spec() <= old(self).text_spec().len(),
            final(self).pos_spec() <= final(self).text_spec().len(),
            r matches Ok(t) ==> (t is Eof ==> final(self).remaining() == 0),
            r matches Ok(t) ==> (!(t is Eof) ==> final(self).pos_spec() > old(self).pos_spec()),
    {
        proof {
            lemma_ws_end_bounds(self.text@, self.pos as int);
        }
        self.skip_whitespace();
        let ghost q = self.pos as int;
        match self.current_char {
            None => Ok(Token::Eof),
            Some(ch) => {
                if '0' <= ch && ch <= '9' {
                    proof {
                        lemma_run_end_bounds(self.text@, q);
                    }
                    match self.integer() {
                        Some(v) => Ok(Token::Integer(v)),
                        None => Err(String::from_str("Integer literal out of range")),
                    }
                } else if is_alphabetic(ch) {
                    proof {
                        lemma_run_end_bounds(self.text@, q);
                    }
                    let id = self.id();
                    let upper = to_upper(id.as_str());
                    if upper == String::from_str("BEGIN") {
                        Ok(Token::Begin)
                    } else if upper == String::from_str("END") {
                        Ok(Token::End)
                    } else {
                        Ok(Token::Id(id))
                    }
                } else if ch == ':' && self.peek() == Some('=') {
                    self.advance();
                    self.advance();
                    Ok(Token::Assign)
                } else {
                    let tok = if ch == '+' {
                        Token::Plus
                    } else if ch == '-' {
                        Token::Minus
                    } else if ch == '*' {
                        Token::Multiply
                    } else if ch == '/' {
                        Token::Divide
                    } else if ch == '(' {
                        Token::LParen
                    } else if ch == ')' {
                        Token::RParen
                    } else if ch == ';' {
                        Token::Semi
                    } else if ch == '.' {
                        Token::Dot
                    } else {
                        let mut msg = String::from_str("Invalid character: ");
                        push_char(&mut msg, ch);
                        return Err(msg);
                    };
                    self.advance();
                    Ok(tok)
                }
            },
        }
    }
}

proof fn lemma_ws_end_bounds(t: Seq<char>, p: int)
    requires
        0 <= p <= t.len(),
    ensures
        p <= ws_end(t, p) <= t.len(),
        ws_end(t, p) < t.len() ==> !whitespace(t[ws_end(t, p)]),
    decreases t.len() - p,
{
    if 0 <= p < t.len() && whitespace(t[p]) {
        lemma_ws_end_bounds(t, p + 1);
    }
}

proof fn lemma_run_end_bounds(t: Seq<char>, p: int)
    requires
        0 <= p < t.len(),
    ensures
        is_digit(t[p]) ==> p < digit_end(t, p) <= t.len(),
        alphabetic(t[p]) && is_word_char(t[p]) ==> p < word_end(t, p) <= t.len(),
{
    lemma_digit_end_bounds(t, p + 1);
    lemma_word_end_bounds(t, p + 1);
}

proof fn lemma_digit_end_bounds(t: Seq<char>, p: int)
    requires
        0 <= p <= t.len(),
    ensures
        p <= digit_end(t, p) <= t.len(),
    decreases t.len() - p,
{
    if 0 <= p < t.len() && is_digit(t[p]) {
        lemma_digit_end_bounds(t, p + 1);
    }
}

proof fn lemma_word_end_bounds(t: Seq<char>, p: int)
    requires
        0 <= p <= t.len(),
    ensures
        p <= word_end(t, p) <= t.len(),
    decreases t.len() - p,
{
    if 0 <= p < t.len() && is_word_char(t[p]) {
        lemma_word_end_bounds(t, p + 1);
    }
}

} // verus!
