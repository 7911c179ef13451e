//! The cursor-driven scanner.
//!
//! A `Lexer` walks an immutable input string character by character and
//! hands out one token per `next_token` call, or `None` once only
//! whitespace remains. Its contracts tie every produced token to the
//! mathematical model in `model`.

use vstd::prelude::*;
use vstd::string::StrSliceExecFns;

use crate::charset::char_is_alnum;
use crate::charset::char_is_alpha;
use crate::charset::is_alnum;
use crate::charset::is_ident_char;
use crate::charset::is_quote_char;
use crate::charset::is_ws;
use crate::model::ident_end;
use crate::model::lemma_skip_ws_bounds;
use crate::model::lemma_step_end_bounds;
use crate::model::lemma_string_end_bounds;
use crate::model::numeric_end;
use crate::model::op_token;
use crate::model::scan_spec;
use crate::model::skip_ws_from;
use crate::model::step_end;
use crate::model::step_token;
use crate::model::string_end;
use crate::model::tokens_from;
use crate::token::Token;
use crate::token::TokenView;

verus! {

/// The character under the cursor: the character at position `p`, or the
/// null sentinel at or past the end of the input.
pub open spec fn cur_char(s: Seq<char>, p: nat) -> char {
    if p < s.len() {
        s[p as int]
    } else {
        '\x00'
    }
}

/// The scanner: a read-only view of the input text and a cursor over it.
pub struct Lexer<'a> {
    input: &'a str,
    length: usize,
    pos: usize,
    cur: char,
}

impl<'a> Lexer<'a> {
    /// The input text, as a sequence of characters.
    pub closed spec fn text(self) -> Seq<char> {
        self.input@
    }

    /// The cursor: the position of the next character to be examined, or
    /// the length of the input once it is exhausted.
    pub closed spec fn cursor(self) -> nat {
        self.pos as nat
    }

    /// Well-formedness of the cursor state: the cached length and current
    /// character agree with the input and the position.
    pub closed spec fn wf(self) -> bool {
        &&& self.length == self.input@.len()
        &&& self.pos <= self.length
        &&& self.cur == cur_char(self.input@, self.pos as nat)
    }

    /// A fresh scanner over `input`, its cursor on the first character.
    pub fn new(input: &'a str) -> (l: Lexer<'a>)
        ensures
            l.wf(),
            l.text() == input@,
            l.cursor() == 0,
    {
        let length: usize = input.unicode_len();
        let cur = if length > 0 {
            input.get_char(0)
        } else {
            '\x00'
        };
        Lexer { input, length, pos: 0, cur }
    }

    /// The advance primitive, the sole mutator of cursor state: moves the
    /// cursor one character forward and returns the character it lands on,
    /// or `None` (with the null sentinel installed) once the input is
    /// exhausted.
    pub fn scan_char(&mut self) -> (r: Option<char>)
        requires
            old(self).wf(),
        ensures
            final(self).wf(),
            final(self).text() == old(self).text(),
            final(self).cursor() == (if old(self).cursor() < old(self).text().len() {
                old(self).cursor() + 1
            } else {
                old(self).cursor()
            }),
            r == (if final(self).cursor() < final(self).text().len() {
                Some(final(self).text()[final(self).cursor() as int])
            } else {
                None::<char>
            }),
    {
        if self.pos < self.length {
            self.pos = self.pos + 1;
        }
        if self.pos < self.length {
            self.cur = self.input.get_char(self.pos);
            Some(self.cur)
        } else {
            self.cur = '\x00';
            None
        }
    }

    /// Whether the cursor is at or past the end of the input.
    pub fn is_done(&self) -> (r: bool)
        requires
            self.wf(),
        ensures
            r == (self.cursor() >= self.text().len()),
    {
        self.pos >= self.length
    }

    /// Whether the cursor is on a quote character.
    pub fn is_quote(&self) -> (r: bool)
        requires
            self.wf(),
        ensures
            r == (self.cursor() < self.text().len() && is_quote_char(
                self.text()[self.cursor() as int],
            )),
    {
        self.cur == '\'' || self.cur == '"'
    }

    /// Whether the cursor is on a character that starts (or continues) an
    /// identifier.
    pub fn is_identifier_start(&self) -> (r: bool)
        requires
            self.wf(),
        ensures
            r == (self.cursor() < self.text().len() && is_ident_char(
                self.text()[self.cursor() as int],
            )),
    {
        char_is_alpha(self.cur) || self.cur == '_'
    }

    /// The punctuation token the current character denotes, if any.
    pub fn match_op(&self) -> (r: Option<Token>)
        requires
            self.wf(),
        ensures
            self.cursor() < self.text().len() ==> r.deep_view() == op_token(
                self.text()[self.cursor() as int],
            ),
            self.cursor() >= self.text().len() ==> r is None,
    {
        match self.cur {
            '{' => Some(Token::LeftCurly),
            '}' => Some(Token::RightCurly),
            '[' => Some(Token::LeftBracket),
            ']' => Some(Token::RightBracket),
            '(' => Some(Token::LeftParens),
            ')' => Some(Token::RightParens),
            '=' => Some(Token::Equals),
            '.' => Some(Token::Dot),
            '+' => Some(Token::Plus),
            '-' => Some(Token::Minus),
            '*' => Some(Token::Multiply),
            '/' => Some(Token::Division),
            ':' => Some(Token::Colon),
            ';' => Some(Token::SemiColon),
            _ => None,
        }
    }

    /// Advances the cursor past whitespace, to the first position that
    /// holds anything else (or to the end of the input).
    pub fn skip_nontokens(&mut self)
        requires
            old(self).wf(),
        ensures
            final(self).wf(),
            final(self).text() == old(self).text(),
            final(self).cursor() == skip_ws_from(old(self).text(), old(self).cursor()),
    {
        while self.cur == ' ' || self.cur == '\t' || self.cur == '\r' || self.cur == '\n'
            invariant
                self.wf(),
                self.input@ == old(self).input@,
                skip_ws_from(self.input@, self.pos as nat) == skip_ws_from(
                    old(self).input@,
                    old(self).pos as nat,
                ),
            decreases self.length - self.pos,
        {
            assert(is_ws(self.input@[self.pos as int]));
            self.scan_char();
        }
    }

    /// Scans a string literal: the cursor starts on the opening quote and
    /// ends just past the closing quote, or at the end of the input if the
    /// literal is unterminated. Returns the text strictly between the
    /// quotes (to the end of the input when unterminated).
    pub fn scan_string(&mut self) -> (r: String)
        requires
            old(self).wf(),
            old(self).cursor() < old(self).text().len(),
            is_quote_char(old(self).text()[old(self).cursor() as int]),
        ensures
            final(self).wf(),
            final(self).text() == old(self).text(),
            ({
                let k = string_end(old(self).text(), (old(self).cursor() + 1) as nat);
                &&& final(self).cursor() == (if k < old(self).text().len() {
                    k + 1
                } else {
                    k
                })
                &&& r@ == old(self).text().subrange(old(self).cursor() as int + 1, k as int)
            }),
    {
        let ghost s = self.input@;
        let ghost q: nat = self.pos as nat;
        let start: usize = self.pos;
        // Consume the opening quote.
        self.scan_char();
        while self.pos < self.length && !(self.cur == '\'' || self.cur == '"')
            invariant
                self.wf(),
                self.input@ == s,
                q + 1 <= self.pos <= s.len(),
                string_end(s, self.pos as nat) == string_end(s, (q + 1) as nat),
            decreases self.length - self.pos,
        {
            assert(!is_quote_char(s[self.pos as int]));
            self.scan_char();
        }
        let end: usize = self.pos;
        // Consume the closing quote, when there is one.
        self.scan_char();
        proof {
            lemma_string_end_bounds(s, (q + 1) as nat);
        }
        // Chop the quotes off the returned text.
        self.input.substring_char(start + 1, end).to_owned()
    }

    /// Scans an identifier: the cursor starts on an identifier character
    /// and ends at the first position holding anything else. Returns the
    /// spanned text.
    pub fn scan_identifier(&mut self) -> (r: String)
        requires
            old(self).wf(),
            old(self).cursor() < old(self).text().len(),
            is_ident_char(old(self).text()[old(self).cursor() as int]),
        ensures
            final(self).wf(),
            final(self).text() == old(self).text(),
            final(self).cursor() == ident_end(old(self).text(), old(self).cursor()),
            r@ == old(self).text().subrange(
                old(self).cursor() as int,
                ident_end(old(self).text(), old(self).cursor()) as int,
            ),
    {
        let ghost s = self.input@;
        let ghost q: nat = self.pos as nat;
        let start: usize = self.pos;
        while self.is_identifier_start()
            invariant
                self.wf(),
                self.input@ == s,
                q <= self.pos <= s.len(),
                ident_end(s, self.pos as nat) == ident_end(s, q),
            decreases self.length - self.pos,
        {
            self.scan_char();
        }
        let end: usize = self.pos;
        self.input.substring_char(start, end).to_owned()
    }

    /// Scans a numeric literal: the cursor starts on an alphanumeric
    /// character and ends at the first position holding anything else.
    /// Letters continue the literal; the raw spanned text is returned.
    pub fn scan_numeric(&mut self) -> (r: String)
        requires
            old(self).wf(),
            old(self).cursor() < old(self).text().len(),
            is_alnum(old(self).text()[old(self).cursor() as int]),
        ensures
            final(self).wf(),
            final(self).text() == old(self).text(),
            final(self).cursor() == numeric_end(old(self).text(), old(self).cursor()),
            r@ == old(self).text().subrange(
                old(self).cursor() as int,
                numeric_end(old(self).text(), old(self).cursor()) as int,
            ),
    {
        let ghost s = self.input@;
        let ghost q: nat = self.pos as nat;
        let start: usize = self.pos;
        while char_is_alnum(self.cur)
            invariant
                self.wf(),
                self.input@ == s,
                q <= self.pos <= s.len(),
                numeric_end(s, self.pos as nat) == numeric_end(s, q),
            decreases self.length - self.pos,
        {
            self.scan_char();
        }
        let end: usize = self.pos;
        self.input.substring_char(start, end).to_owned()
    }

    /// Produces the next token, or `None` once only whitespace remains.
    /// The token produced, and the position the cursor ends at, are exactly
    /// what the model prescribes at the current cursor position.
    pub fn next_token(&mut self) -> (r: Option<Token>)
        requires
            old(self).wf(),
        ensures
            final(self).wf(),
            final(self).text() == old(self).text(),
            ({
                let s = old(self).text();
                let j = skip_ws_from(s, old(self).cursor());
                if j >= s.len() {
                    &&& r is None
                    &&& final(self).cursor() == s.len()
                } else {
                    &&& r.deep_view() == Some(step_token(s, j))
                    &&& final(self).cursor() == step_end(s, j)
                }
            }),
    {
        self.skip_nontokens();
        if self.is_done() {
            return None;
        }
        if let Some(token) = self.match_op() {
            self.scan_char();
            return Some(token);
        }
        if self.is_quote() {
            return Some(Token::StringLiteral { value: self.scan_string() });
        }
        if self.is_identifier_start() {
            return Some(Token::Identifier { value: self.scan_identifier() });
        }
        if char_is_alnum(self.cur) {
            return Some(Token::NumberLiteral { value: self.scan_numeric() });
        }
        self.scan_char();
        Some(Token::Dot)
    }
}

/// Scans the whole input and returns every token, in input order: exactly
/// the sequence the model assigns to the input.
pub fn scan_tokens(input: &str) -> (out: Vec<Token>)
    ensures
        out.deep_view() == scan_spec(input@),
{
    let ghost s = input@;
    let mut lexer = Lexer::new(input);
    let mut v: Vec<Token> = Vec::new();
    loop
        invariant
            s == input@,
            lexer.wf(),
            lexer.text() == s,
            lexer.cursor() <= s.len(),
            v.deep_view() + tokens_from(s, lexer.cursor()) == scan_spec(s),
        decreases s.len() - lexer.cursor(),
    {
        let ghost c0: nat = lexer.cursor();
        let ghost dv0 = v.deep_view();
        proof {
            lemma_skip_ws_bounds(s, c0);
            let j: nat = skip_ws_from(s, c0);
            if j < s.len() {
                lemma_step_end_bounds(s, j);
            }
        }
        match lexer.next_token() {
            Some(t) => {
                let ghost j: nat = skip_ws_from(s, c0);
                v.push(t);
                proof {
                    assert(v.deep_view() =~= dv0.push(t.deep_view()));
                    assert(tokens_from(s, c0) == seq![step_token(s, j)] + tokens_from(
                        s,
                        step_end(s, j),
                    ));
                    assert(v.deep_view() + tokens_from(s, lexer.cursor()) =~= dv0 + tokens_from(
                        s,
                        c0,
                    ));
                }
            },
            None => {
                proof {
                    assert(tokens_from(s, c0) =~= Seq::<TokenView>::empty());
                    assert(v.deep_view() + tokens_from(s, c0) =~= v.deep_view());
                }
                return v;
            },
        }
    }
}

} // verus!
