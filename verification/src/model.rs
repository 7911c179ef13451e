//! The mathematical model of scanning: what sequence of tokens a given
//! input denotes, and which span of the input each token consumes.
//!
//! The model mirrors the recognition order of the scanner: skip whitespace,
//! then try, on the current character, single-character punctuation, a
//! quoted string, an identifier, the alphanumeric fallback, and finally the
//! absolute fallback that consumes one character as `Dot`.

use vstd::prelude::*;

use crate::charset::is_alnum;
use crate::charset::is_ident_char;
use crate::charset::is_quote_char;
use crate::charset::is_ws;
use crate::token::TokenView;

verus! {

/// The punctuation token a single character denotes, if any.
pub open spec fn op_token(c: char) -> Option<TokenView> {
    match c {
        '{' => Some(TokenView::LeftCurly),
        '}' => Some(TokenView::RightCurly),
        '[' => Some(TokenView::LeftBracket),
        ']' => Some(TokenView::RightBracket),
        '(' => Some(TokenView::LeftParens),
        ')' => Some(TokenView::RightParens),
        '=' => Some(TokenView::Equals),
        '.' => Some(TokenView::Dot),
        '+' => Some(TokenView::Plus),
        '-' => Some(TokenView::Minus),
        '*' => Some(TokenView::Multiply),
        '/' => Some(TokenView::Division),
        ':' => Some(TokenView::Colon),
        ';' => Some(TokenView::SemiColon),
        _ => None,
    }
}

/// The first position at or after `i` that does not hold a whitespace
/// character (or the end of the input).
pub open spec fn skip_ws_from(s: Seq<char>, i: nat) -> nat
    decreases s.len() - i
    when i <= s.len()
{
    if i < s.len() && is_ws(s[i as int]) {
        skip_ws_from(s, (i + 1) as nat)
    } else {
        i
    }
}

/// The position of the closing quote of a string literal whose contents
/// start at `i`: the first position at or after `i` holding a quote
/// character, or the end of the input if there is none.
pub open spec fn string_end(s: Seq<char>, i: nat) -> nat
    decreases s.len() - i
    when i <= s.len()
{
    if i < s.len() && !is_quote_char(s[i as int]) {
        string_end(s, (i + 1) as nat)
    } else {
        i
    }
}

/// The first position at or after `i` that does not hold an identifier
/// character (or the end of the input).
pub open spec fn ident_end(s: Seq<char>, i: nat) -> nat
    decreases s.len() - i
    when i <= s.len()
{
    if i < s.len() && is_ident_char(s[i as int]) {
        ident_end(s, (i + 1) as nat)
    } else {
        i
    }
}

/// The first position at or after `i` that does not hold an alphanumeric
/// character (or the end of the input).
pub open spec fn numeric_end(s: Seq<char>, i: nat) -> nat
    decreases s.len() - i
    when i <= s.len()
{
    if i < s.len() && is_alnum(s[i as int]) {
        numeric_end(s, (i + 1) as nat)
    } else {
        i
    }
}

/// The token recognized at position `j`, which must hold a non-whitespace
/// character. First match wins: punctuation, quoted string, identifier,
/// alphanumeric fallback, absolute fallback.
pub open spec fn step_token(s: Seq<char>, j: nat) -> TokenView
    recommends
        j < s.len(),
{
    let c = s[j as int];
    if op_token(c) is Some {
        op_token(c)->0
    } else if is_quote_char(c) {
        TokenView::StringLiteral {
            value: s.subrange(j as int + 1, string_end(s, (j + 1) as nat) as int),
        }
    } else if is_ident_char(c) {
        TokenView::Identifier { value: s.subrange(j as int, ident_end(s, j) as int) }
    } else if is_alnum(c) {
        TokenView::NumberLiteral { value: s.subrange(j as int, numeric_end(s, j) as int) }
    } else {
        TokenView::Dot
    }
}

/// The position just past the token recognized at position `j`. A closing
/// quote is consumed when present; an unterminated string literal ends at
/// the end of the input.
pub open spec fn step_end(s: Seq<char>, j: nat) -> nat
    recommends
        j < s.len(),
{
    let c = s[j as int];
    if op_token(c) is Some {
        (j + 1) as nat
    } else if is_quote_char(c) {
        let k = string_end(s, (j + 1) as nat);
        if k < s.len() {
            (k + 1) as nat
        } else {
            k
        }
    } else if is_ident_char(c) {
        ident_end(s, j)
    } else if is_alnum(c) {
        numeric_end(s, j)
    } else {
        (j + 1) as nat
    }
}

/// Skipping whitespace moves forward and never past the end.
pub proof fn lemma_skip_ws_bounds(s: Seq<char>, i: nat)
    requires
        i <= s.len(),
    ensures
        i <= skip_ws_from(s, i) <= s.len(),
    decreases s.len() - i,
{
    if i < s.len() && is_ws(s[i as int]) {
        lemma_skip_ws_bounds(s, (i + 1) as nat);
    }
}

/// The closing-quote search moves forward and never past the end.
pub proof fn lemma_string_end_bounds(s: Seq<char>, i: nat)
    requires
        i <= s.len(),
    ensures
        i <= string_end(s, i) <= s.len(),
    decreases s.len() - i,
{
    if i < s.len() && !is_quote_char(s[i as int]) {
        lemma_string_end_bounds(s, (i + 1) as nat);
    }
}

/// The identifier scan moves forward and never past the end.
pub proof fn lemma_ident_end_bounds(s: Seq<char>, i: nat)
    requires
        i <= s.len(),
    ensures
        i <= ident_end(s, i) <= s.len(),
    decreases s.len() - i,
{
    if i < s.len() && is_ident_char(s[i as int]) {
        lemma_ident_end_bounds(s, (i + 1) as nat);
    }
}

/// The numeric scan moves forward and never past the end.
pub proof fn lemma_numeric_end_bounds(s: Seq<char>, i: nat)
    requires
        i <= s.len(),
    ensures
        i <= numeric_end(s, i) <= s.len(),
    decreases s.len() - i,
{
    if i < s.len() && is_alnum(s[i as int]) {
        lemma_numeric_end_bounds(s, (i + 1) as nat);
    }
}

/// Every token consumes at least one character and ends within the input.
pub proof fn lemma_step_end_bounds(s: Seq<char>, j: nat)
    requires
        j < s.len(),
    ensures
        j < step_end(s, j) <= s.len(),
{
    let c = s[j as int];
    if op_token(c) is Some {
    } else if is_quote_char(c) {
        lemma_string_end_bounds(s, (j + 1) as nat);
    } else if is_ident_char(c) {
        lemma_ident_end_bounds(s, (j + 1) as nat);
    } else if is_alnum(c) {
        lemma_numeric_end_bounds(s, (j + 1) as nat);
    }
}

/// The sequence of tokens denoted by the input from position `i` on.
pub open spec fn tokens_from(s: Seq<char>, i: nat) -> Seq<TokenView>
    decreases s.len() - i
    when i <= s.len()
    via tokens_from_decreases
{
    let j: nat = skip_ws_from(s, i);
    if j >= s.len() {
        Seq::empty()
    } else {
        seq![step_token(s, j)] + tokens_from(s, step_end(s, j))
    }
}

#[via_fn]
proof fn tokens_from_decreases(s: Seq<char>, i: nat) {
    lemma_skip_ws_bounds(s, i);
    let j: nat = skip_ws_from(s, i);
    if j < s.len() {
        lemma_step_end_bounds(s, j);
    }
}

/// The sequence of tokens the whole input denotes.
pub open spec fn scan_spec(s: Seq<char>) -> Seq<TokenView> {
    tokens_from(s, 0)
}

/// One consumed stretch of the input: either the span a token was scanned
/// from, or a stretch of skipped whitespace. `lo` is inclusive, `hi`
/// exclusive.
pub struct Span {
    pub token: bool,
    pub lo: nat,
    pub hi: nat,
}

/// The consumed spans of the input from position `i` on, in input order:
/// before each token, the whitespace skipped ahead of it (if any); then the
/// span the token itself was scanned from; and after the last token, any
/// trailing whitespace.
pub open spec fn spans_from(s: Seq<char>, i: nat) -> Seq<Span>
    decreases s.len() - i
    when i <= s.len()
    via spans_from_decreases
{
    let j: nat = skip_ws_from(s, i);
    let ws = if j > i {
        seq![Span { token: false, lo: i, hi: j }]
    } else {
        Seq::<Span>::empty()
    };
    if j >= s.len() {
        ws
    } else {
        ws + seq![Span { token: true, lo: j, hi: step_end(s, j) }] + spans_from(s, step_end(s, j))
    }
}

#[via_fn]
proof fn spans_from_decreases(s: Seq<char>, i: nat) {
    lemma_skip_ws_bounds(s, i);
    let j: nat = skip_ws_from(s, i);
    if j < s.len() {
        lemma_step_end_bounds(s, j);
    }
}

/// The spans `sp` tile the half-open interval from `lo` to `hi` exactly:
/// each span is non-empty, consecutive spans abut (no gaps, no overlaps),
/// the first starts at `lo` and the last ends at `hi`.
pub open spec fn covers(sp: Seq<Span>, lo: nat, hi: nat) -> bool {
    &&& (sp.len() == 0 ==> lo == hi)
    &&& (sp.len() > 0 ==> sp[0].lo == lo && sp[sp.len() - 1].hi == hi)
    &&& (forall|k: int| 0 <= k < sp.len() ==> (#[trigger] sp[k]).lo < sp[k].hi)
    &&& (forall|k: int| 0 <= k < sp.len() - 1 ==> (#[trigger] sp[k]).hi == sp[k + 1].lo)
}

} // verus!
