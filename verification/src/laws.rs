//! Laws of the scanner, stated over the model and proved once and for all.

use vstd::prelude::*;

use crate::charset::ascii_alpha;
use crate::charset::is_ident_char;
use crate::charset::is_quote_char;
use crate::charset::is_ws;
use crate::model::covers;
use crate::model::ident_end;
use crate::model::lemma_skip_ws_bounds;
use crate::model::lemma_step_end_bounds;
use crate::model::op_token;
use crate::model::scan_spec;
use crate::model::skip_ws_from;
use crate::model::spans_from;
use crate::model::Span;
use crate::model::step_end;
use crate::model::tokens_from;
use crate::token::TokenView;

verus! {

/// Skipping whitespace over an all-whitespace stretch reaches the end.
proof fn lemma_skip_ws_all(s: Seq<char>, i: nat)
    requires
        i <= s.len(),
        forall|k: int| 0 <= k < s.len() ==> is_ws(#[trigger] s[k]),
    ensures
        skip_ws_from(s, i) == s.len(),
    decreases s.len() - i,
{
    if i < s.len() {
        lemma_skip_ws_all(s, (i + 1) as nat);
    }
}

/// An input consisting solely of whitespace characters, in any combination,
/// scans to the empty token sequence.
pub proof fn lemma_whitespace_scans_empty(s: Seq<char>)
    requires
        forall|k: int| 0 <= k < s.len() ==> is_ws(#[trigger] s[k]),
    ensures
        scan_spec(s) =~= Seq::<TokenView>::empty(),
{
    lemma_skip_ws_all(s, 0);
}

/// Any of the fourteen punctuation characters, alone in the input, scans
/// to exactly the one matching token.
pub proof fn lemma_single_operator(c: char)
    requires
        op_token(c) is Some,
    ensures
        scan_spec(seq![c]) =~= seq![op_token(c)->0],
{
    let s = seq![c];
    assert(s[0] == c);
    assert(!is_ws(c));
    assert(skip_ws_from(s, 0) == 0);
    assert(step_end(s, 0) == 1);
    assert(skip_ws_from(s, 1) == 1);
    assert(tokens_from(s, 1) =~= Seq::<TokenView>::empty());
    assert(tokens_from(s, 0) =~= seq![op_token(c)->0] + Seq::<TokenView>::empty());
}

/// Scanning an all-identifier-character stretch runs to the end.
proof fn lemma_ident_all(s: Seq<char>, i: nat)
    requires
        i <= s.len(),
        forall|k: int| 0 <= k < s.len() ==> is_ident_char(#[trigger] s[k]),
    ensures
        ident_end(s, i) == s.len(),
    decreases s.len() - i,
{
    if i < s.len() {
        lemma_ident_all(s, (i + 1) as nat);
    }
}

/// An input that is one identifier — ASCII letters and underscores only,
/// with nothing adjacent — scans to exactly one `Identifier` token whose
/// text is the whole input.
pub proof fn lemma_identifier_alone(s: Seq<char>)
    requires
        s.len() > 0,
        forall|k: int| 0 <= k < s.len() ==> ascii_alpha(#[trigger] s[k]) || s[k] == '_',
    ensures
        scan_spec(s) =~= seq![TokenView::Identifier { value: s }],
{
    assert forall|k: int| 0 <= k < s.len() implies is_ident_char(#[trigger] s[k]) by {
        assert(ascii_alpha(s[k]) || s[k] == '_');
    }
    assert(!is_ws(s[0]));
    assert(op_token(s[0]) is None);
    assert(!is_quote_char(s[0]));
    assert(skip_ws_from(s, 0) == 0);
    lemma_ident_all(s, 0);
    assert(step_end(s, 0) == s.len());
    assert(skip_ws_from(s, s.len()) == s.len());
    assert(tokens_from(s, s.len()) =~= Seq::<TokenView>::empty());
    assert(s.subrange(0, s.len() as int) =~= s);
    assert(tokens_from(s, 0) =~= seq![TokenView::Identifier { value: s }]
        + Seq::<TokenView>::empty());
}

/// Scanning is a pure function of the input text: two scans of equal
/// inputs — in particular two fresh scanners over the same string —
/// denote identical token sequences. `scan_tokens` promises exactly
/// `scan_spec` of its input, so every run returns this sequence.
pub proof fn lemma_scan_idempotent(s1: Seq<char>, s2: Seq<char>)
    requires
        s1 == s2,
    ensures
        scan_spec(s1) == scan_spec(s2),
{
}

/// The consumed spans from position `i` on tile the rest of the input.
proof fn lemma_coverage_from(s: Seq<char>, i: nat)
    requires
        i <= s.len(),
    ensures
        covers(spans_from(s, i), i, s.len()),
    decreases s.len() - i,
{
    lemma_skip_ws_bounds(s, i);
    let j: nat = skip_ws_from(s, i);
    let sp = spans_from(s, i);
    if j >= s.len() {
        assert(j == s.len());
    } else {
        lemma_step_end_bounds(s, j);
        let e: nat = step_end(s, j);
        lemma_coverage_from(s, e);
        let rest = spans_from(s, e);
        let front: int = if j > i {
            2
        } else {
            1
        };
        assert(sp.len() == front + rest.len());
        assert forall|k: int| 0 <= k < sp.len() implies (#[trigger] sp[k]).lo < sp[k].hi by {
            if k >= front {
                assert(sp[k] == rest[k - front]);
            }
        }
        assert forall|k: int| 0 <= k < sp.len() - 1 implies (#[trigger] sp[k]).hi == sp[k
            + 1].lo by {
            if k == front - 1 {
                assert(sp[k].hi == e);
                assert(rest.len() > 0);
                assert(sp[k + 1] == rest[0]);
            } else if k >= front {
                assert(sp[k] == rest[k - front]);
                assert(sp[k + 1] == rest[k - front + 1]);
            }
        }
        if rest.len() == 0 {
            assert(e == s.len());
            assert(sp[sp.len() - 1].hi == s.len());
        } else {
            assert(sp[sp.len() - 1] == rest[rest.len() - 1]);
        }
    }
}

/// Whitespace skipping passes only whitespace characters.
proof fn lemma_skip_ws_range(s: Seq<char>, i: nat)
    requires
        i <= s.len(),
    ensures
        forall|p: int| i <= p < skip_ws_from(s, i) ==> is_ws(#[trigger] s[p]),
    decreases s.len() - i,
{
    if i < s.len() && is_ws(s[i as int]) {
        lemma_skip_ws_range(s, (i + 1) as nat);
    }
}

/// No character is skipped silently except whitespace: every position
/// inside a skipped (non-token) span holds a whitespace character.
pub proof fn lemma_skipped_is_whitespace(s: Seq<char>, i: nat)
    requires
        i <= s.len(),
    ensures
        forall|k: int, p: int|
            #![trigger spans_from(s, i)[k], s[p]]
            0 <= k < spans_from(s, i).len() && !spans_from(s, i)[k].token && spans_from(s, i)[k].lo
                <= p < spans_from(s, i)[k].hi ==> is_ws(s[p]),
    decreases s.len() - i,
{
    lemma_skip_ws_bounds(s, i);
    lemma_skip_ws_range(s, i);
    let j: nat = skip_ws_from(s, i);
    let sp = spans_from(s, i);
    if j < s.len() {
        lemma_step_end_bounds(s, j);
        let e: nat = step_end(s, j);
        lemma_skipped_is_whitespace(s, e);
        let rest = spans_from(s, e);
        let front: int = if j > i {
            2
        } else {
            1
        };
        assert forall|k: int, p: int|
            0 <= k < sp.len() && !(#[trigger] sp[k]).token && sp[k].lo <= p < sp[k].hi implies is_ws(
            #[trigger] s[p],
        ) by {
            if k >= front {
                assert(sp[k] == rest[k - front]);
            }
        }
    }
}

/// Among the consumed spans, the token spans are in one-to-one
/// correspondence with the produced tokens: filtering the whitespace
/// spans out leaves exactly one span per token.
pub proof fn lemma_one_span_per_token(s: Seq<char>, i: nat)
    requires
        i <= s.len(),
    ensures
        spans_from(s, i).filter(|sp: Span| sp.token).len() == tokens_from(s, i).len(),
    decreases s.len() - i,
{
    let pred = |sp: Span| sp.token;
    lemma_skip_ws_bounds(s, i);
    let j: nat = skip_ws_from(s, i);
    let ws = if j > i {
        seq![Span { token: false, lo: i, hi: j }]
    } else {
        Seq::<Span>::empty()
    };
    assert(ws.filter(pred) =~= Seq::<Span>::empty()) by {
        reveal_with_fuel(Seq::filter, 2);
    }
    if j >= s.len() {
        assert(spans_from(s, i).filter(pred).len() == 0);
        assert(tokens_from(s, i).len() == 0);
    } else {
        lemma_step_end_bounds(s, j);
        let e: nat = step_end(s, j);
        lemma_one_span_per_token(s, e);
        let tok = seq![Span { token: true, lo: j, hi: e }];
        let rest = spans_from(s, e);
        assert(tok.filter(pred) =~= tok) by {
            reveal_with_fuel(Seq::filter, 2);
        }
        Seq::filter_distributes_over_add(ws + tok, rest, pred);
        Seq::filter_distributes_over_add(ws, tok, pred);
        assert(spans_from(s, i).filter(pred).len() == 1 + rest.filter(pred).len());
    }
}

/// Total character coverage: the consumed spans of all produced tokens,
/// together with the skipped whitespace spans, tile the entire input —
/// every position is covered, with no gaps and no overlaps.
pub proof fn lemma_total_coverage(s: Seq<char>)
    ensures
        covers(spans_from(s, 0), 0, s.len()),
{
    lemma_coverage_from(s, 0);
}

} // verus!
