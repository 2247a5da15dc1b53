//! Deterministic match semantics of the shapes.
//!
//! For a text (a sequence of characters) and a position, each shape either
//! matches with exactly one length or does not match.  Because every run of
//! a shape is bounded by characters outside its class, a run always extends
//! as far as it can: the length of a candidate is forced, which is what
//! makes the semantics deterministic.

use vstd::prelude::*;

use crate::chars::{class_char, in_class, is_word_char, word_char, CharClass};
use crate::patterns::{Prefix, Shape};

verus! {

/// No word character immediately before position `i`.
pub open spec fn boundary_before(t: Seq<char>, i: int) -> bool {
    i <= 0 || !is_word_char(t[i - 1])
}

/// No word character at position `e` (the first position after a match).
pub open spec fn boundary_after(t: Seq<char>, e: int) -> bool {
    e >= t.len() || !is_word_char(t[e])
}

/// The length of the run of class characters starting at `i`.
pub open spec fn run_len(t: Seq<char>, cls: CharClass, i: int) -> int
    decreases t.len() - i when 0 <= i <= t.len()
{
    if i < t.len() && in_class(cls, t[i]) {
        1 + run_len(t, cls, i + 1)
    } else {
        0
    }
}

pub proof fn lemma_run_len_bounds(t: Seq<char>, cls: CharClass, i: int)
    requires
        0 <= i <= t.len(),
    ensures
        0 <= run_len(t, cls, i) <= t.len() - i,
    decreases t.len() - i,
{
    if i < t.len() && in_class(cls, t[i]) {
        lemma_run_len_bounds(t, cls, i + 1);
    }
}

/// The run length, computed.
pub fn run_length(text: &str, cls: CharClass, i: usize) -> (r: usize)
    requires
        i <= text@.len(),
    ensures
        r == run_len(text@, cls, i as int),
        i + r <= text@.len(),
{
    let n = text.unicode_len();
    let mut j: usize = i;
    while j < n && class_char(cls, text.get_char(j))
        invariant
            i <= j <= n,
            n == text@.len(),
            run_len(text@, cls, i as int) == (j - i) + run_len(text@, cls, j as int),
        decreases n - j,
    {
        j = j + 1;
    }
    proof {
        lemma_run_len_bounds(text@, cls, j as int);
    }
    j - i
}

/// The length in characters of an ellipsis at `i`: 1 for the horizontal
/// ellipsis character, 3 for three dots, 0 where there is none.
pub open spec fn ellipsis_len(t: Seq<char>, i: int) -> int {
    if 0 <= i < t.len() && t[i] == '\u{2026}' {
        1
    } else if 0 <= i && i + 3 <= t.len() && t[i] == '.' && t[i + 1] == '.' && t[i + 2] == '.' {
        3
    } else {
        0
    }
}

pub fn ellipsis_at(text: &str, i: usize) -> (r: usize)
    requires
        i <= text@.len(),
    ensures
        r == ellipsis_len(text@, i as int),
        i + r <= text@.len(),
{
    let n = text.unicode_len();
    if i < n && text.get_char(i) == '\u{2026}' {
        1
    } else if n - i >= 3 && text.get_char(i) == '.' && text.get_char(i + 1) == '.'
        && text.get_char(i + 2) == '.' {
        3
    } else {
        0
    }
}

/// The number of characters a prefix occupies.
pub open spec fn prefix_len(p: Prefix) -> int {
    match p {
        Prefix::NoPrefix => 0,
        Prefix::ZeroX => 2,
        Prefix::BcOne => 3,
        Prefix::LegacyLead => 1,
    }
}

pub fn prefix_size(p: Prefix) -> (r: usize)
    ensures
        r == prefix_len(p),
{
    match p {
        Prefix::NoPrefix => 0,
        Prefix::ZeroX => 2,
        Prefix::BcOne => 3,
        Prefix::LegacyLead => 1,
    }
}

/// Whether the prefix stands at position `i`.
pub open spec fn prefix_matches(t: Seq<char>, p: Prefix, i: int) -> bool {
    match p {
        Prefix::NoPrefix => true,
        Prefix::ZeroX => 0 <= i && i + 2 <= t.len() && t[i] == '0' && t[i + 1] == 'x',
        Prefix::BcOne => 0 <= i && i + 3 <= t.len() && t[i] == 'b' && t[i + 1] == 'c' && t[i + 2]
            == '1',
        Prefix::LegacyLead => 0 <= i && i + 1 <= t.len() && (t[i] == '1' || t[i] == '3'),
    }
}

pub fn prefix_at(text: &str, p: Prefix, i: usize) -> (r: bool)
    requires
        i <= text@.len(),
    ensures
        r == prefix_matches(text@, p, i as int),
{
    let n = text.unicode_len();
    match p {
        Prefix::NoPrefix => true,
        Prefix::ZeroX => n - i >= 2 && text.get_char(i) == '0' && text.get_char(i + 1) == 'x',
        Prefix::BcOne => n - i >= 3 && text.get_char(i) == 'b' && text.get_char(i + 1) == 'c'
            && text.get_char(i + 2) == '1',
        Prefix::LegacyLead => n - i >= 1 && (text.get_char(i) == '1' || text.get_char(i) == '3'),
    }
}

/// The length of the shape's match at position `i`, or `None`.
pub open spec fn shape_match_len(t: Seq<char>, sh: Shape, i: int) -> Option<int> {
    match sh {
        Shape::Full { prefix, class, min, max } => {
            let p = prefix_len(prefix);
            let r = run_len(t, class, i + p);
            if boundary_before(t, i) && prefix_matches(t, prefix, i) && min as int <= r && r
                <= max as int && boundary_after(t, i + p + r) {
                Some(p + r)
            } else {
                None
            }
        },
        Shape::Split { prefix, class, min1, max1, min2, max2 } => {
            let p = prefix_len(prefix);
            let a = run_len(t, class, i + p);
            let e = ellipsis_len(t, i + p + a);
            let b = run_len(t, class, i + p + a + e);
            if boundary_before(t, i) && prefix_matches(t, prefix, i) && min1 as int <= a && a
                <= max1 as int && e > 0 && min2 as int <= b && b <= max2 as int && boundary_after(
                t,
                i + p + a + e + b,
            ) {
                Some(p + a + e + b)
            } else {
                None
            }
        },
    }
}

/// Shapes whose matches cannot be empty.  Every shape of the registry
/// satisfies this: each has a prefix or a run of at least one character.
pub open spec fn shape_wf(sh: Shape) -> bool {
    match sh {
        Shape::Full { prefix, class, min, max } => prefix_len(prefix) + min >= 1,
        Shape::Split { .. } => true,
    }
}

/// A match of a well-formed shape has at least one character and lies
/// inside the text.
pub proof fn lemma_match_len_bounds(t: Seq<char>, sh: Shape, i: int, l: int)
    requires
        0 <= i <= t.len(),
        shape_wf(sh),
        shape_match_len(t, sh, i) == Some(l),
    ensures
        1 <= l,
        i + l <= t.len(),
{
    match sh {
        Shape::Full { prefix, class, min, max } => {
            let p = prefix_len(prefix);
            lemma_run_len_bounds(t, class, i + p);
        },
        Shape::Split { prefix, class, min1, max1, min2, max2 } => {
            let p = prefix_len(prefix);
            lemma_run_len_bounds(t, class, i + p);
            let a = run_len(t, class, i + p);
            let e = ellipsis_len(t, i + p + a);
            lemma_run_len_bounds(t, class, i + p + a + e);
        },
    }
}

/// The shape's match length at `i`, computed.
#[verifier::rlimit(50)]
pub fn shape_match_at(text: &str, sh: Shape, i: usize) -> (r: Option<usize>)
    requires
        i < text@.len(),
    ensures
        match r {
            Some(l) => shape_match_len(text@, sh, i as int) == Some(l as int),
            None => shape_match_len(text@, sh, i as int) is None,
        },
{
    let n = text.unicode_len();
    if i > 0 && word_char(text.get_char(i - 1)) {
        return None;
    }
    match sh {
        Shape::Full { prefix, class, min, max } => {
            if !prefix_at(text, prefix, i) {
                return None;
            }
            let p = prefix_size(prefix);
            let r = run_length(text, class, i + p);
            if min <= r && r <= max && (i + p + r == n || !word_char(text.get_char(i + p + r))) {
                Some(p + r)
            } else {
                None
            }
        },
        Shape::Split { prefix, class, min1, max1, min2, max2 } => {
            if !prefix_at(text, prefix, i) {
                return None;
            }
            let p = prefix_size(prefix);
            let a = run_length(text, class, i + p);
            let e = ellipsis_at(text, i + p + a);
            if e == 0 {
                return None;
            }
            let b = run_length(text, class, i + p + a + e);
            if min1 <= a && a <= max1 && min2 <= b && b <= max2 && (i + p + a + e + b == n
                || !word_char(text.get_char(i + p + a + e + b))) {
                Some(p + a + e + b)
            } else {
                None
            }
        },
    }
}

/// Case-insensitive `.eth` at position `j`.
pub open spec fn dot_eth_at(t: Seq<char>, j: int) -> bool {
    &&& 0 <= j
    &&& j + 4 <= t.len()
    &&& t[j] == '.'
    &&& (t[j + 1] == 'e' || t[j + 1] == 'E')
    &&& (t[j + 2] == 't' || t[j + 2] == 'T')
    &&& (t[j + 3] == 'h' || t[j + 3] == 'H')
}

/// The length of an ENS-name match at `i`, or `None`.  The label is a run
/// of 1 to 63 label characters that starts and ends alphanumeric, followed
/// by `.eth` in any case, all word-bounded.
pub open spec fn ens_match_len(t: Seq<char>, i: int) -> Option<int> {
    let r = run_len(t, CharClass::EnsLabel, i);
    if boundary_before(t, i) && 0 <= i < t.len() && is_word_char(t[i]) && 1 <= r <= 63
        && is_word_char(t[i + r - 1]) && dot_eth_at(t, i + r) && boundary_after(t, i + r + 4) {
        Some(r + 4)
    } else {
        None
    }
}

pub proof fn lemma_ens_match_len_bounds(t: Seq<char>, i: int, l: int)
    requires
        0 <= i <= t.len(),
        ens_match_len(t, i) == Some(l),
    ensures
        1 <= l,
        i + l <= t.len(),
{
    lemma_run_len_bounds(t, CharClass::EnsLabel, i);
}

/// The ENS match length at `i`, computed.
pub fn ens_match_at(text: &str, i: usize) -> (r: Option<usize>)
    requires
        i < text@.len(),
    ensures
        match r {
            Some(l) => ens_match_len(text@, i as int) == Some(l as int),
            None => ens_match_len(text@, i as int) is None,
        },
{
    let n = text.unicode_len();
    if i > 0 && word_char(text.get_char(i - 1)) {
        return None;
    }
    if !word_char(text.get_char(i)) {
        return None;
    }
    let r = run_length(text, CharClass::EnsLabel, i);
    if !(1 <= r && r <= 63) {
        return None;
    }
    if !word_char(text.get_char(i + r - 1)) {
        return None;
    }
    if n - (i + r) < 4 {
        return None;
    }
    let c1 = text.get_char(i + r);
    let c2 = text.get_char(i + r + 1);
    let c3 = text.get_char(i + r + 2);
    let c4 = text.get_char(i + r + 3);
    if !(c1 == '.' && (c2 == 'e' || c2 == 'E') && (c3 == 't' || c3 == 'T') && (c4 == 'h' || c4
        == 'H')) {
        return None;
    }
    if i + r + 4 == n || !word_char(text.get_char(i + r + 4)) {
        Some(r + 4)
    } else {
        None
    }
}

} // verus!
