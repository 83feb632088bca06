//! The order of texts: character by character, a text before every longer
//! text that begins with it.

use crate::text::chars_of;
use std::cmp::Ordering;
use vstd::prelude::*;

verus! {

/// The number of characters at the start of two texts that are the same in
/// both.
pub open spec fn first_diff(a: Seq<char>, b: Seq<char>) -> int
    decreases a.len(),
{
    if a.len() > 0 && b.len() > 0 && a[0] == b[0] {
        1 + first_diff(a.skip(1), b.skip(1))
    } else {
        0
    }
}

/// What two texts have in common at their start lies within both, and the
/// two differ right behind it unless one of them ends there.
pub proof fn lemma_first_diff(a: Seq<char>, b: Seq<char>)
    ensures
        0 <= first_diff(a, b) <= a.len(),
        first_diff(a, b) <= b.len(),
        a.take(first_diff(a, b)) == b.take(first_diff(a, b)),
        first_diff(a, b) < a.len() && first_diff(a, b) < b.len() ==> a[first_diff(a, b)]
            != b[first_diff(a, b)],
        first_diff(a, b) == first_diff(b, a),
    decreases a.len(),
{
    if a.len() > 0 && b.len() > 0 && a[0] == b[0] {
        lemma_first_diff(a.skip(1), b.skip(1));
        let n = first_diff(a, b);
        assert(a.take(n) == seq![a[0]] + a.skip(1).take(n - 1));
        assert(b.take(n) == seq![b[0]] + b.skip(1).take(n - 1));
    } else {
        assert(a.take(0) == b.take(0));
    }
}

/// Counts the characters at the start of two texts that are the same in
/// both.
pub fn first_difference(a: &Vec<char>, b: &Vec<char>) -> (i: usize)
    ensures
        i == first_diff(a@, b@),
        i <= a.len(),
        i <= b.len(),
{
    let mut i: usize = 0;
    proof {
        assert(a@.skip(0) == a@);
        assert(b@.skip(0) == b@);
    }
    while i < a.len() && i < b.len() && a[i] == b[i]
        invariant
            i <= a.len(),
            i <= b.len(),
            first_diff(a@, b@) == i + first_diff(a@.skip(i as int), b@.skip(i as int)),
        decreases a.len() - i,
    {
        proof {
            assert(a@.skip(i as int)[0] == a@[i as int]);
            assert(b@.skip(i as int)[0] == b@[i as int]);
            assert(a@.skip(i as int).skip(1) == a@.skip(i + 1));
            assert(b@.skip(i as int).skip(1) == b@.skip(i + 1));
        }
        i = i + 1;
    }
    proof {
        if i < a.len() && i < b.len() {
            assert(a@.skip(i as int)[0] == a@[i as int]);
            assert(b@.skip(i as int)[0] == b@[i as int]);
        }
    }
    i
}

/// The order of two texts.
pub open spec fn text_order(a: Seq<char>, b: Seq<char>) -> Ordering {
    let i = first_diff(a, b);
    if i >= a.len() {
        if i >= b.len() {
            Ordering::Equal
        } else {
            Ordering::Less
        }
    } else if i >= b.len() {
        Ordering::Greater
    } else if a[i] < b[i] {
        Ordering::Less
    } else {
        Ordering::Greater
    }
}

/// The order turned around.
pub open spec fn reversed(o: Ordering) -> Ordering {
    match o {
        Ordering::Less => Ordering::Greater,
        Ordering::Equal => Ordering::Equal,
        Ordering::Greater => Ordering::Less,
    }
}

/// Two texts are in the same place of the order exactly if they are the
/// same text, and the order of two texts is the order of the same two the
/// other way round, turned around.
pub proof fn lemma_text_order(a: Seq<char>, b: Seq<char>)
    ensures
        text_order(a, b) == Ordering::Equal <==> a == b,
        text_order(b, a) == reversed(text_order(a, b)),
{
    lemma_first_diff(a, b);
    lemma_first_diff(b, a);
    let i = first_diff(a, b);
    if i >= a.len() && i >= b.len() {
        assert(a.take(i) == a);
        assert(b.take(i) == b);
    }
    if a == b {
        if i < a.len() {
            assert(a[i] == b[i]);
        }
    }
}

/// Compares two texts.
pub fn compare_chars(a: &Vec<char>, b: &Vec<char>) -> (r: Ordering)
    ensures
        r == text_order(a@, b@),
{
    let i = first_difference(a, b);
    if i >= a.len() {
        if i >= b.len() {
            Ordering::Equal
        } else {
            Ordering::Less
        }
    } else if i >= b.len() {
        Ordering::Greater
    } else if a[i] < b[i] {
        Ordering::Less
    } else {
        Ordering::Greater
    }
}

/// Compares two texts.
pub fn compare_text(a: &str, b: &str) -> (r: Ordering)
    ensures
        r == text_order(a@, b@),
{
    compare_chars(&chars_of(a), &chars_of(b))
}

} // verus!
