//! The lexicographic order of texts (by Unicode scalar value, which is the
//! order of their UTF-8 bytes, so the order of `String`).

use vstd::prelude::*;

verus! {

/// The outcome of comparing two values.
#[derive(Debug, Clone, Copy, PartialEq, Eq, Structural)]
pub enum TextOrder {
    Less,
    Equal,
    Greater,
}

/// `a` comes before `b`: at the first position where they differ `a` has the
/// smaller character, or `a` is a proper prefix of `b`.
pub open spec fn text_less(a: Seq<char>, b: Seq<char>) -> bool {
    exists|i: int|
        0 <= i <= a.len() && i <= b.len() && #[trigger] a.subrange(0, i) == b.subrange(0, i) && (
        (i == a.len() && i < b.len()) || (i < a.len() && i < b.len() && a[i] < b[i]))
}

pub proof fn lemma_text_less_transitive(a: Seq<char>, b: Seq<char>, c: Seq<char>)
    requires
        text_less(a, b),
        text_less(b, c),
    ensures
        text_less(a, c),
{
    let i = choose|i: int|
        0 <= i <= a.len() && i <= b.len() && #[trigger] a.subrange(0, i) == b.subrange(0, i) && (
        (i == a.len() && i < b.len()) || (i < a.len() && i < b.len() && a[i] < b[i]));
    let j = choose|j: int|
        0 <= j <= b.len() && j <= c.len() && #[trigger] b.subrange(0, j) == c.subrange(0, j) && (
        (j == b.len() && j < c.len()) || (j < b.len() && j < c.len() && b[j] < c[j]));
    let m = if i <= j {
        i
    } else {
        j
    };
    assert(a.subrange(0, m) =~= c.subrange(0, m)) by {
        assert forall|k: int| 0 <= k < m implies a[k] == c[k] by {
            assert(a.subrange(0, i)[k] == b.subrange(0, i)[k]);
            assert(b.subrange(0, j)[k] == c.subrange(0, j)[k]);
        }
    }
    if i < j {
        assert(b.subrange(0, j)[i] == c.subrange(0, j)[i]);
    } else if j < i {
        assert(a.subrange(0, i)[j] == b.subrange(0, i)[j]);
    }
    assert(0 <= m <= a.len() && m <= c.len() && a.subrange(0, m) == c.subrange(0, m) && ((m
        == a.len() && m < c.len()) || (m < a.len() && m < c.len() && a[m] < c[m])));
}

proof fn lemma_text_total_from(a: Seq<char>, b: Seq<char>, i: int)
    requires
        0 <= i <= a.len(),
        i <= b.len(),
        a.subrange(0, i) == b.subrange(0, i),
    ensures
        a == b || text_less(a, b) || text_less(b, a),
    decreases a.len() - i,
{
    if i == a.len() && i == b.len() {
        assert(a =~= a.subrange(0, i));
        assert(b =~= b.subrange(0, i));
    } else if i == a.len() {
        assert(a.subrange(0, i) == b.subrange(0, i));
    } else if i == b.len() {
        assert(b.subrange(0, i) == a.subrange(0, i));
    } else if a[i] != b[i] {
        if a[i] < b[i] {
            assert(a.subrange(0, i) == b.subrange(0, i));
        } else {
            assert(b.subrange(0, i) == a.subrange(0, i));
        }
    } else {
        assert(a.subrange(0, i + 1) =~= a.subrange(0, i).push(a[i]));
        assert(b.subrange(0, i + 1) =~= b.subrange(0, i).push(b[i]));
        lemma_text_total_from(a, b, i + 1);
    }
}

pub proof fn lemma_text_less_total(a: Seq<char>, b: Seq<char>)
    ensures
        a == b || text_less(a, b) || text_less(b, a),
{
    assert(a.subrange(0, 0) =~= b.subrange(0, 0));
    lemma_text_total_from(a, b, 0);
}

pub proof fn lemma_text_less_asymmetric(a: Seq<char>, b: Seq<char>)
    requires
        text_less(a, b),
    ensures
        !text_less(b, a),
        a != b,
{
    if text_less(b, a) {
        lemma_text_less_transitive(a, b, a);
    }
}

/// The spec order of `text_order`'s outcome.
pub open spec fn text_order_of(a: Seq<char>, b: Seq<char>) -> TextOrder {
    if text_less(a, b) {
        TextOrder::Less
    } else if a == b {
        TextOrder::Equal
    } else {
        TextOrder::Greater
    }
}

/// Compares two texts.
pub fn text_order(a: &[char], b: &[char]) -> (r: TextOrder)
    ensures
        r == text_order_of(a@, b@),
        r == TextOrder::Greater ==> text_less(b@, a@),
{
    let mut i: usize = 0;
    while i < a.len() && i < b.len() && a[i] == b[i]
        invariant
            i <= a@.len(),
            i <= b@.len(),
            a@.subrange(0, i as int) == b@.subrange(0, i as int),
        decreases a@.len() - i,
    {
        assert(a@.subrange(0, i + 1) =~= a@.subrange(0, i as int).push(a@[i as int]));
        assert(b@.subrange(0, i + 1) =~= b@.subrange(0, i as int).push(b@[i as int]));
        i = i + 1;
    }
    proof {
        lemma_text_less_total(a@, b@);
    }
    if i == a.len() && i == b.len() {
        assert(a@ =~= a@.subrange(0, i as int));
        assert(b@ =~= b@.subrange(0, i as int));
        TextOrder::Equal
    } else if i == a.len() || (i < b.len() && a[i] < b[i]) {
        assert(text_less(a@, b@));
        TextOrder::Less
    } else {
        assert(text_less(b@, a@));
        proof {
            lemma_text_less_asymmetric(b@, a@);
        }
        TextOrder::Greater
    }
}

} // verus!
