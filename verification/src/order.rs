//! The order of texts: lexicographic by code point.

use crate::text::chars_of;
use vstd::prelude::*;

verus! {

/// Whether `a` comes strictly before `b`: at the first place where they
/// differ `a` holds the smaller code point, or `a` is a proper prefix of `b`.
pub open spec fn text_lt(a: Seq<char>, b: Seq<char>) -> bool
    decreases a.len(),
{
    if b.len() == 0 {
        false
    } else if a.len() == 0 {
        true
    } else if a[0] != b[0] {
        (a[0] as u32) < (b[0] as u32)
    } else {
        text_lt(a.drop_first(), b.drop_first())
    }
}

/// No text comes before itself.
pub proof fn lemma_lt_irreflexive(a: Seq<char>)
    ensures
        !text_lt(a, a),
    decreases a.len(),
{
    if a.len() > 0 {
        lemma_lt_irreflexive(a.drop_first());
    }
}

/// Of two different texts one comes before the other.
pub proof fn lemma_lt_total(a: Seq<char>, b: Seq<char>)
    ensures
        a == b || text_lt(a, b) || text_lt(b, a),
    decreases a.len(),
{
    if a.len() > 0 && b.len() > 0 {
        if a[0] == b[0] {
            lemma_lt_total(a.drop_first(), b.drop_first());
            if a.drop_first() == b.drop_first() {
                assert(a =~= seq![a[0]] + a.drop_first());
                assert(b =~= seq![b[0]] + b.drop_first());
            }
        } else {
            vstd::utf8::char_u32_cast(a[0], a[0] as u32);
            vstd::utf8::char_u32_cast(b[0], b[0] as u32);
        }
    } else if a.len() == 0 && b.len() == 0 {
        assert(a =~= b);
    }
}

/// `text_lt` never holds both ways.
pub proof fn lemma_lt_asymmetric(a: Seq<char>, b: Seq<char>)
    requires
        text_lt(a, b),
    ensures
        !text_lt(b, a),
    decreases a.len(),
{
    if a.len() > 0 && b.len() > 0 && a[0] == b[0] {
        lemma_lt_asymmetric(a.drop_first(), b.drop_first());
    }
}

/// `text_lt` is transitive.
pub proof fn lemma_lt_transitive(a: Seq<char>, b: Seq<char>, c: Seq<char>)
    requires
        text_lt(a, b),
        text_lt(b, c),
    ensures
        text_lt(a, c),
    decreases a.len(),
{
    if a.len() > 0 && b.len() > 0 && c.len() > 0 {
        if a[0] == b[0] && b[0] == c[0] {
            lemma_lt_transitive(a.drop_first(), b.drop_first(), c.drop_first());
        }
    }
}

/// Comparing from place `i` on decides the order of two texts that agree
/// before it.
proof fn lemma_lt_skip(a: Seq<char>, b: Seq<char>, i: int)
    requires
        0 <= i <= a.len(),
        i <= b.len(),
        forall|j: int| 0 <= j < i ==> a[j] == b[j],
    ensures
        text_lt(a, b) == text_lt(a.skip(i), b.skip(i)),
    decreases i,
{
    if i == 0 {
        assert(a.skip(0) == a);
        assert(b.skip(0) == b);
    } else {
        lemma_lt_skip(a, b, i - 1);
        let x = a.skip(i - 1);
        let y = b.skip(i - 1);
        assert(x[0] == a[i - 1]);
        assert(y[0] == b[i - 1]);
        assert(x.drop_first() =~= a.skip(i));
        assert(y.drop_first() =~= b.skip(i));
    }
}

/// Whether `a` comes strictly before `b`.
pub fn precedes(a: &str, b: &str) -> (r: bool)
    ensures
        r == text_lt(a@, b@),
{
    let x = chars_of(a);
    let y = chars_of(b);
    let mut i: usize = 0;
    while i < x.len() && i < y.len()
        invariant
            i <= x.len(),
            i <= y.len(),
            x@ == a@,
            y@ == b@,
            forall|j: int| 0 <= j < i ==> x@[j] == y@[j],
        decreases x.len() - i,
    {
        if x[i] != y[i] {
            proof {
                lemma_lt_skip(x@, y@, i as int);
                assert(x@.skip(i as int)[0] == x@[i as int]);
                assert(y@.skip(i as int)[0] == y@[i as int]);
            }
            return (x[i] as u32) < (y[i] as u32);
        }
        i += 1;
    }
    proof {
        lemma_lt_skip(x@, y@, i as int);
    }
    i < y.len()
}

/// Whether every text of `keys` comes before the next one.
pub open spec fn strictly_ascending(keys: Seq<Seq<char>>) -> bool {
    forall|i: int, j: int| 0 <= i < j < keys.len() ==> text_lt(#[trigger] keys[i], #[trigger] keys[j])
}

/// In an ascending sequence no text occurs twice.
pub proof fn lemma_ascending_distinct(keys: Seq<Seq<char>>, i: int, j: int)
    requires
        strictly_ascending(keys),
        0 <= i < keys.len(),
        0 <= j < keys.len(),
        keys[i] == keys[j],
    ensures
        i == j,
{
    if i < j {
        lemma_lt_irreflexive(keys[i]);
    } else if j < i {
        lemma_lt_irreflexive(keys[j]);
    }
}

/// Two ascending sequences that hold the same texts are the same sequence.
pub proof fn lemma_ascending_same_members(a: Seq<Seq<char>>, b: Seq<Seq<char>>)
    requires
        strictly_ascending(a),
        strictly_ascending(b),
        forall|k: Seq<char>| a.contains(k) <==> b.contains(k),
    ensures
        a == b,
    decreases a.len(),
{
    if a.len() == 0 {
        if b.len() > 0 {
            assert(b.contains(b[0]));
        }
        assert(a =~= b);
    } else {
        let top = a.last();
        assert(a.contains(top));
        let j = b.index_of(top);
        assert(b.contains(b.last()));
        let i = a.index_of(b.last());
        if j < b.len() - 1 {
            // top == b[j] < b.last() == a[i] <= top
            assert(text_lt(b[j], b.last()));
            if i < a.len() - 1 {
                assert(text_lt(a[i], a.last()));
                lemma_lt_asymmetric(top, a[i]);
            } else {
                lemma_lt_irreflexive(top);
            }
        }
        assert(b.last() == top);
        let x = a.drop_last();
        let y = b.drop_last();
        assert forall|k: Seq<char>| x.contains(k) <==> y.contains(k) by {
            if x.contains(k) {
                let p = x.index_of(k);
                assert(a[p] == k);
                assert(text_lt(a[p], a.last()));
                if k == top {
                    lemma_lt_irreflexive(top);
                }
                assert(a.contains(k));
                let q = b.index_of(k);
                assert(y[q] == k);
            }
            if y.contains(k) {
                let p = y.index_of(k);
                assert(b[p] == k);
                assert(text_lt(b[p], b.last()));
                if k == top {
                    lemma_lt_irreflexive(top);
                }
                assert(b.contains(k));
                let q = a.index_of(k);
                assert(x[q] == k);
            }
        }
        assert forall|p: int, q: int| 0 <= p < q < x.len() implies text_lt(
            #[trigger] x[p],
            #[trigger] x[q],
        ) by {
            assert(text_lt(a[p], a[q]));
        }
        assert forall|p: int, q: int| 0 <= p < q < y.len() implies text_lt(
            #[trigger] y[p],
            #[trigger] y[q],
        ) by {
            assert(text_lt(b[p], b[q]));
        }
        lemma_ascending_same_members(x, y);
        assert(a =~= x.push(top));
        assert(b =~= y.push(top));
    }
}

} // verus!
