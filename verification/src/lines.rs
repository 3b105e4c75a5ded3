//! Splitting text into lines.

use vstd::prelude::*;

verus! {

/// Index of the first occurrence of `c` in `s`, or `s.len()` if there is none.
pub open spec fn first_index_of(s: Seq<char>, c: char) -> int
    decreases s.len(),
{
    if s.len() == 0 {
        0
    } else if s[0] == c {
        0
    } else {
        1 + first_index_of(s.drop_first(), c)
    }
}

/// `s` without one trailing carriage return.
pub open spec fn strip_cr(s: Seq<char>) -> Seq<char> {
    if s.len() > 0 && s.last() == '\r' {
        s.drop_last()
    } else {
        s
    }
}

/// The lines of `s`: the text between line feeds, each without the line feed
/// and without a carriage return directly before it. A line feed at the very
/// end opens no further line, and text after the last line feed is a line as
/// it stands.
pub open spec fn lines(s: Seq<char>) -> Seq<Seq<char>>
    decreases s.len(),
{
    if s.len() == 0 {
        Seq::empty()
    } else {
        let n = first_index_of(s, '\n');
        if 0 <= n < s.len() {
            seq![strip_cr(s.take(n))] + lines(s.skip(n + 1))
        } else {
            seq![s]
        }
    }
}

/// `first_index_of` is the index at which `c` stands with none before it.
pub proof fn lemma_first_index_of(s: Seq<char>, c: char, n: int)
    requires
        0 <= n <= s.len(),
        forall|j: int| 0 <= j < n ==> #[trigger] s[j] != c,
        n == s.len() || s[n] == c,
    ensures
        first_index_of(s, c) == n,
    decreases n,
{
    if n > 0 {
        let t = s.drop_first();
        assert forall|j: int| 0 <= j < n - 1 implies #[trigger] t[j] != c by {
            assert(t[j] == s[j + 1]);
        }
        lemma_first_index_of(t, c, n - 1);
    }
}

/// The texts held by a vector of character vectors.
pub open spec fn rows(v: Seq<Vec<char>>) -> Seq<Seq<char>> {
    Seq::new(v.len(), |i: int| v[i]@)
}

/// Executable form of [`lines`].
pub fn split_lines(v: &Vec<char>) -> (out: Vec<Vec<char>>)
    ensures
        rows(out@) == lines(v@),
{
    let mut out: Vec<Vec<char>> = Vec::new();
    let mut start: usize = 0;
    let mut i: usize = 0;
    proof {
        assert(v@.skip(0) == v@);
        assert(rows(out@) + lines(v@) == lines(v@));
    }
    while i < v.len()
        invariant
            start <= i <= v.len(),
            forall|j: int| start <= j < i ==> #[trigger] v@[j] != '\n',
            lines(v@) == rows(out@) + lines(v@.skip(start as int)),
        decreases v.len() - i,
    {
        if v[i] == '\n' {
            let mut end: usize = i;
            if end > start && v[end - 1] == '\r' {
                end -= 1;
            }
            let line = crate::text::slice_of(v, start, end);
            proof {
                let rest = v@.skip(start as int);
                assert forall|j: int| 0 <= j < i - start implies #[trigger] rest[j] != '\n' by {
                    assert(rest[j] == v@[j + start]);
                }
                lemma_first_index_of(rest, '\n', i - start);
                assert(rest.take(i - start) == v@.subrange(start as int, i as int));
                assert(strip_cr(v@.subrange(start as int, i as int)) == line@);
                assert(rest.skip(i - start + 1) == v@.skip(i + 1));
                let before = rows(out@);
                assert(before.push(line@) + lines(v@.skip(i + 1)) == before + (seq![line@] + lines(
                    v@.skip(i + 1),
                )));
            }
            let ghost before = rows(out@);
            out.push(line);
            proof {
                assert(rows(out@) == before.push(out@[out.len() - 1]@));
            }
            start = i + 1;
        }
        i += 1;
    }
    if start < v.len() {
        let line = crate::text::slice_of(v, start, v.len());
        proof {
            let rest = v@.skip(start as int);
            assert forall|j: int| 0 <= j < rest.len() implies #[trigger] rest[j] != '\n' by {
                assert(rest[j] == v@[j + start]);
            }
            lemma_first_index_of(rest, '\n', rest.len() as int);
            assert(rest == v@.subrange(start as int, v.len() as int));
            assert(lines(rest) == seq![rest]);
        }
        let ghost before = rows(out@);
        out.push(line);
        proof {
            assert(rows(out@) == before.push(out@[out.len() - 1]@));
            assert(before.push(out@[out.len() - 1]@) == before + seq![out@[out.len() - 1]@]);
        }
    } else {
        proof {
            assert(lines(v@.skip(start as int)) == Seq::<Seq<char>>::empty());
            assert(rows(out@) + Seq::<Seq<char>>::empty() == rows(out@));
        }
    }
    out
}

} // verus!
