//! Splitting a text into lines and joining texts with a separator.

use crate::text::{copy_range, push_all, rows};
use vstd::prelude::*;

verus! {

/// Number of characters before the first line feed of `s`, or the length of
/// `s` where it has none.
pub open spec fn line_end(s: Seq<char>) -> nat
    decreases s.len(),
{
    if s.len() > 0 && s[0] != '\n' {
        1 + line_end(s.skip(1))
    } else {
        0
    }
}

/// `s` without one carriage return at its end.
pub open spec fn without_cr(s: Seq<char>) -> Seq<char> {
    if s.len() > 0 && s.last() == '\r' {
        s.drop_last()
    } else {
        s
    }
}

/// The lines of `s`. A line ends at a line feed, or at a carriage return
/// directly followed by a line feed; neither belongs to the line. The last line
/// needs no line ending, and a text that ends with one has no empty line after
/// it.
pub open spec fn lines(s: Seq<char>) -> Seq<Seq<char>>
    decreases s.len(),
{
    if s.len() == 0 {
        Seq::empty()
    } else {
        let k = line_end(s);
        if k >= s.len() {
            seq![s]
        } else {
            seq![without_cr(s.take(k as int))] + lines(s.skip(k as int + 1))
        }
    }
}

/// A position `n` with no line feed before it and one at it, or the end, is
/// `line_end(s)`.
pub proof fn lemma_line_end_is(s: Seq<char>, n: nat)
    requires
        n <= s.len(),
        forall|i: int| 0 <= i < n ==> #[trigger] s[i] != '\n',
        n < s.len() ==> s[n as int] == '\n',
    ensures
        line_end(s) == n,
    decreases s.len(),
{
    if n > 0 {
        let t = s.skip(1);
        assert forall|i: int| 0 <= i < n - 1 implies #[trigger] t[i] != '\n' by {
            assert(t[i] == s[i + 1]);
        }
        lemma_line_end_is(t, (n - 1) as nat);
    }
}

/// The lines of `v`.
pub fn split_lines(v: &Vec<char>) -> (r: Vec<Vec<char>>)
    ensures
        rows(r@) == lines(v@),
{
    let n: usize = v.len();
    let mut r: Vec<Vec<char>> = Vec::new();
    let mut pos: usize = 0;
    assert(v@.skip(0) == v@);
    assert(rows(r@) + lines(v@) == lines(v@));
    while pos < n
        invariant
            n == v@.len(),
            pos <= n,
            lines(v@) == rows(r@) + lines(v@.skip(pos as int)),
        decreases n - pos,
    {
        let ghost s = v@.skip(pos as int);
        let ghost before = rows(r@);
        let mut e: usize = pos;
        while e < n && v[e] != '\n'
            invariant
                n == v@.len(),
                pos <= e <= n,
                forall|i: int| pos <= i < e ==> #[trigger] v@[i] != '\n',
            decreases n - e,
        {
            e += 1;
        }
        proof {
            assert forall|i: int| 0 <= i < e - pos implies #[trigger] s[i] != '\n' by {
                assert(s[i] == v@[pos + i]);
            }
            lemma_line_end_is(s, (e - pos) as nat);
        }
        if e == n {
            let line = copy_range(v, pos, n);
            assert(line@ == s);
            r.push(line);
            pos = n;
            proof {
                assert(lines(v@.skip(n as int)) == Seq::<Seq<char>>::empty());
                assert(rows(r@) == before + seq![s]);
            }
        } else {
            let end: usize = if e > pos && v[e - 1] == '\r' {
                e - 1
            } else {
                e
            };
            let line = copy_range(v, pos, end);
            proof {
                let head = s.take(e - pos);
                assert(head == v@.subrange(pos as int, e as int));
                if e > pos {
                    assert(head.last() == v@[e - 1]);
                }
                assert(line@ == without_cr(head));
                assert(s.skip(e - pos + 1) == v@.skip(e + 1));
            }
            r.push(line);
            pos = e + 1;
            proof {
                assert(rows(r@) == before + seq![line@]);
            }
        }
    }
    assert(lines(v@.skip(pos as int)) == Seq::<Seq<char>>::empty());
    r
}

/// The texts of `parts` in their order, with `sep` between each two.
pub open spec fn join(parts: Seq<Seq<char>>, sep: Seq<char>) -> Seq<char>
    decreases parts.len(),
{
    if parts.len() == 0 {
        Seq::empty()
    } else if parts.len() == 1 {
        parts[0]
    } else {
        join(parts.drop_last(), sep) + sep + parts.last()
    }
}

/// The texts `parts[from..to]` joined with `sep`.
pub fn join_range(parts: &Vec<Vec<char>>, from: usize, to: usize, sep: &Vec<char>) -> (r: Vec<char>)
    requires
        from <= to <= parts@.len(),
    ensures
        r@ == join(rows(parts@).subrange(from as int, to as int), sep@),
{
    let ghost all = rows(parts@);
    let mut r: Vec<char> = Vec::new();
    let mut i: usize = from;
    while i < to
        invariant
            from <= i <= to <= parts@.len(),
            all == rows(parts@),
            r@ == join(all.subrange(from as int, i as int), sep@),
        decreases to - i,
    {
        if i > from {
            push_all(&mut r, sep);
        }
        push_all(&mut r, &parts[i]);
        proof {
            let next = all.subrange(from as int, i + 1);
            assert(next.drop_last() == all.subrange(from as int, i as int));
            assert(next.last() == parts@[i as int]@);
            if i == from {
                assert(next[0] == parts@[i as int]@);
            }
        }
        i += 1;
    }
    r
}

} // verus!
