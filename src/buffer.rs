//! The bounded line buffer: the most recent lines of the log, oldest first.

use std::collections::VecDeque;
use vstd::prelude::*;

use crate::text::texts;

verus! {

/// The most lines the buffer holds.
pub const MAX_LINES: usize = 1000;

/// What the buffer holds after the lines `s` were pushed into an empty one:
/// the last `MAX_LINES` of them, the older ones evicted first.
pub open spec fn bounded(s: Seq<Seq<char>>) -> Seq<Seq<char>> {
    if s.len() <= MAX_LINES {
        s
    } else {
        s.subrange(s.len() - MAX_LINES, s.len() as int)
    }
}

/// Pushing one line onto a bounded buffer keeps what a single bound over
/// the whole history would keep.
pub proof fn lemma_bounded_push(a: Seq<Seq<char>>, x: Seq<char>)
    ensures
        bounded(bounded(a).push(x)) == bounded(a.push(x)),
{
    if a.len() >= MAX_LINES {
        assert(bounded(bounded(a).push(x)) =~= bounded(a.push(x)));
    }
}

/// Capacity law: however lines are appended, the buffer never holds more
/// than `MAX_LINES` of them, and when it overflows the lines dropped are the
/// oldest ones. Appending `b` to a buffer that already holds the bounded
/// history `a` keeps exactly the newest `MAX_LINES` lines of `a + b`.
pub proof fn lemma_bounded_append(a: Seq<Seq<char>>, b: Seq<Seq<char>>)
    ensures
        bounded(a).len() <= MAX_LINES,
        a.len() > MAX_LINES ==> bounded(a) == a.subrange(a.len() - MAX_LINES, a.len() as int),
        a.len() <= MAX_LINES ==> bounded(a) == a,
        bounded(bounded(a) + b) == bounded(a + b),
    decreases b.len(),
{
    if b.len() > 0 {
        let init = b.drop_last();
        let x = b.last();
        lemma_bounded_append(a, init);
        lemma_bounded_push(bounded(a) + init, x);
        lemma_bounded_push(a + init, x);
        assert(bounded(a) + b =~= (bounded(a) + init).push(x));
        assert(a + b =~= (a + init).push(x));
    } else {
        assert(bounded(a) + b =~= bounded(a));
        assert(a + b =~= a);
        if a.len() > MAX_LINES {
            assert(bounded(bounded(a)) =~= bounded(a));
        }
    }
}

/// Pushes one line at the back, evicting the oldest line first when the
/// buffer is full.
pub fn push_bounded(lines: &mut VecDeque<String>, line: String)
    requires
        old(lines)@.len() <= MAX_LINES,
    ensures
        final(lines)@.len() <= MAX_LINES,
        texts(final(lines)@) == bounded(texts(old(lines)@).push(line@)),
{
    let ghost before = texts(lines@);
    if lines.len() == MAX_LINES {
        lines.pop_front();
    }
    lines.push_back(line);
    assert(texts(lines@) =~= bounded(before.push(line@)));
}

/// Pushes `new_lines[skip..]` in order, each one as `push_bounded` does.
pub fn push_all_bounded(lines: &mut VecDeque<String>, new_lines: &Vec<String>, skip: usize)
    requires
        old(lines)@.len() <= MAX_LINES,
        skip <= new_lines@.len(),
    ensures
        final(lines)@.len() <= MAX_LINES,
        texts(final(lines)@) == bounded(
            texts(old(lines)@) + texts(new_lines@).subrange(skip as int, new_lines@.len() as int),
        ),
{
    let ghost start = texts(lines@);
    let mut i: usize = skip;
    proof {
        lemma_bounded_append(start, Seq::empty());
        assert(start + texts(new_lines@).subrange(skip as int, skip as int) =~= start);
    }
    while i < new_lines.len()
        invariant
            skip <= i <= new_lines@.len(),
            lines@.len() <= MAX_LINES,
            texts(lines@) == bounded(start + texts(new_lines@).subrange(skip as int, i as int)),
        decreases new_lines@.len() - i,
    {
        let ghost seen = start + texts(new_lines@).subrange(skip as int, i as int);
        push_bounded(lines, new_lines[i].clone());
        proof {
            lemma_bounded_push(seen, new_lines@[i as int]@);
            assert(seen.push(new_lines@[i as int]@) =~= start + texts(new_lines@).subrange(
                skip as int,
                i + 1,
            ));
        }
        i = i + 1;
    }
}

} // verus!
