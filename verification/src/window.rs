//! The last `n` elements of a sequence: the window kept by bounded
//! histories and buffers.
use vstd::prelude::*;

verus! {

/// The last `n` elements of `s` (all of them when there are fewer).
pub open spec fn last_n<A>(s: Seq<A>, n: int) -> Seq<A> {
    if s.len() > n {
        s.skip(s.len() - n)
    } else {
        s
    }
}

/// Appending to a sequence and keeping the last `n` elements is the same as
/// appending to its window and trimming that to `n` elements.
pub proof fn lemma_last_n_push<A>(s: Seq<A>, x: A, n: int)
    requires
        n >= 1,
    ensures
        last_n(s.push(x), n) == ({
            let q = last_n(s, n).push(x);
            if q.len() > n {
                q.skip(q.len() - n)
            } else {
                q
            }
        }),
{
    let w = last_n(s, n);
    let q = w.push(x);
    if s.len() > n {
        assert(q.skip(q.len() - n) =~= s.push(x).skip(s.len() + 1 - n));
    } else if s.len() == n {
        assert(q.skip(q.len() - n) =~= s.push(x).skip(1));
    } else {
    }
}

/// The window of a sequence is its tail.
pub proof fn lemma_last_n_is_tail<A>(s: Seq<A>, n: int)
    requires
        n >= 0,
    ensures
        last_n(s, n).len() <= n,
        last_n(s, n) == s.subrange(s.len() - last_n(s, n).len(), s.len() as int),
{
    if s.len() > n {
        assert(s.skip(s.len() - n) =~= s.subrange(s.len() - n, s.len() as int));
    } else {
        assert(s.subrange(0, s.len() as int) =~= s);
    }
}

} // verus!
