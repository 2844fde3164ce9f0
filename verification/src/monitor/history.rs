//! Bounded histories of samples: each new sample is appended, and the
//! oldest one is dropped once the history grows past its limit.

use vstd::prelude::*;

verus! {

/// The history `h` after pushing `x` with limit `max`.
pub open spec fn pushed<T>(h: Seq<T>, x: T, max: nat) -> Seq<T> {
    let s = h.push(x);
    if s.len() > max { s.drop_first() } else { s }
}

/// The history `h` after pushing every sample of `xs` in order.
pub open spec fn pushed_all<T>(h: Seq<T>, xs: Seq<T>, max: nat) -> Seq<T>
    decreases xs.len(),
{
    if xs.len() == 0 {
        h
    } else {
        pushed(pushed_all(h, xs.drop_last(), max), xs.last(), max)
    }
}

/// Appends `value` to `history`, then drops the oldest sample if the
/// history holds more than `max`.
pub fn push_bounded<T>(history: &mut Vec<T>, value: T, max: usize)
    ensures
        final(history)@ == pushed(old(history)@, value, max as nat),
{
    history.push(value);
    if history.len() > max {
        history.remove(0);
        assert(history@ =~= old(history)@.push(value).drop_first());
    }
}

/// A history within its limit stays within it, and holds the latest
/// samples: pushing `xs` onto `h` leaves the last `min(|h| + |xs|, max)`
/// samples of `h + xs`.
pub proof fn lemma_history_keeps_latest<T>(h: Seq<T>, xs: Seq<T>, max: nat)
    requires
        h.len() <= max,
    ensures
        pushed_all(h, xs, max).len() <= max,
        pushed_all(h, xs, max) == (h + xs).skip(
            if h.len() + xs.len() > max { h.len() + xs.len() - max } else { 0 },
        ),
    decreases xs.len(),
{
    if xs.len() > 0 {
        let ys = xs.drop_last();
        lemma_history_keeps_latest(h, ys, max);
        let prev = pushed_all(h, ys, max);
        assert((h + xs) =~= (h + ys).push(xs.last()));
        let k = if h.len() + ys.len() > max { h.len() + ys.len() - max } else { 0 };
        assert(prev.push(xs.last()) =~= (h + ys).push(xs.last()).skip(k));
        if prev.len() + 1 > max {
            assert(prev.push(xs.last()).drop_first() =~= (h + xs).skip(k + 1));
        }
    } else {
        assert((h + xs).skip(0) =~= h);
    }
}

} // verus!
