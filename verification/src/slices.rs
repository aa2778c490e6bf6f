//! Copying stretches of samples.

use vstd::prelude::*;

verus! {

/// Appends a copy of `more` to `out`.
pub(crate) fn append_copies<T: Copy>(out: &mut Vec<T>, more: &[T])
    ensures
        final(out)@ == old(out)@ + more@,
{
    let mut i: usize = 0;
    while i < more.len()
        invariant
            i <= more.len(),
            out@ =~= old(out)@ + more@.take(i as int),
        decreases more.len() - i,
    {
        out.push(more[i]);
        i = i + 1;
    }
    assert(more@.take(i as int) =~= more@);
}

/// A copy of `from[start..end]`.
pub(crate) fn copy_of<T: Copy>(from: &Vec<T>, start: usize, end: usize) -> (out: Vec<T>)
    requires
        start <= end <= from@.len(),
    ensures
        out@ == from@.subrange(start as int, end as int),
{
    let mut out: Vec<T> = Vec::with_capacity(end - start);
    let mut i: usize = start;
    while i < end
        invariant
            start <= i <= end <= from@.len(),
            out@ =~= from@.subrange(start as int, i as int),
        decreases end - i,
    {
        out.push(from[i]);
        i = i + 1;
    }
    out
}

} // verus!
