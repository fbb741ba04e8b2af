//! Small general-purpose helpers over sequences.

use vstd::prelude::*;

verus! {

/// Number of positions at which two equal-length sequences disagree.
pub open spec fn spec_hamming(x: Seq<u8>, y: Seq<u8>) -> nat
    decreases x.len(),
{
    if x.len() == 0 {
        0
    } else {
        spec_hamming(x.drop_last(), y.drop_last())
            + (if x.last() == y.last() { 0nat } else { 1nat })
    }
}

/// The Hamming distance between two equal-length gene vectors: the number of
/// positions where they differ.
pub fn hamming(x: &Vec<u8>, y: &Vec<u8>) -> (dist: usize)
    requires
        x@.len() == y@.len(),
    ensures
        dist == spec_hamming(x@, y@),
        dist <= x@.len(),
{
    let mut dist: usize = 0;
    let mut i: usize = 0;
    while i < x.len()
        invariant
            x@.len() == y@.len(),
            i <= x@.len(),
            dist == spec_hamming(x@.subrange(0, i as int), y@.subrange(0, i as int)),
            dist <= i,
        decreases x@.len() - i,
    {
        proof {
            let xs = x@.subrange(0, i + 1);
            let ys = y@.subrange(0, i + 1);
            assert(xs.drop_last() =~= x@.subrange(0, i as int));
            assert(ys.drop_last() =~= y@.subrange(0, i as int));
        }
        if x[i] != y[i] {
            dist += 1;
        }
        i += 1;
    }
    proof {
        assert(x@.subrange(0, x@.len() as int) =~= x@);
        assert(y@.subrange(0, y@.len() as int) =~= y@);
    }
    dist
}

} // verus!
