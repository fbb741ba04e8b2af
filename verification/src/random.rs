//! Random-source boundary. All randomness the library consumes enters
//! through one uniform-integer draw; probabilities are exact rationals, so a
//! Bernoulli trial is a verified integer comparison on such a draw.

use vstd::prelude::*;
use crate::errors::EcoError;

verus! {

/// Relies on `rand::Rng::gen_range` over `0..bound` on `rand::thread_rng()`:
/// returns a uniformly distributed integer strictly below `bound`, and
/// panics only on an empty range, which the precondition rules out.
#[verifier::external_body]
fn rand_below(bound: usize) -> (r: usize)
    requires
        bound > 0,
    ensures
        r < bound,
{
    rand::Rng::gen_range(&mut rand::thread_rng(), 0..bound)
}

/// Draw a uniformly random gene value, `0` or `1`.
pub fn random_gene() -> (g: u8)
    ensures
        g == 0 || g == 1,
{
    if rand_below(2) == 0 {
        0
    } else {
        1
    }
}

/// Draw a uniformly random index below `bound`.
pub fn random_index(bound: usize) -> (r: usize)
    requires
        bound > 0,
    ensures
        r < bound,
{
    rand_below(bound)
}

/// An exact probability `num / den`, kept as a pair of integers so that a
/// Bernoulli trial is a uniform integer draw compared against `num`.
#[derive(Clone, Copy, Debug, PartialEq, Eq, Structural)]
pub struct Probability {
    pub num: usize,
    pub den: usize,
}

impl Probability {
    /// Well-formed: a genuine probability, with a positive denominator and
    /// `num/den` at most one.
    pub open spec fn wf(self) -> bool {
        self.den >= 1 && self.num <= self.den
    }

    /// The probability never succeeds.
    pub open spec fn is_never(self) -> bool {
        self.num == 0
    }

    /// The probability always succeeds.
    pub open spec fn is_always(self) -> bool {
        self.num == self.den
    }

    /// The probability `num / den`; a zero denominator or a ratio above one
    /// is an `InvalidConfiguration`.
    pub fn new(num: usize, den: usize) -> (r: Result<Probability, EcoError>)
        ensures
            match r {
                Ok(p) => den >= 1 && num <= den && p == (Probability { num, den }) && p.wf(),
                Err(e) => e == EcoError::InvalidConfiguration && (den == 0 || num > den),
            },
    {
        if den == 0 || num > den {
            Err(EcoError::InvalidConfiguration)
        } else {
            Ok(Probability { num, den })
        }
    }

    /// The probability zero.
    pub fn never() -> (p: Probability)
        ensures
            p.wf() && p.is_never(),
    {
        Probability { num: 0, den: 1 }
    }

    /// The probability one.
    pub fn always() -> (p: Probability)
        ensures
            p.wf() && p.is_always(),
    {
        Probability { num: 1, den: 1 }
    }

    /// One Bernoulli trial: succeeds with probability `num / den`. A zero
    /// probability never succeeds; a probability of one always does.
    pub fn sample(&self) -> (b: bool)
        requires
            self.wf(),
        ensures
            self.is_never() ==> !b,
            self.is_always() ==> b,
    {
        let roll = rand_below(self.den);
        roll < self.num
    }
}

/// Draw `len` independent Bernoulli flags with probability `p`.
pub fn draw_flags(p: &Probability, len: usize) -> (flags: Vec<bool>)
    requires
        p.wf(),
    ensures
        flags@.len() == len,
        p.is_never() ==> forall|k: int| 0 <= k < len ==> !(#[trigger] flags@[k]),
        p.is_always() ==> forall|k: int| 0 <= k < len ==> #[trigger] flags@[k],
{
    let mut flags: Vec<bool> = Vec::new();
    let mut k: usize = 0;
    while k < len
        invariant
            p.wf(),
            k <= len,
            flags@.len() == k,
            p.is_never() ==> forall|a: int| 0 <= a < k ==> !(#[trigger] flags@[a]),
            p.is_always() ==> forall|a: int| 0 <= a < k ==> #[trigger] flags@[a],
        decreases len - k,
    {
        flags.push(p.sample());
        k += 1;
    }
    flags
}

} // verus!
