//! Discrete half of the generalized Lotka-Volterra engine: the coefficient
//! plan. Randomizing the interaction matrix along a binary edge template
//! first decides, entry by entry, what each coefficient must be — the fixed
//! self-limitation on the diagonal, a fresh positive random draw on a
//! template edge, zero elsewhere. That decision is verified here; drawing
//! the actual values is numeric work left to the caller.

use vstd::prelude::*;
use crate::codec::is_square;
use crate::codec::rows_view;
use crate::errors::EcoError;

verus! {

/// What one interaction coefficient must be set to.
#[derive(Clone, Copy, Debug, PartialEq, Eq, Structural)]
pub enum CoeffKind {
    /// A diagonal entry: pinned at the fixed self-limitation value,
    /// whatever the template says.
    SelfLimiting,
    /// An off-diagonal entry on a template edge: a fresh random draw from
    /// the strictly positive coefficient distribution.
    RandomEdge,
    /// An off-diagonal entry off every template edge: zero.
    Absent,
}

/// The coefficient kind demanded at entry `(i, j)` of a template.
pub open spec fn spec_coeff_kind(template: Seq<Seq<u8>>, i: int, j: int) -> CoeffKind {
    if i == j {
        CoeffKind::SelfLimiting
    } else if template[i][j] == 1 {
        CoeffKind::RandomEdge
    } else {
        CoeffKind::Absent
    }
}

/// Decide the coefficient kind of every entry of an `n` by `n` interaction
/// matrix from a binary edge template of the same shape. A template of any
/// other shape is a `ShapeMismatch`.
pub fn coefficient_kinds(template: &Vec<Vec<u8>>, n: usize) -> (r: Result<
    Vec<Vec<CoeffKind>>,
    EcoError,
>)
    ensures
        match r {
            Ok(plan) => is_square(rows_view(template@), n as nat) && plan@.len() == n && (forall|
                i: int,
            |
                0 <= i < n ==> (#[trigger] plan@[i]@).len() == n) && (forall|i: int, j: int|
                0 <= i < n && 0 <= j < n ==> #[trigger] plan@[i]@[j] == spec_coeff_kind(
                    rows_view(template@),
                    i,
                    j,
                )),
            Err(e) => e == EcoError::ShapeMismatch && !is_square(
                rows_view(template@),
                n as nat,
            ),
        },
{
    if template.len() != n {
        return Err(EcoError::ShapeMismatch);
    }
    let mut i: usize = 0;
    while i < n
        invariant
            n == template@.len(),
            i <= n,
            forall|a: int| 0 <= a < i ==> (#[trigger] template@[a]@).len() == n,
        decreases n - i,
    {
        if template[i].len() != n {
            proof {
                assert(rows_view(template@)[i as int] == template@[i as int]@);
                assert(!is_square(rows_view(template@), n as nat));
            }
            return Err(EcoError::ShapeMismatch);
        }
        i += 1;
    }
    let mut plan: Vec<Vec<CoeffKind>> = Vec::new();
    let mut i: usize = 0;
    while i < n
        invariant
            n == template@.len(),
            is_square(rows_view(template@), n as nat),
            i <= n,
            plan@.len() == i,
            forall|a: int| 0 <= a < i ==> (#[trigger] plan@[a]@).len() == n,
            forall|a: int, b: int|
                0 <= a < i && 0 <= b < n ==> #[trigger] plan@[a]@[b] == spec_coeff_kind(
                    rows_view(template@),
                    a,
                    b,
                ),
        decreases n - i,
    {
        let mut row: Vec<CoeffKind> = Vec::new();
        let mut j: usize = 0;
        while j < n
            invariant
                n == template@.len(),
                is_square(rows_view(template@), n as nat),
                i < n,
                j <= n,
                row@.len() == j,
                forall|b: int|
                    0 <= b < j ==> #[trigger] row@[b] == spec_coeff_kind(
                        rows_view(template@),
                        i as int,
                        b,
                    ),
            decreases n - j,
        {
            proof {
                assert(rows_view(template@)[i as int] == template@[i as int]@);
            }
            let kind = if i == j {
                CoeffKind::SelfLimiting
            } else if template[i][j] == 1 {
                CoeffKind::RandomEdge
            } else {
                CoeffKind::Absent
            };
            row.push(kind);
            j += 1;
        }
        plan.push(row);
        i += 1;
    }
    Ok(plan)
}

} // verus!
