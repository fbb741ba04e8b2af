//! Genome codec: the bidirectional mapping between a flat gene sequence and a
//! square adjacency matrix. `decode` partitions a length-`n*n` sequence into
//! `n` contiguous rows; `encode` is the row-major flattening inverse.

use vstd::prelude::*;
use vstd::arithmetic::div_mod::lemma_fundamental_div_mod_converse;
use crate::errors::EcoError;

verus! {

/// The mathematical view of a vector of rows.
pub open spec fn rows_view(m: Seq<Vec<u8>>) -> Seq<Seq<u8>> {
    Seq::new(m.len(), |i: int| m[i]@)
}

/// Row-major partition of a flat sequence into an `n` by `n` matrix.
pub open spec fn spec_decode(g: Seq<u8>, n: nat) -> Seq<Seq<u8>> {
    Seq::new(n, |i: int| Seq::new(n, |j: int| g[i * n + j]))
}

/// Row-major flattening of a square matrix.
pub open spec fn spec_encode(m: Seq<Seq<u8>>) -> Seq<u8> {
    Seq::new(m.len() * m.len(), |k: int| m[k / (m.len() as int)][k % (m.len() as int)])
}

/// Whether `m` is a square matrix with `n` rows.
pub open spec fn is_square(m: Seq<Seq<u8>>, n: nat) -> bool {
    m.len() == n && (forall|i: int| 0 <= i < n ==> (#[trigger] m[i]).len() == n)
}

proof fn lemma_row_major_index(i: int, j: int, n: int)
    requires
        0 <= i < n,
        0 <= j < n,
    ensures
        0 <= i * n + j < n * n,
        (i * n + j) / n == i,
        (i * n + j) % n == j,
{
    assert(0 <= i * n + j < n * n) by (nonlinear_arith)
        requires 0 <= i < n, 0 <= j < n;
    lemma_fundamental_div_mod_converse(i * n + j, n, i, j);
}

/// Law: decoding the row-major flattening of any square matrix gives the
/// matrix back.
pub proof fn lemma_codec_round_trip(m: Seq<Seq<u8>>, n: nat)
    requires
        is_square(m, n),
    ensures
        spec_decode(spec_encode(m), n) == m,
{
    let e = spec_encode(m);
    let d = spec_decode(e, n);
    assert forall|i: int| 0 <= i < n implies d[i] =~= m[i] by {
        assert forall|j: int| 0 <= j < n implies d[i][j] == m[i][j] by {
            lemma_row_major_index(i, j, n as int);
        }
    }
    assert(d =~~= m);
}

/// Law: encoding a decoded flat sequence of length `n*n` gives the sequence
/// back.
pub proof fn lemma_codec_round_trip_flat(g: Seq<u8>, n: nat)
    requires
        g.len() == n * n,
    ensures
        spec_encode(spec_decode(g, n)) == g,
{
    let d = spec_decode(g, n);
    let e = spec_encode(d);
    assert forall|k: int| 0 <= k < n * n implies e[k] == g[k] by {
        let i = k / (n as int);
        let j = k % (n as int);
        assert(n > 0) by (nonlinear_arith)
            requires 0 <= k < n * n;
        assert(k == i * n + j && 0 <= i < n && 0 <= j < n) by (nonlinear_arith)
            requires
                n > 0,
                0 <= k < n * n,
                i == k / (n as int),
                j == k % (n as int);
    }
    assert(e =~= g);
}

/// Decode a flat genome of length `n*n` into an `n` by `n` adjacency matrix,
/// row by row. Any other genome length is a `ShapeMismatch`.
pub fn decode(genome: &Vec<u8>, n: usize) -> (r: Result<Vec<Vec<u8>>, EcoError>)
    ensures
        match r {
            Ok(m) => genome@.len() == n * n && rows_view(m@) == spec_decode(genome@, n as nat),
            Err(e) => e == EcoError::ShapeMismatch && genome@.len() != n * n,
        },
{
    if n == 0 {
        if genome.len() == 0 {
            let m: Vec<Vec<u8>> = Vec::new();
            proof {
                assert(rows_view(m@) =~~= spec_decode(genome@, 0));
            }
            return Ok(m);
        } else {
            return Err(EcoError::ShapeMismatch);
        }
    }
    if genome.len() / n != n || genome.len() % n != 0 {
        proof {
            if genome@.len() == n * n {
                lemma_fundamental_div_mod_converse(genome@.len() as int, n as int, n as int, 0);
            }
        }
        return Err(EcoError::ShapeMismatch);
    }
    proof {
        vstd::arithmetic::div_mod::lemma_fundamental_div_mod(genome@.len() as int, n as int);
    }
    let glen = genome.len();
    let mut m: Vec<Vec<u8>> = Vec::new();
    let mut i: usize = 0;
    while i < n
        invariant
            genome@.len() == n * n,
            glen == genome@.len(),
            n > 0,
            i <= n,
            m@.len() == i,
            forall|a: int| 0 <= a < i ==> #[trigger] m@[a]@ == spec_decode(genome@, n as nat)[a],
        decreases n - i,
    {
        let mut row: Vec<u8> = Vec::new();
        let mut j: usize = 0;
        while j < n
            invariant
                genome@.len() == n * n,
                glen == genome@.len(),
                n > 0,
                i < n,
                j <= n,
                row@.len() == j,
                forall|b: int| 0 <= b < j ==> #[trigger] row@[b] == genome@[i * n + b],
            decreases n - j,
        {
            proof {
                lemma_row_major_index(i as int, j as int, n as int);
            }
            row.push(genome[i * n + j]);
            j += 1;
        }
        proof {
            assert(row@ =~= spec_decode(genome@, n as nat)[i as int]);
        }
        m.push(row);
        i += 1;
    }
    proof {
        assert(rows_view(m@) =~~= spec_decode(genome@, n as nat));
    }
    Ok(m)
}

/// Encode a square adjacency matrix as a flat genome by row-major
/// flattening. A ragged or non-square matrix is a `ShapeMismatch`.
pub fn encode(m: &Vec<Vec<u8>>) -> (r: Result<Vec<u8>, EcoError>)
    ensures
        match r {
            Ok(g) => is_square(rows_view(m@), m@.len() as nat) && g@ == spec_encode(
                rows_view(m@),
            ),
            Err(e) => e == EcoError::ShapeMismatch && !is_square(rows_view(m@), m@.len() as nat),
        },
{
    let n = m.len();
    let mut i: usize = 0;
    while i < n
        invariant
            n == m@.len(),
            i <= n,
            forall|a: int| 0 <= a < i ==> (#[trigger] m@[a]@).len() == n,
        decreases n - i,
    {
        if m[i].len() != n {
            proof {
                assert(rows_view(m@)[i as int] == m@[i as int]@);
                assert(!is_square(rows_view(m@), n as nat));
            }
            return Err(EcoError::ShapeMismatch);
        }
        i += 1;
    }
    let mut g: Vec<u8> = Vec::new();
    let mut i: usize = 0;
    while i < n
        invariant
            n == m@.len(),
            is_square(rows_view(m@), n as nat),
            i <= n,
            g@.len() == i * n,
            forall|k: int| 0 <= k < g@.len() ==> #[trigger] g@[k] == spec_encode(rows_view(m@))[k],
        decreases n - i,
    {
        let mut j: usize = 0;
        while j < n
            invariant
                n == m@.len(),
                is_square(rows_view(m@), n as nat),
                i < n,
                j <= n,
                g@.len() == i * n + j,
                forall|k: int| 0 <= k < g@.len() ==> #[trigger] g@[k] == spec_encode(
                    rows_view(m@),
                )[k],
            decreases n - j,
        {
            proof {
                lemma_row_major_index(i as int, j as int, n as int);
                assert(rows_view(m@)[i as int] == m@[i as int]@);
                assert(m@[i as int]@.len() == n);
            }
            g.push(m[i][j]);
            j += 1;
        }
        proof {
            assert((i + 1) * n == i * n + n) by (nonlinear_arith);
        }
        i += 1;
    }
    proof {
        assert(g@ =~= spec_encode(rows_view(m@)));
    }
    Ok(g)
}

} // verus!

