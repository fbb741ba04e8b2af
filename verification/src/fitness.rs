//! Fitness strategies and the survivor tally behind the coexistence score.
//! The optimizer accepts any strategy mapping a genome to a comparable
//! score; the coexistence evaluator's discrete tail — counting surviving
//! (trial, species) slots — is verified here.

use vstd::prelude::*;

verus! {

/// A fitness strategy: any map from a genome to a score, compared as a
/// plain integer. A stochastic strategy may return different scores for the
/// same genome on different calls; the optimizer assumes nothing about it.
pub trait Fitness {
    /// Score one genome.
    fn eval(&self, genome: &Vec<u8>) -> u64;
}

/// Number of `true` entries in one row of survival flags.
pub open spec fn spec_count_row(row: Seq<bool>) -> nat
    decreases row.len(),
{
    if row.len() == 0 {
        0
    } else {
        spec_count_row(row.drop_last()) + (if row.last() { 1nat } else { 0nat })
    }
}

/// Number of `true` entries across all rows of survival flags.
pub open spec fn spec_count_true(rows: Seq<Seq<bool>>) -> nat
    decreases rows.len(),
{
    if rows.len() == 0 {
        0
    } else {
        spec_count_true(rows.drop_last()) + spec_count_row(rows.last())
    }
}

/// Total number of entries across all rows.
pub open spec fn spec_total_len(rows: Seq<Seq<bool>>) -> nat
    decreases rows.len(),
{
    if rows.len() == 0 {
        0
    } else {
        spec_total_len(rows.drop_last()) + rows.last().len()
    }
}

proof fn lemma_count_row_le_len(row: Seq<bool>)
    ensures
        spec_count_row(row) <= row.len(),
    decreases row.len(),
{
    if row.len() > 0 {
        lemma_count_row_le_len(row.drop_last());
    }
}

proof fn lemma_count_le_total(rows: Seq<Seq<bool>>)
    ensures
        spec_count_true(rows) <= spec_total_len(rows),
    decreases rows.len(),
{
    if rows.len() > 0 {
        lemma_count_le_total(rows.drop_last());
        lemma_count_row_le_len(rows.last());
    }
}

proof fn lemma_total_len_prefix(rows: Seq<Seq<bool>>, i: int)
    requires
        0 <= i <= rows.len(),
    ensures
        spec_total_len(rows.subrange(0, i)) + spec_suffix_len(rows, i) == spec_total_len(rows),
    decreases rows.len() - i,
{
    if i == rows.len() {
        assert(rows.subrange(0, i) =~= rows);
    } else {
        lemma_total_len_prefix(rows, i + 1);
        assert(rows.subrange(0, i + 1).drop_last() =~= rows.subrange(0, i));
        assert(rows.subrange(0, i + 1).last() == rows[i]);
    }
}

/// Total number of entries in the rows from `i` on.
spec fn spec_suffix_len(rows: Seq<Seq<bool>>, i: int) -> nat
    decreases rows.len() - i,
{
    if i < 0 || i >= rows.len() {
        0
    } else {
        rows[i].len() + spec_suffix_len(rows, i + 1)
    }
}

/// The mathematical view of a vector of survival-flag rows.
pub open spec fn flag_rows_view(rows: Seq<Vec<bool>>) -> Seq<Seq<bool>> {
    Seq::new(rows.len(), |i: int| rows[i]@)
}

/// Count the surviving (trial, species) slots: the `true` entries across
/// all rows of survival flags. The coexistence fitness is this tally
/// normalized by the caller over the total number of slots.
pub fn survivor_count(flags: &Vec<Vec<bool>>) -> (c: usize)
    requires
        spec_total_len(flag_rows_view(flags@)) <= usize::MAX,
    ensures
        c == spec_count_true(flag_rows_view(flags@)),
{
    let ghost rows = flag_rows_view(flags@);
    proof {
        lemma_count_le_total(rows);
    }
    let mut c: usize = 0;
    let mut i: usize = 0;
    while i < flags.len()
        invariant
            rows == flag_rows_view(flags@),
            spec_total_len(rows) <= usize::MAX,
            i <= flags@.len(),
            rows.len() == flags@.len(),
            c == spec_count_true(rows.subrange(0, i as int)),
            c <= spec_total_len(rows.subrange(0, i as int)),
        decreases flags@.len() - i,
    {
        proof {
            assert(rows[i as int] == flags@[i as int]@);
            lemma_total_len_prefix(rows, i as int);
        }
        let row = &flags[i];
        let mut j: usize = 0;
        while j < row.len()
            invariant
                rows == flag_rows_view(flags@),
                spec_total_len(rows) <= usize::MAX,
                i < flags@.len(),
                rows.len() == flags@.len(),
                row@ == rows[i as int],
                j <= row@.len(),
                c == spec_count_true(rows.subrange(0, i as int)) + spec_count_row(
                    row@.subrange(0, j as int),
                ),
                c <= spec_total_len(rows.subrange(0, i as int)) + j,
                spec_total_len(rows.subrange(0, i as int)) + row@.len() <= spec_total_len(rows),
            decreases row@.len() - j,
        {
            proof {
                let rp = row@.subrange(0, j + 1);
                assert(rp.drop_last() =~= row@.subrange(0, j as int));
            }
            if row[j] {
                c += 1;
            }
            j += 1;
        }
        proof {
            let pre = rows.subrange(0, i + 1);
            assert(pre.drop_last() =~= rows.subrange(0, i as int));
            assert(pre.last() == rows[i as int]);
            assert(row@.subrange(0, row@.len() as int) =~= row@);
            lemma_total_len_prefix(rows, i + 1);
        }
        i += 1;
    }
    proof {
        assert(rows.subrange(0, rows.len() as int) =~= rows);
    }
    c
}

} // verus!
