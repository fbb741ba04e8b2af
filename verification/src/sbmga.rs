//! Microbial genetic-algorithm optimizer: a population of binary genomes,
//! spatially local pairwise tournaments, and probabilistic gene infection
//! and mutation of the loser. Only one individual changes per generation;
//! the winner is never modified.

use vstd::prelude::*;
use crate::errors::EcoError;
use crate::fitness::Fitness;
use crate::random::Probability;
use crate::random::draw_flags;
use crate::random::random_index;
use crate::random::random_gene;

verus! {

/// Whether a value is a valid gene: a binary indicator.
pub open spec fn is_gene(v: u8) -> bool {
    v == 0 || v == 1
}

/// The binary complement of a gene.
pub open spec fn spec_flip(g: u8) -> u8 {
    if g == 1 {
        0
    } else {
        1
    }
}

/// One gene of the loser after a generation step: first infection (the
/// winner's gene replaces it), then mutation (the result is complemented),
/// each governed by its own flag.
pub open spec fn spec_update_gene(winner_gene: u8, loser_gene: u8, infect: bool, flip: bool) -> u8 {
    let base = if infect {
        winner_gene
    } else {
        loser_gene
    };
    if flip {
        spec_flip(base)
    } else {
        base
    }
}

/// Whether `j` lies in the half-open deme window `(i, i + deme]` taken
/// modulo `pop`.
pub open spec fn in_deme_window(i: int, j: int, deme: int, pop: int) -> bool {
    exists|d: int| 1 <= d <= deme && j == #[trigger] ((i + d) % pop)
}

/// The tournament decision: the index with strictly greater fitness wins;
/// a tie favors the second index.
pub fn tournament_outcome(fit_i: u64, fit_j: u64, i: usize, j: usize) -> (outcome: (usize, usize))
    ensures
        fit_i > fit_j ==> outcome == (i, j),
        fit_i <= fit_j ==> outcome == (j, i),
{
    if fit_i > fit_j {
        (i, j)
    } else {
        (j, i)
    }
}

/// An element-by-element copy of a genome.
fn copy_genome(src: &Vec<u8>) -> (dst: Vec<u8>)
    ensures
        dst@ == src@,
{
    let mut dst: Vec<u8> = Vec::new();
    let mut k: usize = 0;
    while k < src.len()
        invariant
            k <= src@.len(),
            dst@ == src@.subrange(0, k as int),
        decreases src@.len() - k,
    {
        dst.push(src[k]);
        proof {
            assert(dst@ =~= src@.subrange(0, k + 1));
        }
        k += 1;
    }
    proof {
        assert(src@.subrange(0, src@.len() as int) =~= src@);
    }
    dst
}

/// Overwrite the loser's genes: where `inf_flags` is set the winner's gene
/// is copied in, then where `mut_flags` is set the gene is complemented.
fn infect_and_mutate(
    winner: &Vec<u8>,
    loser: &mut Vec<u8>,
    inf_flags: &Vec<bool>,
    mut_flags: &Vec<bool>,
)
    requires
        old(loser)@.len() == winner@.len(),
        inf_flags@.len() == winner@.len(),
        mut_flags@.len() == winner@.len(),
        forall|k: int| 0 <= k < winner@.len() ==> is_gene(#[trigger] winner@[k]),
        forall|k: int| 0 <= k < winner@.len() ==> is_gene(#[trigger] old(loser)@[k]),
    ensures
        final(loser)@.len() == old(loser)@.len(),
        forall|k: int|
            0 <= k < final(loser)@.len() ==> #[trigger] final(loser)@[k] == spec_update_gene(
                winner@[k],
                old(loser)@[k],
                inf_flags@[k],
                mut_flags@[k],
            ),
{
    let n = winner.len();
    let mut k: usize = 0;
    while k < n
        invariant
            n == winner@.len(),
            loser@.len() == n,
            old(loser)@.len() == n,
            inf_flags@.len() == n,
            mut_flags@.len() == n,
            k <= n,
            forall|a: int| 0 <= a < winner@.len() ==> is_gene(#[trigger] winner@[a]),
            forall|a: int| 0 <= a < winner@.len() ==> is_gene(#[trigger] old(loser)@[a]),
            forall|a: int| k <= a < n ==> #[trigger] loser@[a] == old(loser)@[a],
            forall|a: int|
                0 <= a < k ==> #[trigger] loser@[a] == spec_update_gene(
                    winner@[a],
                    old(loser)@[a],
                    inf_flags@[a],
                    mut_flags@[a],
                ),
        decreases n - k,
    {
        let mut gene = loser[k];
        if inf_flags[k] {
            gene = winner[k];
        }
        if mut_flags[k] {
            gene = (gene + 1) % 2;
        }
        loser.set(k, gene);
        k += 1;
    }
}

/// Microbial GA state: the population, its shape, the deme locality bound,
/// the two per-gene probabilities, and the injected fitness strategy.
pub struct MGA<F: Fitness> {
    /// The fitness strategy consulted by tournaments and snapshots.
    pub fitness: F,
    /// Per-genome fitness slots, zeroed at construction.
    pub fitness_values: Vec<u64>,
    /// Number of genomes in the population.
    pub pop_size: usize,
    /// Number of genes per genome.
    pub gene_size: usize,
    /// Tournament partners come from the next `deme_size` indices.
    pub deme_size: usize,
    /// The population: `pop_size` binary genomes of `gene_size` genes.
    pub genomes: Vec<Vec<u8>>,
    /// Per-gene mutation probability.
    pub mut_prob: Probability,
    /// Per-gene infection probability.
    pub inf_prob: Probability,
}

impl<F: Fitness> MGA<F> {
    /// Well-formed optimizer state: a valid deme within the population, a
    /// population of binary genomes of the declared shape, and genuine
    /// probabilities.
    pub open spec fn wf(self) -> bool {
        &&& 1 <= self.deme_size
        &&& self.deme_size + 1 <= self.pop_size
        &&& self.pop_size <= usize::MAX / 2
        &&& self.genomes@.len() == self.pop_size
        &&& self.fitness_values@.len() == self.pop_size
        &&& forall|g: int|
            0 <= g < self.genomes@.len() ==> (#[trigger] self.genomes@[g]@).len()
                == self.gene_size
        &&& forall|g: int, k: int|
            0 <= g < self.genomes@.len() && 0 <= k < self.gene_size ==> is_gene(
                #[trigger] self.genomes@[g]@[k],
            )
        &&& self.mut_prob.wf()
        &&& self.inf_prob.wf()
    }

    /// Whether a configuration is acceptable: at least one deme neighbor,
    /// a population that strictly exceeds its deme (otherwise no valid
    /// competitor can be chosen), and small enough for index arithmetic.
    pub open spec fn valid_config(population: usize, deme: usize) -> bool {
        1 <= deme && deme + 1 <= population && population <= usize::MAX / 2
    }

    /// Build an optimizer around a fitness strategy: `population` genomes
    /// of `genes` uniformly random binary genes each. A configuration whose
    /// deme cannot supply a competitor distinct from the first index is an
    /// `InvalidConfiguration`.
    pub fn new(
        ffunc: F,
        population: usize,
        genes: usize,
        deme: usize,
        mp: Probability,
        ip: Probability,
    ) -> (r: Result<MGA<F>, EcoError>)
        requires
            mp.wf(),
            ip.wf(),
        ensures
            match r {
                Ok(m) => {
                    &&& Self::valid_config(population, deme)
                    &&& m.wf()
                    &&& m.pop_size == population
                    &&& m.gene_size == genes
                    &&& m.deme_size == deme
                    &&& m.mut_prob == mp
                    &&& m.inf_prob == ip
                    &&& forall|i: int|
                        0 <= i < population ==> #[trigger] m.fitness_values@[i] == 0u64
                },
                Err(e) => e == EcoError::InvalidConfiguration && !Self::valid_config(
                    population,
                    deme,
                ),
            },
    {
        if population == 0 || deme == 0 || population - 1 < deme || population > usize::MAX / 2 {
            return Err(EcoError::InvalidConfiguration);
        }
        let mut fvec: Vec<u64> = Vec::new();
        let mut gvec: Vec<Vec<u8>> = Vec::new();
        let mut i: usize = 0;
        while i < population
            invariant
                i <= population,
                fvec@.len() == i,
                gvec@.len() == i,
                forall|a: int| 0 <= a < i ==> #[trigger] fvec@[a] == 0u64,
                forall|a: int| 0 <= a < i ==> (#[trigger] gvec@[a]@).len() == genes,
                forall|a: int, k: int|
                    0 <= a < i && 0 <= k < genes ==> is_gene(#[trigger] gvec@[a]@[k]),
            decreases population - i,
        {
            let mut new_genome: Vec<u8> = Vec::new();
            let mut j: usize = 0;
            while j < genes
                invariant
                    j <= genes,
                    new_genome@.len() == j,
                    forall|k: int| 0 <= k < j ==> is_gene(#[trigger] new_genome@[k]),
                decreases genes - j,
            {
                new_genome.push(random_gene());
                j += 1;
            }
            gvec.push(new_genome);
            fvec.push(0);
            i += 1;
        }
        Ok(
            MGA {
                fitness: ffunc,
                fitness_values: fvec,
                pop_size: population,
                gene_size: genes,
                deme_size: deme,
                genomes: gvec,
                mut_prob: mp,
                inf_prob: ip,
            },
        )
    }

    /// Choose a tournament pair: the first index is `i` when demanded
    /// (otherwise uniformly random), and the second is drawn uniformly from
    /// the deme window `(first, first + deme_size]` modulo `pop_size`, so
    /// the two never coincide.
    pub fn pick_competitors(&self, i: usize, fixed_i: bool) -> (pair: (usize, usize))
        requires
            self.wf(),
            fixed_i ==> i < self.pop_size,
        ensures
            pair.0 < self.pop_size,
            pair.1 < self.pop_size,
            pair.1 != pair.0,
            fixed_i ==> pair.0 == i,
            in_deme_window(pair.0 as int, pair.1 as int, self.deme_size as int,
                self.pop_size as int),
    {
        let first = if fixed_i {
            i
        } else {
            random_index(self.pop_size)
        };
        let d = random_index(self.deme_size);
        let t = first + 1 + d;
        let j = t % self.pop_size;
        proof {
            let t_ = t as int;
            let p_ = self.pop_size as int;
            let f_ = first as int;
            assert(t_ % p_ == if t_ < p_ {
                t_
            } else {
                t_ - p_
            }) by (nonlinear_arith)
                requires
                    0 < p_,
                    0 <= t_ < 2 * p_,
            ;
            assert(j != first);
            assert(1 <= 1 + d <= self.deme_size && j == (f_ + (1 + d)) % p_);
            assert(in_deme_window(f_, j as int, self.deme_size as int, p_));
        }
        (first, j)
    }

    /// Run one tournament between the genomes at `i` and `j`: both are
    /// scored afresh by the fitness strategy, and the pair comes back as
    /// `(winner, loser)`, decided by `tournament_outcome`.
    pub fn compete(&self, i: usize, j: usize) -> (outcome: (usize, usize))
        requires
            self.wf(),
            i < self.pop_size,
            j < self.pop_size,
        ensures
            (outcome.0 == i && outcome.1 == j) || (outcome.0 == j && outcome.1 == i),
    {
        let fit_i = self.fitness.eval(&self.genomes[i]);
        let fit_j = self.fitness.eval(&self.genomes[j]);
        tournament_outcome(fit_i, fit_j, i, j)
    }

    /// One generation: a random locality-bound tournament, then gene-by-gene
    /// infection of the loser from the winner and mutation of the loser.
    /// Returns `(winner, loser)`. The winner — and every genome other than
    /// the loser — is unchanged; the loser's genes follow
    /// `spec_update_gene`, so with infection off and mutation certain every
    /// gene of the loser is complemented, with infection certain and
    /// mutation off the loser becomes a copy of the winner, and with both
    /// off the loser is untouched. Whatever the probabilities, each loser
    /// gene can only keep its value, take the winner's, or take the
    /// complement of one of those two.
    pub fn step(&mut self) -> (outcome: (usize, usize))
        requires
            old(self).wf(),
        ensures
            final(self).wf(),
            final(self).fitness == old(self).fitness,
            final(self).fitness_values == old(self).fitness_values,
            final(self).pop_size == old(self).pop_size,
            final(self).gene_size == old(self).gene_size,
            final(self).deme_size == old(self).deme_size,
            final(self).mut_prob == old(self).mut_prob,
            final(self).inf_prob == old(self).inf_prob,
            final(self).genomes@.len() == old(self).genomes@.len(),
            outcome.0 < final(self).pop_size,
            outcome.1 < final(self).pop_size,
            outcome.0 != outcome.1,
            forall|g: int|
                0 <= g < final(self).genomes@.len() && g != outcome.1
                    ==> #[trigger] final(self).genomes@[g] == old(self).genomes@[g],
            final(self).genomes@[outcome.1 as int]@.len() == final(self).gene_size,
            (old(self).inf_prob.is_never() && old(self).mut_prob.is_always()) ==> forall|k: int|
                0 <= k < final(self).gene_size
                    ==> #[trigger] final(self).genomes@[outcome.1 as int]@[k]
                    == spec_flip(old(self).genomes@[outcome.1 as int]@[k]),
            (old(self).inf_prob.is_always() && old(self).mut_prob.is_never())
                ==> final(self).genomes@[outcome.1 as int]@
                == old(self).genomes@[outcome.0 as int]@,
            (old(self).inf_prob.is_never() && old(self).mut_prob.is_never())
                ==> final(self).genomes@[outcome.1 as int]@
                == old(self).genomes@[outcome.1 as int]@,
            (old(self).inf_prob.is_always() && old(self).mut_prob.is_always()) ==> forall|k: int|
                0 <= k < final(self).gene_size
                    ==> #[trigger] final(self).genomes@[outcome.1 as int]@[k]
                    == spec_flip(old(self).genomes@[outcome.0 as int]@[k]),
            forall|k: int|
                0 <= k < final(self).gene_size
                    ==> #[trigger] final(self).genomes@[outcome.1 as int]@[k]
                        == old(self).genomes@[outcome.1 as int]@[k]
                    || final(self).genomes@[outcome.1 as int]@[k]
                        == old(self).genomes@[outcome.0 as int]@[k]
                    || final(self).genomes@[outcome.1 as int]@[k]
                        == spec_flip(old(self).genomes@[outcome.1 as int]@[k])
                    || final(self).genomes@[outcome.1 as int]@[k]
                        == spec_flip(old(self).genomes@[outcome.0 as int]@[k]),
            old(self).inf_prob.is_never() ==> forall|k: int|
                0 <= k < final(self).gene_size
                    ==> #[trigger] final(self).genomes@[outcome.1 as int]@[k]
                        == old(self).genomes@[outcome.1 as int]@[k]
                    || final(self).genomes@[outcome.1 as int]@[k]
                        == spec_flip(old(self).genomes@[outcome.1 as int]@[k]),
            old(self).mut_prob.is_never() ==> forall|k: int|
                0 <= k < final(self).gene_size
                    ==> #[trigger] final(self).genomes@[outcome.1 as int]@[k]
                        == old(self).genomes@[outcome.1 as int]@[k]
                    || final(self).genomes@[outcome.1 as int]@[k]
                        == old(self).genomes@[outcome.0 as int]@[k],
    {
        let comps = self.pick_competitors(0, false);
        let outs = self.compete(comps.0, comps.1);
        let win = outs.0;
        let lose = outs.1;
        let inf_flags = draw_flags(&self.inf_prob, self.gene_size);
        let mut_flags = draw_flags(&self.mut_prob, self.gene_size);
        proof {
            assert(forall|k: int|
                0 <= k < self.gene_size ==> is_gene(#[trigger] self.genomes@[win as int]@[k]));
            assert(forall|k: int|
                0 <= k < self.gene_size ==> is_gene(#[trigger] self.genomes@[lose as int]@[k]));
        }
        let winner_row = copy_genome(&self.genomes[win]);
        let mut loser_row = copy_genome(&self.genomes[lose]);
        infect_and_mutate(&winner_row, &mut loser_row, &inf_flags, &mut_flags);
        self.genomes.set(lose, loser_row);
        proof {
            if old(self).inf_prob.is_always() && old(self).mut_prob.is_never() {
                assert(self.genomes@[lose as int]@ =~= old(self).genomes@[win as int]@);
            }
            if old(self).inf_prob.is_never() && old(self).mut_prob.is_never() {
                assert(self.genomes@[lose as int]@ =~= old(self).genomes@[lose as int]@);
            }
        }
        outs
    }

    /// Score every genome afresh with the fitness strategy, in population
    /// order.
    pub fn get_fitness(&self) -> (fit_vec: Vec<u64>)
        requires
            self.wf(),
        ensures
            fit_vec@.len() == self.pop_size,
    {
        let mut fit_vec: Vec<u64> = Vec::new();
        let mut i: usize = 0;
        while i < self.genomes.len()
            invariant
                self.wf(),
                self.genomes@.len() == self.pop_size,
                i <= self.pop_size,
                fit_vec@.len() == i,
            decreases self.genomes@.len() - i,
        {
            fit_vec.push(self.fitness.eval(&self.genomes[i]));
            i += 1;
        }
        fit_vec
    }

    /// Run `n_steps` generations. After each generation the whole
    /// population is re-scored and the snapshot appended, so the history
    /// holds one row of `pop_size` fitness values per generation.
    pub fn evolve(&mut self, n_steps: u32) -> (fit_record: Vec<Vec<u64>>)
        requires
            old(self).wf(),
        ensures
            final(self).wf(),
            final(self).fitness == old(self).fitness,
            final(self).pop_size == old(self).pop_size,
            final(self).gene_size == old(self).gene_size,
            final(self).deme_size == old(self).deme_size,
            final(self).mut_prob == old(self).mut_prob,
            final(self).inf_prob == old(self).inf_prob,
            final(self).fitness_values == old(self).fitness_values,
            fit_record@.len() == n_steps,
            forall|t: int|
                0 <= t < n_steps ==> (#[trigger] fit_record@[t]@).len() == final(self).pop_size,
    {
        let mut fit_record: Vec<Vec<u64>> = Vec::new();
        let mut s: u32 = 0;
        while s < n_steps
            invariant
                self.wf(),
                self.fitness == old(self).fitness,
                self.pop_size == old(self).pop_size,
                self.gene_size == old(self).gene_size,
                self.deme_size == old(self).deme_size,
                self.mut_prob == old(self).mut_prob,
                self.inf_prob == old(self).inf_prob,
                self.fitness_values == old(self).fitness_values,
                s <= n_steps,
                fit_record@.len() == s,
                forall|t: int|
                    0 <= t < s ==> (#[trigger] fit_record@[t]@).len() == self.pop_size,
            decreases n_steps - s,
        {
            let _outcome = self.step();
            fit_record.push(self.get_fitness());
            s += 1;
        }
        fit_record
    }
}

} // verus!
