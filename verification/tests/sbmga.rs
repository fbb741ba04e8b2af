use glv_mga::errors::EcoError;
use glv_mga::fitness::Fitness;
use glv_mga::random::Probability;
use glv_mga::sbmga::tournament_outcome;
use glv_mga::sbmga::MGA;

/// Deterministic test strategy: the fitness of a genome is the sum of its
/// gene values.
struct GeneSum;

impl Fitness for GeneSum {
    fn eval(&self, genes: &Vec<u8>) -> u64 {
        let mut gene_sum: u64 = 0;
        for i in 0..genes.len() {
            gene_sum += genes[i] as u64;
        }
        gene_sum
    }
}

fn small_prob() -> Probability {
    Probability::new(1, 100).unwrap()
}

#[test]
fn sbmga_test_new() {
    let mga = MGA::new(GeneSum, 3, 3, 2, small_prob(), small_prob()).unwrap();
    assert_eq!(mga.genomes.len(), 3);
    assert_eq!(mga.genomes[0].len(), 3);
    assert!(mga.fitness.eval(&vec![1, 1, 1]) == 3)
}

#[test]
fn test_pick_competitors() {
    let mga = MGA::new(GeneSum, 3, 3, 2, small_prob(), small_prob()).unwrap();
    let comp = mga.pick_competitors(0, false);
    assert!(comp.0 < mga.pop_size);
    assert!(comp.1 < mga.pop_size);
    assert!(comp.0 != comp.1)
}

#[test]
fn test_compete() {
    // initialize and set matrix to known solution
    let mut mga = MGA::new(GeneSum, 2, 3, 1, small_prob(), small_prob()).unwrap();
    mga.genomes = vec![vec![0, 1, 1], vec![1, 1, 1]];

    // get competitors
    let outcomes = mga.compete(0, 1);

    assert_eq!(outcomes.0, 1);
    assert_eq!(outcomes.1, 0)
}

#[test]
fn sbmga_test_step() {
    // initialize and set matrix to known solution
    let mut mga = MGA::new(GeneSum, 2, 3, 1, Probability::never(), Probability::always()).unwrap();
    mga.genomes = vec![vec![0, 1, 1], vec![1, 1, 1]];

    // get competitors
    mga.step();

    assert_eq!(mga.fitness.eval(&mga.genomes[0]), 3);
    assert_eq!(mga.fitness.eval(&mga.genomes[1]), 3)
}

#[test]
fn test_evolve() {
    // initialize and set matrix to known solution
    let mut mga = MGA::new(GeneSum, 3, 3, 2, Probability::never(), Probability::always()).unwrap();
    mga.genomes = vec![vec![0, 0, 1], vec![1, 1, 1], vec![0, 0, 0]];

    // get competitors
    let fit_history = mga.evolve(30);
    let last_i = fit_history.len() - 1;
    let mut sum: f64 = 0.0;
    for j in 0..fit_history[last_i].len() {
        sum += fit_history[last_i][j] as f64 / 3.0;
    }

    assert_eq!(sum, 3.0)
}

#[test]
fn test_new_invalid_configuration() {
    match MGA::new(GeneSum, 2, 9, 3, small_prob(), small_prob()) {
        Ok(_) => panic!("a deme larger than the population must be rejected"),
        Err(e) => assert_eq!(e, EcoError::InvalidConfiguration),
    }
}

#[test]
fn test_new_genomes_are_binary() {
    let mga = MGA::new(GeneSum, 5, 8, 2, small_prob(), small_prob()).unwrap();
    for genome in &mga.genomes {
        assert_eq!(genome.len(), 8);
        for gene in genome {
            assert!(*gene == 0 || *gene == 1);
        }
    }
}

#[test]
fn test_pick_competitors_window() {
    let mga = MGA::new(GeneSum, 10, 4, 3, small_prob(), small_prob()).unwrap();

    // fixed first index in the interior: the partner comes from (4, 7]
    let comp = mga.pick_competitors(4, true);
    assert_eq!(comp.0, 4);
    assert!(comp.1 == 5 || comp.1 == 6 || comp.1 == 7);

    // fixed first index at the end: the window wraps around
    let comp = mga.pick_competitors(9, true);
    assert_eq!(comp.0, 9);
    assert!(comp.1 == 0 || comp.1 == 1 || comp.1 == 2)
}

#[test]
fn test_tournament_outcome() {
    assert_eq!(tournament_outcome(5, 2, 0, 1), (0, 1));
    assert_eq!(tournament_outcome(2, 5, 0, 1), (1, 0));
    // a tie favors the second index
    assert_eq!(tournament_outcome(4, 4, 0, 1), (1, 0))
}

#[test]
fn test_step_winner_unchanged() {
    let mut mga = MGA::new(GeneSum, 4, 3, 2, small_prob(), small_prob()).unwrap();
    mga.genomes = vec![vec![0, 1, 1], vec![1, 1, 1], vec![0, 0, 0], vec![1, 0, 1]];
    let before = mga.genomes.clone();

    let (win, lose) = mga.step();

    assert_ne!(win, lose);
    for g in 0..mga.genomes.len() {
        if g != lose {
            assert_eq!(mga.genomes[g], before[g]);
        }
    }
}

#[test]
fn test_step_full_mutation() {
    // with infection off and mutation certain, every gene of the loser flips
    let mut mga = MGA::new(GeneSum, 2, 3, 1, Probability::always(), Probability::never()).unwrap();
    mga.genomes = vec![vec![0, 1, 1], vec![1, 1, 1]];

    let (win, lose) = mga.step();

    assert_eq!(win, 1);
    assert_eq!(lose, 0);
    assert_eq!(mga.genomes[0], vec![1, 0, 0]);
    assert_eq!(mga.genomes[1], vec![1, 1, 1])
}

#[test]
fn test_evolve_history_shape() {
    let mut mga = MGA::new(GeneSum, 3, 4, 2, small_prob(), small_prob()).unwrap();

    let history = mga.evolve(7);

    assert_eq!(history.len(), 7);
    for row in &history {
        assert_eq!(row.len(), 3);
    }
}

#[test]
fn test_probability_rejects_bad_ratio() {
    assert_eq!(Probability::new(3, 2).unwrap_err(), EcoError::InvalidConfiguration);
    assert_eq!(Probability::new(1, 0).unwrap_err(), EcoError::InvalidConfiguration)
}

#[test]
fn test_probability_extremes() {
    let never = Probability::never();
    let always = Probability::always();
    for _ in 0..20 {
        assert!(!never.sample());
        assert!(always.sample());
    }
}
