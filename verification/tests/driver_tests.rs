use dice_search::driver::{do_random_block, evaluate_batch, iterations_per_worker, run_worker, search_max};
use dice_search::rng::{FastRand, IsaacRand, RandNumGen, ReplaySource, StdRand, XoshiroRand};

#[test]
fn partition_truncates() {
    // The default configuration: one billion batches over 50000 workers.
    assert_eq!(iterations_per_worker(1_000_000_000, 50_000, 128), 156);
    assert_eq!(iterations_per_worker(128, 1, 128), 1);
    // A remainder is silently dropped.
    assert_eq!(iterations_per_worker(1000, 3, 7), 47);
}

#[test]
fn replayed_zero_words_hit_the_maximum() {
    // 128 groups of 8 zero words: every group scores the full 231.
    let words = vec![0u64; 8 * 128];
    let mut src = ReplaySource::new(words);
    assert_eq!(do_random_block(&mut src), 231);
}

#[test]
fn replayed_ones_score_nothing() {
    let words = vec![u64::MAX; 8 * 128];
    let mut src = ReplaySource::new(words);
    assert_eq!(do_random_block(&mut src), 0);
}

#[test]
fn worker_keeps_its_best_batch() {
    // Two iterations of one-group batches: a worthless batch, then a
    // perfect one; the worker reports the best.
    let mut words = vec![u64::MAX; 16];
    for w in words.iter_mut().skip(8) {
        *w = 0;
    }
    let mut src = ReplaySource::new(words);
    assert_eq!(run_worker(&mut src, 2, 1), 231);
}

#[test]
fn search_reduces_over_workers() {
    // Two workers with one single-group batch each: the global result is
    // the better worker's maximum.
    let poor = ReplaySource::new(vec![u64::MAX; 8]);
    let rich = ReplaySource::new(vec![0u64; 8]);
    assert_eq!(search_max(vec![poor, rich], 2, 1), 231);
}

#[test]
fn single_worker_search_equals_worker_run() {
    // Partitioning with one worker changes nothing: the same words through
    // the driver and through a lone worker agree.
    let words: Vec<u64> = (0..32u64).map(|i| i.wrapping_mul(0x9E37_79B9_7F4A_7C15)).collect();
    let mut lone = ReplaySource::new(words.clone());
    let direct = run_worker(&mut lone, 2, 2);
    let through_driver = search_max(vec![ReplaySource::new(words)], 4, 2);
    assert_eq!(direct, through_driver);
}

#[test]
fn replay_source_is_deterministic() {
    let words: Vec<u64> = (0..1024u64).map(|i| i ^ (i << 7)).collect();
    let a = search_max(vec![ReplaySource::new(words.clone())], 128, 128);
    let b = search_max(vec![ReplaySource::new(words)], 128, 128);
    assert_eq!(a, b);
}

#[test]
fn seeded_fastrand_is_deterministic() {
    // Identical seeds feed identical word streams, so the whole search
    // reproduces its result.
    let a = search_max(vec![FastRand::with_seed(0x4d59_5df4_d0f3_3173)], 128, 1);
    let b = search_max(vec![FastRand::with_seed(0x4d59_5df4_d0f3_3173)], 128, 1);
    assert_eq!(a, b);
}

#[test]
fn seeded_generators_replay_their_words() {
    let mut a = FastRand::with_seed(7);
    let mut b = FastRand::with_seed(7);
    assert_eq!(a.gen(), b.gen());
    let mut a = XoshiroRand::from_seed(7);
    let mut b = XoshiroRand::from_seed(7);
    assert_eq!(a.gen(), b.gen());
    let mut a = IsaacRand::from_seed(7);
    let mut b = IsaacRand::from_seed(7);
    assert_eq!(a.gen(), b.gen());
    let mut a = StdRand::from_seed(7);
    let mut b = StdRand::from_seed(7);
    assert_eq!(a.gen(), b.gen());
}

#[test]
fn entropy_source_stays_in_range() {
    let mut rng = FastRand::new();
    for _ in 0..4 {
        let score = do_random_block(&mut rng);
        assert!(score <= 231);
    }
}

#[test]
fn canonical_scenario_reproduces_its_score() {
    // The canonical regression run: 128 batches in one worker, batch size
    // 128, a fixed wyhash seed; the expected maximum is pinned once for
    // this generator.
    let sources = vec![FastRand::with_seed(0x4d59_5df4_d0f3_3173)];
    let result = search_max(sources, 128, 128);
    assert_eq!(result, 73);
}

#[test]
fn evaluate_batch_scores_two_groups() {
    // First group all ones (0), second all zeros (231): the batch keeps 231.
    let mut words = vec![u64::MAX; 16];
    for w in words.iter_mut().skip(8) {
        *w = 0;
    }
    let mut src = ReplaySource::new(words);
    assert_eq!(evaluate_batch(&mut src, 2), 231);
}

#[test]
fn exhausted_replay_source_yields_zeros() {
    let mut src = ReplaySource::new(vec![u64::MAX]);
    assert_eq!(src.gen(), u64::MAX);
    assert_eq!(src.gen(), 0);
    assert_eq!(src.gen(), 0);
}
