//! The search: batches drawn from a random-bit source, a sequential
//! per-worker loop, and the reduction of worker maxima to one global result.
//!
//! Every result is pinned as a function of the words the sources produce:
//! for a source whose stream is known (a replay source), the contracts give
//! the exact score; for an entropy-backed source they still bound the score
//! by the number of live trial slots.

use crate::rng::RandNumGen;
use crate::score::{batch_best, batch_score, lemma_batch_best_bounds, GROUP_LIVE_SLOTS};
use vstd::arithmetic::mul::{lemma_mul_inequality, lemma_mul_is_distributive_add_other_way};
use vstd::prelude::*;

verus! {

/// Trial groups per batch in the default configuration.
pub const BLOCK_SIZE: usize = 128;

/// Draws the words of one batch from `rng` and scores it: `block_size`
/// trial groups of 8 words each, reduced to the best group score.
pub fn evaluate_batch<R: RandNumGen>(rng: &mut R, block_size: usize) -> (r: u32)
    requires
        block_size >= 1,
        block_size <= usize::MAX / 8,
    ensures
        r <= GROUP_LIVE_SLOTS,
        old(rng).stream().len() >= 8 * (block_size as int) ==> (r == batch_best(
            old(rng).stream().take(8 * (block_size as int)),
            block_size as int,
        ) && final(rng).stream() == old(rng).stream().skip(8 * (block_size as int))),
{
    let n: usize = 8 * block_size;
    let mut words: Vec<u64> = Vec::new();
    let mut j: usize = 0;
    while j < n
        invariant
            j <= n,
            n == 8 * block_size,
            words@.len() == j,
            old(rng).stream().len() >= n ==> (words@ == old(rng).stream().take(j as int)
                && rng.stream() == old(rng).stream().skip(j as int)),
        decreases n - j,
    {
        let ghost s0 = old(rng).stream();
        let ghost before = rng.stream();
        let w = rng.gen();
        proof {
            if s0.len() >= n {
                assert(before.len() == s0.len() - j > 0);
                assert(w == s0.skip(j as int)[0] == s0[j as int]);
                assert(rng.stream() =~= s0.skip(j as int + 1)) by {
                    assert(rng.stream() == s0.skip(j as int).skip(1));
                    assert(s0.skip(j as int).skip(1) =~= s0.skip(j as int + 1));
                }
                assert(words@.push(w) =~= s0.take(j as int + 1));
            }
        }
        words.push(w);
        j = j + 1;
    }
    batch_score(&words, block_size)
}

/// Runs one batch of the default size — `BLOCK_SIZE` trial groups —
/// against the given source and returns its score.
pub fn do_random_block<R: RandNumGen>(rng: &mut R) -> (r: u32)
    ensures
        r <= GROUP_LIVE_SLOTS,
        old(rng).stream().len() >= 8 * (BLOCK_SIZE as int) ==> (r == batch_best(
            old(rng).stream().take(8 * (BLOCK_SIZE as int)),
            BLOCK_SIZE as int,
        ) && final(rng).stream() == old(rng).stream().skip(8 * (BLOCK_SIZE as int))),
{
    evaluate_batch(rng, BLOCK_SIZE)
}

/// The best batch score among the first `iters` consecutive batches of the
/// word sequence `s`, each batch consuming `8 * b` words.
pub open spec fn worker_best(s: Seq<u64>, iters: int, b: int) -> int
    decreases iters,
{
    if iters <= 0 {
        0
    } else {
        let prev = worker_best(s, iters - 1, b);
        let cur = batch_best(s.subrange((iters - 1) * (8 * b), iters * (8 * b)), b);
        if cur > prev {
            cur
        } else {
            prev
        }
    }
}

/// A worker's running maximum stays within a group's score range.
pub proof fn lemma_worker_best_bounds(s: Seq<u64>, iters: int, b: int)
    requires
        iters >= 0,
        b >= 0,
    ensures
        0 <= worker_best(s, iters, b) <= GROUP_LIVE_SLOTS,
    decreases iters,
{
    if iters > 0 {
        lemma_worker_best_bounds(s, iters - 1, b);
        lemma_batch_best_bounds(s.subrange((iters - 1) * (8 * b), iters * (8 * b)), b);
    }
}

/// One worker's sequential run: `iterations` batches drawn from its own
/// source, reduced to the running maximum score.
pub fn run_worker<R: RandNumGen>(rng: &mut R, iterations: usize, block_size: usize) -> (r: u32)
    requires
        iterations >= 1,
        block_size >= 1,
        block_size <= usize::MAX / 8,
    ensures
        r <= GROUP_LIVE_SLOTS,
        old(rng).stream().len() >= (iterations as int) * (8 * (block_size as int)) ==> (r
            == worker_best(old(rng).stream(), iterations as int, block_size as int)
            && final(rng).stream() == old(rng).stream().skip(
            (iterations as int) * (8 * (block_size as int)),
        )),
{
    let ghost s0 = old(rng).stream();
    let ghost need = 8 * (block_size as int);
    let ghost total = (iterations as int) * need;
    let mut best: u32 = 0;
    let mut k: usize = 0;
    while k < iterations
        invariant
            k <= iterations,
            iterations >= 1,
            block_size >= 1,
            block_size <= usize::MAX / 8,
            need == 8 * (block_size as int),
            total == (iterations as int) * need,
            s0 == old(rng).stream(),
            best <= GROUP_LIVE_SLOTS,
            s0.len() >= total ==> (best == worker_best(s0, k as int, block_size as int)
                && rng.stream() == s0.skip((k as int) * need)),
        decreases iterations - k,
    {
        let ghost before = rng.stream();
        proof {
            if s0.len() >= total {
                lemma_mul_inequality(k as int + 1, iterations as int, need);
                lemma_mul_is_distributive_add_other_way(need, k as int, 1);
                assert((k as int + 1) * need == (k as int) * need + need);
                assert(before.len() == s0.len() - (k as int) * need >= need);
            }
        }
        let score = evaluate_batch(rng, block_size);
        proof {
            if s0.len() >= total {
                assert(before == s0.skip((k as int) * need));
                assert(before.take(need) =~= s0.subrange((k as int) * need, (k as int) * need
                    + need));
                assert(rng.stream() =~= s0.skip((k as int + 1) * need)) by {
                    assert(rng.stream() == before.skip(need));
                    assert(before.skip(need) =~= s0.skip((k as int) * need + need));
                }
                assert(worker_best(s0, k as int + 1, block_size as int) == if batch_best(
                    s0.subrange((k as int) * need, (k as int + 1) * need),
                    block_size as int,
                ) > worker_best(s0, k as int, block_size as int) {
                    batch_best(s0.subrange((k as int) * need, (k as int + 1) * need),
                        block_size as int)
                } else {
                    worker_best(s0, k as int, block_size as int)
                });
            }
        }
        if score > best {
            best = score;
        }
        k = k + 1;
    }
    best
}

/// The streams of a sequence of sources, worker by worker.
pub open spec fn worker_streams<R: RandNumGen>(sources: Seq<R>) -> Seq<Seq<u64>> {
    sources.map(|i: int, s: R| s.stream())
}

/// The best worker maximum among the first `k` workers, each running
/// `iters` batches of `b` groups over its own stream.
pub open spec fn global_best(streams: Seq<Seq<u64>>, k: int, iters: int, b: int) -> int
    decreases k,
{
    if k <= 0 {
        0
    } else {
        let prev = global_best(streams, k - 1, iters, b);
        let cur = worker_best(streams[k - 1], iters, b);
        if cur > prev {
            cur
        } else {
            prev
        }
    }
}

/// The global result: the maximum over all workers' maxima.
pub open spec fn global_result(streams: Seq<Seq<u64>>, iters: int, b: int) -> int {
    global_best(streams, streams.len() as int, iters, b)
}

/// The global maximum stays within a group's score range.
pub proof fn lemma_global_best_bounds(streams: Seq<Seq<u64>>, k: int, iters: int, b: int)
    requires
        k >= 0,
        iters >= 0,
        b >= 0,
    ensures
        0 <= global_best(streams, k, iters, b) <= GROUP_LIVE_SLOTS,
    decreases k,
{
    if k > 0 {
        lemma_global_best_bounds(streams, k - 1, iters, b);
        lemma_worker_best_bounds(streams[k - 1], iters, b);
    }
}

/// Partition arithmetic: the batches each worker runs, the remainder of the
/// division being silently dropped.
pub fn iterations_per_worker(total_count: usize, thread_count: usize, block_size: usize) -> (r:
    usize)
    requires
        thread_count >= 1,
        block_size >= 1,
    ensures
        r == total_count as int / thread_count as int / block_size as int,
{
    total_count / thread_count / block_size
}

/// The whole search, run sequentially: each source drives one worker for
/// the partitioned batch count, and the worker maxima are reduced to the
/// global maximum. The result is a function of the words the sources
/// produce and of nothing else.
pub fn search_max<R: RandNumGen>(sources: Vec<R>, total_count: usize, block_size: usize) -> (r:
    u32)
    requires
        sources.len() >= 1,
        block_size >= 1,
        block_size <= usize::MAX / 8,
        total_count as int / sources.len() as int / block_size as int >= 1,
    ensures
        r <= GROUP_LIVE_SLOTS,
        (forall|i: int|
            0 <= i < sources.len() ==> (#[trigger] sources[i].stream()).len() >= (total_count as int
                / sources.len() as int / block_size as int) * (8 * (block_size as int))) ==> r
            == global_result(
            worker_streams(sources@),
            total_count as int / sources.len() as int / block_size as int,
            block_size as int,
        ),
{
    let workers = sources.len();
    let iterations = iterations_per_worker(total_count, workers, block_size);
    let ghost streams0 = worker_streams(sources@);
    let ghost needed = (iterations as int) * (8 * (block_size as int));
    let ghost fed = forall|i: int| 0 <= i < streams0.len() ==> (#[trigger] streams0[i]).len()
        >= needed;
    let mut rest = sources;
    let mut done: usize = 0;
    let mut best: u32 = 0;
    while done < workers
        invariant
            done <= workers,
            workers == streams0.len(),
            iterations as int == total_count as int / workers as int / block_size as int,
            iterations >= 1,
            block_size >= 1,
            block_size <= usize::MAX / 8,
            needed == (iterations as int) * (8 * (block_size as int)),
            fed == (forall|i: int|
                0 <= i < streams0.len() ==> (#[trigger] streams0[i]).len() >= needed),
            rest@.len() == workers - done,
            forall|i: int|
                0 <= i < rest@.len() ==> (#[trigger] rest@[i]).stream() == streams0[done + i],
            best <= GROUP_LIVE_SLOTS,
            fed ==> best == global_best(streams0, done as int, iterations as int,
                block_size as int),
        decreases workers - done,
    {
        let mut src = rest.remove(0);
        proof {
            assert(src.stream() == streams0[done as int]);
        }
        let score = run_worker(&mut src, iterations, block_size);
        proof {
            if fed {
                assert(streams0[done as int].len() >= needed);
                assert(score == worker_best(streams0[done as int], iterations as int,
                    block_size as int));
            }
            assert(forall|i: int|
                0 <= i < rest@.len() ==> (#[trigger] rest@[i]).stream() == streams0[done + 1 + i]);
        }
        if score > best {
            best = score;
        }
        done = done + 1;
    }
    proof {
        if fed {
            assert(forall|i: int|
                0 <= i < sources.len() ==> (#[trigger] sources[i].stream()) == streams0[i]);
        }
    }
    best
}

/// Determinism: the global result is a function of the words the sources
/// feed it — two searches over identical streams end identically.
pub proof fn lemma_search_deterministic(
    first: Seq<Seq<u64>>,
    second: Seq<Seq<u64>>,
    iters: int,
    b: int,
)
    requires
        first == second,
    ensures
        global_result(first, iters, b) == global_result(second, iters, b),
{
}

/// Partitioning with a single worker changes nothing: the global result of
/// a one-worker search is that worker's own running maximum over all its
/// iterations.
pub proof fn lemma_single_worker_search(streams: Seq<Seq<u64>>, iters: int, b: int)
    requires
        streams.len() == 1,
        iters >= 0,
        b >= 0,
    ensures
        global_result(streams, iters, b) == worker_best(streams[0], iters, b),
{
    lemma_worker_best_bounds(streams[0], iters, b);
    assert(global_best(streams, 0, iters, b) == 0);
}

} // verus!
