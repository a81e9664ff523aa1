use vstd::prelude::*;

use crate::engine::{Engine, ExecuteResult, step};
use crate::feedback::{ExitKind, Observation};
use crate::mutation::{mutated, tokens_of};
use crate::rng::{rand_below, seeded, StdRand};
use crate::scheduler::{next_index, QueueScheduler};

verus! {

/// The largest number of candidates made from one selected entry.
pub const MAX_STAGE_ITERATIONS: u64 = 128;

/// The decisions of the fuzz loop: which entry to mutate next, how many
/// candidates to make from it, what each candidate is, and where each
/// executed candidate goes. Executing the target is left to the caller.
pub struct Fuzzer {
    pub engine: Engine,
    pub scheduler: QueueScheduler,
    pub rand: StdRand,
    pub tokens: Vec<Vec<u8>>,
    pub max_stack_pow: u64,
    pub max_size: usize,
    /// How many executions timed out; a timeout never stops the loop.
    pub timeouts: u64,
}

impl Fuzzer {
    /// A fuzzer whose generator starts from `seed`.
    pub fn new(engine: Engine, seed: u64, tokens: Vec<Vec<u8>>, max_stack_pow: u64, max_size: usize) -> (r:
        Fuzzer)
        ensures
            r.engine == engine,
            r.scheduler.current.is_none(),
            r.rand == seeded(seed),
            r.tokens == tokens,
            r.max_stack_pow == max_stack_pow,
            r.max_size == max_size,
            r.timeouts == 0,
    {
        Fuzzer {
            engine,
            scheduler: QueueScheduler::new(),
            rand: StdRand::with_seed(seed),
            tokens,
            max_stack_pow,
            max_size,
            timeouts: 0,
        }
    }

    /// Selects the next corpus entry and draws how many candidates to make
    /// from it (one to [`MAX_STAGE_ITERATIONS`]); `None` on an empty corpus.
    pub fn begin_stage(&mut self) -> (r: Option<(usize, u64)>)
        ensures
            final(self).engine == old(self).engine,
            final(self).tokens == old(self).tokens,
            final(self).max_stack_pow == old(self).max_stack_pow,
            final(self).max_size == old(self).max_size,
            final(self).timeouts == old(self).timeouts,
            old(self).engine@.corpus.len() == 0 ==> r.is_none() && *final(self) == *old(self),
            old(self).engine@.corpus.len() > 0 ==> {
                let idx = next_index(old(self).scheduler.current, old(self).engine.corpus@.len() as usize);
                let (n, r1) = rand_below(old(self).rand, MAX_STAGE_ITERATIONS);
                &&& r == Some((idx, (n + 1) as u64))
                &&& final(self).scheduler.current == Some(idx)
                &&& final(self).rand == r1
            },
            r matches Some((i, n)) ==> i < old(self).engine@.corpus.len() && 1 <= n
                <= MAX_STAGE_ITERATIONS,
    {
        let count = self.engine.corpus.len();
        match self.scheduler.next(count) {
            None => None,
            Some(idx) => {
                let n = self.rand.below(MAX_STAGE_ITERATIONS);
                Some((idx, n + 1))
            },
        }
    }

    /// One mutated candidate made from corpus entry `idx`.
    pub fn candidate(&mut self, idx: usize) -> (r: Vec<u8>)
        requires
            idx < old(self).engine@.corpus.len(),
            old(self).max_stack_pow <= 63,
        ensures
            final(self).engine == old(self).engine,
            final(self).scheduler == old(self).scheduler,
            final(self).tokens == old(self).tokens,
            final(self).max_stack_pow == old(self).max_stack_pow,
            final(self).max_size == old(self).max_size,
            final(self).timeouts == old(self).timeouts,
            (r@, final(self).rand) == mutated(
                old(self).rand,
                old(self).engine@.corpus[idx as int],
                tokens_of(old(self).tokens@),
                old(self).max_stack_pow,
                old(self).max_size as nat,
            ),
    {
        self.rand.mutate(&self.engine.corpus[idx].input, &self.tokens, self.max_stack_pow, self.max_size)
    }

    /// Files one executed candidate, counting it when it timed out.
    pub fn report(&mut self, input: Vec<u8>, obs: &Observation) -> (r: ExecuteResult)
        ensures
            final(self).timeouts == (if obs.exit == ExitKind::Timeout {
                old(self).timeouts.saturating_add(1)
            } else {
                old(self).timeouts
            }),
            final(self).scheduler == old(self).scheduler,
            final(self).rand == old(self).rand,
            final(self).tokens == old(self).tokens,
            final(self).max_stack_pow == old(self).max_stack_pow,
            final(self).max_size == old(self).max_size,
            final(self).engine.feedback == old(self).engine.feedback,
            final(self).engine.objective == old(self).engine.objective,
            (r, final(self).engine@) == step(
                old(self).engine.feedback,
                old(self).engine.objective,
                old(self).engine@,
                input@,
                *obs,
            ),
    {
        if obs.exit == ExitKind::Timeout {
            self.timeouts = self.timeouts.saturating_add(1);
        }
        self.engine.process_execution(input, obs)
    }
}

/// The candidates made from `entries`, one after another, with the
/// generator starting in state `r`, and the state it ends in.
pub open spec fn mutation_sequence(
    r: StdRand,
    entries: Seq<Seq<u8>>,
    toks: Seq<Seq<u8>>,
    max_stack_pow: u64,
    max_size: nat,
) -> (Seq<Seq<u8>>, StdRand)
    decreases entries.len(),
{
    if entries.len() == 0 {
        (Seq::empty(), r)
    } else {
        let (prev, r1) = mutation_sequence(r, entries.drop_last(), toks, max_stack_pow, max_size);
        let (c, r2) = mutated(r1, entries.last(), toks, max_stack_pow, max_size);
        (prev.push(c), r2)
    }
}

/// Mutation is reproducible: two runs whose generators start from the same
/// seed, with the same dictionary and bounds, make byte-identical candidates
/// from the same entries, one after another.
pub proof fn lemma_same_seed_same_mutations(
    seed_a: u64,
    seed_b: u64,
    entries: Seq<Seq<u8>>,
    toks: Seq<Seq<u8>>,
    max_stack_pow: u64,
    max_size: nat,
)
    requires
        seed_a == seed_b,
    ensures
        mutation_sequence(seeded(seed_a), entries, toks, max_stack_pow, max_size).0
            == mutation_sequence(seeded(seed_b), entries, toks, max_stack_pow, max_size).0,
        mutation_sequence(seeded(seed_a), entries, toks, max_stack_pow, max_size).0.len()
            == entries.len(),
    decreases entries.len(),
{
    if entries.len() > 0 {
        lemma_same_seed_same_mutations(
            seed_a,
            seed_b,
            entries.drop_last(),
            toks,
            max_stack_pow,
            max_size,
        );
    }
}

} // verus!
