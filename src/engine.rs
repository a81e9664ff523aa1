use vstd::prelude::*;

use crate::feedback::{
    eval, eval_list, evaluate, histories_grow, is_novel, lemma_histories_monotone, merged,
    fresh_state, novel_at, slots_grow, Combine, ExitKind, Feedback, FeedbackState, Observation,
    StateModel,
};

verus! {

/// An input together with the metadata of the execution that admitted it.
pub struct Testcase {
    pub input: Vec<u8>,
    pub exec_time_ms: u64,
}

/// Where one execution's input went.
#[derive(Clone, Copy, Debug, PartialEq, Eq, Structural)]
pub enum ExecuteResult {
    /// Neither interesting nor a solution.
    Discarded,
    /// Added to the corpus.
    Corpus,
    /// Added to the solution store.
    Solution,
}

/// The scoring side of a fuzzer: the feedback that admits inputs to the
/// corpus and the objective that admits them to the solution store, each
/// with its own independent history, and the two stores.
pub struct Engine {
    pub feedback: Feedback,
    pub objective: Feedback,
    pub feedback_state: FeedbackState,
    pub objective_state: FeedbackState,
    pub corpus: Vec<Testcase>,
    pub solutions: Vec<Testcase>,
}

/// The mutable content of an [`Engine`]: both histories and the inputs of
/// both stores, in insertion order.
pub struct EngineModel {
    pub feedback_state: StateModel,
    pub objective_state: StateModel,
    pub corpus: Seq<Seq<u8>>,
    pub solutions: Seq<Seq<u8>>,
}

/// The inputs held by a list of test cases.
pub open spec fn inputs_of(v: Seq<Testcase>) -> Seq<Seq<u8>> {
    v.map_values(|t: Testcase| t.input@)
}

impl View for Engine {
    type V = EngineModel;

    open spec fn view(&self) -> EngineModel {
        EngineModel {
            feedback_state: self.feedback_state@,
            objective_state: self.objective_state@,
            corpus: inputs_of(self.corpus@),
            solutions: inputs_of(self.solutions@),
        }
    }
}

/// One scored execution: the objective decides first; a solution goes to
/// the solution store and is not scored further; otherwise the feedback
/// decides whether the input joins the corpus.
pub open spec fn step(
    feedback: Feedback,
    objective: Feedback,
    m: EngineModel,
    input: Seq<u8>,
    obs: Observation,
) -> (ExecuteResult, EngineModel) {
    let (is_solution, os) = eval(objective, obs, m.objective_state);
    if is_solution {
        (
            ExecuteResult::Solution,
            EngineModel { objective_state: os, solutions: m.solutions.push(input), ..m },
        )
    } else {
        let (interesting, fs) = eval(feedback, obs, m.feedback_state);
        if interesting {
            (
                ExecuteResult::Corpus,
                EngineModel {
                    objective_state: os,
                    feedback_state: fs,
                    corpus: m.corpus.push(input),
                    ..m
                },
            )
        } else {
            (
                ExecuteResult::Discarded,
                EngineModel { objective_state: os, feedback_state: fs, ..m },
            )
        }
    }
}

/// A seed under forced loading: it joins the corpus whatever the feedback
/// says (the feedback still records what it saw), and also joins the
/// solution store when the objective accepts it.
pub open spec fn step_forced(
    feedback: Feedback,
    objective: Feedback,
    m: EngineModel,
    input: Seq<u8>,
    obs: Observation,
) -> EngineModel {
    let (_, fs) = eval(feedback, obs, m.feedback_state);
    let (is_solution, os) = eval(objective, obs, m.objective_state);
    EngineModel {
        feedback_state: fs,
        objective_state: os,
        corpus: m.corpus.push(input),
        solutions: if is_solution {
            m.solutions.push(input)
        } else {
            m.solutions
        },
    }
}

impl Engine {
    /// An engine with empty stores. Each history starts as `map_size` zero
    /// slots; each time log starts empty.
    pub fn new(
        feedback: Feedback,
        objective: Feedback,
        feedback_maps: usize,
        objective_maps: usize,
        time_logs: usize,
        map_size: usize,
    ) -> (r: Engine)
        ensures
            r.feedback == feedback,
            r.objective == objective,
            r@.corpus.len() == 0,
            r@.solutions.len() == 0,
            r@.feedback_state == fresh_state(feedback_maps as nat, time_logs as nat, map_size as nat),
            r@.objective_state == fresh_state(objective_maps as nat, time_logs as nat, map_size as nat),
    {
        let feedback_state = FeedbackState::new(feedback_maps, time_logs, map_size);
        let objective_state = FeedbackState::new(objective_maps, time_logs, map_size);
        let r = Engine {
            feedback,
            objective,
            feedback_state,
            objective_state,
            corpus: Vec::new(),
            solutions: Vec::new(),
        };
        assert(r@.corpus =~= Seq::empty());
        assert(r@.solutions =~= Seq::empty());
        r
    }

    /// The number of corpus entries.
    pub fn corpus_count(&self) -> (r: usize)
        ensures
            r == self@.corpus.len(),
    {
        self.corpus.len()
    }

    /// The number of stored solutions.
    pub fn solutions_count(&self) -> (r: usize)
        ensures
            r == self@.solutions.len(),
    {
        self.solutions.len()
    }

    /// The corpus entry at `idx`, if there is one.
    pub fn corpus_get(&self, idx: usize) -> (r: Option<&Testcase>)
        ensures
            idx < self@.corpus.len() <==> r.is_some(),
            r.is_some() ==> r.unwrap().input@ == self@.corpus[idx as int],
    {
        if idx < self.corpus.len() {
            Some(&self.corpus[idx])
        } else {
            None
        }
    }

    /// Scores one completed execution of `input` and files the input where
    /// the scores send it.
    pub fn process_execution(&mut self, input: Vec<u8>, obs: &Observation) -> (r: ExecuteResult)
        ensures
            final(self).feedback == old(self).feedback,
            final(self).objective == old(self).objective,
            (r, final(self)@) == step(
                old(self).feedback,
                old(self).objective,
                old(self)@,
                input@,
                *obs,
            ),
    {
        let ghost m = self@;
        let is_solution = evaluate(&self.objective, obs, &mut self.objective_state);
        let tc = Testcase { input, exec_time_ms: obs.exec_time_ms };
        if is_solution {
            self.solutions.push(tc);
            assert(self@.solutions =~= m.solutions.push(input@));
            ExecuteResult::Solution
        } else {
            let interesting = evaluate(&self.feedback, obs, &mut self.feedback_state);
            if interesting {
                self.corpus.push(tc);
                assert(self@.corpus =~= m.corpus.push(input@));
                ExecuteResult::Corpus
            } else {
                ExecuteResult::Discarded
            }
        }
    }

    /// Files a seed under forced loading: it always joins the corpus.
    /// Returns whether the objective also filed it as a solution.
    pub fn add_input_forced(&mut self, input: Vec<u8>, obs: &Observation) -> (r: bool)
        ensures
            final(self).feedback == old(self).feedback,
            final(self).objective == old(self).objective,
            final(self)@ == step_forced(
                old(self).feedback,
                old(self).objective,
                old(self)@,
                input@,
                *obs,
            ),
            r == eval(old(self).objective, *obs, old(self)@.objective_state).0,
    {
        let ghost m = self@;
        evaluate(&self.feedback, obs, &mut self.feedback_state);
        let is_solution = evaluate(&self.objective, obs, &mut self.objective_state);
        if is_solution {
            let copy = copy_bytes(&input);
            self.solutions.push(Testcase { input: copy, exec_time_ms: obs.exec_time_ms });
            assert(self@.solutions =~= m.solutions.push(input@));
        }
        self.corpus.push(Testcase { input, exec_time_ms: obs.exec_time_ms });
        assert(self@.corpus =~= m.corpus.push(input@));
        is_solution
    }
}

/// Why initial loading failed.
#[derive(Clone, Copy, Debug, PartialEq, Eq, Structural)]
pub enum LoadError {
    /// No seed made it into the corpus, so there is nothing to mutate.
    NothingImported,
}

impl Engine {
    /// Files one executed seed during initial loading: under forced loading
    /// it always joins the corpus; otherwise it is scored like any other
    /// execution. Returns whether it was filed as a solution.
    pub fn load_seed(&mut self, input: Vec<u8>, obs: &Observation, forced: bool) -> (r: bool)
        ensures
            final(self).feedback == old(self).feedback,
            final(self).objective == old(self).objective,
            forced ==> final(self)@ == step_forced(
                old(self).feedback,
                old(self).objective,
                old(self)@,
                input@,
                *obs,
            ) && r == eval(old(self).objective, *obs, old(self)@.objective_state).0,
            !forced ==> ({
                let (res, m) = step(old(self).feedback, old(self).objective, old(self)@, input@, *obs);
                final(self)@ == m && r == (res == ExecuteResult::Solution)
            }),
    {
        if forced {
            self.add_input_forced(input, obs)
        } else {
            let res = self.process_execution(input, obs);
            res == ExecuteResult::Solution
        }
    }

    /// Ends initial loading: the corpus size, or an error when the corpus
    /// is still empty.
    pub fn finish_initial_load(&self) -> (r: Result<usize, LoadError>)
        ensures
            self@.corpus.len() == 0 <==> r == Err::<usize, LoadError>(LoadError::NothingImported),
            self@.corpus.len() > 0 <==> r == Ok::<usize, LoadError>(self@.corpus.len() as usize),
    {
        if self.corpus.len() == 0 {
            Err(LoadError::NothingImported)
        } else {
            Ok(self.corpus.len())
        }
    }
}

/// A byte-for-byte copy of `v`.
pub fn copy_bytes(v: &Vec<u8>) -> (r: Vec<u8>)
    ensures
        r@ == v@,
{
    let mut r: Vec<u8> = Vec::new();
    let mut i: usize = 0;
    while i < v.len()
        invariant
            i <= v@.len(),
            r@ == v@.subrange(0, i as int),
        decreases v@.len() - i,
    {
        r.push(v[i]);
        i = i + 1;
        assert(r@ =~= v@.subrange(0, i as int));
    }
    assert(r@ =~= v@);
    r
}

/// The crash objective: a short-circuit conjunction of a crash check and of
/// coverage novelty against the first map history of the objective.
pub open spec fn is_crash_dedup_objective(o: Feedback) -> bool {
    match o {
        Feedback::AndFast(cs) => cs@ == seq![Feedback::Crash, Feedback::MaxMap(0)],
        _ => false,
    }
}

proof fn lemma_crash_objective_eval(o: Feedback, obs: Observation, st: StateModel)
    requires
        is_crash_dedup_objective(o),
    ensures
        eval(o, obs, st) == (if obs.exit == ExitKind::Crash {
            eval(Feedback::MaxMap(0), obs, st)
        } else {
            (false, st)
        }),
{
    if let Feedback::AndFast(cs) = o {
        let s = cs@;
        let one = s.drop_last();
        assert(one =~= seq![Feedback::Crash]);
        assert(one.drop_last() =~= Seq::<Feedback>::empty());
        assert(one.last() == Feedback::Crash);
        assert(s.last() == Feedback::MaxMap(0));
        assert(eval_list(Combine::AllFast, one.drop_last(), obs, st) == (true, st));
        assert(eval(Feedback::Crash, obs, st) == (obs.exit == ExitKind::Crash, st));
        assert(eval_list(Combine::AllFast, one, obs, st) == (obs.exit == ExitKind::Crash, st));
    }
}

/// Merging a map into a history leaves no slot of that map novel.
pub proof fn lemma_merged_not_novel(h: Seq<u8>, m: Seq<u8>)
    ensures
        !is_novel(merged(h, m), m),
{
    assert forall|i: int| !novel_at(merged(h, m), m, i) by {}
}

/// Crash deduplication is idempotent: once a crashing execution has been
/// scored, a later execution with the same coverage map is never filed as a
/// solution, whatever its input, and leaves the solution store as it was.
pub proof fn lemma_crash_dedup(
    feedback: Feedback,
    objective: Feedback,
    m: EngineModel,
    first: Seq<u8>,
    first_obs: Observation,
    second: Seq<u8>,
    second_obs: Observation,
)
    requires
        is_crash_dedup_objective(objective),
        first_obs.exit == ExitKind::Crash,
        second_obs.map@ == first_obs.map@,
    ensures
        ({
            let m1 = step(feedback, objective, m, first, first_obs).1;
            let (r2, m2) = step(feedback, objective, m1, second, second_obs);
            r2 != ExecuteResult::Solution && m2.solutions == m1.solutions
        }),
{
    let os = m.objective_state;
    lemma_crash_objective_eval(objective, first_obs, os);
    let m1 = step(feedback, objective, m, first, first_obs).1;
    lemma_crash_objective_eval(objective, second_obs, m1.objective_state);
    if 0 < os.histories.len() {
        let h0 = os.histories[0];
        if is_novel(h0, first_obs.map@) {
            lemma_merged_not_novel(h0, first_obs.map@);
            assert(m1.objective_state.histories[0] == merged(h0, first_obs.map@));
        }
    }
}

/// The corpus model after loading seeds one by one under forced loading,
/// seed `i` having produced observation `obss[i]`.
pub open spec fn load_forced(
    feedback: Feedback,
    objective: Feedback,
    m: EngineModel,
    inputs: Seq<Seq<u8>>,
    obss: Seq<Observation>,
) -> EngineModel
    decreases inputs.len(),
{
    if inputs.len() == 0 || obss.len() == 0 {
        m
    } else {
        step_forced(
            feedback,
            objective,
            load_forced(feedback, objective, m, inputs.drop_last(), obss.drop_last()),
            inputs.last(),
            obss.last(),
        )
    }
}

/// Forced loading keeps every seed: loading `n` seeds adds exactly those
/// `n` inputs to the corpus, in order, whatever the feedback thinks of them.
pub proof fn lemma_forced_load_keeps_every_seed(
    feedback: Feedback,
    objective: Feedback,
    m: EngineModel,
    inputs: Seq<Seq<u8>>,
    obss: Seq<Observation>,
)
    requires
        inputs.len() == obss.len(),
    ensures
        load_forced(feedback, objective, m, inputs, obss).corpus == m.corpus + inputs,
    decreases inputs.len(),
{
    if inputs.len() == 0 {
        assert(m.corpus + inputs =~= m.corpus);
    } else {
        lemma_forced_load_keeps_every_seed(
            feedback,
            objective,
            m,
            inputs.drop_last(),
            obss.drop_last(),
        );
        assert(m.corpus + inputs =~= (m.corpus + inputs.drop_last()).push(inputs.last()));
    }
}

/// Scoring an execution never lowers a slot of any map history, neither in
/// the corpus feedback nor in the objective, whatever the execution was.
pub proof fn lemma_step_histories_monotone(
    feedback: Feedback,
    objective: Feedback,
    m: EngineModel,
    input: Seq<u8>,
    obs: Observation,
)
    ensures
        histories_grow(m.feedback_state, step(feedback, objective, m, input, obs).1.feedback_state),
        histories_grow(
            m.objective_state,
            step(feedback, objective, m, input, obs).1.objective_state,
        ),
{
    lemma_histories_monotone(objective, obs, m.objective_state);
    lemma_histories_monotone(feedback, obs, m.feedback_state);
    let st = m.feedback_state;
    assert forall|h: int| 0 <= h < st.histories.len() implies slots_grow(
        st.histories[h],
        #[trigger] st.histories[h],
    ) by {}
}

} // verus!
