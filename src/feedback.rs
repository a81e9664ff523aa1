use vstd::prelude::*;

verus! {

broadcast use vstd::std_specs::vec::group_vec_axioms;

/// How one execution of the target ended.
#[derive(Clone, Copy, Debug, PartialEq, Eq, Structural)]
pub enum ExitKind {
    /// The target exited normally.
    Normal,
    /// The target was stopped by a signal.
    Crash,
    /// The target did not finish before its deadline and was killed.
    Timeout,
}

/// What the observers saw of one execution: the bucketed coverage map,
/// the elapsed time in milliseconds and how the target ended.
pub struct Observation {
    pub map: Vec<u8>,
    pub exec_time_ms: u64,
    pub exit: ExitKind,
}

/// A feedback expression: a verdict over one execution, whose leaves may
/// record what they saw in a persistent history.
pub enum Feedback {
    /// A fixed verdict.
    Const(bool),
    /// Accepts exactly when the target crashed.
    Crash,
    /// Accepts exactly when the target timed out.
    Timeout,
    /// Novelty over a coverage map, against the map history with this index.
    MaxMap(usize),
    /// Records the execution time in the time log with this index; never accepts.
    Time(usize),
    /// Eager conjunction: every child is evaluated.
    And(Vec<Feedback>),
    /// Short-circuit conjunction: evaluation stops after the first rejection.
    AndFast(Vec<Feedback>),
    /// Eager disjunction: every child is evaluated.
    Or(Vec<Feedback>),
}

/// How the children of a combinator are combined.
#[derive(Clone, Copy, Debug, PartialEq, Eq, Structural)]
pub enum Combine {
    /// Accept when every child accepts; evaluate every child.
    All,
    /// Accept when every child accepts; stop at the first rejection.
    AllFast,
    /// Accept when some child accepts; evaluate every child.
    Any,
}

/// The persistent state of every feedback: one running maximum per
/// coverage-novelty leaf and one log of observed times per time leaf.
pub struct FeedbackState {
    pub histories: Vec<Vec<u8>>,
    pub time_logs: Vec<Vec<u64>>,
}

/// The mathematical content of a [`FeedbackState`].
pub struct StateModel {
    pub histories: Seq<Seq<u8>>,
    pub time_logs: Seq<Seq<u64>>,
}

impl View for FeedbackState {
    type V = StateModel;

    open spec fn view(&self) -> StateModel {
        StateModel {
            histories: self.histories@.map_values(|h: Vec<u8>| h@),
            time_logs: self.time_logs@.map_values(|t: Vec<u64>| t@),
        }
    }
}

/// A state of `maps` histories of `map_size` zero slots and `logs` empty
/// time logs.
pub open spec fn fresh_state(maps: nat, logs: nat, map_size: nat) -> StateModel {
    StateModel {
        histories: Seq::new(maps, |i: int| Seq::new(map_size, |j: int| 0u8)),
        time_logs: Seq::new(logs, |i: int| Seq::<u64>::empty()),
    }
}

impl FeedbackState {
    /// A state of `maps` histories of `map_size` zero slots and `logs`
    /// empty time logs.
    pub fn new(maps: usize, logs: usize, map_size: usize) -> (r: FeedbackState)
        ensures
            r@ == fresh_state(maps as nat, logs as nat, map_size as nat),
    {
        let mut histories: Vec<Vec<u8>> = Vec::new();
        let mut i: usize = 0;
        while i < maps
            invariant
                i <= maps,
                histories@.len() == i,
                forall|k: int|
                    0 <= k < i ==> #[trigger] histories@[k]@ == Seq::new(
                        map_size as nat,
                        |j: int| 0u8,
                    ),
            decreases maps - i,
        {
            let mut h: Vec<u8> = Vec::new();
            let mut j: usize = 0;
            while j < map_size
                invariant
                    j <= map_size,
                    h@ == Seq::new(j as nat, |k: int| 0u8),
                decreases map_size - j,
            {
                h.push(0);
                j = j + 1;
                assert(h@ =~= Seq::new(j as nat, |k: int| 0u8));
            }
            histories.push(h);
            i = i + 1;
        }
        let mut time_logs: Vec<Vec<u64>> = Vec::new();
        let mut i: usize = 0;
        while i < logs
            invariant
                i <= logs,
                time_logs@.len() == i,
                forall|k: int| 0 <= k < i ==> (#[trigger] time_logs@[k])@ == Seq::<u64>::empty(),
            decreases logs - i,
        {
            time_logs.push(Vec::new());
            i = i + 1;
        }
        let r = FeedbackState { histories, time_logs };
        let ghost f = fresh_state(maps as nat, logs as nat, map_size as nat);
        assert(r@.histories =~= f.histories);
        assert(r@.time_logs =~= f.time_logs);
        r
    }
}

/// Slot `i` of `m` exceeds the historical maximum at that slot.
pub open spec fn novel_at(h: Seq<u8>, m: Seq<u8>, i: int) -> bool {
    0 <= i < h.len() && i < m.len() && m[i] > h[i]
}

/// Some slot of `m` is novel against the history `h`.
pub open spec fn is_novel(h: Seq<u8>, m: Seq<u8>) -> bool {
    exists|i: int| novel_at(h, m, i)
}

/// The elementwise maximum of the history `h` and the map `m`, over the
/// slots of the history.
pub open spec fn merged(h: Seq<u8>, m: Seq<u8>) -> Seq<u8> {
    Seq::new(h.len(), |i: int| if i < m.len() && m[i] > h[i] { m[i] } else { h[i] })
}

/// The verdict of a feedback on one execution and the state it leaves.
pub open spec fn eval(fb: Feedback, obs: Observation, st: StateModel) -> (bool, StateModel)
    decreases fb,
{
    match fb {
        Feedback::Const(b) => (b, st),
        Feedback::Crash => (obs.exit == ExitKind::Crash, st),
        Feedback::Timeout => (obs.exit == ExitKind::Timeout, st),
        Feedback::MaxMap(h) => {
            if h < st.histories.len() && is_novel(st.histories[h as int], obs.map@) {
                (
                    true,
                    StateModel {
                        histories: st.histories.update(
                            h as int,
                            merged(st.histories[h as int], obs.map@),
                        ),
                        ..st
                    },
                )
            } else {
                (false, st)
            }
        },
        Feedback::Time(t) => {
            if t < st.time_logs.len() {
                (
                    false,
                    StateModel {
                        time_logs: st.time_logs.update(
                            t as int,
                            st.time_logs[t as int].push(obs.exec_time_ms),
                        ),
                        ..st
                    },
                )
            } else {
                (false, st)
            }
        },
        Feedback::And(cs) => eval_list(Combine::All, cs@, obs, st),
        Feedback::AndFast(cs) => eval_list(Combine::AllFast, cs@, obs, st),
        Feedback::Or(cs) => eval_list(Combine::Any, cs@, obs, st),
    }
}

/// The verdict of a combinator over the children `cs`, evaluated left to
/// right with the state threaded through them.
pub open spec fn eval_list(c: Combine, cs: Seq<Feedback>, obs: Observation, st: StateModel) -> (
    bool,
    StateModel,
)
    decreases cs,
{
    if cs.len() == 0 {
        (c != Combine::Any, st)
    } else {
        let (acc, st1) = eval_list(c, cs.drop_last(), obs, st);
        if c == Combine::AllFast && !acc {
            (false, st1)
        } else {
            let (r, st2) = eval(cs.last(), obs, st1);
            match c {
                Combine::Any => (acc || r, st2),
                _ => (acc && r, st2),
            }
        }
    }
}

/// Whether some slot of `map` exceeds the history at that slot.
pub fn max_map_is_novel(history: &Vec<u8>, map: &Vec<u8>) -> (r: bool)
    ensures
        r == is_novel(history@, map@),
{
    let n = if history.len() < map.len() {
        history.len()
    } else {
        map.len()
    };
    let mut i: usize = 0;
    while i < n
        invariant
            n <= history@.len(),
            n <= map@.len(),
            n == history@.len() || n == map@.len(),
            i <= n,
            forall|j: int| 0 <= j < i ==> !novel_at(history@, map@, j),
        decreases n - i,
    {
        if map[i] > history[i] {
            assert(novel_at(history@, map@, i as int));
            return true;
        }
        i = i + 1;
    }
    assert forall|j: int| !novel_at(history@, map@, j) by {
        if 0 <= j < i {
        }
    }
    false
}

/// The elementwise maximum of a history and a coverage map.
pub fn max_merge(history: &Vec<u8>, map: &Vec<u8>) -> (r: Vec<u8>)
    ensures
        r@ == merged(history@, map@),
{
    let mut r: Vec<u8> = Vec::new();
    let mut i: usize = 0;
    while i < history.len()
        invariant
            i <= history@.len(),
            r@ == merged(history@, map@).subrange(0, i as int),
        decreases history@.len() - i,
    {
        if i < map.len() && map[i] > history[i] {
            r.push(map[i]);
        } else {
            r.push(history[i]);
        }
        i = i + 1;
        assert(r@ =~= merged(history@, map@).subrange(0, i as int));
    }
    assert(r@ =~= merged(history@, map@));
    r
}

/// Evaluates a feedback on one execution, updating the histories of the
/// leaves that accept and the logs of the time leaves that it reaches.
pub fn evaluate(fb: &Feedback, obs: &Observation, st: &mut FeedbackState) -> (r: bool)
    ensures
        (r, final(st)@) == eval(*fb, *obs, old(st)@),
    decreases fb,
{
    match fb {
        Feedback::Const(b) => *b,
        Feedback::Crash => obs.exit == ExitKind::Crash,
        Feedback::Timeout => obs.exit == ExitKind::Timeout,
        Feedback::MaxMap(h) => {
            let h = *h;
            if h < st.histories.len() && max_map_is_novel(&st.histories[h], &obs.map) {
                let m = max_merge(&st.histories[h], &obs.map);
                let ghost before = st@;
                st.histories[h] = m;
                assert(st@.histories =~= before.histories.update(h as int, m@));
                assert(st@.time_logs =~= before.time_logs);
                true
            } else {
                false
            }
        },
        Feedback::Time(t) => {
            let t = *t;
            if t < st.time_logs.len() {
                let ghost before = st@;
                st.time_logs[t].push(obs.exec_time_ms);
                assert(st@.time_logs =~= before.time_logs.update(
                    t as int,
                    before.time_logs[t as int].push(obs.exec_time_ms),
                ));
                assert(st@.histories =~= before.histories);
            }
            false
        },
        Feedback::And(cs) => evaluate_list(Combine::All, cs, obs, st),
        Feedback::AndFast(cs) => evaluate_list(Combine::AllFast, cs, obs, st),
        Feedback::Or(cs) => evaluate_list(Combine::Any, cs, obs, st),
    }
}

/// Evaluates the children of a combinator left to right; under
/// [`Combine::AllFast`] it stops after the first rejection.
pub fn evaluate_list(c: Combine, cs: &Vec<Feedback>, obs: &Observation, st: &mut FeedbackState) -> (r:
    bool)
    ensures
        (r, final(st)@) == eval_list(c, cs@, *obs, old(st)@),
    decreases cs,
{
    let ghost st0 = st@;
    let mut acc = match c {
        Combine::Any => false,
        _ => true,
    };
    let mut i: usize = 0;
    assert(cs@.subrange(0, 0) =~= Seq::<Feedback>::empty());
    while i < cs.len() && !(c == Combine::AllFast && !acc)
        invariant
            i <= cs@.len(),
            (acc, st@) == eval_list(c, cs@.subrange(0, i as int), *obs, st0),
        decreases cs@.len() - i,
    {
        let ghost pre = cs@.subrange(0, i as int);
        let ghost next = cs@.subrange(0, i as int + 1);
        assert(next.drop_last() =~= pre);
        assert(next.last() == cs@[i as int]);
        let r = evaluate(&cs[i], obs, st);
        acc = match c {
            Combine::Any => acc || r,
            _ => acc && r,
        };
        i = i + 1;
    }
    proof {
        if i < cs@.len() {
            lemma_fast_rejection_persists(cs@, i as int, *obs, st0);
        }
    }
    assert(cs@.subrange(0, cs@.len() as int) =~= cs@);
    acc
}

/// Once a short-circuit conjunction has rejected on a prefix of its
/// children, the remaining children change neither verdict nor state.
proof fn lemma_fast_rejection_persists(cs: Seq<Feedback>, i: int, obs: Observation, st: StateModel)
    requires
        0 <= i <= cs.len(),
        !eval_list(Combine::AllFast, cs.subrange(0, i), obs, st).0,
    ensures
        eval_list(Combine::AllFast, cs, obs, st) == eval_list(
            Combine::AllFast,
            cs.subrange(0, i),
            obs,
            st,
        ),
    decreases cs.len() - i,
{
    if i < cs.len() {
        let next = cs.subrange(0, i + 1);
        assert(next.drop_last() =~= cs.subrange(0, i));
        lemma_fast_rejection_persists(cs, i + 1, obs, st);
    } else {
        assert(cs.subrange(0, i) =~= cs);
    }
}

/// Every slot of `b` is at least the slot of `a`, and the lengths agree.
pub open spec fn slots_grow(a: Seq<u8>, b: Seq<u8>) -> bool {
    b.len() == a.len() && forall|i: int| 0 <= i < a.len() ==> a[i] <= #[trigger] b[i]
}

/// Every map history of `b` dominates the one of `a` slot by slot.
pub open spec fn histories_grow(a: StateModel, b: StateModel) -> bool {
    &&& b.histories.len() == a.histories.len()
    &&& forall|h: int|
        0 <= h < a.histories.len() ==> slots_grow(a.histories[h], #[trigger] b.histories[h])
}

proof fn lemma_histories_grow_trans(a: StateModel, b: StateModel, c: StateModel)
    requires
        histories_grow(a, b),
        histories_grow(b, c),
    ensures
        histories_grow(a, c),
{
    assert forall|h: int| 0 <= h < a.histories.len() implies slots_grow(
        a.histories[h],
        #[trigger] c.histories[h],
    ) by {
        assert(slots_grow(a.histories[h], b.histories[h]));
        assert(slots_grow(b.histories[h], c.histories[h]));
    }
}

/// Map histories never decrease: whatever a feedback decides on whatever
/// execution, each slot of each history afterwards is at least what it was.
pub proof fn lemma_histories_monotone(fb: Feedback, obs: Observation, st: StateModel)
    ensures
        histories_grow(st, eval(fb, obs, st).1),
    decreases fb,
{
    match fb {
        Feedback::MaxMap(h) => {
            if h < st.histories.len() && is_novel(st.histories[h as int], obs.map@) {
                let st2 = eval(fb, obs, st).1;
                assert forall|k: int| 0 <= k < st.histories.len() implies slots_grow(
                    st.histories[k],
                    #[trigger] st2.histories[k],
                ) by {
                    if k == h {
                        assert(st2.histories[k] == merged(st.histories[k], obs.map@));
                    }
                }
            }
        },
        Feedback::And(cs) => lemma_list_histories_monotone(Combine::All, cs@, obs, st),
        Feedback::AndFast(cs) => lemma_list_histories_monotone(Combine::AllFast, cs@, obs, st),
        Feedback::Or(cs) => lemma_list_histories_monotone(Combine::Any, cs@, obs, st),
        _ => {},
    }
}

/// [`lemma_histories_monotone`] for the children of a combinator.
pub proof fn lemma_list_histories_monotone(
    c: Combine,
    cs: Seq<Feedback>,
    obs: Observation,
    st: StateModel,
)
    ensures
        histories_grow(st, eval_list(c, cs, obs, st).1),
    decreases cs,
{
    if cs.len() > 0 {
        let (acc, st1) = eval_list(c, cs.drop_last(), obs, st);
        lemma_list_histories_monotone(c, cs.drop_last(), obs, st);
        if !(c == Combine::AllFast && !acc) {
            lemma_histories_monotone(cs.last(), obs, st1);
            lemma_histories_grow_trans(st, st1, eval(cs.last(), obs, st1).1);
        }
    }
}

/// The verdict of child `i` of an eager combinator: it runs on the state
/// left by every child before it.
pub open spec fn child_verdict(cs: Seq<Feedback>, i: int, obs: Observation, st: StateModel) -> bool {
    eval(cs[i], obs, eval_list(Combine::All, cs.subrange(0, i), obs, st).1).0
}

/// A disjunction runs every child exactly once, in order, each on the state
/// left by the ones before it, whatever any child (a short-circuit
/// conjunction among them) does inside: the state it leaves is the one an
/// eager conjunction of the same children leaves, and it accepts exactly
/// when some child accepted.
pub proof fn lemma_or_runs_every_child(cs: Seq<Feedback>, obs: Observation, st: StateModel)
    ensures
        eval_list(Combine::Any, cs, obs, st).1 == eval_list(Combine::All, cs, obs, st).1,
        eval_list(Combine::Any, cs, obs, st).0 <==> exists|i: int|
            0 <= i < cs.len() && #[trigger] child_verdict(cs, i, obs, st),
    decreases cs.len(),
{
    if cs.len() > 0 {
        let pre = cs.drop_last();
        let n = cs.len() - 1;
        lemma_or_runs_every_child(pre, obs, st);
        assert(cs.subrange(0, n) =~= pre);
        assert forall|i: int| 0 <= i < n implies child_verdict(cs, i, obs, st) == child_verdict(
            pre,
            i,
            obs,
            st,
        ) by {
            assert(cs.subrange(0, i) =~= pre.subrange(0, i));
        }
        if eval_list(Combine::Any, cs, obs, st).0 {
            if eval_list(Combine::Any, pre, obs, st).0 {
                let i = choose|i: int| 0 <= i < pre.len() && #[trigger] child_verdict(pre, i, obs, st);
                assert(child_verdict(cs, i, obs, st));
            } else {
                assert(child_verdict(cs, n, obs, st));
            }
        }
        if exists|i: int| 0 <= i < cs.len() && #[trigger] child_verdict(cs, i, obs, st) {
            let i = choose|i: int| 0 <= i < cs.len() && #[trigger] child_verdict(cs, i, obs, st);
            if i < n {
                assert(child_verdict(pre, i, obs, st));
            }
        }
    }
}

} // verus!
