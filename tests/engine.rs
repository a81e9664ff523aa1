use forkserver_simple::engine::{Engine, ExecuteResult, LoadError};
use forkserver_simple::feedback::{ExitKind, Feedback, Observation};
use forkserver_simple::fuzzer::Fuzzer;

const MAP_SIZE: usize = 16;

fn map_with(edges: &[usize]) -> Vec<u8> {
    let mut m = vec![0u8; MAP_SIZE];
    for &e in edges {
        m[e] = 1;
    }
    m
}

fn obs(edges: &[usize], exit: ExitKind) -> Observation {
    Observation { map: map_with(edges), exec_time_ms: 5, exit }
}

/// Corpus feedback: grammar-style recorders forced to reject, then map
/// novelty, then time tracking; objective: crash, then crash-map novelty.
fn standard_engine() -> Engine {
    let feedback = Feedback::Or(vec![
        Feedback::And(vec![Feedback::Time(1), Feedback::Const(false)]),
        Feedback::MaxMap(0),
        Feedback::Time(0),
    ]);
    let objective = Feedback::AndFast(vec![Feedback::Crash, Feedback::MaxMap(0)]);
    Engine::new(feedback, objective, 1, 1, 2, MAP_SIZE)
}

#[test]
fn new_coverage_grows_corpus_only_when_novel() {
    let mut e = standard_engine();
    let r = e.process_execution(vec![1, 2, 3, 4], &obs(&[3], ExitKind::Normal));
    assert_eq!(r, ExecuteResult::Corpus);
    assert_eq!(e.corpus_count(), 1);
    assert_eq!(e.solutions_count(), 0);
    let r = e.process_execution(vec![1, 2, 3, 5], &obs(&[3], ExitKind::Normal));
    assert_eq!(r, ExecuteResult::Discarded);
    assert_eq!(e.corpus_count(), 1);
    let r = e.process_execution(vec![1, 2, 3, 6], &obs(&[3, 7], ExitKind::Normal));
    assert_eq!(r, ExecuteResult::Corpus);
    assert_eq!(e.corpus_count(), 2);
    assert_eq!(e.corpus_get(1).unwrap().input, vec![1, 2, 3, 6]);
    assert!(e.corpus_get(2).is_none());
}

#[test]
fn crash_with_same_coverage_is_stored_once() {
    let mut e = standard_engine();
    let r = e.process_execution(vec![0xde, 0xad], &obs(&[1, 2], ExitKind::Crash));
    assert_eq!(r, ExecuteResult::Solution);
    assert_eq!(e.solutions_count(), 1);
    let r = e.process_execution(vec![0xbe, 0xef, 0x00], &obs(&[1, 2], ExitKind::Crash));
    assert_ne!(r, ExecuteResult::Solution);
    assert_eq!(e.solutions_count(), 1);
}

#[test]
fn replaying_a_crash_keeps_one_solution() {
    let mut e = standard_engine();
    let o = obs(&[4, 5], ExitKind::Crash);
    e.process_execution(vec![9, 9], &o);
    e.process_execution(vec![9, 9], &o);
    assert_eq!(e.solutions_count(), 1);
}

#[test]
fn crash_with_new_coverage_is_a_new_solution() {
    let mut e = standard_engine();
    e.process_execution(vec![1], &obs(&[1, 2], ExitKind::Crash));
    let r = e.process_execution(vec![2], &obs(&[1, 2, 9], ExitKind::Crash));
    assert_eq!(r, ExecuteResult::Solution);
    assert_eq!(e.solutions_count(), 2);
    assert_eq!(e.corpus_count(), 0);
}

#[test]
fn crash_history_is_independent_of_corpus_history() {
    let mut e = standard_engine();
    e.process_execution(vec![1], &obs(&[1, 2], ExitKind::Normal));
    assert_eq!(e.corpus_count(), 1);
    let r = e.process_execution(vec![2], &obs(&[1, 2], ExitKind::Crash));
    assert_eq!(r, ExecuteResult::Solution);
}

#[test]
fn timeout_is_not_a_crash_solution() {
    let mut e = standard_engine();
    let r = e.process_execution(vec![1], &obs(&[6], ExitKind::Timeout));
    assert_eq!(r, ExecuteResult::Corpus);
    assert_eq!(e.solutions_count(), 0);
}

#[test]
fn forced_loading_keeps_every_seed() {
    let mut e = standard_engine();
    let n = 5;
    for i in 0..n {
        e.add_input_forced(vec![i as u8; 4], &obs(&[3], ExitKind::Normal));
    }
    assert_eq!(e.corpus_count(), n);
    assert_eq!(e.solutions_count(), 0);
    for i in 0..n {
        assert_eq!(e.corpus_get(i).unwrap().input, vec![i as u8; 4]);
    }
}

#[test]
fn forced_loading_routes_crashing_seed_to_solutions_too() {
    let mut e = standard_engine();
    assert!(!e.add_input_forced(vec![1], &obs(&[3], ExitKind::Normal)));
    assert!(e.add_input_forced(vec![2], &obs(&[3], ExitKind::Crash)));
    assert_eq!(e.corpus_count(), 2);
    assert_eq!(e.solutions_count(), 1);
}

#[test]
fn history_keeps_elementwise_maximum() {
    let mut e = standard_engine();
    let mut m = map_with(&[]);
    m[2] = 8;
    m[5] = 1;
    e.process_execution(vec![1], &Observation { map: m, exec_time_ms: 1, exit: ExitKind::Normal });
    let mut m2 = map_with(&[]);
    m2[2] = 4;
    m2[5] = 2;
    let r = e.process_execution(vec![2], &Observation { map: m2, exec_time_ms: 1, exit: ExitKind::Normal });
    assert_eq!(r, ExecuteResult::Corpus);
    let h = &e.feedback_state.histories[0];
    assert_eq!(h[2], 8);
    assert_eq!(h[5], 2);
    assert!(h.iter().enumerate().all(|(i, &v)| v >= map_with(&[])[i]));
}

#[test]
fn time_tracking_records_every_execution_under_or() {
    let mut e = standard_engine();
    e.process_execution(vec![1], &obs(&[3], ExitKind::Normal));
    e.process_execution(vec![2], &obs(&[3], ExitKind::Normal));
    assert_eq!(e.feedback_state.time_logs[0], vec![5, 5]);
    assert_eq!(e.feedback_state.time_logs[1], vec![5, 5]);
}

#[test]
fn seed_then_mutants_through_the_fuzzer() {
    let mut f = Fuzzer::new(standard_engine(), 17, vec![], 6, 1024);
    f.engine.add_input_forced(vec![b'a', b'b', b'c', b'd'], &obs(&[3], ExitKind::Normal));
    assert_eq!(f.engine.corpus_count(), 1);
    assert_eq!(f.engine.solutions_count(), 0);
    let (idx, n) = f.begin_stage().unwrap();
    assert_eq!(idx, 0);
    assert!(n >= 1);
    let m1 = f.candidate(idx);
    assert_eq!(f.report(m1, &obs(&[3], ExitKind::Normal)), ExecuteResult::Discarded);
    assert_eq!(f.engine.corpus_count(), 1);
    let m2 = f.candidate(idx);
    assert_eq!(f.report(m2.clone(), &obs(&[3, 7], ExitKind::Normal)), ExecuteResult::Corpus);
    assert_eq!(f.engine.corpus_count(), 2);
    assert_eq!(f.engine.corpus_get(1).unwrap().input, m2);
    assert_eq!(f.engine.solutions_count(), 0);
}

#[test]
fn normal_loading_filters_seeds() {
    let mut e = standard_engine();
    assert_eq!(e.finish_initial_load(), Err(LoadError::NothingImported));
    assert!(!e.load_seed(vec![1], &obs(&[3], ExitKind::Normal), false));
    assert!(!e.load_seed(vec![2], &obs(&[3], ExitKind::Normal), false));
    assert_eq!(e.finish_initial_load(), Ok(1));
    assert!(e.load_seed(vec![3], &obs(&[3], ExitKind::Crash), false));
    assert_eq!(e.corpus_count(), 1);
    assert_eq!(e.solutions_count(), 1);
}

#[test]
fn forced_loading_through_load_seed() {
    let mut e = standard_engine();
    assert!(!e.load_seed(vec![1], &obs(&[3], ExitKind::Normal), true));
    assert!(!e.load_seed(vec![1], &obs(&[3], ExitKind::Normal), true));
    assert_eq!(e.finish_initial_load(), Ok(2));
}
