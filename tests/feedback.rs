use forkserver_simple::coverage::{classify_count, classify_map};
use forkserver_simple::engine::copy_bytes;
use forkserver_simple::feedback::{
    evaluate, max_map_is_novel, max_merge, ExitKind, Feedback, FeedbackState, Observation,
};

fn state(maps: usize, logs: usize, size: usize) -> FeedbackState {
    FeedbackState::new(maps, logs, size)
}

fn run(exit: ExitKind, map: Vec<u8>) -> Observation {
    Observation { map, exec_time_ms: 42, exit }
}

#[test]
fn bucketing_of_single_counts() {
    let cases: [(u8, u8); 14] = [
        (0, 0), (1, 1), (2, 2), (3, 4), (4, 8), (7, 8), (8, 16), (15, 16), (16, 32), (31, 32),
        (32, 64), (127, 64), (128, 128), (255, 128),
    ];
    for (c, b) in cases {
        assert_eq!(classify_count(c), b, "count {}", c);
    }
}

#[test]
fn bucketing_of_a_map() {
    let mut m = vec![0, 3, 5, 200];
    classify_map(&mut m);
    assert_eq!(m, vec![0, 4, 8, 128]);
}

#[test]
fn novelty_needs_a_higher_slot() {
    assert!(max_map_is_novel(&vec![0, 0, 0], &vec![0, 1, 0]));
    assert!(max_map_is_novel(&vec![0, 2, 0], &vec![0, 4, 0]));
    assert!(!max_map_is_novel(&vec![0, 4, 0], &vec![0, 2, 0]));
    assert!(!max_map_is_novel(&vec![1, 1], &vec![0, 0]));
    assert!(!max_map_is_novel(&vec![], &vec![7]));
}

#[test]
fn merge_is_elementwise_max() {
    assert_eq!(max_merge(&vec![1, 8, 0], &vec![4, 2, 0]), vec![4, 8, 0]);
    assert_eq!(max_merge(&vec![1, 1], &vec![3]), vec![3, 1]);
}

#[test]
fn copy_is_identical() {
    assert_eq!(copy_bytes(&vec![5, 6, 7]), vec![5, 6, 7]);
}

#[test]
fn or_evaluates_every_child_despite_short_circuit_inside() {
    // The inner short-circuit conjunction stops at the crash check, so its
    // time leaf is skipped; the disjunction still runs its own time leaf.
    let fb = Feedback::Or(vec![
        Feedback::AndFast(vec![Feedback::Crash, Feedback::Time(0)]),
        Feedback::Time(1),
    ]);
    let mut st = state(0, 2, 0);
    let r = evaluate(&fb, &run(ExitKind::Normal, vec![]), &mut st);
    assert!(!r);
    assert!(st.time_logs[0].is_empty());
    assert_eq!(st.time_logs[1], vec![42]);
}

#[test]
fn or_keeps_evaluating_after_an_acceptance() {
    let fb = Feedback::Or(vec![Feedback::Const(true), Feedback::MaxMap(0), Feedback::Time(0)]);
    let mut st = state(1, 1, 2);
    let r = evaluate(&fb, &run(ExitKind::Normal, vec![0, 3]), &mut st);
    assert!(r);
    assert_eq!(st.histories[0], vec![0, 3]);
    assert_eq!(st.time_logs[0], vec![42]);
}

#[test]
fn eager_and_updates_accepting_children_even_when_rejecting() {
    let fb = Feedback::And(vec![Feedback::MaxMap(0), Feedback::Const(false), Feedback::Time(0)]);
    let mut st = state(1, 1, 2);
    let r = evaluate(&fb, &run(ExitKind::Normal, vec![1, 0]), &mut st);
    assert!(!r);
    assert_eq!(st.histories[0], vec![1, 0]);
    assert_eq!(st.time_logs[0], vec![42]);
}

#[test]
fn fast_and_stops_after_first_rejection() {
    let fb = Feedback::AndFast(vec![Feedback::Const(false), Feedback::MaxMap(0)]);
    let mut st = state(1, 0, 2);
    let r = evaluate(&fb, &run(ExitKind::Crash, vec![1, 1]), &mut st);
    assert!(!r);
    assert_eq!(st.histories[0], vec![0, 0]);
}

#[test]
fn empty_combinators() {
    let mut st = state(0, 0, 0);
    let o = run(ExitKind::Normal, vec![]);
    assert!(evaluate(&Feedback::And(vec![]), &o, &mut st));
    assert!(evaluate(&Feedback::AndFast(vec![]), &o, &mut st));
    assert!(!evaluate(&Feedback::Or(vec![]), &o, &mut st));
}

#[test]
fn leaves_on_exit_kinds() {
    let mut st = state(0, 0, 0);
    assert!(evaluate(&Feedback::Crash, &run(ExitKind::Crash, vec![]), &mut st));
    assert!(!evaluate(&Feedback::Crash, &run(ExitKind::Timeout, vec![]), &mut st));
    assert!(evaluate(&Feedback::Timeout, &run(ExitKind::Timeout, vec![]), &mut st));
    assert!(!evaluate(&Feedback::MaxMap(3), &run(ExitKind::Normal, vec![9]), &mut st));
    assert!(!evaluate(&Feedback::Time(3), &run(ExitKind::Normal, vec![9]), &mut st));
}

#[test]
fn fresh_state_is_zeroed() {
    let st = state(2, 3, 4);
    assert_eq!(st.histories, vec![vec![0u8; 4], vec![0u8; 4]]);
    assert_eq!(st.time_logs.len(), 3);
    assert!(st.time_logs.iter().all(|l| l.is_empty()));
}
