//! A coverage-guided fuzzing engine core: hit-count bucketing, novelty
//! feedback over coverage maps, composable feedback expressions, corpus and
//! solution bookkeeping, a queue scheduler, a seeded mutation engine and the
//! forkserver protocol state machine.

pub mod coverage;
pub mod engine;
pub mod feedback;
pub mod forkserver;
pub mod fuzzer;
pub mod handshake;
pub mod mutation;
pub mod report;
pub mod rng;
pub mod scheduler;
