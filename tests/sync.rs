use casm::error::ProcessError;
use casm::sync::{Outcome, SyncRun};

#[test]
fn every_file_gets_one_result() {
    let mut run = SyncRun::new(3);
    assert_eq!(run.total(), 3);
    assert!(!run.is_finished());
    run.record(2, Outcome::Copied);
    run.record(0, Outcome::Failed(ProcessError::UnknownCodec));
    assert_eq!(run.completed_count(), 2);
    assert!(!run.is_finished());
    run.record(1, Outcome::Transcoded);
    assert!(run.is_finished());
    assert_eq!(run.completed_count(), 3);
    assert_eq!(run.failed_count(), 1);
}

#[test]
fn failure_touches_only_its_file() {
    let mut run = SyncRun::new(3);
    run.record(0, Outcome::Skipped);
    run.record(1, Outcome::Failed(ProcessError::UnknownCodec));
    run.record(2, Outcome::Copied);
    assert_eq!(run.outcome(0), Some(Outcome::Skipped));
    assert_eq!(run.outcome(1), Some(Outcome::Failed(ProcessError::UnknownCodec)));
    assert_eq!(run.outcome(2), Some(Outcome::Copied));
}

#[test]
fn empty_run_is_finished() {
    let run = SyncRun::new(0);
    assert!(run.is_finished());
    assert_eq!(run.completed_count(), 0);
}
