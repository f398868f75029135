use tif2dds::run::{BatchExecution, CommandOutcome, ExecError, PendingAction};

fn plan(tag: &str) -> Vec<String> {
    vec!["--format".to_string(), tag.to_string()]
}

#[test]
fn successful_batch_runs_every_plan_then_cleans() {
    let mut m = BatchExecution::new(vec![plan("bc1"), plan("bc3")], vec!["t.png".to_string()]);
    assert_eq!(m.next_action(), PendingAction::RunCommand { index: 0 });
    m.record_command(CommandOutcome::Success);
    assert_eq!(m.next_action(), PendingAction::RunCommand { index: 1 });
    m.record_command(CommandOutcome::Success);
    assert_eq!(m.next_action(), PendingAction::DeleteFile { index: 0 });
    m.record_delete(true);
    assert_eq!(m.next_action(), PendingAction::Finished);
    assert!(m.outcome().is_ok());
    assert!(m.failed_deletes.is_empty());
}

#[test]
fn first_failure_skips_the_remaining_plans() {
    let mut m = BatchExecution::new(vec![plan("bc1"), plan("bc3")], vec!["t.png".to_string()]);
    assert_eq!(m.next_action(), PendingAction::RunCommand { index: 0 });
    m.record_command(CommandOutcome::Failed { code: Some(3) });
    // The second plan is never asked for; cleanup begins at once.
    assert_eq!(m.next_action(), PendingAction::DeleteFile { index: 0 });
    m.record_delete(true);
    assert_eq!(m.next_action(), PendingAction::Finished);
    assert!(matches!(m.outcome(), Err(ExecError::CommandFailed { code: Some(3) })));
}

#[test]
fn launch_failure_is_reported_like_a_failed_exit() {
    let mut m = BatchExecution::new(vec![plan("bc1")], Vec::new());
    m.record_command(CommandOutcome::LaunchError);
    assert_eq!(m.next_action(), PendingAction::Finished);
    assert!(matches!(m.outcome(), Err(ExecError::LaunchFailure)));
}

#[test]
fn cleanup_attempts_every_path_even_after_a_failed_delete() {
    let mut m = BatchExecution::new(
        Vec::new(),
        vec!["a.png".to_string(), "b.png".to_string(), "c.png".to_string()],
    );
    assert_eq!(m.next_action(), PendingAction::DeleteFile { index: 0 });
    m.record_delete(false);
    assert_eq!(m.next_action(), PendingAction::DeleteFile { index: 1 });
    m.record_delete(true);
    assert_eq!(m.next_action(), PendingAction::DeleteFile { index: 2 });
    m.record_delete(false);
    assert_eq!(m.next_action(), PendingAction::Finished);
    assert_eq!(m.failed_deletes, vec!["a.png".to_string(), "c.png".to_string()]);
}

#[test]
fn cleanup_failures_do_not_mask_the_execution_outcome() {
    let mut m = BatchExecution::new(vec![plan("bc3")], vec!["t.png".to_string()]);
    m.record_command(CommandOutcome::Success);
    m.record_delete(false);
    // The deletion failed, yet the batch verdict stays the execution result.
    assert!(m.outcome().is_ok());
    assert_eq!(m.failed_deletes, vec!["t.png".to_string()]);

    let mut n = BatchExecution::new(vec![plan("bc3")], vec!["t.png".to_string()]);
    n.record_command(CommandOutcome::Failed { code: Some(7) });
    n.record_delete(false);
    assert!(matches!(n.outcome(), Err(ExecError::CommandFailed { code: Some(7) })));
}

#[test]
fn batch_without_plans_goes_straight_to_cleanup() {
    // The route a caller takes when staging failed: nothing runs, but the
    // intermediates staged before the failure are still cleaned.
    let mut m = BatchExecution::new(Vec::new(), vec!["t.png".to_string()]);
    assert_eq!(m.next_action(), PendingAction::DeleteFile { index: 0 });
    m.record_delete(true);
    assert_eq!(m.next_action(), PendingAction::Finished);
    assert!(m.outcome().is_ok());
}

#[test]
fn batch_without_plans_or_temps_is_finished_at_once() {
    let m = BatchExecution::new(Vec::new(), Vec::new());
    assert_eq!(m.next_action(), PendingAction::Finished);
    assert!(m.outcome().is_ok());
}
