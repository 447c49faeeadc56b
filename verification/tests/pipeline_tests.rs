use noir_playground::pipeline::{
    step_args, CmdOutcome, CmdOutput, PipelineError, PipelineRun, StepName,
};

fn ran(exit_ok: bool, stdout: &str, stderr: &str) -> CmdOutcome {
    CmdOutcome::Ran(CmdOutput {
        exit_ok,
        stdout: stdout.to_owned(),
        stderr: stderr.to_owned(),
    })
}

#[test]
fn full_submission_runs_in_fixed_order() {
    let mut run = PipelineRun::full_submission();
    let mut order = Vec::new();
    while let Some(step) = run.next_step() {
        order.push(step);
        run.record(ran(true, "", ""));
    }
    assert!(run.passed());
    assert_eq!(
        order,
        vec![StepName::Test, StepName::Check, StepName::Prove, StepName::Verify]
    );
}

#[test]
fn check_failure_short_circuits() {
    let mut run = PipelineRun::full_submission();
    run.record(ran(true, "", ""));
    assert_eq!(run.next_step(), Some(StepName::Check));
    run.record(ran(false, "", "type error in main.nr"));
    assert!(!run.passed());
    assert_eq!(run.next_step(), None);
    match run.failure() {
        Some(PipelineError::Step(StepName::Check, diag)) => {
            assert_eq!(diag, "type error in main.nr");
        }
        other => panic!("unexpected failure classification: {:?}", other.is_some()),
    }
}

#[test]
fn prove_marker_fails_despite_exit_zero() {
    let mut run = PipelineRun::full_submission();
    run.record(ran(true, "", ""));
    run.record(ran(true, "", ""));
    assert_eq!(run.next_step(), Some(StepName::Prove));
    run.record(ran(true, "constraint 3 ... FAILED ...", ""));
    assert!(!run.passed());
    assert_eq!(run.next_step(), None);
    assert!(matches!(
        run.failure(),
        Some(PipelineError::ProveReportedFailure)
    ));
}

#[test]
fn prove_without_marker_continues() {
    let mut run = PipelineRun::full_submission();
    run.record(ran(true, "", ""));
    run.record(ran(true, "", ""));
    run.record(ran(true, "proof generated", ""));
    assert_eq!(run.next_step(), Some(StepName::Verify));
    run.record(ran(true, "", ""));
    assert!(run.passed());
}

#[test]
fn spawn_failure_aborts() {
    let mut run = PipelineRun::check_only();
    run.record(CmdOutcome::SpawnFailed("No such file or directory".to_owned()));
    assert!(!run.passed());
    assert_eq!(run.next_step(), None);
    match run.failure() {
        Some(PipelineError::Spawn(msg)) => assert_eq!(msg, "No such file or directory"),
        _ => panic!("expected a spawn failure"),
    }
}

#[test]
fn step_argument_lists() {
    assert_eq!(step_args(StepName::Test), vec!["test".to_owned()]);
    assert_eq!(step_args(StepName::Check), vec!["check".to_owned()]);
    assert_eq!(
        step_args(StepName::Prove),
        vec!["prove".to_owned(), "proof-1".to_owned()]
    );
    assert_eq!(
        step_args(StepName::Verify),
        vec!["verify".to_owned(), "proof-1".to_owned()]
    );
}
