//! The command pipeline runner.
//!
//! A pipeline is an ordered list of toolchain steps, each one external
//! process invocation.  The runner itself never spawns anything: it hands
//! out the next step to attempt and classifies the outcome the embedder
//! reports back, so every decision — the strict ordering, the
//! short-circuit on the first violated rule, and the `prove` step's
//! stdout scan — is made by verified code.
//!
//! Success rules: a step passes when its process exits zero, except
//! `prove`, whose captured stdout additionally must not contain the
//! failure marker — the external prover can report a soft failure inside
//! a successful process exit, and that rule is deliberate, not a bug.

use vstd::prelude::*;
use crate::text::has_substring;

verus! {

#[derive(Clone, Copy, PartialEq, Eq, Structural, Debug)]
pub enum StepName {
    Test,
    Check,
    Prove,
    Verify,
}

/// Marker scanned for in the `prove` step's stdout.
pub open spec fn fail_marker() -> Seq<char> {
    "FAILED"@
}

/// Marker whose absence short-circuits the test-only flow.
pub open spec fn test_marker() -> Seq<char> {
    "#[test]"@
}

/// What a spawned process produced: its exit classification and captured
/// output streams.
pub struct CmdOutput {
    pub exit_ok: bool,
    pub stdout: String,
    pub stderr: String,
}

/// Outcome of attempting one step: the process ran to completion, or it
/// could not be started at all.
pub enum CmdOutcome {
    Ran(CmdOutput),
    SpawnFailed(String),
}

pub struct OutputModel {
    pub exit_ok: bool,
    pub stdout: Seq<char>,
    pub stderr: Seq<char>,
}

pub enum OutcomeModel {
    Ran(OutputModel),
    SpawnFailed(Seq<char>),
}

impl View for CmdOutput {
    type V = OutputModel;

    open spec fn view(&self) -> OutputModel {
        OutputModel { exit_ok: self.exit_ok, stdout: self.stdout@, stderr: self.stderr@ }
    }
}

impl View for CmdOutcome {
    type V = OutcomeModel;

    open spec fn view(&self) -> OutcomeModel {
        match self {
            CmdOutcome::Ran(out) => OutcomeModel::Ran(out@),
            CmdOutcome::SpawnFailed(msg) => OutcomeModel::SpawnFailed(msg@),
        }
    }
}

/// Why a pipeline run failed.
pub enum PipelineError {
    /// The external process could not be started; holds the spawn error text.
    Spawn(String),
    /// The named step ran but violated its success rule; holds its captured
    /// stderr as the diagnostic payload.
    Step(StepName, String),
    /// The `prove` step exited zero but its stdout carried the failure marker.
    ProveReportedFailure,
}

pub enum ErrorModel {
    Spawn(Seq<char>),
    Step(StepName, Seq<char>),
    ProveReportedFailure,
}

impl View for PipelineError {
    type V = ErrorModel;

    open spec fn view(&self) -> ErrorModel {
        match self {
            PipelineError::Spawn(msg) => ErrorModel::Spawn(msg@),
            PipelineError::Step(name, diag) => ErrorModel::Step(*name, diag@),
            PipelineError::ProveReportedFailure => ErrorModel::ProveReportedFailure,
        }
    }
}

pub enum RunStatus {
    InProgress,
    Passed,
    Failed(PipelineError),
}

pub enum StatusModel {
    InProgress,
    Passed,
    Failed(ErrorModel),
}

impl View for RunStatus {
    type V = StatusModel;

    open spec fn view(&self) -> StatusModel {
        match self {
            RunStatus::InProgress => StatusModel::InProgress,
            RunStatus::Passed => StatusModel::Passed,
            RunStatus::Failed(e) => StatusModel::Failed(e@),
        }
    }
}

/// Ghost state of a pipeline run: the fixed step list, how many steps have
/// passed so far, and the current classification.
pub struct RunModel {
    pub steps: Seq<StepName>,
    pub next: int,
    pub status: StatusModel,
}

impl RunModel {
    pub open spec fn wf(&self) -> bool {
        &&& 0 <= self.next <= self.steps.len()
        &&& (self.status is InProgress ==> self.next < self.steps.len())
    }
}

/// The step passes when the process exited zero — and, for `prove` alone,
/// its stdout does not contain the failure marker.
pub open spec fn step_passes(name: StepName, o: OutputModel) -> bool {
    o.exit_ok && !(name is Prove && has_substring(o.stdout, fail_marker()))
}

pub open spec fn outcome_passes(name: StepName, o: OutcomeModel) -> bool {
    o matches OutcomeModel::Ran(out) && step_passes(name, out)
}

/// The fixed order of the full-submission pipeline.
pub open spec fn full_order() -> Seq<StepName> {
    seq![StepName::Test, StepName::Check, StepName::Prove, StepName::Verify]
}

pub open spec fn start_model(steps: Seq<StepName>) -> RunModel {
    RunModel { steps: steps, next: 0, status: StatusModel::InProgress }
}

/// How one reported outcome advances a run that is in progress.
pub open spec fn record_model(m: RunModel, o: OutcomeModel) -> RunModel {
    match o {
        OutcomeModel::SpawnFailed(msg) => RunModel {
            status: StatusModel::Failed(ErrorModel::Spawn(msg)),
            ..m
        },
        OutcomeModel::Ran(out) => {
            let name = m.steps[m.next];
            if !out.exit_ok {
                RunModel { status: StatusModel::Failed(ErrorModel::Step(name, out.stderr)), ..m }
            } else if name is Prove && has_substring(out.stdout, fail_marker()) {
                RunModel { status: StatusModel::Failed(ErrorModel::ProveReportedFailure), ..m }
            } else {
                RunModel {
                    next: m.next + 1,
                    status: if m.next + 1 == m.steps.len() {
                        StatusModel::Passed
                    } else {
                        StatusModel::InProgress
                    },
                    ..m
                }
            }
        },
    }
}

/// A whole run: outcomes are consumed in order while the run is in
/// progress; once it has passed or failed, later outcomes change nothing.
pub open spec fn run_all(m: RunModel, outs: Seq<OutcomeModel>) -> RunModel
    decreases outs.len(),
{
    if outs.len() == 0 || !(m.status is InProgress) {
        m
    } else {
        run_all(record_model(m, outs[0]), outs.drop_first())
    }
}

/// An ordered sequence of toolchain steps together with its progress.
pub struct PipelineRun {
    steps: Vec<StepName>,
    next: usize,
    status: RunStatus,
}

impl View for PipelineRun {
    type V = RunModel;

    closed spec fn view(&self) -> RunModel {
        RunModel { steps: self.steps@, next: self.next as int, status: self.status@ }
    }
}

impl PipelineRun {
    /// The full-submission pipeline: `test`, `check`, `prove`, `verify`,
    /// in that fixed order.
    pub fn full_submission() -> (r: Self)
        ensures
            r@ == start_model(full_order()),
            r@.wf(),
    {
        let steps = vec![StepName::Test, StepName::Check, StepName::Prove, StepName::Verify];
        proof {
            assert(steps@ =~= full_order());
        }
        PipelineRun { steps, next: 0, status: RunStatus::InProgress }
    }

    /// The check-only pipeline: a single `check` step.
    pub fn check_only() -> (r: Self)
        ensures
            r@ == start_model(seq![StepName::Check]),
            r@.wf(),
    {
        let steps = vec![StepName::Check];
        proof {
            assert(steps@ =~= seq![StepName::Check]);
        }
        PipelineRun { steps, next: 0, status: RunStatus::InProgress }
    }

    /// The test-only pipeline: a single `test` step.
    pub fn test_only() -> (r: Self)
        ensures
            r@ == start_model(seq![StepName::Test]),
            r@.wf(),
    {
        let steps = vec![StepName::Test];
        proof {
            assert(steps@ =~= seq![StepName::Test]);
        }
        PipelineRun { steps, next: 0, status: RunStatus::InProgress }
    }

    /// The step to attempt next, or nothing once the run has concluded.
    pub fn next_step(&self) -> (r: Option<StepName>)
        requires
            self@.wf(),
        ensures
            match r {
                Some(name) => self@.status is InProgress && name == self@.steps[self@.next],
                None => !(self@.status is InProgress),
            },
    {
        match &self.status {
            RunStatus::InProgress => Some(self.steps[self.next]),
            _ => None,
        }
    }

    /// Classifies one reported outcome, advancing or concluding the run.
    pub fn record(&mut self, outcome: CmdOutcome)
        requires
            old(self)@.wf(),
            old(self)@.status is InProgress,
        ensures
            final(self)@ == record_model(old(self)@, outcome@),
            final(self)@.wf(),
            final(self)@.steps == old(self)@.steps,
    {
        match outcome {
            CmdOutcome::SpawnFailed(msg) => {
                self.status = RunStatus::Failed(PipelineError::Spawn(msg));
            },
            CmdOutcome::Ran(out) => {
                let name = self.steps[self.next];
                if !out.exit_ok {
                    self.status = RunStatus::Failed(PipelineError::Step(name, out.stderr));
                } else if name == StepName::Prove
                    && crate::text::contains_substring(out.stdout.as_str(), "FAILED") {
                    self.status = RunStatus::Failed(PipelineError::ProveReportedFailure);
                } else {
                    let n = self.steps.len();
                    proof {
                        assert(self.next < self.steps@.len());
                    }
                    self.next = self.next + 1;
                    if self.next == n {
                        self.status = RunStatus::Passed;
                    }
                }
            },
        }
    }

    /// Whether every step has passed its rule.
    pub fn passed(&self) -> (r: bool)
        ensures
            r == (self@.status is Passed),
    {
        match &self.status {
            RunStatus::Passed => true,
            _ => false,
        }
    }

    /// The failure recorded for this run, if it has failed.
    pub fn failure(&self) -> (r: Option<&PipelineError>)
        ensures
            match r {
                Some(e) => self@.status matches StatusModel::Failed(em) && em == e@,
                None => !(self@.status is Failed),
            },
    {
        match &self.status {
            RunStatus::Failed(e) => Some(e),
            _ => None,
        }
    }
}

/// The command line of one step: the toolchain binary's argument list.
pub fn step_args(name: StepName) -> (r: Vec<String>)
    ensures
        r.deep_view() == step_args_spec(name),
{
    let mut args: Vec<String> = Vec::new();
    match name {
        StepName::Test => {
            args.push("test".to_owned());
        },
        StepName::Check => {
            args.push("check".to_owned());
        },
        StepName::Prove => {
            args.push("prove".to_owned());
            args.push("proof-1".to_owned());
        },
        StepName::Verify => {
            args.push("verify".to_owned());
            args.push("proof-1".to_owned());
        },
    }
    proof {
        assert(args.deep_view() =~= step_args_spec(name));
    }
    args
}

pub open spec fn step_args_spec(name: StepName) -> Seq<Seq<char>> {
    match name {
        StepName::Test => seq!["test"@],
        StepName::Check => seq!["check"@],
        StepName::Prove => seq!["prove"@, "proof-1"@],
        StepName::Verify => seq!["verify"@, "proof-1"@],
    }
}

/// Law: the full-submission pipeline attempts its steps strictly in the
/// fixed order, and a non-zero exit at `check` concludes the run at once —
/// `prove` and `verify` are never attempted, whatever outcomes would have
/// followed.
pub proof fn lemma_check_failure_short_circuits(
    o_test: OutcomeModel,
    o_check: OutputModel,
    later: Seq<OutcomeModel>,
)
    requires
        outcome_passes(StepName::Test, o_test),
        !o_check.exit_ok,
    ensures
        ({
            let fin = run_all(
                start_model(full_order()),
                seq![o_test, OutcomeModel::Ran(o_check)] + later,
            );
            &&& fin.status == StatusModel::Failed(
                ErrorModel::Step(StepName::Check, o_check.stderr),
            )
            &&& fin.next == 1
        }),
{
    let outs = seq![o_test, OutcomeModel::Ran(o_check)] + later;
    let m0 = start_model(full_order());
    let m1 = record_model(m0, o_test);
    assert(outs[0] == o_test);
    assert(m1.next == 1 && m1.status is InProgress);
    let outs1 = outs.drop_first();
    assert(outs1[0] == OutcomeModel::Ran(o_check));
    let m2 = record_model(m1, OutcomeModel::Ran(o_check));
    assert(m1.steps[1] == StepName::Check);
    assert(m2.status == StatusModel::Failed(ErrorModel::Step(StepName::Check, o_check.stderr)));
    assert(m2.next == 1);
    assert(run_all(m2, outs1.drop_first()) == m2);
    assert(run_all(m1, outs1) == run_all(m2, outs1.drop_first()));
    assert(run_all(m0, outs) == run_all(m1, outs1));
}

/// Law: an exit-zero `prove` invocation whose stdout contains the failure
/// marker fails the whole pipeline, despite the successful exit status.
pub proof fn lemma_prove_marker_fails(m: RunModel, o: OutputModel)
    requires
        m.wf(),
        m.status is InProgress,
        m.steps[m.next] is Prove,
        o.exit_ok,
        has_substring(o.stdout, fail_marker()),
    ensures
        record_model(m, OutcomeModel::Ran(o)).status == StatusModel::Failed(
            ErrorModel::ProveReportedFailure,
        ),
        record_model(m, OutcomeModel::Ran(o)).next == m.next,
{
}

} // verus!
