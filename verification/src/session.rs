//! One request's lifecycle, as a state machine.
//!
//! A session owns the decisions of a request from arrival to response:
//! which flow it runs, what text is written into the workspace, which
//! toolchain step comes next, how each outcome is classified, and what is
//! answered.  The embedder performs the filesystem and process work and
//! reports an [`Event`] for each [`Action`] the session asks for; every
//! decision in between is verified.
//!
//! The central resource rule — the workspace directory is removed on
//! every path, pass or fail — is an invariant of the machine: the only
//! way to reach the final phase is through the teardown action, which is
//! proved in [`lemma_release_before_done`].

use vstd::prelude::*;
use vstd::string::*;
use crate::challenges::{Challenge, find_challenge};
use crate::pipeline::{
    CmdOutcome, ErrorModel, OutcomeModel, PipelineError, PipelineRun, RunModel, StatusModel,
    StepName, full_order, record_model, start_model, test_marker,
};
use crate::text::{combined_source, contains_substring, has_substring};
use crate::params::{encode_doc, parse_doc};

verus! {

/// The uniform error carrier of the service: a bare diagnostic message.
#[derive(Debug)]
pub struct SimpleRejection(pub String);

impl SimpleRejection {
    /// The diagnostic text.
    pub fn message(&self) -> (r: &String)
        ensures
            r@ == self.0@,
    {
        &self.0
    }
}

/// Which endpoint's pipeline a session runs.
#[derive(Clone, Copy, PartialEq, Eq, Structural, Debug)]
pub enum Flow {
    CheckOnly,
    TestOnly,
    FullSubmission,
}

/// Where in its lifecycle a session stands.
#[derive(Clone, Copy, PartialEq, Eq, Structural, Debug)]
pub enum Phase {
    Setup,
    Write,
    Running,
    ReadParams,
    Release,
    Done,
}

/// What the embedder must do next.
pub enum Action {
    /// Create the workspace tree and run the bootstrap invocation.
    CreateWorkspace,
    /// Materialize the session's source text (and parameter file, if any).
    WriteFiles,
    /// Spawn the named toolchain step in the workspace.
    RunStep(StepName),
    /// Read the parameter file back out of the workspace.
    ReadParams,
    /// Remove the workspace tree (best effort).
    RemoveWorkspace,
    /// Deliver the session's response.
    Finish,
}

/// What the embedder reports back.
pub enum Event {
    /// Workspace setup finished; an error text when it failed.
    SetupDone(Option<String>),
    /// File writing finished; an error text when it failed.
    WriteDone(Option<String>),
    /// One step's process outcome.
    StepDone(CmdOutcome),
    /// The parameter file's contents, or nothing when the read failed.
    ParamsRead(Option<String>),
    /// Teardown was attempted; its own failure is swallowed, never reported.
    Removed,
}

pub enum EventModel {
    SetupDone(Option<Seq<char>>),
    WriteDone(Option<Seq<char>>),
    StepDone(OutcomeModel),
    ParamsRead(Option<Seq<char>>),
    Removed,
}

impl View for Event {
    type V = EventModel;

    open spec fn view(&self) -> EventModel {
        match self {
            Event::SetupDone(err) => EventModel::SetupDone(
                match err {
                    Some(m) => Some(m@),
                    None => None,
                },
            ),
            Event::WriteDone(err) => EventModel::WriteDone(
                match err {
                    Some(m) => Some(m@),
                    None => None,
                },
            ),
            Event::StepDone(o) => EventModel::StepDone(o@),
            Event::ParamsRead(c) => EventModel::ParamsRead(
                match c {
                    Some(t) => Some(t@),
                    None => None,
                },
            ),
            Event::Removed => EventModel::Removed,
        }
    }
}

/// What a request is answered with.
pub enum Response {
    /// A plain string body (success marker, pass message, neutral message).
    Body(String),
    /// The parsed parameter document of the check flow.
    Document(Vec<(String, String)>),
    /// A server error carrying a diagnostic message.
    Failure(SimpleRejection),
}

pub enum ResponseModel {
    Body(Seq<char>),
    Document(Seq<(Seq<char>, Seq<char>)>),
    Failure(Seq<char>),
}

impl View for Response {
    type V = ResponseModel;

    open spec fn view(&self) -> ResponseModel {
        match self {
            Response::Body(s) => ResponseModel::Body(s@),
            Response::Document(ps) => ResponseModel::Document(ps.deep_view()),
            Response::Failure(e) => ResponseModel::Failure(e.0@),
        }
    }
}

pub open spec fn no_tests_message() -> Seq<char> {
    "There are no tests to run"@
}

pub open spec fn success_message() -> Seq<char> {
    "Success!"@
}

pub open spec fn setup_failure_message(m: Seq<char>) -> Seq<char> {
    "Failed to create project directory: "@ + m
}

pub open spec fn write_failure_message(m: Seq<char>) -> Seq<char> {
    "Failed to write to file: "@ + m
}

pub open spec fn test_pass_message(out: Seq<char>) -> Seq<char> {
    "Tests pass!\nOutput: "@ + out
}

pub open spec fn test_failed_message(err: Seq<char>) -> Seq<char> {
    "Tests failed:\n"@ + err
}

pub open spec fn prove_failed_message() -> Seq<char> {
    "Prove failed"@
}

pub open spec fn params_read_failure_message() -> Seq<char> {
    "Failed to read Prover.toml"@
}

pub open spec fn malformed_params_message() -> Seq<char> {
    "Failed to parse Prover.toml"@
}

pub open spec fn no_challenge_message() -> Seq<char> {
    "No challenge found for the given ID"@
}

pub open spec fn bad_inputs_message() -> Seq<char> {
    "Failed to encode Prover.toml inputs"@
}

/// How a pipeline failure is worded, per flow: a failed step's captured
/// stderr is the diagnostic payload — the test flow wraps it in its pass/
/// fail phrasing, the check and full flows hand it through raw; a spawn
/// failure's own text is passed on, and the `prove` marker has its fixed
/// phrase.
pub open spec fn failure_message(flow: Flow, e: ErrorModel) -> Seq<char> {
    match e {
        ErrorModel::Spawn(m) => m,
        ErrorModel::ProveReportedFailure => prove_failed_message(),
        ErrorModel::Step(name, stderr) => match flow {
            Flow::TestOnly => test_failed_message(stderr),
            Flow::CheckOnly => stderr,
            Flow::FullSubmission => stderr,
        },
    }
}

/// The stdout a concluded outcome carried (spawn failures carry none;
/// their text stands in for completeness).
pub open spec fn stdout_of(o: OutcomeModel) -> Seq<char> {
    match o {
        OutcomeModel::Ran(out) => out.stdout,
        OutcomeModel::SpawnFailed(m) => m,
    }
}

/// Ghost state of a session.
pub struct SessionModel {
    pub flow: Flow,
    pub source: Seq<char>,
    pub prover_file: Option<Seq<char>>,
    pub run: RunModel,
    pub phase: Phase,
    pub response: Option<ResponseModel>,
    pub acquired: bool,
    pub released: bool,
}

impl SessionModel {
    /// The machine's inductive invariant.  Among its clauses stands the
    /// resource rule: a finished session has released whatever it acquired.
    pub open spec fn wf(&self) -> bool {
        &&& self.run.wf()
        &&& (self.flow is CheckOnly ==> self.run.steps == seq![StepName::Check])
        &&& (self.flow is TestOnly ==> self.run.steps == seq![StepName::Test])
        &&& (self.flow is FullSubmission ==> self.run.steps == full_order())
        &&& (self.phase is Setup ==> !self.acquired && !self.released && self.run.status
            is InProgress && self.run.next == 0)
        &&& (self.phase is Write ==> self.acquired && !self.released && self.run.status
            is InProgress && self.run.next == 0)
        &&& (self.phase is Running ==> self.acquired && !self.released && self.run.status
            is InProgress)
        &&& (self.phase is ReadParams ==> self.flow is CheckOnly && self.acquired
            && !self.released && self.run.status is Passed)
        &&& (self.phase is Release ==> self.response is Some && !self.released)
        &&& (self.phase is Done ==> self.response is Some && (self.acquired ==> self.released))
    }
}

/// The machine's transition relation: how one reported event moves a
/// session forward.  An event that does not belong to the current phase
/// changes nothing.
pub open spec fn step_model(m: SessionModel, e: EventModel) -> SessionModel {
    match (m.phase, e) {
        (Phase::Setup, EventModel::SetupDone(err)) => match err {
            None => SessionModel { phase: Phase::Write, acquired: true, ..m },
            Some(msg) => SessionModel {
                phase: Phase::Release,
                response: Some(ResponseModel::Failure(setup_failure_message(msg))),
                ..m
            },
        },
        (Phase::Write, EventModel::WriteDone(err)) => match err {
            None => SessionModel { phase: Phase::Running, ..m },
            Some(msg) => SessionModel {
                phase: Phase::Release,
                response: Some(ResponseModel::Failure(write_failure_message(msg))),
                ..m
            },
        },
        (Phase::Running, EventModel::StepDone(o)) => {
            let run2 = record_model(m.run, o);
            match run2.status {
                StatusModel::InProgress => SessionModel { run: run2, ..m },
                StatusModel::Passed => match m.flow {
                    Flow::CheckOnly => SessionModel { run: run2, phase: Phase::ReadParams, ..m },
                    Flow::TestOnly => SessionModel {
                        run: run2,
                        phase: Phase::Release,
                        response: Some(ResponseModel::Body(test_pass_message(stdout_of(o)))),
                        ..m
                    },
                    Flow::FullSubmission => SessionModel {
                        run: run2,
                        phase: Phase::Release,
                        response: Some(ResponseModel::Body(success_message())),
                        ..m
                    },
                },
                StatusModel::Failed(err) => SessionModel {
                    run: run2,
                    phase: Phase::Release,
                    response: Some(ResponseModel::Failure(failure_message(m.flow, err))),
                    ..m
                },
            }
        },
        (Phase::ReadParams, EventModel::ParamsRead(content)) => match content {
            Some(text) => match parse_doc(text) {
                Some(ps) => SessionModel {
                    phase: Phase::Release,
                    response: Some(ResponseModel::Document(ps)),
                    ..m
                },
                None => SessionModel {
                    phase: Phase::Release,
                    response: Some(ResponseModel::Failure(malformed_params_message())),
                    ..m
                },
            },
            None => SessionModel {
                phase: Phase::Release,
                response: Some(ResponseModel::Failure(params_read_failure_message())),
                ..m
            },
        },
        (Phase::Release, EventModel::Removed) => SessionModel {
            phase: Phase::Done,
            released: true,
            ..m
        },
        _ => m,
    }
}

/// Start state of the check-only flow.
pub open spec fn check_start(code: Seq<char>) -> SessionModel {
    SessionModel {
        flow: Flow::CheckOnly,
        source: code,
        prover_file: None,
        run: start_model(seq![StepName::Check]),
        phase: Phase::Setup,
        response: None,
        acquired: false,
        released: false,
    }
}

/// Start state of the test-only flow: without the test marker the session
/// is born concluded, with the neutral answer, and nothing is ever done.
pub open spec fn test_start(code: Seq<char>) -> SessionModel {
    if has_substring(code, test_marker()) {
        SessionModel {
            flow: Flow::TestOnly,
            source: code,
            prover_file: None,
            run: start_model(seq![StepName::Test]),
            phase: Phase::Setup,
            response: None,
            acquired: false,
            released: false,
        }
    } else {
        SessionModel {
            flow: Flow::TestOnly,
            source: code,
            prover_file: None,
            run: start_model(seq![StepName::Test]),
            phase: Phase::Done,
            response: Some(ResponseModel::Body(no_tests_message())),
            acquired: false,
            released: false,
        }
    }
}

/// Start state of the full-submission flow: the source is the submitted
/// code joined with the challenge's hidden snippets, and the parameter
/// file text is fixed up front.
pub open spec fn full_start(
    code: Seq<char>,
    snippets: Seq<Seq<char>>,
    prover_file: Seq<char>,
) -> SessionModel {
    SessionModel {
        flow: Flow::FullSubmission,
        source: combined_source(code, snippets),
        prover_file: Some(prover_file),
        run: start_model(full_order()),
        phase: Phase::Setup,
        response: None,
        acquired: false,
        released: false,
    }
}

fn translate_failure(flow: Flow, e: &PipelineError) -> (r: String)
    ensures
        r@ == failure_message(flow, e@),
{
    match e {
        PipelineError::Spawn(m) => m.clone(),
        PipelineError::ProveReportedFailure => "Prove failed".to_owned(),
        PipelineError::Step(_name, stderr) => match flow {
            Flow::TestOnly => {
                let mut msg = String::new();
                msg.append("Tests failed:\n");
                msg.append(stderr.as_str());
                proof {
                    assert(msg@ =~= test_failed_message(stderr@));
                }
                msg
            },
            Flow::CheckOnly => stderr.clone(),
            Flow::FullSubmission => stderr.clone(),
        },
    }
}

/// One request's verified lifecycle.
pub struct Session {
    flow: Flow,
    source: String,
    prover_file: Option<String>,
    run: PipelineRun,
    phase: Phase,
    response: Option<Response>,
    acquired: bool,
    released: bool,
}

impl View for Session {
    type V = SessionModel;

    closed spec fn view(&self) -> SessionModel {
        SessionModel {
            flow: self.flow,
            source: self.source@,
            prover_file: match &self.prover_file {
                Some(t) => Some(t@),
                None => None,
            },
            run: self.run@,
            phase: self.phase,
            response: match &self.response {
                Some(r) => Some(r@),
                None => None,
            },
            acquired: self.acquired,
            released: self.released,
        }
    }
}

impl Session {
    /// A check-only session for the submitted code.
    pub fn new_check(code: String) -> (r: Session)
        ensures
            r@ == check_start(code@),
            r@.wf(),
    {
        Session {
            flow: Flow::CheckOnly,
            source: code,
            prover_file: None,
            run: PipelineRun::check_only(),
            phase: Phase::Setup,
            response: None,
            acquired: false,
            released: false,
        }
    }

    /// A test-only session: code without the test marker short-circuits
    /// to the neutral answer without ever touching the filesystem.
    pub fn new_test(code: String) -> (r: Session)
        ensures
            r@ == test_start(code@),
            r@.wf(),
    {
        if contains_substring(code.as_str(), "#[test]") {
            Session {
                flow: Flow::TestOnly,
                source: code,
                prover_file: None,
                run: PipelineRun::test_only(),
                phase: Phase::Setup,
                response: None,
                acquired: false,
                released: false,
            }
        } else {
            Session {
                flow: Flow::TestOnly,
                source: code,
                prover_file: None,
                run: PipelineRun::test_only(),
                phase: Phase::Done,
                response: Some(Response::Body("There are no tests to run".to_owned())),
                acquired: false,
                released: false,
            }
        }
    }

    /// A full-submission session for the given challenge, with the
    /// parameter file text already rendered.
    pub fn new_full(code: &str, challenge: &Challenge, prover_file: String) -> (r: Session)
        ensures
            r@ == full_start(code@, challenge.test_cases.deep_view(), prover_file@),
            r@.wf(),
    {
        let source = crate::text::combine_source(code, &challenge.test_cases);
        Session {
            flow: Flow::FullSubmission,
            source,
            prover_file: Some(prover_file),
            run: PipelineRun::full_submission(),
            phase: Phase::Setup,
            response: None,
            acquired: false,
            released: false,
        }
    }

    /// What the embedder must do next.
    pub fn next_action(&self) -> (r: Action)
        requires
            self@.wf(),
        ensures
            (match r {
                Action::CreateWorkspace => self@.phase is Setup,
                Action::WriteFiles => self@.phase is Write,
                Action::RunStep(name) => self@.phase is Running && name
                    == self@.run.steps[self@.run.next],
                Action::ReadParams => self@.phase is ReadParams,
                Action::RemoveWorkspace => self@.phase is Release,
                Action::Finish => self@.phase is Done,
            }),
    {
        match self.phase {
            Phase::Setup => Action::CreateWorkspace,
            Phase::Write => Action::WriteFiles,
            Phase::Running => match self.run.next_step() {
                Some(name) => Action::RunStep(name),
                None => vstd::pervasive::unreached(),
            },
            Phase::ReadParams => Action::ReadParams,
            Phase::Release => Action::RemoveWorkspace,
            Phase::Done => Action::Finish,
        }
    }

    /// The text to write into the workspace's source file.
    pub fn source_text(&self) -> (r: &String)
        ensures
            r@ == self@.source,
    {
        &self.source
    }

    /// The text to write into the workspace's parameter file, if this
    /// flow writes one.
    pub fn prover_file_text(&self) -> (r: &Option<String>)
        ensures
            (match r {
                Some(t) => self@.prover_file == Some(t@),
                None => self@.prover_file is None,
            }),
    {
        &self.prover_file
    }

    /// Feeds one reported event into the machine.
    pub fn step(&mut self, e: Event)
        requires
            old(self)@.wf(),
            !(old(self)@.phase is Done),
        ensures
            final(self)@ == step_model(old(self)@, e@),
            final(self)@.wf(),
    {
        match (self.phase, e) {
            (Phase::Setup, Event::SetupDone(err)) => match err {
                None => {
                    self.phase = Phase::Write;
                    self.acquired = true;
                },
                Some(msg) => {
                    let mut full = String::new();
                    full.append("Failed to create project directory: ");
                    full.append(msg.as_str());
                    proof {
                        assert(full@ =~= setup_failure_message(msg@));
                    }
                    self.response = Some(Response::Failure(SimpleRejection(full)));
                    self.phase = Phase::Release;
                },
            },
            (Phase::Write, Event::WriteDone(err)) => match err {
                None => {
                    self.phase = Phase::Running;
                },
                Some(msg) => {
                    let mut full = String::new();
                    full.append("Failed to write to file: ");
                    full.append(msg.as_str());
                    proof {
                        assert(full@ =~= write_failure_message(msg@));
                    }
                    self.response = Some(Response::Failure(SimpleRejection(full)));
                    self.phase = Phase::Release;
                },
            },
            (Phase::Running, Event::StepDone(outcome)) => {
                let out_text = match &outcome {
                    CmdOutcome::Ran(out) => out.stdout.clone(),
                    CmdOutcome::SpawnFailed(m) => m.clone(),
                };
                self.run.record(outcome);
                if self.run.passed() {
                    match self.flow {
                        Flow::CheckOnly => {
                            self.phase = Phase::ReadParams;
                        },
                        Flow::TestOnly => {
                            let mut msg = String::new();
                            msg.append("Tests pass!\nOutput: ");
                            msg.append(out_text.as_str());
                            proof {
                                assert(msg@ =~= test_pass_message(out_text@));
                            }
                            self.response = Some(Response::Body(msg));
                            self.phase = Phase::Release;
                        },
                        Flow::FullSubmission => {
                            self.response = Some(Response::Body("Success!".to_owned()));
                            self.phase = Phase::Release;
                        },
                    }
                } else {
                    match self.run.failure() {
                        Some(e) => {
                            let msg = translate_failure(self.flow, e);
                            self.response = Some(Response::Failure(SimpleRejection(msg)));
                            self.phase = Phase::Release;
                        },
                        None => {},
                    }
                }
            },
            (Phase::ReadParams, Event::ParamsRead(content)) => {
                match content {
                    Some(text) => {
                        match crate::params::parse_params(text.as_str()) {
                            Some(pairs) => {
                                self.response = Some(Response::Document(pairs));
                            },
                            None => {
                                self.response = Some(
                                    Response::Failure(
                                        SimpleRejection("Failed to parse Prover.toml".to_owned()),
                                    ),
                                );
                            },
                        }
                        self.phase = Phase::Release;
                    },
                    None => {
                        self.response = Some(
                            Response::Failure(
                                SimpleRejection("Failed to read Prover.toml".to_owned()),
                            ),
                        );
                        self.phase = Phase::Release;
                    },
                }
            },
            (Phase::Release, Event::Removed) => {
                self.phase = Phase::Done;
                self.released = true;
            },
            _ => {},
        }
    }

    /// The finished session's response.
    pub fn into_response(self) -> (r: Response)
        requires
            self@.wf(),
            self@.phase is Done,
        ensures
            self@.response == Some(r@),
    {
        match self.response {
            Some(r) => r,
            None => vstd::pervasive::unreached(),
        }
    }
}

/// Builds the full-submission session for a request: looks the challenge
/// up, combines the code with its hidden snippets, and renders the
/// parameter file.  An unknown id and an unrenderable parameter mapping
/// are each answered with their error.
pub fn prepare_full(
    code: &str,
    challenges: &Vec<Challenge>,
    challenge_id: u32,
    inputs: &Vec<(String, String)>,
) -> (r: Result<Session, SimpleRejection>)
    ensures
        r is Ok <==> (crate::challenges::has_challenge(challenges@, challenge_id) && encode_doc(
            inputs.deep_view(),
        ) is Some),
        (match r {
            Ok(s) => exists|i: int|
                #![auto]
                crate::challenges::first_match_at(challenges@, challenge_id, i) && (encode_doc(
                    inputs.deep_view(),
                ) matches Some(pf) && s@ == full_start(
                    code@,
                    challenges@[i].test_cases.deep_view(),
                    pf,
                )) && s@.wf(),
            Err(e) => (!crate::challenges::has_challenge(challenges@, challenge_id) && e.0@
                == no_challenge_message()) || (crate::challenges::has_challenge(
                challenges@,
                challenge_id,
            ) && encode_doc(inputs.deep_view()) is None && e.0@ == bad_inputs_message()),
        }),
{
    match find_challenge(challenges, challenge_id) {
        None => Err(SimpleRejection("No challenge found for the given ID".to_owned())),
        Some(i) => {
            match crate::params::encode_params(inputs) {
                None => Err(SimpleRejection("Failed to encode Prover.toml inputs".to_owned())),
                Some(pf) => {
                    let s = Session::new_full(code, &challenges[i], pf);
                    proof {
                        assert(crate::challenges::first_match_at(
                            challenges@,
                            challenge_id,
                            i as int,
                        ));
                    }
                    Ok(s)
                },
            }
        },
    }
}

/// The two HTTP answer kinds of the service's error path.
#[derive(Clone, Copy, PartialEq, Eq, Structural, Debug)]
pub enum HttpKind {
    ServerError,
    NotFound,
}

/// How an error is answered at the HTTP boundary: a recognized diagnostic
/// becomes a server error carrying its message; anything else — unknown
/// routes and unknown challenge ids on the catalog route — is not-found.
pub fn rejection_reply(err: Option<&SimpleRejection>) -> (r: (String, HttpKind))
    ensures
        (match err {
            Some(e) => r.0@ == e.0@ && r.1 is ServerError,
            None => r.0@ == "Not found"@ && r.1 is NotFound,
        }),
{
    match err {
        Some(e) => (e.0.clone(), HttpKind::ServerError),
        None => ("Not found".to_owned(), HttpKind::NotFound),
    }
}

/// Law: teardown comes before completion.  Starting from any well-formed
/// session state, every transition preserves well-formedness, and a state
/// that has reached `Done` has released whatever workspace it acquired.
/// Together with the constructors (whose start states are well-formed and
/// not `Done` unless nothing was acquired), no run of the machine ends
/// with a live workspace.
pub proof fn lemma_release_before_done(m: SessionModel, e: EventModel)
    requires
        m.wf(),
    ensures
        step_model(m, e).wf(),
        step_model(m, e).phase is Done ==> (step_model(m, e).acquired ==> step_model(
            m,
            e,
        ).released),
{
}

/// Law: a concluded session never changes again — in particular it never
/// asks for another process or acquires another workspace.
pub proof fn lemma_done_is_final(m: SessionModel, e: EventModel)
    requires
        m.phase is Done,
    ensures
        step_model(m, e) == m,
{
}

/// A whole run of the machine: events folded in arrival order.
pub open spec fn run_session_model(m: SessionModel, es: Seq<EventModel>) -> SessionModel
    decreases es.len(),
{
    if es.len() == 0 {
        m
    } else {
        run_session_model(step_model(m, es[0]), es.drop_first())
    }
}

/// Law: no run leaks a workspace.  Whatever events arrive, in whatever
/// order, a session that has completed has attempted teardown of whatever
/// it acquired.
pub proof fn lemma_no_leaked_workspace(m: SessionModel, es: Seq<EventModel>)
    requires
        m.wf(),
    ensures
        run_session_model(m, es).wf(),
        run_session_model(m, es).phase is Done ==> (run_session_model(m, es).acquired
            ==> run_session_model(m, es).released),
    decreases es.len(),
{
    if es.len() > 0 {
        lemma_release_before_done(m, es[0]);
        lemma_no_leaked_workspace(step_model(m, es[0]), es.drop_first());
    }
}

/// Law: a test-only session born without the test marker never moves: no
/// sequence of events makes it acquire a workspace or run a step — zero
/// external processes, only the neutral answer.
pub proof fn lemma_no_marker_never_acts(code: Seq<char>, es: Seq<EventModel>)
    requires
        !has_substring(code, test_marker()),
    ensures
        run_session_model(test_start(code), es) == test_start(code),
    decreases es.len(),
{
    if es.len() > 0 {
        lemma_done_is_final(test_start(code), es[0]);
        lemma_no_marker_never_acts(code, es.drop_first());
    }
}

/// Law: a test-only submission without the test marker is answered with
/// the neutral message at once: the session is born concluded, nothing
/// was acquired, and (by [`lemma_done_is_final`]) no step is ever run —
/// zero processes are spawned.  With the marker present, the session's
/// pipeline holds exactly one step, the `test` invocation.
pub proof fn lemma_test_flow_marker(code: Seq<char>)
    ensures
        !has_substring(code, test_marker()) ==> (test_start(code).phase is Done && test_start(
            code,
        ).response == Some(ResponseModel::Body(no_tests_message())) && !test_start(code).acquired),
        has_substring(code, test_marker()) ==> (test_start(code).phase is Setup && test_start(
            code,
        ).run.steps =~= seq![StepName::Test]),
{
}

} // verus!
