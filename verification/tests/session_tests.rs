use noir_playground::challenges::get_challenges;
use noir_playground::pipeline::{CmdOutcome, CmdOutput, StepName};
use noir_playground::session::{
    prepare_full, rejection_reply, Action, Event, HttpKind, Response, Session, SimpleRejection,
};

fn ran(exit_ok: bool, stdout: &str, stderr: &str) -> CmdOutcome {
    CmdOutcome::Ran(CmdOutput {
        exit_ok,
        stdout: stdout.to_owned(),
        stderr: stderr.to_owned(),
    })
}

/// Drives a session to completion, recording which actions it asked for;
/// every step invocation is answered from `outcomes` in order.
fn drive(mut session: Session, mut outcomes: Vec<CmdOutcome>, params_file: Option<&str>) -> (Vec<String>, Response) {
    let mut actions = Vec::new();
    outcomes.reverse();
    loop {
        match session.next_action() {
            Action::CreateWorkspace => {
                actions.push("create".to_string());
                session.step(Event::SetupDone(None));
            }
            Action::WriteFiles => {
                actions.push("write".to_string());
                session.step(Event::WriteDone(None));
            }
            Action::RunStep(name) => {
                actions.push(format!("run {:?}", name));
                let outcome = outcomes.pop().expect("an outcome per spawned step");
                session.step(Event::StepDone(outcome));
            }
            Action::ReadParams => {
                actions.push("read".to_string());
                session.step(Event::ParamsRead(params_file.map(|t| t.to_owned())));
            }
            Action::RemoveWorkspace => {
                actions.push("remove".to_string());
                session.step(Event::Removed);
            }
            Action::Finish => {
                return (actions, session.into_response());
            }
        }
    }
}

fn failure_message(r: &Response) -> &str {
    match r {
        Response::Failure(SimpleRejection(msg)) => msg,
        _ => panic!("expected a failure response"),
    }
}

#[test]
fn test_flow_without_marker_is_neutral_and_spawns_nothing() {
    let session = Session::new_test("fn main() {}".to_owned());
    let (actions, response) = drive(session, vec![], None);
    assert!(actions.is_empty());
    match response {
        Response::Body(msg) => assert_eq!(msg, "There are no tests to run"),
        _ => panic!("expected the neutral body"),
    }
}

#[test]
fn test_flow_with_marker_spawns_exactly_one_test() {
    let code = "fn main() {}\n#[test]\nfn t() { main(); }".to_owned();
    let session = Session::new_test(code);
    let (actions, response) = drive(session, vec![ran(true, "1 test passed", "")], None);
    assert_eq!(
        actions,
        vec!["create", "write", "run Test", "remove"]
    );
    match response {
        Response::Body(msg) => assert_eq!(msg, "Tests pass!\nOutput: 1 test passed"),
        _ => panic!("expected a pass body"),
    }
}

#[test]
fn test_flow_failure_still_removes_workspace() {
    let code = "#[test]\nfn t() {}".to_owned();
    let session = Session::new_test(code);
    let (actions, response) = drive(session, vec![ran(false, "", "assertion failed")], None);
    assert!(actions.contains(&"remove".to_string()));
    assert_eq!(failure_message(&response), "Tests failed:\nassertion failed");
}

#[test]
fn setup_failure_still_removes_workspace() {
    let mut session = Session::new_check("fn main() {}".to_owned());
    assert!(matches!(session.next_action(), Action::CreateWorkspace));
    session.step(Event::SetupDone(Some("disk full".to_owned())));
    assert!(matches!(session.next_action(), Action::RemoveWorkspace));
    session.step(Event::Removed);
    assert!(matches!(session.next_action(), Action::Finish));
    let response = session.into_response();
    assert_eq!(
        failure_message(&response),
        "Failed to create project directory: disk full"
    );
}

#[test]
fn write_failure_still_removes_workspace() {
    let mut session = Session::new_check("fn main() {}".to_owned());
    session.step(Event::SetupDone(None));
    assert!(matches!(session.next_action(), Action::WriteFiles));
    session.step(Event::WriteDone(Some("read-only file system".to_owned())));
    assert!(matches!(session.next_action(), Action::RemoveWorkspace));
    session.step(Event::Removed);
    let response = session.into_response();
    assert_eq!(
        failure_message(&response),
        "Failed to write to file: read-only file system"
    );
}

#[test]
fn full_flow_runs_steps_in_order_and_succeeds() {
    let challenges = get_challenges();
    let inputs = vec![("x".to_owned(), "1".to_owned()), ("y".to_owned(), "2".to_owned())];
    let session = prepare_full("fn main(x: Field, y: Field) { assert(x != y); }", &challenges, 1, &inputs)
        .expect("challenge 1 exists and inputs encode");
    assert!(session.source_text().contains("assert(x != y)"));
    assert!(session.source_text().contains("test_main_fromserver"));
    assert_eq!(
        session.prover_file_text().as_deref(),
        Some("x = \"1\"\ny = \"2\"\n")
    );
    let outcomes = vec![
        ran(true, "", ""),
        ran(true, "", ""),
        ran(true, "proof saved", ""),
        ran(true, "", ""),
    ];
    let (actions, response) = drive(session, outcomes, None);
    assert_eq!(
        actions,
        vec!["create", "write", "run Test", "run Check", "run Prove", "run Verify", "remove"]
    );
    match response {
        Response::Body(msg) => assert_eq!(msg, "Success!"),
        _ => panic!("expected the success marker"),
    }
}

#[test]
fn full_flow_check_failure_skips_prove_and_verify() {
    let challenges = get_challenges();
    let inputs = vec![("x".to_owned(), "1".to_owned())];
    let session =
        prepare_full("fn main() {}", &challenges, 1, &inputs).expect("session builds");
    let outcomes = vec![ran(true, "", ""), ran(false, "", "unknown identifier y")];
    let (actions, response) = drive(session, outcomes, None);
    assert_eq!(
        actions,
        vec!["create", "write", "run Test", "run Check", "remove"]
    );
    assert_eq!(failure_message(&response), "unknown identifier y");
}

#[test]
fn full_flow_prove_marker_fails() {
    let challenges = get_challenges();
    let inputs = vec![("x".to_owned(), "5".to_owned()), ("y".to_owned(), "5".to_owned())];
    let session =
        prepare_full("fn main() {}", &challenges, 1, &inputs).expect("session builds");
    let outcomes = vec![
        ran(true, "", ""),
        ran(true, "", ""),
        ran(true, "constraint ... FAILED ...", ""),
    ];
    let (actions, response) = drive(session, outcomes, None);
    assert_eq!(
        actions,
        vec!["create", "write", "run Test", "run Check", "run Prove", "remove"]
    );
    assert_eq!(failure_message(&response), "Prove failed");
}

#[test]
fn full_flow_spawn_failure_aborts_and_removes() {
    let challenges = get_challenges();
    let inputs = vec![("x".to_owned(), "1".to_owned())];
    let session =
        prepare_full("fn main() {}", &challenges, 1, &inputs).expect("session builds");
    let outcomes = vec![CmdOutcome::SpawnFailed("Failed to perform task".to_owned())];
    let (actions, response) = drive(session, outcomes, None);
    assert_eq!(actions, vec!["create", "write", "run Test", "remove"]);
    assert_eq!(failure_message(&response), "Failed to perform task");
}

#[test]
fn full_flow_unknown_challenge_is_rejected() {
    let challenges = get_challenges();
    let inputs = vec![("x".to_owned(), "1".to_owned())];
    let err = prepare_full("fn main() {}", &challenges, 999, &inputs)
        .err()
        .expect("unknown id is rejected");
    assert_eq!(err.0, "No challenge found for the given ID");
}

#[test]
fn check_flow_returns_parsed_parameter_document() {
    let session = Session::new_check("fn main(x: Field) {}".to_owned());
    let (actions, response) = drive(
        session,
        vec![ran(true, "", "")],
        Some("x = \"0\"\n"),
    );
    assert_eq!(
        actions,
        vec!["create", "write", "run Check", "read", "remove"]
    );
    match response {
        Response::Document(pairs) => {
            assert_eq!(pairs, vec![("x".to_owned(), "0".to_owned())]);
        }
        _ => panic!("expected the parameter document"),
    }
}

#[test]
fn check_flow_step_failure_carries_stderr() {
    let session = Session::new_check("fn main(".to_owned());
    let (actions, response) = drive(
        session,
        vec![ran(false, "", "error: expected a parameter, found EOF")],
        None,
    );
    assert!(actions.contains(&"remove".to_string()));
    assert_eq!(
        failure_message(&response),
        "error: expected a parameter, found EOF"
    );
}

#[test]
fn check_flow_malformed_parameter_file() {
    let session = Session::new_check("fn main() {}".to_owned());
    let (_actions, response) = drive(
        session,
        vec![ran(true, "", "")],
        Some("x = [1, 2]\n"),
    );
    assert_eq!(failure_message(&response), "Failed to parse Prover.toml");
}

#[test]
fn check_flow_unreadable_parameter_file() {
    let session = Session::new_check("fn main() {}".to_owned());
    let (_actions, response) = drive(session, vec![ran(true, "", "")], None);
    assert_eq!(failure_message(&response), "Failed to read Prover.toml");
}

#[test]
fn rejection_reply_translates() {
    let err = SimpleRejection("boom".to_owned());
    let (msg, kind) = rejection_reply(Some(&err));
    assert_eq!(msg, "boom");
    assert_eq!(kind, HttpKind::ServerError);
    let (msg, kind) = rejection_reply(None);
    assert_eq!(msg, "Not found");
    assert_eq!(kind, HttpKind::NotFound);
}

#[test]
fn step_name_debug_names_are_stable() {
    assert_eq!(format!("{:?}", StepName::Prove), "Prove");
}
