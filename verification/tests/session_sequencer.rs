use aio_cooler::session::{step_at, Step, SCRIPT_LEN};
use aio_cooler::{decode_frame, ScreenConfig, Session, SessionAction, SessionReply};

fn command_of(frame: &[u8]) -> (String, String) {
    let message = String::from_utf8(decode_frame(frame).unwrap()).unwrap();
    let (head, body) = message.split_once("\r\n\r\n").unwrap();
    let request = head.split("\r\n").next().unwrap();
    let name = request.strip_prefix("POST ").unwrap().strip_suffix(" 1").unwrap();
    (name.to_string(), body.to_string())
}

/// Runs a session against a transport whose writes succeed unless their
/// number, counted from 1, is `failing_write`. Gives the trace.
fn run(session: &mut Session, failing_write: Option<usize>) -> Vec<String> {
    let mut trace = Vec::new();
    let mut writes = 0;
    let mut snapshots = 0;
    let mut action = session.start();
    loop {
        let reply = match action {
            SessionAction::Pause(millis) => {
                trace.push(format!("pause {}", millis));
                SessionReply::Completed
            }
            SessionAction::ClearBuffers => {
                trace.push("clear".to_string());
                SessionReply::Completed
            }
            SessionAction::TakeSnapshot => {
                snapshots += 1;
                trace.push("snapshot".to_string());
                SessionReply::Snapshot(format!("{{\"n\":{}}}", snapshots))
            }
            SessionAction::Write(frame) => {
                writes += 1;
                let (name, body) = command_of(&frame);
                trace.push(format!("write {} {}", name, body));
                if failing_write == Some(writes) {
                    SessionReply::Failed("write failed: broken pipe".to_string())
                } else {
                    SessionReply::Completed
                }
            }
            SessionAction::Done => {
                trace.push("done".to_string());
                return trace;
            }
            SessionAction::Failed(reason) => {
                trace.push(format!("failed {}", reason));
                return trace;
            }
        };
        action = session.advance(reply);
    }
}

#[test]
fn a_session_runs_its_steps_in_order() {
    let mut session = Session::new("pic.png", &ScreenConfig::default());
    let trace = run(&mut session, None);
    let config = aio_cooler::screen_config_body(&ScreenConfig::default(), "pic.png").unwrap();
    let expected = vec![
        "pause 100".to_string(),
        "clear".to_string(),
        "snapshot".to_string(),
        "write all {\"n\":1}".to_string(),
        "pause 200".to_string(),
        "write mediaDelete {\"exclude\":[\"pic.png\"]}".to_string(),
        "pause 300".to_string(),
        "snapshot".to_string(),
        "write all {\"n\":2}".to_string(),
        "pause 200".to_string(),
        format!("write waterBlockScreenId {}", config),
        "pause 800".to_string(),
        "snapshot".to_string(),
        "write all {\"n\":3}".to_string(),
        "pause 800".to_string(),
        "snapshot".to_string(),
        "write all {\"n\":4}".to_string(),
        "pause 800".to_string(),
        "snapshot".to_string(),
        "write all {\"n\":5}".to_string(),
        "pause 800".to_string(),
        "snapshot".to_string(),
        "write all {\"n\":6}".to_string(),
        "pause 800".to_string(),
        "snapshot".to_string(),
        "write all {\"n\":7}".to_string(),
        "done".to_string(),
    ];
    assert_eq!(trace, expected);
}

#[test]
fn a_finished_session_stays_finished() {
    let mut session = Session::new("pic.png", &ScreenConfig::default());
    run(&mut session, None);
    assert!(matches!(session.advance(SessionReply::Completed), SessionAction::Done));
    assert!(matches!(session.advance(SessionReply::Failed("late".to_string())), SessionAction::Done));
    assert!(matches!(session.start(), SessionAction::Done));
}

#[test]
fn a_failure_on_the_third_sustained_keepalive_ends_the_session() {
    let mut session = Session::new("pic.png", &ScreenConfig::default());
    // Writes: keepalive, cleanup, keepalive, configuration, then the five
    // sustained keepalives. The third of those is write number 7.
    let trace = run(&mut session, Some(7));
    assert_eq!(trace.last().unwrap(), "failed write failed: broken pipe");
    let writes = trace.iter().filter(|line| line.starts_with("write ")).count();
    assert_eq!(writes, 7);
    let keepalives = trace.iter().filter(|line| line.starts_with("write all ")).count();
    assert_eq!(keepalives, 5);
    let failures = trace.iter().filter(|line| line.starts_with("failed ")).count();
    assert_eq!(failures, 1);
    assert!(!trace.contains(&"done".to_string()));
    for _ in 0..4 {
        match session.advance(SessionReply::Completed) {
            SessionAction::Failed(reason) => assert_eq!(reason, "write failed: broken pipe"),
            other => panic!("unexpected action {:?}", other),
        }
    }
    match session.advance(SessionReply::Snapshot("{}".to_string())) {
        SessionAction::Failed(reason) => assert_eq!(reason, "write failed: broken pipe"),
        other => panic!("unexpected action {:?}", other),
    }
}

#[test]
fn a_failure_on_the_first_write_sends_nothing_more() {
    let mut session = Session::new("pic.png", &ScreenConfig::default());
    let trace = run(&mut session, Some(1));
    assert_eq!(
        trace,
        vec![
            "pause 100".to_string(),
            "clear".to_string(),
            "snapshot".to_string(),
            "write all {\"n\":1}".to_string(),
            "failed write failed: broken pipe".to_string(),
        ]
    );
}

#[test]
fn a_failure_to_clear_the_buffers_is_passed_over() {
    let mut session = Session::new("pic.png", &ScreenConfig::default());
    assert!(matches!(session.start(), SessionAction::Pause(100)));
    assert!(matches!(session.advance(SessionReply::Completed), SessionAction::ClearBuffers));
    let next = session.advance(SessionReply::Failed("cannot clear".to_string()));
    assert!(matches!(next, SessionAction::TakeSnapshot));
}

#[test]
fn a_failed_pause_ends_the_session() {
    let mut session = Session::new("pic.png", &ScreenConfig::default());
    assert!(matches!(session.start(), SessionAction::Pause(100)));
    match session.advance(SessionReply::Failed("interrupted".to_string())) {
        SessionAction::Failed(reason) => assert_eq!(reason, "interrupted"),
        other => panic!("unexpected action {:?}", other),
    }
}

#[test]
fn a_failed_snapshot_ends_the_session() {
    let mut session = Session::new("pic.png", &ScreenConfig::default());
    session.start();
    session.advance(SessionReply::Completed);
    assert!(matches!(session.advance(SessionReply::Completed), SessionAction::TakeSnapshot));
    match session.advance(SessionReply::Failed("no sensors".to_string())) {
        SessionAction::Failed(reason) => assert_eq!(reason, "no sensors"),
        other => panic!("unexpected action {:?}", other),
    }
}

#[test]
fn a_reply_out_of_turn_ends_the_session() {
    let mut session = Session::new("pic.png", &ScreenConfig::default());
    assert!(matches!(session.start(), SessionAction::Pause(100)));
    match session.advance(SessionReply::Snapshot("{}".to_string())) {
        SessionAction::Failed(reason) => {
            assert_eq!(reason, "Reply does not match the pending action")
        }
        other => panic!("unexpected action {:?}", other),
    }
    let mut unasked = Session::new("pic.png", &ScreenConfig::default());
    assert!(matches!(unasked.advance(SessionReply::Completed), SessionAction::Failed(_)));
    let mut twice = Session::new("pic.png", &ScreenConfig::default());
    twice.start();
    assert!(matches!(twice.start(), SessionAction::Failed(_)));
    let mut early = Session::new("pic.png", &ScreenConfig::default());
    early.start();
    early.advance(SessionReply::Completed);
    early.advance(SessionReply::Completed);
    assert!(matches!(early.advance(SessionReply::Completed), SessionAction::Failed(_)));
}

#[test]
fn a_snapshot_that_does_not_fit_in_a_frame_ends_the_session() {
    let mut session = Session::new("pic.png", &ScreenConfig::default());
    session.start();
    session.advance(SessionReply::Completed);
    session.advance(SessionReply::Completed);
    match session.advance(SessionReply::Snapshot("x".repeat(70_000))) {
        SessionAction::Failed(reason) => assert_eq!(reason, "Command does not fit in one frame"),
        other => panic!("unexpected action {:?}", other),
    }
}

#[test]
fn the_script_has_nineteen_steps() {
    assert_eq!(SCRIPT_LEN, 19);
    let steps: Vec<Step> = (0..SCRIPT_LEN).map(|pc| step_at(pc).unwrap()).collect();
    let mut expected = vec![
        Step::Pause(100),
        Step::ClearBuffers,
        Step::Keepalive,
        Step::Pause(200),
        Step::MediaCleanup,
        Step::Pause(300),
        Step::Keepalive,
        Step::Pause(200),
        Step::Configure,
    ];
    for _ in 0..5 {
        expected.push(Step::Pause(800));
        expected.push(Step::Keepalive);
    }
    assert_eq!(steps, expected);
    assert_eq!(step_at(SCRIPT_LEN), None);
    assert_eq!(step_at(usize::MAX), None);
}
