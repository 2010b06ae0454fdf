use player_control::icons::{ERROR, EXEC_ERR, SUCCESSFUL, TIMED_OUT};
use player_control::session::{
    download_command, upload_command, ActionRun, ClientInfo, ErrorKind, ExecAction, ExecEvent,
    ExecJob, ExecOutput, ExecResult, Outcome, Screenshot,
};

type Event = ExecEvent<u8, &'static str>;

fn printed(stdout: Option<&[u8]>, exit_status: u32) -> ExecOutput {
    ExecOutput { stdout: stdout.map(|s| s.to_vec()), stderr: None, exit_status }
}

fn listening(info: &mut ClientInfo<u8>) -> ExecJob {
    let mut job = ExecJob::new(false);
    assert!(matches!(job.advance(info, Event::Connected(1)), ExecAction::OpenSession));
    assert!(matches!(job.advance(info, Event::Done), ExecAction::Exec));
    assert!(matches!(job.advance(info, Event::Done), ExecAction::Wait));
    job
}

#[test]
fn a_command_is_run_step_by_step() {
    let mut info: ClientInfo<u8> = ClientInfo::default();
    let mut job = listening(&mut info);
    assert!(matches!(job.advance(&mut info, Event::Data(b"he".to_vec())), ExecAction::Wait));
    assert!(matches!(job.advance(&mut info, Event::ExtendedData(b"oh".to_vec())), ExecAction::Wait));
    assert!(matches!(job.advance(&mut info, Event::Other), ExecAction::Wait));
    assert!(matches!(job.advance(&mut info, Event::Data(b"llo".to_vec())), ExecAction::Wait));
    assert!(matches!(job.advance(&mut info, Event::ExitStatus(3)), ExecAction::Close));
    match job.advance(&mut info, Event::Done) {
        ExecAction::Finish(ExecResult::Output(output)) => {
            assert_eq!(output.stdout, Some(b"hello".to_vec()));
            assert_eq!(output.stderr, Some(b"oh".to_vec()));
            assert_eq!(output.exit_status, 3);
        }
        _ => panic!("the command came to its end"),
    }
    assert_eq!(info.connection, Some(1));
}

#[test]
fn input_is_sent_before_the_player_is_listened_to() {
    let mut info: ClientInfo<u8> = ClientInfo::default();
    let mut job = ExecJob::new(true);
    job.advance(&mut info, Event::Connected(1));
    job.advance(&mut info, Event::Done);
    assert!(matches!(job.advance(&mut info, Event::Done), ExecAction::SendData));
    assert!(matches!(job.advance(&mut info, Event::Done), ExecAction::SendEof));
    assert!(matches!(job.advance(&mut info, Event::Done), ExecAction::Wait));
}

#[test]
fn silence_is_no_output() {
    let mut info: ClientInfo<u8> = ClientInfo::default();
    let mut job = listening(&mut info);
    job.advance(&mut info, Event::ExitStatus(0));
    match job.advance(&mut info, Event::Done) {
        ExecAction::Finish(ExecResult::Output(output)) => {
            assert_eq!(output.stdout, None);
            assert_eq!(output.stderr, None);
        }
        _ => panic!("the command came to its end"),
    }
}

#[test]
fn a_channel_that_ends_early_has_no_status() {
    let mut info: ClientInfo<u8> = ClientInfo::default();
    let mut job = listening(&mut info);
    job.advance(&mut info, Event::Data(b"x".to_vec()));
    assert!(matches!(job.advance(&mut info, Event::End), ExecAction::Close));
    assert!(matches!(
        job.advance(&mut info, Event::Done),
        ExecAction::Finish(ExecResult::NoExitStatus)
    ));
}

#[test]
fn a_step_that_fails_ends_the_command() {
    let mut info: ClientInfo<u8> = ClientInfo::default();
    let mut job = ExecJob::new(false);
    assert!(matches!(
        job.advance(&mut info, Event::Failed("no route")),
        ExecAction::Finish(ExecResult::Failed("no route"))
    ));
    assert_eq!(info.connection, None);
    let mut job = listening(&mut info);
    job.advance(&mut info, Event::ExitStatus(0));
    assert!(matches!(
        job.advance(&mut info, Event::Failed("gone")),
        ExecAction::Finish(ExecResult::Failed("gone"))
    ));
}

#[test]
fn an_old_connection_is_kept() {
    let mut info: ClientInfo<u8> = ClientInfo::default();
    info.connection = Some(7);
    let mut job = ExecJob::new(false);
    job.advance(&mut info, Event::Connected(8));
    assert_eq!(info.connection, Some(7));
}

#[test]
fn nothing_is_known_at_first() {
    let info: ClientInfo<u8> = ClientInfo::default();
    assert_eq!(info.connection, None);
    assert_eq!(info.output.len(), 0);
    assert_eq!(info.status, '\0');
    assert_eq!(info.msg, "");
}

#[test]
fn a_success_is_logged() {
    let mut info: ClientInfo<u8> = ClientInfo::default();
    info.msg = "before".to_string();
    info.connection = Some(1);
    let mut run = ActionRun::new();
    assert!(!run.record(&mut info, Outcome::Finished(printed(Some("gr\u{fc}n".as_bytes()), 0), 77)));
    assert_eq!(info.status, SUCCESSFUL);
    assert_eq!(info.msg, "before");
    assert_eq!(info.connection, Some(1));
    let log = info.output.get(0).unwrap();
    assert_eq!(log.stdout, Some("gr\u{fc}n".to_string()));
    assert_eq!(log.stderr, None);
    assert_eq!(log.timestamp, 77);
}

#[test]
fn an_exit_status_tells_of_trouble() {
    let mut info: ClientInfo<u8> = ClientInfo::default();
    assert!(!ActionRun::new().record(&mut info, Outcome::Finished(printed(None, 1), 0)));
    assert_eq!(info.status, EXEC_ERR);
}

#[test]
fn what_is_no_text_is_replaced() {
    let mut info: ClientInfo<u8> = ClientInfo::default();
    ActionRun::new().record(&mut info, Outcome::Finished(printed(Some(b"a\xffb"), 0), 0));
    assert_eq!(info.output.get(0).unwrap().stdout, Some("a\u{fffd}b".to_string()));
}

#[test]
fn an_action_is_tried_three_times() {
    let mut info: ClientInfo<u8> = ClientInfo::default();
    let mut run = ActionRun::new();
    let failed = |text: &str| Outcome::Failed(ErrorKind::Other, text.to_string());
    assert!(run.record(&mut info, failed("one")));
    assert_eq!(info.msg, "one");
    assert!(run.record(&mut info, failed("two")));
    assert!(!run.record(&mut info, failed("three")));
    assert_eq!(info.msg, "three");
    assert_eq!(info.status, ERROR);
    assert_eq!(info.output.len(), 0);
}

#[test]
fn a_lost_connection_is_dropped() {
    for (kind, kept) in [
        (ErrorKind::Disconnect, None),
        (ErrorKind::SendError, None),
        (ErrorKind::Other, Some(1)),
    ] {
        let mut info: ClientInfo<u8> = ClientInfo::default();
        info.connection = Some(1);
        assert!(ActionRun::new().record(&mut info, Outcome::Failed(kind, "e".to_string())));
        assert_eq!(info.connection, kept);
    }
}

#[test]
fn the_time_can_be_up() {
    let mut info: ClientInfo<u8> = ClientInfo::default();
    info.connection = Some(1);
    assert!(!ActionRun::new().record(&mut info, Outcome::TimedOut));
    assert_eq!(info.status, TIMED_OUT);
    assert_eq!(info.msg, "Action timed out");
    assert_eq!(info.connection, Some(1));
}

#[test]
fn old_logs_make_room() {
    let mut info: ClientInfo<u8> = ClientInfo::default();
    for i in 0..1030 {
        ActionRun::new().record(&mut info, Outcome::Finished(printed(None, 0), i));
    }
    assert_eq!(info.output.len(), 1024);
    assert_eq!(info.output.get(0).unwrap().timestamp, 6);
    assert_eq!(info.output.get(1023).unwrap().timestamp, 1029);
}

#[test]
fn files_are_copied_by_scp() {
    assert_eq!(upload_command("/tmp/a"), "scp /dev/stdin /tmp/a");
    assert_eq!(download_command("/tmp/a"), "scp /tmp/a /dev/stdout");
    assert_eq!(printed(Some(b"png"), 2).downloaded(), (2, Some(b"png".to_vec())));
    assert_eq!(printed(Some(b"png"), 2).uploaded(), 2);
}

#[test]
fn screenshots_are_fetched_when_needed() {
    let mut shot = Screenshot::new();
    assert!(shot.needs_fetch(true));
    shot.store(None);
    shot.store(Some((0, None)));
    assert_eq!(shot.image, None);
    shot.store(Some((1, Some(vec![1, 2]))));
    assert_eq!(shot.image, Some(vec![1, 2]));
    assert!(!shot.needs_fetch(true));
    assert!(shot.needs_fetch(false));
    shot.store(None);
    assert_eq!(shot.image, Some(vec![1, 2]));
}
