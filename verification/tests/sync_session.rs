use ftp_chat_core::chatline::ParsedLine;
use ftp_chat_core::chatline::parse_chat_line;
use ftp_chat_core::chatline::render_line;
use ftp_chat_core::clock::make_line;
use ftp_chat_core::error::ChatError;
use ftp_chat_core::history::mdtm_key;
use ftp_chat_core::session::{
    auth_step, encode_bare_command, encode_command, join_notice, leave_notice, parse_command,
    session_step, AuthStage, AuthStep, Command, SessionEvent, SessionPhase,
};
use ftp_chat_core::sync::SyncState;

#[test]
fn tick_count_never_decreases() {
    let mut s = SyncState::new();
    assert_eq!(s.last_known_line_count, 0);
    let mut previous = 0;
    for n in [0usize, 3, 2, 5, 5, 1] {
        let lines: Vec<Vec<u8>> = (0..n).map(|i| vec![b'a' + i as u8]).collect();
        s.apply_fetch(&lines, None);
        assert!(s.last_known_line_count >= previous);
        previous = s.last_known_line_count;
    }
    assert_eq!(s.last_known_line_count, 5);
}

#[test]
fn one_new_line_is_printed_and_counted() {
    // client B has seen nothing; client A's append has landed
    let mut s = SyncState::new();
    let lines = vec![b"2024-01-01 10:00:00 alice: hi".to_vec()];
    let fresh = s.apply_fetch(&lines, None);
    assert_eq!(fresh, vec![b"2024-01-01 10:00:00 alice: hi".to_vec()]);
    assert_eq!(s.last_known_line_count, 1);
    match parse_chat_line(&fresh[0]) {
        ParsedLine::Message(_) => {}
        other => panic!("expected a parsed message, got {:?}", other),
    }
    assert_eq!(
        render_line(&parse_chat_line(&fresh[0])),
        b"[2024-01-01 10:00:00] <alice> hi".to_vec()
    );
}

#[test]
fn already_seen_lines_are_not_reprinted() {
    let mut s = SyncState::new();
    let lines = vec![b"one".to_vec(), b"two".to_vec()];
    s.apply_fetch(&lines, None);
    let fresh = s.apply_fetch(&lines, None);
    assert!(fresh.is_empty());
    assert_eq!(s.last_known_line_count, 2);
}

#[test]
fn unknown_change_key_always_refreshes() {
    // a 550 on the modification-time command means "unknown": fetch on
    // every tick, whatever is stored
    let mut s = SyncState::new();
    for _ in 0..3 {
        let observed = mdtm_key(b"550 MDTM not understood");
        assert_eq!(observed, None);
        assert!(s.should_refresh(&observed));
        s.apply_fetch(&Vec::new(), observed);
    }
    let with_key = mdtm_key(b"213 20240101100000");
    s.apply_fetch(&Vec::new(), with_key);
    assert!(s.should_refresh(&None));
}

#[test]
fn change_key_comparison_drives_refresh() {
    let mut s = SyncState::new();
    assert!(s.should_refresh(&Some(b"20240101100000".to_vec())));
    s.apply_fetch(&Vec::new(), Some(b"20240101100000".to_vec()));
    assert!(!s.should_refresh(&Some(b"20240101100000".to_vec())));
    assert!(s.should_refresh(&Some(b"20240101100001".to_vec())));
}

#[test]
fn manual_history_is_idempotent() {
    let mut s = SyncState::new();
    let shown = vec![b"a".to_vec(), b"b".to_vec(), b"c".to_vec()];
    // the log is unchanged between the two displays, so both show the same
    // lines; the second display leaves the count where the first put it
    s.note_full_display(shown.len());
    let count_after_first = s.last_known_line_count;
    s.note_full_display(shown.len());
    assert_eq!(s.last_known_line_count, count_after_first);
    assert_eq!(s.last_known_line_count, 3);
}

#[test]
fn full_display_never_lowers_the_count() {
    let mut s = SyncState::new();
    s.note_full_display(4);
    s.note_full_display(2);
    assert_eq!(s.last_known_line_count, 4);
}

#[test]
fn command_classification() {
    assert_eq!(parse_command(b"/exit"), Command::Exit);
    assert_eq!(parse_command(b"/quit"), Command::Exit);
    assert_eq!(parse_command(b"/help"), Command::Help);
    assert_eq!(parse_command(b"/history"), Command::History);
    assert_eq!(parse_command(b""), Command::Empty);
    assert_eq!(parse_command(b"   "), Command::Empty);
    assert_eq!(parse_command(b"hello"), Command::Say(b"hello".to_vec()));
    assert_eq!(parse_command(b"/historyy"), Command::Say(b"/historyy".to_vec()));
}

#[test]
fn login_flow() {
    assert_eq!(auth_step(AuthStage::AwaitUserReply, b"331 need password"), AuthStep::SendPass);
    assert_eq!(auth_step(AuthStage::AwaitUserReply, b"230 already in"), AuthStep::SendPass);
    assert_eq!(auth_step(AuthStage::AwaitPassReply, b"230 logged in"), AuthStep::LoggedIn);
    match auth_step(AuthStage::AwaitUserReply, b"530 no such user") {
        AuthStep::Refused(ChatError::Auth { reply }) => {
            assert_eq!(reply, b"530 no such user".to_vec());
        }
        other => panic!("expected a refusal, got {:?}", other),
    }
    match auth_step(AuthStage::AwaitPassReply, b"530 wrong password") {
        AuthStep::Refused(ChatError::Auth { .. }) => {}
        other => panic!("expected a refusal, got {:?}", other),
    }
}

#[test]
fn session_phases() {
    let p = SessionPhase::Disconnected;
    let p = session_step(p, SessionEvent::Start);
    assert_eq!(p, SessionPhase::Connecting);
    let p = session_step(p, SessionEvent::ControlConnected);
    assert_eq!(p, SessionPhase::Authenticating);
    let p = session_step(p, SessionEvent::Authenticated);
    assert_eq!(p, SessionPhase::Active);
    // an event that does not belong to the phase changes nothing
    assert_eq!(session_step(p, SessionEvent::Start), SessionPhase::Active);
    let p = session_step(p, SessionEvent::LeaveRequested);
    assert_eq!(p, SessionPhase::Closing);
    let p = session_step(p, SessionEvent::Closed);
    assert_eq!(p, SessionPhase::Disconnected);
    assert_eq!(
        session_step(SessionPhase::Authenticating, SessionEvent::AuthFailed),
        SessionPhase::Disconnected
    );
}

#[test]
fn command_wire_form() {
    assert_eq!(encode_command(b"APPE", b"chat.txt"), b"APPE chat.txt\r\n".to_vec());
    assert_eq!(encode_command(b"USER", b"anonymous"), b"USER anonymous\r\n".to_vec());
    assert_eq!(encode_bare_command(b"PASV"), b"PASV\r\n".to_vec());
}

#[test]
fn notices() {
    assert_eq!(join_notice(b"alice"), b"*** alice has joined the chat ***".to_vec());
    assert_eq!(leave_notice(b"alice"), b"*** alice has left the chat ***".to_vec());
}

#[test]
fn composed_line_carries_author_and_body() {
    let l = make_line(b"alice", b"hi there");
    assert_eq!(l.author, b"alice".to_vec());
    assert_eq!(l.body, b"hi there".to_vec());
}

#[test]
fn transport_error_is_distinct() {
    let e = ChatError::Transport;
    assert!(matches!(e, ChatError::Transport));
    assert_ne!(e, ChatError::Protocol { reply: Vec::new() });
}
