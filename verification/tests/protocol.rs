use ftp_chat_core::chatline::{
    append_payload, author_acceptable, parse_chat_line, render_line, serialize_chat_line,
    timestamp_well_formed, ChatLine, ParsedLine,
};
use ftp_chat_core::error::ChatError;
use ftp_chat_core::history::{append_decision, fetch_plan, mdtm_key, split_history, FetchPlan};
use ftp_chat_core::reply::{
    parse_pasv_fields, pasv_ip_bytes, pasv_reply_step, status_of, PasvStep,
};

fn line(ts: &str, author: &str, body: &str) -> ChatLine {
    ChatLine {
        timestamp: ts.as_bytes().to_vec(),
        author: author.as_bytes().to_vec(),
        body: body.as_bytes().to_vec(),
    }
}

#[test]
fn status_codes() {
    assert_eq!(status_of(b"227 Entering Passive Mode"), Some(227));
    assert_eq!(status_of(b"550 not found"), Some(550));
    assert_eq!(status_of(b"hi"), None);
    assert_eq!(status_of(b"2x7 nope"), None);
    assert_eq!(status_of(b""), None);
}

#[test]
fn pasv_reply_extracts_address() {
    let r = parse_pasv_fields(b"227 Entering Passive Mode (192,168,1,2,4,1)").unwrap();
    assert_eq!((r.h1, r.h2, r.h3, r.h4, r.p1, r.p2), (192, 168, 1, 2, 4, 1));
    assert_eq!(r.port(), 4 * 256 + 1);
    assert_eq!(pasv_ip_bytes(&r), b"192.168.1.2".to_vec());
}

#[test]
fn pasv_port_reserializes_to_original_fields() {
    let r = parse_pasv_fields(b"227 ok (10,0,0,7,195,149)").unwrap();
    let port = r.port();
    assert_eq!(
        (r.h1, r.h2, r.h3, r.h4, (port / 256) as u8, (port % 256) as u8),
        (10, 0, 0, 7, 195, 149)
    );
}

#[test]
fn pasv_malformed_replies() {
    assert_eq!(parse_pasv_fields(b"227 no parens at all"), None);
    assert_eq!(parse_pasv_fields(b"227 (1,2,3,4,5)"), None);
    assert_eq!(parse_pasv_fields(b"227 (1,2,3,4,5,6,7)"), None);
    assert_eq!(parse_pasv_fields(b"227 (1,2,x,4,5,6)"), None);
    assert_eq!(parse_pasv_fields(b"227 (1,2,999,4,5,6)"), None);
    assert_eq!(parse_pasv_fields(b"227 (1,2,,4,5,6)"), None);
    assert_eq!(parse_pasv_fields(b"227 )("), None);
}

#[test]
fn pasv_step_waits_on_other_lines_and_rejects_bad_227() {
    assert_eq!(pasv_reply_step(b"220 welcome banner"), PasvStep::KeepWaiting);
    match pasv_reply_step(b"227 broken (1,2)") {
        PasvStep::Malformed(ChatError::Protocol { reply }) => {
            assert_eq!(reply, b"227 broken (1,2)".to_vec());
        }
        other => panic!("expected a protocol error, got {:?}", other),
    }
    match pasv_reply_step(b"227 ok (127,0,0,1,7,206)") {
        PasvStep::Open(addr) => assert_eq!(addr.port(), 7 * 256 + 206),
        other => panic!("expected an address, got {:?}", other),
    }
}

#[test]
fn chat_line_round_trip() {
    let l = line("2024-01-01 10:00:00", "alice", "hi");
    let s = serialize_chat_line(&l);
    assert_eq!(s, b"2024-01-01 10:00:00 alice: hi".to_vec());
    match parse_chat_line(&s) {
        ParsedLine::Message(back) => {
            assert_eq!(back.timestamp, l.timestamp);
            assert_eq!(back.author, l.author);
            assert_eq!(back.body, l.body);
        }
        other => panic!("expected a message, got {:?}", other),
    }
}

#[test]
fn chat_line_round_trip_empty_body_and_colons_in_body() {
    let s = serialize_chat_line(&line("2024-12-31 23:59:59", "bob", "a: b: c"));
    match parse_chat_line(&s) {
        ParsedLine::Message(back) => {
            assert_eq!(back.author, b"bob".to_vec());
            assert_eq!(back.body, b"a: b: c".to_vec());
        }
        other => panic!("expected a message, got {:?}", other),
    }
}

#[test]
fn unshaped_line_passes_through_raw() {
    let raw = b"welcome to the server";
    match parse_chat_line(raw) {
        ParsedLine::Raw(r) => assert_eq!(r, raw.to_vec()),
        other => panic!("expected raw passthrough, got {:?}", other),
    }
}

#[test]
fn append_payload_ends_with_newline() {
    let p = append_payload(&line("2024-01-01 10:00:00", "alice", "hi"));
    assert_eq!(p, b"2024-01-01 10:00:00 alice: hi\n".to_vec());
}

#[test]
fn rendering_a_message() {
    let p = parse_chat_line(b"2024-01-01 10:00:00 alice: hi");
    assert_eq!(render_line(&p), b"[2024-01-01 10:00:00] <alice> hi".to_vec());
    let raw = parse_chat_line(b"short");
    assert_eq!(render_line(&raw), b"short".to_vec());
}

#[test]
fn timestamp_shape() {
    assert!(timestamp_well_formed(b"2024-01-01 10:00:00"));
    assert!(!timestamp_well_formed(b"2024-01-01 10:00:0"));
    assert!(!timestamp_well_formed(b"2024/01/01 10:00:00"));
    assert!(!timestamp_well_formed(b"2024-01-01T10:00:00"));
}

#[test]
fn author_delimiter_rule() {
    assert!(author_acceptable(b"alice"));
    assert!(author_acceptable(b"a:b"));
    assert!(!author_acceptable(b"a: b"));
}

#[test]
fn split_history_drops_blank_lines() {
    let lines = split_history(b"a\nb\r\n\n   \nc");
    assert_eq!(
        lines,
        vec![b"a".to_vec(), b"b".to_vec(), b"c".to_vec()]
    );
}

#[test]
fn split_history_of_empty_content() {
    assert_eq!(split_history(b""), Vec::<Vec<u8>>::new());
    assert_eq!(split_history(b"\n\n"), Vec::<Vec<u8>>::new());
}

#[test]
fn missing_file_reads_as_empty_log_and_append_still_goes() {
    // a retrieval answered 550 yields an empty history, not an error
    assert_eq!(fetch_plan(b"550 chat.txt: No such file"), Ok(FetchPlan::EmptyLog));
    assert_eq!(split_history(b"").len(), 0);
    // a subsequent append is still allowed to proceed
    assert_eq!(append_decision(b"150 Ok to send data"), Ok(()));
}

#[test]
fn fetch_plan_reads_on_150_and_fails_otherwise() {
    assert_eq!(fetch_plan(b"150 Opening data connection"), Ok(FetchPlan::ReadData));
    match fetch_plan(b"500 Syntax error") {
        Err(ChatError::Fetch { reply }) => assert_eq!(reply, b"500 Syntax error".to_vec()),
        other => panic!("expected a fetch error, got {:?}", other),
    }
}

#[test]
fn append_rejected_carries_the_reply() {
    match append_decision(b"553 Could not create file") {
        Err(ChatError::AppendRejected { reply }) => {
            assert_eq!(reply, b"553 Could not create file".to_vec());
        }
        other => panic!("expected a rejection, got {:?}", other),
    }
}

#[test]
fn mdtm_key_extraction() {
    assert_eq!(mdtm_key(b"213 20240101100000"), Some(b"20240101100000".to_vec()));
    assert_eq!(mdtm_key(b"213  20240101100000\r\n"), Some(b"20240101100000".to_vec()));
    assert_eq!(mdtm_key(b"550 not found"), None);
    assert_eq!(mdtm_key(b"213"), None);
    assert_eq!(mdtm_key(b"213   "), None);
}

#[test]
fn empty_author_still_round_trips() {
    let s = serialize_chat_line(&line("2024-01-01 10:00:00", "", "x"));
    assert_eq!(s, b"2024-01-01 10:00:00 : x".to_vec());
    match parse_chat_line(&s) {
        ParsedLine::Message(back) => {
            assert_eq!(back.author, Vec::<u8>::new());
            assert_eq!(back.body, b"x".to_vec());
        }
        other => panic!("expected a message, got {:?}", other),
    }
}

#[test]
fn final_segment_without_newline_keeps_its_carriage_return() {
    // only a carriage return before a line feed is a line ending
    assert_eq!(split_history(b"x\r"), vec![b"x\r".to_vec()]);
    assert_eq!(split_history(b"x\r\n"), vec![b"x".to_vec()]);
}
