//! The session driver's pure half: the phase machine, the login steps, the
//! interactive command dispatch, the wire form of control commands, and the
//! join and leave notices.

use vstd::prelude::*;

use crate::error::ChatError;
use crate::reply::reply_status;
use crate::text::{all_space, bytes_eq, copy_range, push_all, region_all_space};

verus! {

/// The resolved options one session runs with, gathered before the session
/// starts: the core consumes these values, it never prompts for them.
#[derive(Debug)]
pub struct SessionConfig {
    pub address: Vec<u8>,
    pub port: u16,
    pub username: Vec<u8>,
    pub password: Vec<u8>,
    pub log_filename: Vec<u8>,
    pub nickname: Vec<u8>,
}

/// The phases a session passes through.
#[derive(Debug, PartialEq, Eq, Structural, Clone, Copy)]
pub enum SessionPhase {
    Disconnected,
    Connecting,
    Authenticating,
    Active,
    Closing,
}

/// What can happen to a session.
#[derive(Debug, PartialEq, Eq, Structural, Clone, Copy)]
pub enum SessionEvent {
    /// The session is started.
    Start,
    /// The control connection opened and the banner was consumed.
    ControlConnected,
    /// The control connection could not be opened.
    ConnectFailed,
    /// Both credentials were accepted.
    Authenticated,
    /// The server refused the credentials.
    AuthFailed,
    /// The user asked to leave.
    LeaveRequested,
    /// The control connection was torn down.
    Closed,
}

/// The phase machine: connect, authenticate, run, close. An event that does
/// not belong to the current phase leaves it unchanged.
pub open spec fn spec_session_step(phase: SessionPhase, ev: SessionEvent) -> SessionPhase {
    match (phase, ev) {
        (SessionPhase::Disconnected, SessionEvent::Start) => SessionPhase::Connecting,
        (SessionPhase::Connecting, SessionEvent::ControlConnected) => SessionPhase::Authenticating,
        (SessionPhase::Connecting, SessionEvent::ConnectFailed) => SessionPhase::Disconnected,
        (SessionPhase::Authenticating, SessionEvent::Authenticated) => SessionPhase::Active,
        (SessionPhase::Authenticating, SessionEvent::AuthFailed) => SessionPhase::Disconnected,
        (SessionPhase::Active, SessionEvent::LeaveRequested) => SessionPhase::Closing,
        (SessionPhase::Closing, SessionEvent::Closed) => SessionPhase::Disconnected,
        _ => phase,
    }
}

/// Advance the session phase by one event, exactly as `spec_session_step`
/// has it.
pub fn session_step(phase: SessionPhase, ev: SessionEvent) -> (next: SessionPhase)
    ensures
        next == spec_session_step(phase, ev),
{
    match (phase, ev) {
        (SessionPhase::Disconnected, SessionEvent::Start) => SessionPhase::Connecting,
        (SessionPhase::Connecting, SessionEvent::ControlConnected) => SessionPhase::Authenticating,
        (SessionPhase::Connecting, SessionEvent::ConnectFailed) => SessionPhase::Disconnected,
        (SessionPhase::Authenticating, SessionEvent::Authenticated) => SessionPhase::Active,
        (SessionPhase::Authenticating, SessionEvent::AuthFailed) => SessionPhase::Disconnected,
        (SessionPhase::Active, SessionEvent::LeaveRequested) => SessionPhase::Closing,
        (SessionPhase::Closing, SessionEvent::Closed) => SessionPhase::Disconnected,
        (p, _) => p,
    }
}

/// Which credential reply the login flow is waiting for.
#[derive(Debug, PartialEq, Eq, Structural, Clone, Copy)]
pub enum AuthStage {
    /// The username was sent; its reply is awaited.
    AwaitUserReply,
    /// The password was sent; its reply is awaited.
    AwaitPassReply,
}

/// What one login reply asks for next.
#[derive(Debug, PartialEq, Eq)]
pub enum AuthStep {
    /// The username was accepted: send the password.
    SendPass,
    /// The password was accepted: the session is authenticated.
    LoggedIn,
    /// The server refused the credentials; fatal for the session.
    Refused(ChatError),
}

/// Decide one login step. A username reply must carry status 331 or 230; a
/// password reply must carry 230; anything else refuses the login with an
/// authentication error carrying the reply.
pub fn auth_step(stage: AuthStage, reply: &[u8]) -> (r: AuthStep)
    ensures
        match r {
            AuthStep::SendPass => stage == AuthStage::AwaitUserReply && (reply_status(reply@)
                == Some(331int) || reply_status(reply@) == Some(230int)),
            AuthStep::LoggedIn => stage == AuthStage::AwaitPassReply && reply_status(reply@)
                == Some(230int),
            AuthStep::Refused(e) => (stage == AuthStage::AwaitUserReply ==> !(reply_status(reply@)
                == Some(331int) || reply_status(reply@) == Some(230int))) && (stage
                == AuthStage::AwaitPassReply ==> reply_status(reply@) != Some(230int)) && (e
                matches ChatError::Auth { reply: raw } && raw@ == reply@),
        },
{
    let accepted = match stage {
        AuthStage::AwaitUserReply => crate::reply::has_status(reply, 331) || crate::reply::has_status(
            reply,
            230,
        ),
        AuthStage::AwaitPassReply => crate::reply::has_status(reply, 230),
    };
    if !accepted {
        return AuthStep::Refused(ChatError::Auth { reply: copy_range(reply, 0, reply.len()) });
    }
    match stage {
        AuthStage::AwaitUserReply => AuthStep::SendPass,
        AuthStage::AwaitPassReply => AuthStep::LoggedIn,
    }
}

/// The `/exit` command.
pub open spec fn exit_cmd() -> Seq<u8> {
    seq![47u8, 101u8, 120u8, 105u8, 116u8]
}

/// The `/quit` command.
pub open spec fn quit_cmd() -> Seq<u8> {
    seq![47u8, 113u8, 117u8, 105u8, 116u8]
}

/// The `/help` command.
pub open spec fn help_cmd() -> Seq<u8> {
    seq![47u8, 104u8, 101u8, 108u8, 112u8]
}

/// The `/history` command.
pub open spec fn history_cmd() -> Seq<u8> {
    seq![47u8, 104u8, 105u8, 115u8, 116u8, 111u8, 114u8, 121u8]
}

fn exit_lit() -> (r: Vec<u8>)
    ensures
        r@ == exit_cmd(),
{
    let mut v: Vec<u8> = Vec::new();
    v.push(47);
    v.push(101);
    v.push(120);
    v.push(105);
    v.push(116);
    proof {
        assert(v@ =~= exit_cmd());
    }
    v
}

fn quit_lit() -> (r: Vec<u8>)
    ensures
        r@ == quit_cmd(),
{
    let mut v: Vec<u8> = Vec::new();
    v.push(47);
    v.push(113);
    v.push(117);
    v.push(105);
    v.push(116);
    proof {
        assert(v@ =~= quit_cmd());
    }
    v
}

fn help_lit() -> (r: Vec<u8>)
    ensures
        r@ == help_cmd(),
{
    let mut v: Vec<u8> = Vec::new();
    v.push(47);
    v.push(104);
    v.push(101);
    v.push(108);
    v.push(112);
    proof {
        assert(v@ =~= help_cmd());
    }
    v
}

fn history_lit() -> (r: Vec<u8>)
    ensures
        r@ == history_cmd(),
{
    let mut v: Vec<u8> = Vec::new();
    v.push(47);
    v.push(104);
    v.push(105);
    v.push(115);
    v.push(116);
    v.push(111);
    v.push(114);
    v.push(121);
    proof {
        assert(v@ =~= history_cmd());
    }
    v
}

/// One line of interactive input, classified.
#[derive(Debug, PartialEq, Eq)]
pub enum Command {
    /// `/exit` or `/quit`: leave the chat.
    Exit,
    /// `/help`: show the static help.
    Help,
    /// `/history`: fetch and reprint everything.
    History,
    /// Anything else non-blank: append it as a message.
    Say(Vec<u8>),
    /// Blank input: do nothing.
    Empty,
}

/// Classify one line of interactive input, already trimmed by the reader.
pub fn parse_command(input: &[u8]) -> (c: Command)
    ensures
        match c {
            Command::Exit => input@ == exit_cmd() || input@ == quit_cmd(),
            Command::Help => input@ == help_cmd(),
            Command::History => input@ == history_cmd(),
            Command::Empty => all_space(input@),
            Command::Say(m) => m@ == input@ && !all_space(input@) && input@ != exit_cmd()
                && input@ != quit_cmd() && input@ != help_cmd() && input@ != history_cmd(),
        },
{
    if bytes_eq(input, exit_lit().as_slice()) || bytes_eq(input, quit_lit().as_slice()) {
        Command::Exit
    } else if bytes_eq(input, help_lit().as_slice()) {
        Command::Help
    } else if bytes_eq(input, history_lit().as_slice()) {
        Command::History
    } else if region_all_space(input, 0, input.len()) {
        proof {
            assert(input@.subrange(0, input@.len() as int) =~= input@);
        }
        Command::Empty
    } else {
        proof {
            assert(input@.subrange(0, input@.len() as int) =~= input@);
        }
        Command::Say(copy_range(input, 0, input.len()))
    }
}

/// The wire form of a control command with an argument: the verb, a space,
/// the argument, and a carriage return and line feed.
pub fn encode_command(verb: &[u8], arg: &[u8]) -> (r: Vec<u8>)
    ensures
        r@ == verb@ + seq![32u8] + arg@ + seq![13u8, 10u8],
{
    let mut r: Vec<u8> = Vec::new();
    push_all(&mut r, verb);
    r.push(32);
    push_all(&mut r, arg);
    r.push(13);
    r.push(10);
    proof {
        assert(r@ =~= verb@ + seq![32u8] + arg@ + seq![13u8, 10u8]);
    }
    r
}

/// The wire form of a control command without an argument: the verb, a
/// carriage return and a line feed.
pub fn encode_bare_command(verb: &[u8]) -> (r: Vec<u8>)
    ensures
        r@ == verb@ + seq![13u8, 10u8],
{
    let mut r: Vec<u8> = Vec::new();
    push_all(&mut r, verb);
    r.push(13);
    r.push(10);
    proof {
        assert(r@ =~= verb@ + seq![13u8, 10u8]);
    }
    r
}

/// The opening of a notice line.
pub open spec fn notice_prefix() -> Seq<u8> {
    seq![42u8, 42u8, 42u8, 32u8]
}

/// The tail of a join notice: `" has joined the chat ***"`.
pub open spec fn joined_suffix() -> Seq<u8> {
    seq![
        32u8, 104u8, 97u8, 115u8, 32u8, 106u8, 111u8, 105u8, 110u8, 101u8, 100u8, 32u8, 116u8,
        104u8, 101u8, 32u8, 99u8, 104u8, 97u8, 116u8, 32u8, 42u8, 42u8, 42u8,
    ]
}

/// The tail of a leave notice: `" has left the chat ***"`.
pub open spec fn left_suffix() -> Seq<u8> {
    seq![
        32u8, 104u8, 97u8, 115u8, 32u8, 108u8, 101u8, 102u8, 116u8, 32u8, 116u8, 104u8, 101u8,
        32u8, 99u8, 104u8, 97u8, 116u8, 32u8, 42u8, 42u8, 42u8,
    ]
}

fn joined_suffix_lit() -> (r: Vec<u8>)
    ensures
        r@ == joined_suffix(),
{
    let mut v: Vec<u8> = Vec::new();
    v.push(32);
    v.push(104);
    v.push(97);
    v.push(115);
    v.push(32);
    v.push(106);
    v.push(111);
    v.push(105);
    v.push(110);
    v.push(101);
    v.push(100);
    v.push(32);
    v.push(116);
    v.push(104);
    v.push(101);
    v.push(32);
    v.push(99);
    v.push(104);
    v.push(97);
    v.push(116);
    v.push(32);
    v.push(42);
    v.push(42);
    v.push(42);
    proof {
        assert(v@ =~= joined_suffix());
    }
    v
}

fn left_suffix_lit() -> (r: Vec<u8>)
    ensures
        r@ == left_suffix(),
{
    let mut v: Vec<u8> = Vec::new();
    v.push(32);
    v.push(104);
    v.push(97);
    v.push(115);
    v.push(32);
    v.push(108);
    v.push(101);
    v.push(102);
    v.push(116);
    v.push(32);
    v.push(116);
    v.push(104);
    v.push(101);
    v.push(32);
    v.push(99);
    v.push(104);
    v.push(97);
    v.push(116);
    v.push(32);
    v.push(42);
    v.push(42);
    v.push(42);
    proof {
        assert(v@ =~= left_suffix());
    }
    v
}

/// The body of the join notice a client appends when it enters.
pub fn join_notice(nickname: &[u8]) -> (r: Vec<u8>)
    ensures
        r@ == notice_prefix() + nickname@ + joined_suffix(),
{
    let mut r: Vec<u8> = Vec::new();
    r.push(42);
    r.push(42);
    r.push(42);
    r.push(32);
    push_all(&mut r, nickname);
    let suffix = joined_suffix_lit();
    push_all(&mut r, suffix.as_slice());
    proof {
        assert(r@ =~= notice_prefix() + nickname@ + joined_suffix());
    }
    r
}

/// The body of the leave notice a client appends when it exits.
pub fn leave_notice(nickname: &[u8]) -> (r: Vec<u8>)
    ensures
        r@ == notice_prefix() + nickname@ + left_suffix(),
{
    let mut r: Vec<u8> = Vec::new();
    r.push(42);
    r.push(42);
    r.push(42);
    r.push(32);
    push_all(&mut r, nickname);
    let suffix = left_suffix_lit();
    push_all(&mut r, suffix.as_slice());
    proof {
        assert(r@ =~= notice_prefix() + nickname@ + left_suffix());
    }
    r
}

} // verus!
