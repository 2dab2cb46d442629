//! The error taxonomy of the chat core.
//!
//! Each variant that answers a server reply carries the raw reply bytes, so
//! that the caller can surface the server's own words; the three-digit status
//! code, where the reply has one, is recoverable through
//! `crate::reply::reply_status`.

use vstd::prelude::*;

verus! {

/// What can go wrong in a session.
///
/// - `Transport`: a connection could not be established or was lost.
/// - `Protocol`: a malformed passive-mode reply.
/// - `Auth`: the server refused the credentials.
/// - `AppendRejected`: an append command was answered with something other
///   than "about to open the data connection".
/// - `Fetch`: a retrieval was answered with an unexpected status.
#[derive(Debug, PartialEq, Eq)]
pub enum ChatError {
    Transport,
    Protocol { reply: Vec<u8> },
    Auth { reply: Vec<u8> },
    AppendRejected { reply: Vec<u8> },
    Fetch { reply: Vec<u8> },
}

} // verus!
