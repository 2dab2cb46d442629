//! Core logic of a chat client that uses a plain file-transfer server as its
//! transport: an append-only remote log file shared by all participants.
//!
//! The library holds everything that can be stated and proved about the
//! protocol: reply-line classification and passive-mode address parsing
//! (`reply`), the chat-line text format (`chatline`), the history splitter
//! and fetch decisions (`history`), the polling synchronization cursor
//! (`sync`), the session phase machine and command dispatch (`session`),
//! and the one wall-clock read (`clock`). The surrounding program performs
//! the socket I/O and feeds the bytes it read into these functions.

pub mod chatline;
pub mod clock;
pub mod error;
pub mod history;
pub mod reply;
pub mod session;
pub mod sync;
pub mod text;
