//! The one place the library reads the wall clock: composing a new message
//! stamps it with the local time. The clock's answer is taken as it comes;
//! `timestamp_well_formed` in `chatline` lets a caller test the shape of
//! what it said.

use vstd::prelude::*;

use crate::chatline::ChatLine;
use crate::text::copy_range;

verus! {

/// Relies on chrono's `Local::now` and `DateTime::format` with the fixed
/// `"%Y-%m-%d %H:%M:%S"` pattern: the wall-clock time rendered as text.
/// The clock is not a function of anything in the program, so nothing is
/// assumed about the bytes that come back.
#[verifier::external_body]
fn now_timestamp() -> (r: Vec<u8>) {
    chrono::Local::now().format("%Y-%m-%d %H:%M:%S").to_string().into_bytes()
}

/// Compose a new message: the given author and body, stamped with whatever
/// the wall clock said. The author and body are carried over exactly;
/// the timestamp is whatever the clock produced, and a caller that needs
/// its shape checks it with `crate::chatline::timestamp_well_formed`.
pub fn make_line(nickname: &[u8], body: &[u8]) -> (l: ChatLine)
    ensures
        l.author@ == nickname@,
        l.body@ == body@,
{
    ChatLine {
        timestamp: now_timestamp(),
        author: copy_range(nickname, 0, nickname.len()),
        body: copy_range(body, 0, body.len()),
    }
}

} // verus!
