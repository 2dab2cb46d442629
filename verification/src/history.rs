//! The history fetcher's pure half: what a retrieval or append reply means,
//! how fetched bytes split into log lines, and how a modification-time reply
//! yields an opaque change key.

use vstd::prelude::*;

use crate::error::ChatError;
use crate::reply::reply_status;
use crate::text::{
    all_space, copy_range, find_byte, is_space, region_all_space, scan_byte,
};

verus! {

/// A line segment with its separating line feed stripped also loses one
/// trailing carriage return.
pub open spec fn strip_cr(s: Seq<u8>) -> Seq<u8> {
    if s.len() > 0 && s.last() == 13 {
        s.drop_last()
    } else {
        s
    }
}

/// The log lines of fetched content, starting at `from`: segments split at
/// every line feed, a carriage return before a line feed stripped, and
/// all-whitespace segments dropped.
pub open spec fn log_lines_from(content: Seq<u8>, from: int) -> Seq<Seq<u8>>
    decreases content.len() - from,
{
    if from < 0 || from >= content.len() {
        seq![]
    } else {
        match find_byte(content, 10, from) {
            Some(i) => if from <= i < content.len() {
                let line = strip_cr(content.subrange(from, i));
                (if all_space(line) {
                    seq![]
                } else {
                    seq![line]
                }) + log_lines_from(content, i + 1)
            } else {
                seq![]
            },
            None => {
                let line = content.subrange(from, content.len() as int);
                if all_space(line) {
                    seq![]
                } else {
                    seq![line]
                }
            },
        }
    }
}

/// The log lines of fetched content.
pub open spec fn log_lines(content: Seq<u8>) -> Seq<Seq<u8>> {
    log_lines_from(content, 0)
}

/// Split fetched bytes into log lines, as `log_lines` has them.
pub fn split_history(content: &[u8]) -> (r: Vec<Vec<u8>>)
    ensures
        r.deep_view() == log_lines(content@),
{
    let n: usize = content.len();
    let mut r: Vec<Vec<u8>> = Vec::new();
    let mut pos: usize = 0;
    proof {
        assert(r.deep_view() =~= Seq::<Seq<u8>>::empty());
    }
    while pos < n
        invariant
            pos <= n,
            n == content@.len(),
            log_lines(content@) == r.deep_view() + log_lines_from(content@, pos as int),
        decreases n - pos,
    {
        let ghost pre = r.deep_view();
        let nl = scan_byte(content, 10, pos);
        let (seg_end, next_pos): (usize, usize) = match nl {
            Some(i) => (i, i + 1),
            None => (n, n),
        };
        let line_end: usize = if nl.is_some() && seg_end > pos && content[seg_end - 1] == 13 {
            seg_end - 1
        } else {
            seg_end
        };
        let ghost line = if nl is Some {
            strip_cr(content@.subrange(pos as int, seg_end as int))
        } else {
            content@.subrange(pos as int, content@.len() as int)
        };
        proof {
            if nl is Some {
                crate::text::lemma_find_byte(content@, 10, pos as int);
                let seg = content@.subrange(pos as int, seg_end as int);
                if seg_end > pos && content@[seg_end - 1] == 13 {
                    assert(seg.last() == content@[seg_end - 1]);
                    assert(line == seg.drop_last());
                    assert(line =~= content@.subrange(pos as int, line_end as int));
                } else {
                    assert(line == seg);
                    assert(line =~= content@.subrange(pos as int, line_end as int));
                }
                assert(log_lines_from(content@, pos as int) == (if all_space(line) {
                    Seq::<Seq<u8>>::empty()
                } else {
                    seq![line]
                }) + log_lines_from(content@, next_pos as int));
            } else {
                assert(line =~= content@.subrange(pos as int, line_end as int));
                assert(log_lines_from(content@, pos as int) == (if all_space(line) {
                    Seq::<Seq<u8>>::empty()
                } else {
                    seq![line]
                }));
                assert(log_lines_from(content@, next_pos as int) =~= Seq::<Seq<u8>>::empty());
            }
        }
        if !region_all_space(content, pos, line_end) {
            let piece = copy_range(content, pos, line_end);
            proof {
                assert(piece@ == line);
            }
            r.push(piece);
            proof {
                assert(r.deep_view() =~~= pre + seq![line]);
                assert(r.deep_view() + log_lines_from(content@, next_pos as int) =~= pre + (seq![
                    line,
                ] + log_lines_from(content@, next_pos as int)));
            }
        } else {
            proof {
                assert(r.deep_view() + log_lines_from(content@, next_pos as int) =~= pre
                    + log_lines_from(content@, pos as int));
            }
        }
        pos = next_pos;
    }
    proof {
        assert(log_lines_from(content@, pos as int) =~= Seq::<Seq<u8>>::empty());
        assert(r.deep_view() =~= r.deep_view() + Seq::<Seq<u8>>::empty());
    }
    r
}

/// What a retrieval reply means: read the data channel, treat the log as
/// not yet existing, or fail.
#[derive(Debug, PartialEq, Eq, Structural)]
pub enum FetchPlan {
    /// Status 150: the server is about to send the file.
    ReadData,
    /// Status 550: the log does not exist yet; its content is empty, and
    /// that is not an error.
    EmptyLog,
}

/// Decide what a retrieval reply asks for. Status 150 reads the data
/// channel; status 550 stands for an empty log; anything else is a fetch
/// error carrying the reply.
pub fn fetch_plan(reply: &[u8]) -> (r: Result<FetchPlan, ChatError>)
    ensures
        match r {
            Ok(FetchPlan::ReadData) => reply_status(reply@) == Some(150int),
            Ok(FetchPlan::EmptyLog) => reply_status(reply@) == Some(550int),
            Err(e) => reply_status(reply@) != Some(150int) && reply_status(reply@) != Some(550int)
                && (e matches ChatError::Fetch { reply: raw } && raw@ == reply@),
        },
{
    match crate::reply::status_of(reply) {
        Some(150u16) => Ok(FetchPlan::ReadData),
        Some(550u16) => Ok(FetchPlan::EmptyLog),
        _ => Err(ChatError::Fetch { reply: copy_range(reply, 0, reply.len()) }),
    }
}

/// Decide what an append reply allows. Status 150 means the data channel
/// may carry the message; anything else rejects the append, carrying the
/// reply.
pub fn append_decision(reply: &[u8]) -> (r: Result<(), ChatError>)
    ensures
        match r {
            Ok(_) => reply_status(reply@) == Some(150int),
            Err(e) => reply_status(reply@) != Some(150int) && (e
                matches ChatError::AppendRejected { reply: raw } && raw@ == reply@),
        },
{
    if crate::reply::has_status(reply, 150) {
        Ok(())
    } else {
        Err(ChatError::AppendRejected { reply: copy_range(reply, 0, reply.len()) })
    }
}

/// First non-whitespace index at or after `from`, or the length.
pub open spec fn skip_space(s: Seq<u8>, from: int) -> int
    decreases s.len() - from,
{
    if from < 0 || from >= s.len() {
        s.len() as int
    } else if is_space(s[from]) {
        skip_space(s, from + 1)
    } else {
        from
    }
}

/// First whitespace index at or after `from`, or the length.
pub open spec fn next_space(s: Seq<u8>, from: int) -> int
    decreases s.len() - from,
{
    if from < 0 || from >= s.len() {
        s.len() as int
    } else if is_space(s[from]) {
        from
    } else {
        next_space(s, from + 1)
    }
}

/// Exec counterpart of `skip_space`.
fn scan_non_space(s: &[u8], from: usize) -> (r: usize)
    requires
        from <= s@.len(),
    ensures
        r as int == skip_space(s@, from as int),
        from <= r <= s@.len(),
{
    let n: usize = s.len();
    let mut i: usize = from;
    while i < n
        invariant
            from <= i <= n,
            n == s@.len(),
            skip_space(s@, from as int) == skip_space(s@, i as int),
        decreases n - i,
    {
        if !crate::text::byte_is_space(s[i]) {
            return i;
        }
        i = i + 1;
    }
    i
}

/// Exec counterpart of `next_space`.
fn scan_space(s: &[u8], from: usize) -> (r: usize)
    requires
        from <= s@.len(),
    ensures
        r as int == next_space(s@, from as int),
        from <= r <= s@.len(),
{
    let n: usize = s.len();
    let mut i: usize = from;
    while i < n
        invariant
            from <= i <= n,
            n == s@.len(),
            next_space(s@, from as int) == next_space(s@, i as int),
        decreases n - i,
    {
        if crate::text::byte_is_space(s[i]) {
            return i;
        }
        i = i + 1;
    }
    i
}

/// The opaque change key of a modification-time reply: on status 213, the
/// second whitespace-separated token; on anything else, nothing. The key is
/// only ever compared for equality, never read as a date.
pub open spec fn mdtm_key_of(reply: Seq<u8>) -> Option<Seq<u8>> {
    if reply_status(reply) == Some(213int) {
        let t0 = skip_space(reply, 0);
        let e0 = next_space(reply, t0);
        let t1 = skip_space(reply, e0);
        if t1 < reply.len() {
            Some(reply.subrange(t1, next_space(reply, t1)))
        } else {
            None
        }
    } else {
        None
    }
}

/// Extract the change key of a modification-time reply, as `mdtm_key_of`
/// has it. `None` stands for "unknown", which a caller treats as "assume
/// changed".
pub fn mdtm_key(reply: &[u8]) -> (r: Option<Vec<u8>>)
    ensures
        match r {
            Some(k) => mdtm_key_of(reply@) == Some(k@),
            None => mdtm_key_of(reply@) is None,
        },
{
    if !crate::reply::has_status(reply, 213) {
        return None;
    }
    let t0 = scan_non_space(reply, 0);
    let e0 = scan_space(reply, t0);
    let t1 = scan_non_space(reply, e0);
    if t1 >= reply.len() {
        return None;
    }
    let e1 = scan_space(reply, t1);
    Some(copy_range(reply, t1, e1))
}

} // verus!
