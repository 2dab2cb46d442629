//! The text format of one chat message: a 19-byte timestamp, a space, the
//! author, the delimiter `": "`, and the body. A line that does not have
//! this shape is carried through untouched, so that system or legacy lines
//! survive a fetch.

use vstd::prelude::*;

use crate::text::{copy_range, is_digit, push_all};

verus! {

/// One chat message. The timestamp is meant to be 19 bytes in the shape
/// `YYYY-MM-DD HH:MM:SS`, and the author must not contain the delimiter
/// `": "`; `wf` states both.
#[derive(Debug, PartialEq, Eq)]
pub struct ChatLine {
    pub timestamp: Vec<u8>,
    pub author: Vec<u8>,
    pub body: Vec<u8>,
}

/// What byte `i` of a well-formed timestamp must be: `-` at 4 and 7, a space
/// at 10, `:` at 13 and 16, a decimal digit everywhere else.
pub open spec fn timestamp_byte_ok(s: Seq<u8>, i: int) -> bool {
    if i == 4 || i == 7 {
        s[i] == 45
    } else if i == 10 {
        s[i] == 32
    } else if i == 13 || i == 16 {
        s[i] == 58
    } else {
        is_digit(s[i])
    }
}

/// A 19-byte timestamp in the fixed `YYYY-MM-DD HH:MM:SS` shape.
pub open spec fn is_timestamp(ts: Seq<u8>) -> bool {
    ts.len() == 19 && forall|i: int| 0 <= i < 19 ==> timestamp_byte_ok(ts, i)
}

/// No `": "` pair anywhere in `s`.
pub open spec fn delim_free(s: Seq<u8>) -> bool {
    forall|i: int| 0 <= i && i + 1 < s.len() ==> !(#[trigger] s[i] == 58 && s[i + 1] == 32)
}

impl ChatLine {
    /// A well-formed message: fixed-shape timestamp, author free of the
    /// delimiter.
    pub open spec fn wf(self) -> bool {
        is_timestamp(self.timestamp@) && delim_free(self.author@)
    }
}

/// The serialized shape of a message, without the trailing line break.
pub open spec fn line_bytes(ts: Seq<u8>, author: Seq<u8>, body: Seq<u8>) -> Seq<u8> {
    ts + seq![32u8] + author + seq![58u8, 32u8] + body
}

/// Index of the first `": "` pair at or after `from`, if any.
pub open spec fn find_delim(s: Seq<u8>, from: int) -> Option<int>
    decreases s.len() - from,
{
    if from < 0 || from + 1 >= s.len() {
        None
    } else if s[from] == 58 && s[from + 1] == 32 {
        Some(from)
    } else {
        find_delim(s, from + 1)
    }
}

/// What `find_delim` means: the returned index starts the first `": "` pair
/// at or after `from`; `None` means there is none.
pub proof fn lemma_find_delim(s: Seq<u8>, from: int)
    requires
        0 <= from,
    ensures
        match find_delim(s, from) {
            Some(i) => from <= i && i + 1 < s.len() && s[i] == 58 && s[i + 1] == 32 && (forall|
                j: int,
            |
                from <= j < i ==> !(#[trigger] s[j] == 58 && s[j + 1] == 32)),
            None => forall|j: int| from <= j && j + 1 < s.len() ==> !(#[trigger] s[j] == 58 && s[j + 1] == 32),
        },
    decreases s.len() - from,
{
    if from + 1 < s.len() && !(s[from] == 58 && s[from + 1] == 32) {
        lemma_find_delim(s, from + 1);
    }
}

/// Conversely: a `": "` pair at `d` with no earlier pair is what
/// `find_delim` returns.
pub proof fn lemma_find_delim_at(s: Seq<u8>, from: int, d: int)
    requires
        0 <= from <= d,
        d + 1 < s.len(),
        s[d] == 58,
        s[d + 1] == 32,
        forall|j: int| from <= j < d ==> !(#[trigger] s[j] == 58 && s[j + 1] == 32),
    ensures
        find_delim(s, from) == Some(d),
    decreases d - from,
{
    if from < d {
        lemma_find_delim_at(s, from + 1, d);
    }
}

/// First `": "` pair at or after `from`, as `find_delim` has it.
pub fn scan_delim(s: &[u8], from: usize) -> (r: Option<usize>)
    ensures
        match r {
            Some(i) => find_delim(s@, from as int) == Some(i as int) && i + 1 < s@.len(),
            None => find_delim(s@, from as int) is None,
        },
{
    let n: usize = s.len();
    if n < 2 || from >= n - 1 {
        return None;
    }
    let mut i: usize = from;
    while i < n - 1
        invariant
            from <= i <= n - 1,
            n == s@.len(),
            2 <= n,
            find_delim(s@, from as int) == find_delim(s@, i as int),
        decreases n - i,
    {
        if s[i] == 58 && s[i + 1] == 32 {
            return Some(i);
        }
        i = i + 1;
    }
    None
}

/// The three fields the parser recovers from a line of the documented shape:
/// the first 19 bytes, the bytes between position 20 and the first `": "`
/// pair, and the bytes after that pair — provided the pair starts at or
/// after 20 and byte 19 is a space.
pub open spec fn parsed_fields(s: Seq<u8>) -> Option<(Seq<u8>, Seq<u8>, Seq<u8>)> {
    match find_delim(s, 0) {
        Some(i) => if i >= 20 && s[19] == 32 {
            Some((s.subrange(0, 19), s.subrange(20, i), s.subrange(i + 2, s.len() as int)))
        } else {
            None
        },
        None => None,
    }
}

/// A fetched line, either parsed into a message or carried through raw.
#[derive(Debug, PartialEq, Eq)]
pub enum ParsedLine {
    Message(ChatLine),
    Raw(Vec<u8>),
}

/// Parse one log line. A line of the documented shape becomes a message
/// holding exactly the parsed fields; any other line is handed back
/// unchanged.
pub fn parse_chat_line(line: &[u8]) -> (r: ParsedLine)
    ensures
        match r {
            ParsedLine::Message(cl) => parsed_fields(line@) == Some(
                (cl.timestamp@, cl.author@, cl.body@),
            ),
            ParsedLine::Raw(raw) => parsed_fields(line@) is None && raw@ == line@,
        },
{
    let n: usize = line.len();
    match scan_delim(line, 0) {
        Some(i) => {
            if i >= 20 && line[19] == 32 {
                let cl = ChatLine {
                    timestamp: copy_range(line, 0, 19),
                    author: copy_range(line, 20, i),
                    body: copy_range(line, i + 2, n),
                };
                ParsedLine::Message(cl)
            } else {
                ParsedLine::Raw(copy_range(line, 0, n))
            }
        },
        None => ParsedLine::Raw(copy_range(line, 0, n)),
    }
}

/// Serialize a message, without the trailing line break.
pub fn serialize_chat_line(l: &ChatLine) -> (r: Vec<u8>)
    ensures
        r@ == line_bytes(l.timestamp@, l.author@, l.body@),
{
    let mut r: Vec<u8> = Vec::new();
    push_all(&mut r, l.timestamp.as_slice());
    r.push(32);
    push_all(&mut r, l.author.as_slice());
    r.push(58);
    r.push(32);
    push_all(&mut r, l.body.as_slice());
    proof {
        assert(r@ =~= line_bytes(l.timestamp@, l.author@, l.body@));
    }
    r
}

/// The bytes an append sends over the data channel: the serialized message
/// and a line break.
pub fn append_payload(l: &ChatLine) -> (r: Vec<u8>)
    ensures
        r@ == line_bytes(l.timestamp@, l.author@, l.body@) + seq![10u8],
{
    let mut r = serialize_chat_line(l);
    r.push(10);
    proof {
        assert(r@ =~= line_bytes(l.timestamp@, l.author@, l.body@) + seq![10u8]);
    }
    r
}

/// How a parsed message is shown: `[timestamp] <author> body`.
pub open spec fn rendered(ts: Seq<u8>, author: Seq<u8>, body: Seq<u8>) -> Seq<u8> {
    seq![91u8] + ts + seq![93u8, 32u8, 60u8] + author + seq![62u8, 32u8] + body
}

/// Render one fetched line for display: a parsed message in the
/// `[timestamp] <author> body` shape, a raw line as it stands.
pub fn render_line(p: &ParsedLine) -> (r: Vec<u8>)
    ensures
        match p {
            ParsedLine::Message(cl) => r@ == rendered(cl.timestamp@, cl.author@, cl.body@),
            ParsedLine::Raw(raw) => r@ == raw@,
        },
{
    match p {
        ParsedLine::Message(cl) => {
            let mut r: Vec<u8> = Vec::new();
            r.push(91);
            push_all(&mut r, cl.timestamp.as_slice());
            r.push(93);
            r.push(32);
            r.push(60);
            push_all(&mut r, cl.author.as_slice());
            r.push(62);
            r.push(32);
            push_all(&mut r, cl.body.as_slice());
            proof {
                assert(r@ =~= rendered(cl.timestamp@, cl.author@, cl.body@));
            }
            r
        },
        ParsedLine::Raw(raw) => copy_range(raw.as_slice(), 0, raw.len()),
    }
}

/// Whether `ts` is a well-formed 19-byte timestamp.
pub fn timestamp_well_formed(ts: &[u8]) -> (r: bool)
    ensures
        r == is_timestamp(ts@),
{
    if ts.len() != 19 {
        return false;
    }
    let mut i: usize = 0;
    while i < 19
        invariant
            i <= 19,
            ts@.len() == 19,
            forall|j: int| 0 <= j < i ==> timestamp_byte_ok(ts@, j),
        decreases 19 - i,
    {
        let b = ts[i];
        let ok: bool = if i == 4 || i == 7 {
            b == 45
        } else if i == 10 {
            b == 32
        } else if i == 13 || i == 16 {
            b == 58
        } else {
            0x30 <= b && b <= 0x39
        };
        if !ok {
            assert(!timestamp_byte_ok(ts@, i as int));
            return false;
        }
        i = i + 1;
    }
    true
}

/// Whether `author` may stand in a message without breaking the parse rule:
/// it must not contain the delimiter `": "`.
pub fn author_acceptable(author: &[u8]) -> (r: bool)
    ensures
        r == delim_free(author@),
{
    match scan_delim(author, 0) {
        Some(i) => {
            proof {
                lemma_find_delim(author@, 0);
            }
            false
        },
        None => {
            proof {
                lemma_find_delim(author@, 0);
            }
            true
        },
    }
}

/// Formatting a message and parsing the result back through the 19-byte
/// timestamp and first-`": "` rule recovers the original timestamp, author
/// and body, for every well-formed timestamp, every author free of the
/// delimiter, and every author and body free of line breaks.
pub proof fn lemma_line_round_trip(ts: Seq<u8>, author: Seq<u8>, body: Seq<u8>)
    requires
        is_timestamp(ts),
        delim_free(author),
        forall|i: int| 0 <= i < author.len() ==> author[i] != 10,
        forall|i: int| 0 <= i < body.len() ==> body[i] != 10,
    ensures
        parsed_fields(line_bytes(ts, author, body)) == Some((ts, author, body)),
{
    let s = line_bytes(ts, author, body);
    let d = 20 + author.len() as int;
    assert(s.len() == 22 + author.len() + body.len());
    assert forall|j: int| 0 <= j < s.len() implies s[j] == (if j < 19 {
        ts[j]
    } else if j == 19 {
        32u8
    } else if j < d {
        author[j - 20]
    } else if j == d {
        58u8
    } else if j == d + 1 {
        32u8
    } else {
        body[j - d - 2]
    }) by {
        assert(s[j] == (ts + seq![32u8] + author + seq![58u8, 32u8] + body)[j]);
    }
    assert(s[d] == 58 && s[d + 1] == 32);
    assert forall|j: int| 0 <= j < d implies !(#[trigger] s[j] == 58 && s[j + 1] == 32) by {
        if j < 19 {
            // within the timestamp: byte 18 is a digit and the only colons
            // sit at 13 and 16, both followed by digits
            assert(timestamp_byte_ok(ts, j));
            if j + 1 < 19 {
                assert(timestamp_byte_ok(ts, j + 1));
            }
        } else if j == 19 {
            assert(s[j] == 32);
        } else {
            // within the author, or the author byte just before the
            // delimiter colon
            if j + 1 < d {
                assert(!(author[j - 20] == 58 && author[j - 20 + 1] == 32));
            } else {
                assert(s[j + 1] == 58);
            }
        }
    }
    lemma_find_delim_at(s, 0, d);
    assert(s[19] == 32);
    assert(s.subrange(0, 19) =~= ts);
    assert(s.subrange(20, d) =~= author);
    assert(s.subrange(d + 2, s.len() as int) =~= body);
}

} // verus!
