//! Control-channel reply lines: the three-digit status code, and the
//! passive-mode reply that advertises the address of a data channel.

use vstd::prelude::*;

use crate::error::ChatError;
use crate::text::{
    byte_is_digit, copy_range, digit_val, find_byte, is_digit, lemma_find_byte, scan_byte,
};

verus! {

/// The status code of a reply line: its first three bytes, when all three are
/// decimal digits.
pub open spec fn reply_status(s: Seq<u8>) -> Option<int> {
    if s.len() >= 3 && is_digit(s[0]) && is_digit(s[1]) && is_digit(s[2]) {
        Some(100 * digit_val(s[0]) + 10 * digit_val(s[1]) + digit_val(s[2]))
    } else {
        None
    }
}

/// The status code of a reply line, if it has one.
pub fn status_of(reply: &[u8]) -> (r: Option<u16>)
    ensures
        match r {
            Some(c) => reply_status(reply@) == Some(c as int),
            None => reply_status(reply@) is None,
        },
{
    if reply.len() >= 3 && byte_is_digit(reply[0]) && byte_is_digit(reply[1])
        && byte_is_digit(reply[2]) {
        let c: u16 = 100 * ((reply[0] - 0x30) as u16) + 10 * ((reply[1] - 0x30) as u16)
            + ((reply[2] - 0x30) as u16);
        Some(c)
    } else {
        None
    }
}

/// Whether the reply's status code is exactly `code`.
pub fn has_status(reply: &[u8], code: u16) -> (r: bool)
    ensures
        r == (reply_status(reply@) == Some(code as int)),
{
    match status_of(reply) {
        Some(c) => c == code,
        None => false,
    }
}

/// The numeric value of a digit string, most significant digit first.
pub open spec fn dec_val(s: Seq<u8>) -> int
    decreases s.len(),
{
    if s.len() == 0 {
        0
    } else {
        dec_val(s.drop_last()) * 10 + digit_val(s.last())
    }
}

/// A field of a passive-mode reply: one to three decimal digits whose value
/// fits in a byte.
pub open spec fn is_dec_field(s: Seq<u8>) -> bool {
    1 <= s.len() <= 3 && (forall|i: int| 0 <= i < s.len() ==> is_digit(#[trigger] s[i]))
        && dec_val(s) <= 255
}

/// Parse the bytes of `s` in `[from, end)` as one passive-mode field.
pub fn parse_dec_field(s: &[u8], from: usize, end: usize) -> (r: Option<u8>)
    requires
        from <= end <= s@.len(),
    ensures
        match r {
            Some(v) => is_dec_field(s@.subrange(from as int, end as int)) && v as int == dec_val(
                s@.subrange(from as int, end as int),
            ),
            None => !is_dec_field(s@.subrange(from as int, end as int)),
        },
{
    let ghost field = s@.subrange(from as int, end as int);
    if end - from < 1 || end - from > 3 {
        return None;
    }
    let mut acc: u16 = 0;
    let mut i: usize = from;
    while i < end
        invariant
            from <= i <= end <= s@.len(),
            end - from <= 3,
            field == s@.subrange(from as int, end as int),
            acc as int == dec_val(s@.subrange(from as int, i as int)),
            acc <= 999,
            i - from == 0 ==> acc == 0,
            i - from <= 1 ==> acc <= 9,
            i - from <= 2 ==> acc <= 99,
            forall|j: int| from <= j < i ==> is_digit(#[trigger] s@[j]),
        decreases end - i,
    {
        if !byte_is_digit(s[i]) {
            assert(field[i - from] == s@[i as int]);
            return None;
        }
        proof {
            assert(s@.subrange(from as int, i + 1).drop_last() =~= s@.subrange(
                from as int,
                i as int,
            ));
            assert(s@.subrange(from as int, i + 1).last() == s@[i as int]);
        }
        acc = acc * 10 + ((s[i] - 0x30) as u16);
        i = i + 1;
    }
    assert(forall|j: int| 0 <= j < field.len() ==> is_digit(#[trigger] field[j]));
    if acc > 255 {
        return None;
    }
    Some(acc as u8)
}

/// Split the bytes of `s` in `[from, end)` at every comma.
pub open spec fn comma_split_region(s: Seq<u8>, from: int, end: int) -> Seq<Seq<u8>>
    decreases end - from,
{
    if from < 0 || from > end || end > s.len() {
        seq![]
    } else {
        match find_byte(s, 44, from) {
            Some(c) => if from <= c && c < end {
                seq![s.subrange(from, c)] + comma_split_region(s, c + 1, end)
            } else {
                seq![s.subrange(from, end)]
            },
            None => seq![s.subrange(from, end)],
        }
    }
}

/// The six integers of a passive-mode reply: the comma-separated fields
/// between the first opening parenthesis and the first closing parenthesis
/// after it, when there are exactly six and each is a value that fits in a
/// byte.
pub open spec fn pasv_fields(s: Seq<u8>) -> Option<Seq<int>> {
    match find_byte(s, 40, 0) {
        None => None,
        Some(a) => match find_byte(s, 41, a + 1) {
            None => None,
            Some(b) => {
                let parts = comma_split_region(s, a + 1, b);
                if parts.len() == 6 && (forall|i: int|
                    0 <= i < 6 ==> is_dec_field(#[trigger] parts[i])) {
                    Some(Seq::new(6, |i: int| dec_val(parts[i])))
                } else {
                    None
                }
            },
        },
    }
}

/// The address a passive-mode reply advertises: four address bytes and the
/// two bytes of the port, exactly as the reply carries them.
#[derive(Clone, Copy, Debug, PartialEq, Eq, Structural)]
pub struct PasvAddr {
    pub h1: u8,
    pub h2: u8,
    pub h3: u8,
    pub h4: u8,
    pub p1: u8,
    pub p2: u8,
}

impl PasvAddr {
    /// The six fields in reply order.
    pub open spec fn spec_fields(self) -> Seq<int> {
        seq![
            self.h1 as int,
            self.h2 as int,
            self.h3 as int,
            self.h4 as int,
            self.p1 as int,
            self.p2 as int,
        ]
    }

    /// The advertised data port: high byte times 256 plus low byte.
    pub open spec fn spec_port(self) -> int {
        self.p1 as int * 256 + self.p2 as int
    }

    /// The advertised data port as a number.
    pub fn port(&self) -> (r: u16)
        ensures
            r as int == self.spec_port(),
    {
        (self.p1 as u16) * 256 + (self.p2 as u16)
    }
}

/// Extract the advertised address from a passive-mode reply, if its fields
/// are well formed.
pub fn parse_pasv_fields(reply: &[u8]) -> (r: Option<PasvAddr>)
    ensures
        match r {
            Some(addr) => pasv_fields(reply@) == Some(addr.spec_fields()),
            None => pasv_fields(reply@) is None,
        },
{
    let n: usize = reply.len();
    let a = match scan_byte(reply, 40, 0) {
        Some(a) => a,
        None => {
            return None;
        },
    };
    assert(a < n);
    let b = match scan_byte(reply, 41, a + 1) {
        Some(b) => b,
        None => {
            return None;
        },
    };
    proof {
        lemma_find_byte(reply@, 41, a + 1);
    }
    let ghost parts = comma_split_region(reply@, a + 1, b as int);
    let mut vals: Vec<u8> = Vec::new();
    let mut pos: usize = a + 1;
    let ghost mut done: Seq<Seq<u8>> = seq![];
    loop
        invariant_except_break
            parts == done + comma_split_region(reply@, pos as int, b as int),
        invariant
            a + 1 <= pos <= b < reply@.len(),
            reply@[b as int] == 41,
            find_byte(reply@, 40, 0) == Some(a as int),
            find_byte(reply@, 41, a + 1) == Some(b as int),
            parts == comma_split_region(reply@, a + 1, b as int),
            vals@.len() == done.len(),
            forall|i: int|
                0 <= i < done.len() ==> is_dec_field(#[trigger] done[i]) && vals@[i] as int
                    == dec_val(done[i]),
        ensures
            parts == done,
            vals@.len() == done.len(),
            forall|i: int|
                0 <= i < done.len() ==> is_dec_field(#[trigger] done[i]) && vals@[i] as int
                    == dec_val(done[i]),
        decreases b - pos,
    {
        let c = scan_byte(reply, 44, pos);
        let (field_end, is_last): (usize, bool) = match c {
            Some(c) => if c < b {
                (c, false)
            } else {
                (b, true)
            },
            None => (b, true),
        };
        proof {
            if c is Some {
                lemma_find_byte(reply@, 44, pos as int);
            }
            // one unfolding of the split at `pos`
            assert(comma_split_region(reply@, pos as int, b as int) =~= seq![
                reply@.subrange(pos as int, field_end as int),
            ] + if is_last {
                Seq::<Seq<u8>>::empty()
            } else {
                comma_split_region(reply@, field_end + 1, b as int)
            });
        }
        let v = match parse_dec_field(reply, pos, field_end) {
            Some(v) => v,
            None => {
                proof {
                    let bad = done.len() as int;
                    assert(parts[bad] == reply@.subrange(pos as int, field_end as int));
                    assert(!is_dec_field(parts[bad]));
                }
                return None;
            },
        };
        vals.push(v);
        proof {
            done = done + seq![reply@.subrange(pos as int, field_end as int)];
            assert(parts =~= done + if is_last {
                Seq::<Seq<u8>>::empty()
            } else {
                comma_split_region(reply@, field_end + 1, b as int)
            });
        }
        if is_last {
            proof {
                assert(parts =~= done);
            }
            break;
        }
        if vals.len() >= 6 {
            // a seventh field is on its way: the shape is wrong
            proof {
                assert(comma_split_region(reply@, field_end + 1, b as int).len() >= 1);
                assert(parts.len() > 6);
            }
            return None;
        }
        pos = field_end + 1;
    }
    if vals.len() != 6 {
        proof {
            assert(parts.len() != 6);
        }
        return None;
    }
    let addr = PasvAddr {
        h1: vals[0],
        h2: vals[1],
        h3: vals[2],
        h4: vals[3],
        p1: vals[4],
        p2: vals[5],
    };
    proof {
        assert(Seq::new(6, |i: int| dec_val(parts[i])) =~= addr.spec_fields());
    }
    Some(addr)
}

/// What the negotiator does with one control-channel line while waiting for
/// the passive-mode answer.
#[derive(Debug, PartialEq, Eq)]
pub enum PasvStep {
    /// The passive-mode reply arrived and parsed: open a data connection.
    Open(PasvAddr),
    /// Some other status: keep reading lines.
    KeepWaiting,
    /// The passive-mode reply arrived malformed.
    Malformed(ChatError),
}

/// Decide what one control-channel line means to the negotiator: a reply
/// with status 227 either yields the advertised address or is malformed;
/// any other line is not the answer yet.
pub fn pasv_reply_step(reply: &[u8]) -> (r: PasvStep)
    ensures
        match r {
            PasvStep::Open(addr) => reply_status(reply@) == Some(227int) && pasv_fields(reply@)
                == Some(addr.spec_fields()),
            PasvStep::KeepWaiting => reply_status(reply@) != Some(227int),
            PasvStep::Malformed(e) => reply_status(reply@) == Some(227int) && pasv_fields(reply@)
                is None && (e matches ChatError::Protocol { reply: raw } && raw@ == reply@),
        },
{
    if !has_status(reply, 227) {
        return PasvStep::KeepWaiting;
    }
    match parse_pasv_fields(reply) {
        Some(addr) => PasvStep::Open(addr),
        None => PasvStep::Malformed(
            ChatError::Protocol { reply: copy_range(reply, 0, reply.len()) },
        ),
    }
}

/// The decimal numeral of `n`, most significant digit first, no leading
/// zeros.
pub open spec fn dec_bytes(n: int) -> Seq<u8>
    decreases n,
{
    if n < 0 {
        seq![]
    } else if n < 10 {
        seq![(0x30 + n) as u8]
    } else {
        dec_bytes(n / 10) + seq![(0x30 + n % 10) as u8]
    }
}

/// Append the decimal numeral of `n` to `v`.
pub fn push_decimal(v: &mut Vec<u8>, n: u8)
    ensures
        final(v)@ == old(v)@ + dec_bytes(n as int),
{
    let ghost m: int = n as int;
    if n < 10 {
        v.push(0x30 + n);
        assert(v@ =~= old(v)@ + dec_bytes(n as int));
    } else if n < 100 {
        proof {
            assert(m / 10 < 10 && m / 10 >= 1) by (nonlinear_arith)
                requires
                    10 <= m < 100,
            ;
        }
        v.push(0x30 + n / 10);
        v.push(0x30 + n % 10);
        proof {
            assert(dec_bytes(m / 10) == seq![(0x30 + m / 10) as u8]);
        }
        assert(v@ =~= old(v)@ + dec_bytes(n as int));
    } else {
        proof {
            assert(m / 100 < 10 && m / 100 >= 1 && (m / 10) / 10 == m / 100 && (m / 10) % 10 == (m
                % 100) / 10 && m / 10 >= 10) by (nonlinear_arith)
                requires
                    100 <= m < 256,
            ;
        }
        v.push(0x30 + n / 100);
        v.push(0x30 + (n / 10) % 10);
        v.push(0x30 + n % 10);
        proof {
            assert(dec_bytes(m / 100) == seq![(0x30 + m / 100) as u8]);
            assert(dec_bytes(m / 10) == dec_bytes((m / 10) / 10) + seq![(0x30 + (m / 10) % 10) as u8]);
            assert(dec_bytes(m / 10) =~= seq![(0x30 + m / 100) as u8, (0x30 + (m / 10) % 10) as u8]);
        }
        assert(v@ =~= old(v)@ + dec_bytes(m / 10) + seq![(0x30 + m % 10) as u8]);
        assert(v@ =~= old(v)@ + dec_bytes(n as int));
    }
}

/// The dotted-decimal text of the advertised address.
pub open spec fn spec_ip_bytes(addr: PasvAddr) -> Seq<u8> {
    dec_bytes(addr.h1 as int) + seq![46u8] + dec_bytes(addr.h2 as int) + seq![46u8] + dec_bytes(
        addr.h3 as int,
    ) + seq![46u8] + dec_bytes(addr.h4 as int)
}

/// Render the advertised address as dotted-decimal text, for the caller
/// that opens the data connection.
pub fn pasv_ip_bytes(addr: &PasvAddr) -> (r: Vec<u8>)
    ensures
        r@ == spec_ip_bytes(*addr),
{
    let mut r: Vec<u8> = Vec::new();
    push_decimal(&mut r, addr.h1);
    r.push(46);
    push_decimal(&mut r, addr.h2);
    r.push(46);
    push_decimal(&mut r, addr.h3);
    r.push(46);
    push_decimal(&mut r, addr.h4);
    proof {
        assert(r@ =~= spec_ip_bytes(*addr));
    }
    r
}

/// For every valid passive-mode reply, re-serializing the extracted address
/// as `(h1, h2, h3, h4, port / 256, port % 256)` reproduces the six integers
/// of the reply.
pub proof fn lemma_pasv_round_trip(s: Seq<u8>, addr: PasvAddr)
    requires
        pasv_fields(s) == Some(addr.spec_fields()),
    ensures
        seq![
            addr.h1 as int,
            addr.h2 as int,
            addr.h3 as int,
            addr.h4 as int,
            addr.spec_port() / 256,
            addr.spec_port() % 256,
        ] == pasv_fields(s)->Some_0,
{
    assert(addr.spec_port() / 256 == addr.p1 as int && addr.spec_port() % 256 == addr.p2 as int)
        by (nonlinear_arith)
        requires
            0 <= addr.p2 < 256 && 0 <= addr.p1 && addr.spec_port() == addr.p1 as int * 256
                + addr.p2 as int,
    ;
    assert(seq![
        addr.h1 as int,
        addr.h2 as int,
        addr.h3 as int,
        addr.h4 as int,
        addr.spec_port() / 256,
        addr.spec_port() % 256,
    ] =~= addr.spec_fields());
}

} // verus!
