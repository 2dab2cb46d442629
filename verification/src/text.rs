//! Byte-level text helpers shared by the protocol modules: ASCII digit and
//! whitespace classification, first-occurrence search, and small decimal
//! numerals.

use vstd::prelude::*;

verus! {

/// An ASCII decimal digit `'0'..='9'`.
pub open spec fn is_digit(b: u8) -> bool {
    0x30 <= b <= 0x39
}

/// The numeric value of an ASCII digit.
pub open spec fn digit_val(b: u8) -> int {
    b - 0x30
}

/// ASCII whitespace as the history splitter understands it: space, tab,
/// line feed, vertical tab, form feed, carriage return.
pub open spec fn is_space(b: u8) -> bool {
    b == 0x20 || b == 0x09 || b == 0x0a || b == 0x0b || b == 0x0c || b == 0x0d
}

/// True when every byte of `s` is whitespace (an all-blank line).
pub open spec fn all_space(s: Seq<u8>) -> bool {
    forall|i: int| 0 <= i < s.len() ==> is_space(#[trigger] s[i])
}

/// Index of the first occurrence of `b` in `s` at or after `from`,
/// if there is one.
pub open spec fn find_byte(s: Seq<u8>, b: u8, from: int) -> Option<int>
    decreases s.len() - from,
{
    if from < 0 || from >= s.len() {
        None
    } else if s[from] == b {
        Some(from)
    } else {
        find_byte(s, b, from + 1)
    }
}

/// What `find_byte` means: the returned index carries `b`, lies in
/// `[from, s.len())`, and no earlier index at or after `from` carries `b`;
/// `None` means no index at or after `from` carries `b`.
pub proof fn lemma_find_byte(s: Seq<u8>, b: u8, from: int)
    requires
        0 <= from,
    ensures
        match find_byte(s, b, from) {
            Some(i) => from <= i < s.len() && s[i] == b && (forall|j: int|
                from <= j < i ==> s[j] != b),
            None => forall|j: int| from <= j < s.len() ==> s[j] != b,
        },
    decreases s.len() - from,
{
    if from < s.len() && s[from] != b {
        lemma_find_byte(s, b, from + 1);
    }
}

/// Exec counterpart of `is_digit`.
pub fn byte_is_digit(b: u8) -> (r: bool)
    ensures
        r == is_digit(b),
{
    0x30 <= b && b <= 0x39
}

/// Exec counterpart of `is_space`.
pub fn byte_is_space(b: u8) -> (r: bool)
    ensures
        r == is_space(b),
{
    b == 0x20 || b == 0x09 || b == 0x0a || b == 0x0b || b == 0x0c || b == 0x0d
}

/// First occurrence of `b` in `s` at or after `from`, as `find_byte` has it.
pub fn scan_byte(s: &[u8], b: u8, from: usize) -> (r: Option<usize>)
    ensures
        match r {
            Some(i) => find_byte(s@, b, from as int) == Some(i as int) && i < s@.len(),
            None => find_byte(s@, b, from as int) is None,
        },
{
    if from >= s.len() {
        return None;
    }
    let mut i: usize = from;
    while i < s.len()
        invariant
            from <= i <= s@.len(),
            find_byte(s@, b, from as int) == find_byte(s@, b, i as int),
        decreases s@.len() - i,
    {
        if s[i] == b {
            return Some(i);
        }
        i = i + 1;
    }
    None
}

/// Append every byte of `src` to `dst`.
pub fn push_all(dst: &mut Vec<u8>, src: &[u8])
    ensures
        final(dst)@ == old(dst)@ + src@,
{
    let mut i: usize = 0;
    while i < src.len()
        invariant
            i <= src@.len(),
            dst@ == old(dst)@ + src@.subrange(0, i as int),
        decreases src@.len() - i,
    {
        dst.push(src[i]);
        i = i + 1;
        assert(dst@ =~= old(dst)@ + src@.subrange(0, i as int));
    }
    assert(dst@ =~= old(dst)@ + src@);
}

/// Copy the bytes of `s` in `[from, end)` into a fresh vector.
pub fn copy_range(s: &[u8], from: usize, end: usize) -> (r: Vec<u8>)
    requires
        from <= end <= s@.len(),
    ensures
        r@ == s@.subrange(from as int, end as int),
{
    let mut r: Vec<u8> = Vec::new();
    let mut i: usize = from;
    while i < end
        invariant
            from <= i <= end <= s@.len(),
            r@ == s@.subrange(from as int, i as int),
        decreases end - i,
    {
        r.push(s[i]);
        i = i + 1;
        assert(r@ =~= s@.subrange(from as int, i as int));
    }
    r
}

/// Whether every byte of `s` in `[from, end)` is whitespace.
pub fn region_all_space(s: &[u8], from: usize, end: usize) -> (r: bool)
    requires
        from <= end <= s@.len(),
    ensures
        r == all_space(s@.subrange(from as int, end as int)),
{
    let ghost region = s@.subrange(from as int, end as int);
    let mut i: usize = from;
    while i < end
        invariant
            from <= i <= end <= s@.len(),
            region == s@.subrange(from as int, end as int),
            forall|j: int| from <= j < i ==> is_space(#[trigger] s@[j]),
        decreases end - i,
    {
        if !byte_is_space(s[i]) {
            assert(region[i - from] == s@[i as int]);
            return false;
        }
        i = i + 1;
    }
    assert forall|j: int| 0 <= j < region.len() implies is_space(#[trigger] region[j]) by {
        assert(region[j] == s@[from + j]);
    }
    true
}

/// Byte-for-byte equality of two slices.
pub fn bytes_eq(a: &[u8], b: &[u8]) -> (r: bool)
    ensures
        r == (a@ == b@),
{
    if a.len() != b.len() {
        assert(a@ != b@);
        return false;
    }
    let mut i: usize = 0;
    while i < a.len()
        invariant
            i <= a@.len(),
            a@.len() == b@.len(),
            forall|j: int| 0 <= j < i ==> a@[j] == b@[j],
        decreases a@.len() - i,
    {
        if a[i] != b[i] {
            return false;
        }
        i = i + 1;
    }
    assert(a@ =~= b@);
    true
}

} // verus!
