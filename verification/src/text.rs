//! Character and byte-level predicates shared by the validation rules.
use vstd::prelude::*;

verus! {

/// The Unicode `White_Space` property, which `char::is_whitespace` follows.
pub open spec fn is_unicode_whitespace(c: char) -> bool {
    let u = c as u32;
    ||| 0x09 <= u <= 0x0d
    ||| u == 0x20
    ||| u == 0x85
    ||| u == 0xa0
    ||| u == 0x1680
    ||| 0x2000 <= u <= 0x200a
    ||| u == 0x2028
    ||| u == 0x2029
    ||| u == 0x202f
    ||| u == 0x205f
    ||| u == 0x3000
}

/// A text is blank when trimming its surrounding whitespace leaves nothing,
/// that is, when every character of it is whitespace (the empty text included).
pub open spec fn is_blank_text(s: Seq<char>) -> bool {
    forall|i: int| 0 <= i < s.len() ==> #[trigger] is_unicode_whitespace(s[i])
}

/// Whether `c` has the Unicode `White_Space` property.
pub fn char_is_whitespace(c: char) -> (r: bool)
    ensures
        r == is_unicode_whitespace(c),
{
    let u = c as u32;
    (0x09 <= u && u <= 0x0d) || u == 0x20 || u == 0x85 || u == 0xa0 || u == 0x1680 || (0x2000
        <= u && u <= 0x200a) || u == 0x2028 || u == 0x2029 || u == 0x202f || u == 0x205f || u
        == 0x3000
}

/// Whether `s` is empty once its leading and trailing whitespace is trimmed.
pub fn is_blank(s: &str) -> (r: bool)
    ensures
        r == is_blank_text(s@),
{
    let mut all_space = true;
    for c in it: s.chars()
        invariant
            it.seq() == s@,
            all_space == (forall|j: int| 0 <= j < it.index() ==> #[trigger] is_unicode_whitespace(s@[j])),
    {
        if !char_is_whitespace(c) {
            all_space = false;
        }
    }
    all_space
}

/// Whether two texts hold the same characters.
///
/// Trusted: calls `<str as PartialEq>::eq` from std, which compares the two
/// strings' contents; the contract claims the result is exactly that
/// comparison on the character sequences.
#[verifier::external_body]
pub(crate) fn str_equal(a: &str, b: &str) -> (r: bool)
    ensures
        r == (a@ == b@),
{
    a == b
}

/// Whether every byte of `bytes` is zero.
pub open spec fn is_zero_bytes(bytes: Seq<u8>) -> bool {
    forall|i: int| 0 <= i < bytes.len() ==> #[trigger] bytes[i] == 0
}

/// Whether every byte of `bytes` is zero (a placeholder rather than key material).
pub fn all_zero(bytes: &[u8]) -> (r: bool)
    ensures
        r == is_zero_bytes(bytes@),
{
    let n = bytes.len();
    let mut i: usize = 0;
    while i < n
        invariant
            n == bytes@.len(),
            i <= n,
            forall|j: int| 0 <= j < i ==> #[trigger] bytes@[j] == 0,
        decreases n - i,
    {
        if bytes[i] != 0 {
            return false;
        }
        i = i + 1;
    }
    true
}

/// Whether two byte strings are equal.
pub fn bytes_equal(a: &[u8], b: &[u8]) -> (r: bool)
    ensures
        r == (a@ == b@),
{
    if a.len() != b.len() {
        return false;
    }
    let n = a.len();
    let mut i: usize = 0;
    while i < n
        invariant
            n == a@.len(),
            n == b@.len(),
            i <= n,
            forall|j: int| 0 <= j < i ==> #[trigger] a@[j] == b@[j],
        decreases n - i,
    {
        if a[i] != b[i] {
            return false;
        }
        i = i + 1;
    }
    assert(a@ =~= b@);
    true
}

/// Appends the bytes of `bytes` to `out`.
pub fn append_bytes(out: &mut Vec<u8>, bytes: &[u8])
    ensures
        final(out)@ == old(out)@ + bytes@,
{
    let n = bytes.len();
    let mut i: usize = 0;
    while i < n
        invariant
            n == bytes@.len(),
            i <= n,
            out@ == old(out)@ + bytes@.subrange(0, i as int),
        decreases n - i,
    {
        out.push(bytes[i]);
        assert(bytes@.subrange(0, i + 1) =~= bytes@.subrange(0, i as int).push(bytes@[i as int]));
        i = i + 1;
    }
    assert(bytes@.subrange(0, n as int) =~= bytes@);
}

/// The eight bytes of the two's complement of `x`, most significant first.
pub open spec fn i64_be_bytes(x: i64) -> Seq<u8> {
    let u = x as u64;
    seq![
        ((u >> 56u64) & 0xffu64) as u8,
        ((u >> 48u64) & 0xffu64) as u8,
        ((u >> 40u64) & 0xffu64) as u8,
        ((u >> 32u64) & 0xffu64) as u8,
        ((u >> 24u64) & 0xffu64) as u8,
        ((u >> 16u64) & 0xffu64) as u8,
        ((u >> 8u64) & 0xffu64) as u8,
        (u & 0xffu64) as u8,
    ]
}

/// The big-endian encoding of `x`, as `i64::to_be_bytes` gives it.
pub fn i64_to_be_bytes(x: i64) -> (r: [u8; 8])
    ensures
        r@ == i64_be_bytes(x),
{
    let u = x as u64;
    let r: [u8; 8] = [
        ((u >> 56u64) & 0xffu64) as u8,
        ((u >> 48u64) & 0xffu64) as u8,
        ((u >> 40u64) & 0xffu64) as u8,
        ((u >> 32u64) & 0xffu64) as u8,
        ((u >> 24u64) & 0xffu64) as u8,
        ((u >> 16u64) & 0xffu64) as u8,
        ((u >> 8u64) & 0xffu64) as u8,
        (u & 0xffu64) as u8,
    ];
    assert(r@ =~= i64_be_bytes(x));
    r
}

/// Whether `needle` occurs in `haystack` starting at offset `start`.
pub open spec fn occurs_at(haystack: Seq<u8>, needle: Seq<u8>, start: int) -> bool {
    &&& 0 <= start
    &&& start + needle.len() <= haystack.len()
    &&& haystack.subrange(start, start + needle.len()) == needle
}

/// Whether `needle` occurs as a contiguous window of `haystack`.
pub open spec fn occurs_in(haystack: Seq<u8>, needle: Seq<u8>) -> bool {
    exists|start: int| #[trigger] occurs_at(haystack, needle, start)
}

/// Whether the bytes of `needle` match `haystack` at offset `start`.
fn matches_at(haystack: &[u8], needle: &[u8], start: usize) -> (r: bool)
    requires
        start + needle@.len() <= haystack@.len(),
    ensures
        r == occurs_at(haystack@, needle@, start as int),
{
    let n = needle.len();
    let h = haystack.len();
    let mut k: usize = 0;
    while k < n
        invariant
            n == needle@.len(),
            h == haystack@.len(),
            start + n <= haystack@.len(),
            k <= n,
            forall|j: int| 0 <= j < k ==> #[trigger] needle@[j] == haystack@[start + j],
        decreases n - k,
    {
        if haystack[start + k] != needle[k] {
            assert(haystack@.subrange(start as int, start + n)[k as int] != needle@[k as int]);
            return false;
        }
        k = k + 1;
    }
    assert(haystack@.subrange(start as int, start + n) =~= needle@);
    true
}

/// Whether `needle` appears as a contiguous window of `haystack`
/// (the windows of the needle's length, compared one by one).
pub fn contains_window(haystack: &[u8], needle: &[u8]) -> (r: bool)
    ensures
        r == occurs_in(haystack@, needle@),
{
    let h = haystack.len();
    let n = needle.len();
    if n > h {
        return false;
    }
    if n == 0 {
        assert(haystack@.subrange(0, 0) =~= needle@);
        assert(occurs_at(haystack@, needle@, 0));
        return true;
    }
    let last = h - n;
    let mut start: usize = 0;
    while start <= last
        invariant
            h == haystack@.len(),
            n == needle@.len(),
            last == h - n,
            0 < n,
            start <= last + 1,
            forall|s: int| 0 <= s < start ==> !#[trigger] occurs_at(haystack@, needle@, s),
        decreases last + 1 - start,
    {
        if matches_at(haystack, needle, start) {
            return true;
        }
        start = start + 1;
    }
    assert forall|s: int| !#[trigger] occurs_at(haystack@, needle@, s) by {
        if 0 <= s < start {
        }
    }
    false
}

} // verus!
