//! Decoding of the bearer token harvested from the foreign process.
//!
//! The token lives in a fixed 64-byte buffer: it is cut at the first
//! NUL byte, decoded as UTF-8, and stripped of surrounding white space
//! (the Unicode white-space set, as `str::trim` strips it); a buffer
//! that does not decode yields the empty token.

use vstd::prelude::*;
use vstd::string::{StrSliceExecFns, StringExecFns};
use vstd::utf8::{decode_utf8, valid_utf8};

verus! {

/// The Unicode white-space characters: what `str::trim` strips.
pub open spec fn is_unicode_ws(c: char) -> bool {
    let u = c as u32;
    u == 0x20 || (0x9 <= u && u <= 0xD) || u == 0x85 || u == 0xA0 || u == 0x1680 || (0x2000 <= u
        && u <= 0x200A) || u == 0x2028 || u == 0x2029 || u == 0x202F || u == 0x205F || u == 0x3000
}

/// Index of the first NUL byte, or the length if there is none.
pub open spec fn first_nul(s: Seq<u8>) -> int
    decreases s.len(),
{
    if s.len() == 0 {
        0
    } else if s[0] == 0 {
        0
    } else {
        1 + first_nul(s.skip(1))
    }
}

/// Index of the first character that is not white space, or the length
/// if all are.
pub open spec fn trim_start_idx(s: Seq<char>) -> int
    decreases s.len(),
{
    if s.len() == 0 {
        0
    } else if is_unicode_ws(s[0]) {
        1 + trim_start_idx(s.skip(1))
    } else {
        0
    }
}

/// One past the last character that is not white space, or 0 if all
/// are.
pub open spec fn trim_end_idx(s: Seq<char>) -> int
    decreases s.len(),
{
    if s.len() == 0 {
        0
    } else if is_unicode_ws(s.last()) {
        trim_end_idx(s.drop_last())
    } else {
        s.len() as int
    }
}

/// The characters with surrounding white space stripped.
pub open spec fn trim_chars(s: Seq<char>) -> Seq<char> {
    let a = trim_start_idx(s);
    let b = trim_end_idx(s);
    if a <= b {
        s.subrange(a, b)
    } else {
        Seq::empty()
    }
}

/// The decoded bearer token of a raw buffer: cut at the first NUL,
/// decoded as UTF-8 and trimmed, empty if the decode fails.
pub open spec fn bearer_chars(s: Seq<u8>) -> Seq<char> {
    let p = s.take(first_nul(s));
    if valid_utf8(p) {
        trim_chars(decode_utf8(p))
    } else {
        Seq::empty()
    }
}

proof fn lemma_first_nul_at(s: Seq<u8>, i: int)
    requires
        0 <= i <= s.len(),
        forall|j: int| 0 <= j < i ==> s[j] != 0,
        i < s.len() ==> s[i] == 0,
    ensures
        first_nul(s) == i,
    decreases s.len(),
{
    if s.len() == 0 {
    } else if i == 0 {
    } else {
        lemma_first_nul_at(s.skip(1), i - 1);
    }
}

proof fn lemma_trim_start_at(s: Seq<char>, i: int)
    requires
        0 <= i <= s.len(),
        forall|j: int| 0 <= j < i ==> is_unicode_ws(s[j]),
        i < s.len() ==> !is_unicode_ws(s[i]),
    ensures
        trim_start_idx(s) == i,
    decreases s.len(),
{
    if s.len() == 0 {
    } else if i == 0 {
    } else {
        lemma_trim_start_at(s.skip(1), i - 1);
    }
}

proof fn lemma_trim_end_at(s: Seq<char>, b: int)
    requires
        0 <= b <= s.len(),
        forall|j: int| b <= j < s.len() ==> is_unicode_ws(s[j]),
        b > 0 ==> !is_unicode_ws(s[b - 1]),
    ensures
        trim_end_idx(s) == b,
    decreases s.len(),
{
    if s.len() == 0 {
    } else if b == s.len() {
    } else {
        assert(s.drop_last() =~= s.take(s.len() - 1));
        lemma_trim_end_at(s.drop_last(), b);
    }
}

proof fn lemma_trim_end_bounds(s: Seq<char>)
    ensures
        0 <= trim_end_idx(s) <= s.len(),
    decreases s.len(),
{
    if s.len() == 0 {
    } else if is_unicode_ws(s.last()) {
        lemma_trim_end_bounds(s.drop_last());
    }
}

proof fn lemma_trim_all_ws(s: Seq<char>)
    requires
        forall|j: int| 0 <= j < s.len() ==> is_unicode_ws(s[j]),
    ensures
        trim_chars(s).len() == 0,
{
    lemma_trim_start_at(s, s.len() as int);
    lemma_trim_end_bounds(s);
}

/// Relies on `String::from_utf8`: it succeeds exactly on valid UTF-8
/// and yields its decoding.
#[verifier::external_body]
fn string_from_utf8(bytes: Vec<u8>) -> (r: Option<String>)
    ensures
        (r is Some) == valid_utf8(bytes@),
        r matches Some(s) ==> s@ == decode_utf8(bytes@),
{
    String::from_utf8(bytes).ok()
}

/// Executable twin of `is_unicode_ws`.
fn is_ws_char(c: char) -> (r: bool)
    ensures
        r == is_unicode_ws(c),
{
    let u = c as u32;
    u == 0x20 || (0x9 <= u && u <= 0xD) || u == 0xA0 || u == 0x85 || u == 0x1680 || (0x2000 <= u
        && u <= 0x200A) || u == 0x2028 || u == 0x2029 || u == 0x202F || u == 0x205F || u == 0x3000
}

/// Decode a bearer buffer: cut at the first NUL, decode as UTF-8,
/// strip surrounding white space; the empty token if the bytes do not
/// decode.
pub fn decode_bearer(buf: &[u8]) -> (r: String)
    ensures
        r@ == bearer_chars(buf@),
{
    let n = buf.len();
    let mut end: usize = 0;
    while end < n && buf[end] != 0
        invariant
            0 <= end <= n,
            n == buf@.len(),
            forall|j: int| 0 <= j < end ==> buf@[j] != 0,
        decreases n - end,
    {
        end = end + 1;
    }
    proof {
        lemma_first_nul_at(buf@, end as int);
    }
    let mut prefix: Vec<u8> = Vec::new();
    let mut i: usize = 0;
    while i < end
        invariant
            0 <= i <= end <= n,
            n == buf@.len(),
            prefix@ == buf@.take(i as int),
        decreases end - i,
    {
        proof {
            assert(buf@.take(i + 1 as int) =~= buf@.take(i as int).push(buf@[i as int]));
        }
        prefix.push(buf[i]);
        i = i + 1;
    }
    let decoded = match string_from_utf8(prefix) {
        Some(s) => s,
        None => {
            return String::new();
        },
    };
    let st = decoded.as_str();
    let m = st.unicode_len();
    let mut start: usize = 0;
    while start < m && is_ws_char(st.get_char(start))
        invariant
            0 <= start <= m,
            m == st@.len(),
            forall|j: int| 0 <= j < start ==> is_unicode_ws(st@[j]),
        decreases m - start,
    {
        start = start + 1;
    }
    let mut stop: usize = m;
    while stop > start && is_ws_char(st.get_char(stop - 1))
        invariant
            start <= stop <= m,
            m == st@.len(),
            forall|j: int| stop <= j < m ==> is_unicode_ws(st@[j]),
        decreases stop,
    {
        stop = stop - 1;
    }
    if start >= stop {
        proof {
            lemma_trim_all_ws(st@);
            assert(trim_chars(st@) =~= Seq::<char>::empty());
        }
        return String::new();
    }
    proof {
        lemma_trim_start_at(st@, start as int);
        lemma_trim_end_at(st@, stop as int);
    }
    let trimmed = st.substring_char(start, stop);
    proof {
        assert(trim_chars(st@) =~= st@.subrange(start as int, stop as int));
    }
    String::from_str(trimmed)
}

} // verus!
