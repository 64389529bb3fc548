//! OSC 1.0 message encoding.
//!
//! One message is the address laid down as an OSC string, the type-tag
//! string ("," and one tag), and the argument: a 32-bit big-endian
//! integer, a 32-bit big-endian IEEE-754 float carried here by its
//! bits, or an OSC string.  An OSC string is the bytes, a terminating
//! NUL, and padding to a four-byte boundary.  Addresses and string
//! arguments must carry no NUL of their own; sending the datagram is
//! the caller's business.

use vstd::prelude::*;
use vstd::string::{StrSliceExecFns, StringSliceAdditionalSpecFns};
use vstd::utf8::encode_utf8;

verus! {

/// Longest address or string argument a message accepts.
pub const MAX_OSC_STR: usize = 4096;

/// How many NUL bytes pad a string of length `n`: one to four, to the
/// next four-byte boundary.
pub open spec fn pad_count(n: int) -> int {
    4 - n % 4
}

/// A string as OSC lays it down.
pub open spec fn osc_padded(s: Seq<u8>) -> Seq<u8> {
    s + Seq::new(pad_count(s.len() as int) as nat, |i: int| 0u8)
}

/// The two's-complement bit pattern of a 32-bit integer.
pub open spec fn u32_of_i32(x: i32) -> u32 {
    if x >= 0 {
        x as u32
    } else {
        (x + 0x1_0000_0000) as u32
    }
}

/// Big-endian bytes of a 32-bit value.
pub open spec fn be_bytes_u32(x: u32) -> Seq<u8> {
    seq![
        ((x >> 24) & 0xff) as u8,
        ((x >> 16) & 0xff) as u8,
        ((x >> 8) & 0xff) as u8,
        (x & 0xff) as u8,
    ]
}

/// One OSC argument.  A float is carried by its IEEE-754 bits: the
/// wire encoding needs nothing more of it.
pub enum OscArg {
    Int(i32),
    Float(u32),
    Str(Vec<u8>),
}

/// The OSC type tag of an argument.
pub open spec fn type_tag(arg: OscArg) -> u8 {
    match arg {
        OscArg::Int(_) => 105u8,  // 'i'
        OscArg::Float(_) => 102u8,  // 'f'
        OscArg::Str(_) => 115u8,  // 's'
    }
}

/// The argument's wire bytes.
pub open spec fn payload(arg: OscArg) -> Seq<u8> {
    match arg {
        OscArg::Int(x) => be_bytes_u32(u32_of_i32(x)),
        OscArg::Float(b) => be_bytes_u32(b),
        OscArg::Str(s) => osc_padded(s@),
    }
}

/// The whole message: padded address, padded type-tag string, payload.
pub open spec fn osc_message(addr: Seq<u8>, arg: OscArg) -> Seq<u8> {
    osc_padded(addr) + osc_padded(seq![44u8, type_tag(arg)]) + payload(arg)
}

/// A string the wire format can carry: bounded, no NUL of its own.
pub open spec fn str_ok(s: Seq<u8>) -> bool {
    s.len() <= MAX_OSC_STR && forall|i: int| 0 <= i < s.len() ==> s[i] != 0
}

/// The message can be encoded.
pub open spec fn message_encodable(addr: Seq<u8>, arg: OscArg) -> bool {
    str_ok(addr) && match arg {
        OscArg::Str(s) => str_ok(s@),
        _ => true,
    }
}

fn push_padded(out: &mut Vec<u8>, s: &[u8]) -> (ok: bool)
    ensures
        ok == str_ok(s@),
        ok ==> final(out)@ == old(out)@ + osc_padded(s@),
        !ok ==> final(out)@ == old(out)@,
{
    if s.len() > MAX_OSC_STR {
        return false;
    }
    let n = s.len();
    let mut i: usize = 0;
    while i < n
        invariant
            0 <= i <= n,
            n == s@.len(),
            forall|j: int| 0 <= j < i ==> s@[j] != 0,
        decreases n - i,
    {
        if s[i] == 0 {
            return false;
        }
        i = i + 1;
    }
    let mut i: usize = 0;
    while i < n
        invariant
            0 <= i <= n,
            n == s@.len(),
            out@ == old(out)@ + s@.take(i as int),
        decreases n - i,
    {
        proof {
            assert(s@.take(i + 1 as int) =~= s@.take(i as int).push(s@[i as int]));
        }
        out.push(s[i]);
        i = i + 1;
    }
    proof {
        assert(s@.take(n as int) =~= s@);
    }
    let pad: usize = 4 - (n % 4);
    let mut k: usize = 0;
    while k < pad
        invariant
            0 <= k <= pad,
            pad == pad_count(s@.len() as int),
            out@ == old(out)@ + s@ + Seq::new(k as nat, |i: int| 0u8),
        decreases pad - k,
    {
        proof {
            assert(Seq::new((k + 1) as nat, |i: int| 0u8) =~= Seq::new(k as nat, |i: int| 0u8).push(
                0u8,
            ));
        }
        out.push(0u8);
        k = k + 1;
    }
    proof {
        assert(out@ =~= old(out)@ + osc_padded(s@));
    }
    true
}

fn push_be(out: &mut Vec<u8>, x: u32)
    ensures
        final(out)@ == old(out)@ + be_bytes_u32(x),
{
    assert(((x >> 24) & 0xff) < 256 && ((x >> 16) & 0xff) < 256 && ((x >> 8) & 0xff) < 256 && (x
        & 0xff) < 256) by (bit_vector);
    out.push(((x >> 24) & 0xff) as u8);
    out.push(((x >> 16) & 0xff) as u8);
    out.push(((x >> 8) & 0xff) as u8);
    out.push((x & 0xff) as u8);
    proof {
        assert(out@ =~= old(out)@ + be_bytes_u32(x));
    }
}

/// Encode one message: exactly the OSC 1.0 bytes of the address and
/// the argument, or nothing exactly when the address or a string
/// argument is too long or carries a NUL.
pub fn encode_message(addr: &[u8], arg: &OscArg) -> (r: Option<Vec<u8>>)
    ensures
        (r is Some) == message_encodable(addr@, *arg),
        r matches Some(v) ==> v@ == osc_message(addr@, *arg),
{
    let mut out: Vec<u8> = Vec::new();
    if !push_padded(&mut out, addr) {
        return None;
    }
    let tagb: u8 = match arg {
        OscArg::Int(_) => 105,
        OscArg::Float(_) => 102,
        OscArg::Str(_) => 115,
    };
    let mut tags: Vec<u8> = Vec::new();
    tags.push(44);
    tags.push(tagb);
    proof {
        assert(tags@ =~= seq![44u8, type_tag(*arg)]);
        assert(forall|i: int| 0 <= i < tags@.len() ==> tags@[i] != 0);
    }
    let ok = push_padded(&mut out, tags.as_slice());
    assert(ok);
    match arg {
        OscArg::Int(x) => {
            let bits: u32 = i32_bits(*x);
            push_be(&mut out, bits);
        },
        OscArg::Float(b) => {
            push_be(&mut out, *b);
        },
        OscArg::Str(s) => {
            if !push_padded(&mut out, s.as_slice()) {
                return None;
            }
        },
    }
    proof {
        assert(out@ =~= osc_message(addr@, *arg));
    }
    Some(out)
}

/// The executable twin of `u32_of_i32`.
fn i32_bits(x: i32) -> (r: u32)
    ensures
        r == u32_of_i32(x),
{
    if x >= 0 {
        x as u32
    } else {
        ((x as i64) + 0x1_0000_0000) as u32
    }
}

/// `/time/master`: playback position in seconds, a float given by its
/// bits.
pub fn time_message(seconds_bits: u32) -> (r: Option<Vec<u8>>)
    ensures
        (r is Some) == str_ok(encode_utf8("/time/master"@)),
        r matches Some(v) ==> v@ == osc_message(
            encode_utf8("/time/master"@),
            OscArg::Float(seconds_bits),
        ),
{
    encode_message("/time/master".as_bytes(), &OscArg::Float(seconds_bits))
}

/// `/bpm/master/current`: the master tempo, a float given by its bits.
pub fn bpm_message(bpm_bits: u32) -> (r: Option<Vec<u8>>)
    ensures
        (r is Some) == str_ok(encode_utf8("/bpm/master/current"@)),
        r matches Some(v) ==> v@ == osc_message(
            encode_utf8("/bpm/master/current"@),
            OscArg::Float(bpm_bits),
        ),
{
    encode_message("/bpm/master/current".as_bytes(), &OscArg::Float(bpm_bits))
}

/// `/beat/master`: the integer master-beat counter.
pub fn beat_message(beat: i32) -> (r: Option<Vec<u8>>)
    ensures
        (r is Some) == str_ok(encode_utf8("/beat/master"@)),
        r matches Some(v) ==> v@ == osc_message(encode_utf8("/beat/master"@), OscArg::Int(beat)),
{
    encode_message("/beat/master".as_bytes(), &OscArg::Int(beat))
}

/// `/deck/master`: the designated deck, 0 or 1.
pub fn master_deck_message(deck_index: u8) -> (r: Option<Vec<u8>>)
    ensures
        (r is Some) == str_ok(encode_utf8("/deck/master"@)),
        r matches Some(v) ==> v@ == osc_message(
            encode_utf8("/deck/master"@),
            OscArg::Int(deck_index as i32),
        ),
{
    encode_message("/deck/master".as_bytes(), &OscArg::Int(deck_index as i32))
}

/// The message of one string argument, by the argument's bytes.
pub open spec fn osc_str_message(addr: Seq<u8>, content: Seq<u8>) -> Seq<u8> {
    osc_padded(addr) + osc_padded(seq![44u8, 115u8]) + osc_padded(content)
}

/// `/track/master/title`: the master track's title.
pub fn track_title_message(title: &str) -> (r: Option<Vec<u8>>)
    ensures
        (r is Some) == (str_ok(encode_utf8("/track/master/title"@)) && str_ok(title.spec_bytes())),
        r matches Some(v) ==> v@ == osc_str_message(
            encode_utf8("/track/master/title"@),
            title.spec_bytes(),
        ),
{
    encode_message("/track/master/title".as_bytes(), &OscArg::Str(title.as_bytes_vec()))
}

/// `/track/master/artist`: the master track's artist.
pub fn track_artist_message(artist: &str) -> (r: Option<Vec<u8>>)
    ensures
        (r is Some) == (str_ok(encode_utf8("/track/master/artist"@)) && str_ok(
            artist.spec_bytes(),
        )),
        r matches Some(v) ==> v@ == osc_str_message(
            encode_utf8("/track/master/artist"@),
            artist.spec_bytes(),
        ),
{
    encode_message("/track/master/artist".as_bytes(), &OscArg::Str(artist.as_bytes_vec()))
}

/// `/track/master/path`: the master track's folder path.
pub fn track_path_message(path: &str) -> (r: Option<Vec<u8>>)
    ensures
        (r is Some) == (str_ok(encode_utf8("/track/master/path"@)) && str_ok(path.spec_bytes())),
        r matches Some(v) ==> v@ == osc_str_message(
            encode_utf8("/track/master/path"@),
            path.spec_bytes(),
        ),
{
    encode_message("/track/master/path".as_bytes(), &OscArg::Str(path.as_bytes_vec()))
}

} // verus!
