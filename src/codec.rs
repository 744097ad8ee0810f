//! The canonical byte form of content: a tag byte followed by fields, each an
//! 8-byte little-endian length and then that many bytes.
use vstd::prelude::*;
use vstd::utf8::{decode_utf8, encode_utf8, encode_utf8_decode_utf8, encode_utf8_valid_utf8, valid_utf8};

verus! {

/// The eight little-endian bytes of `n`.
pub open spec fn le_bytes(n: u64) -> Seq<u8> {
    seq![
        (n & 0xff) as u8,
        ((n >> 8u64) & 0xff) as u8,
        ((n >> 16u64) & 0xff) as u8,
        ((n >> 24u64) & 0xff) as u8,
        ((n >> 32u64) & 0xff) as u8,
        ((n >> 40u64) & 0xff) as u8,
        ((n >> 48u64) & 0xff) as u8,
        ((n >> 56u64) & 0xff) as u8,
    ]
}

/// The number held little-endian in the eight bytes of `b` from `pos` on.
#[verifier::opaque]
pub open spec fn le_value(b: Seq<u8>, pos: int) -> u64 {
    (b[pos] as u64) | ((b[pos + 1] as u64) << 8u64) | ((b[pos + 2] as u64) << 16u64) | ((
    b[pos + 3] as u64) << 24u64) | ((b[pos + 4] as u64) << 32u64) | ((b[pos + 5] as u64)
        << 40u64) | ((b[pos + 6] as u64) << 48u64) | ((b[pos + 7] as u64) << 56u64)
}

/// One field: its length, then its bytes.
pub open spec fn field(s: Seq<u8>) -> Seq<u8> {
    le_bytes(s.len() as u64) + s
}

/// The field that starts at `pos` of `b`, with the position after it.
#[verifier::opaque]
pub open spec fn field_at(b: Seq<u8>, pos: int) -> Option<(Seq<u8>, int)> {
    if 0 <= pos && pos + 8 <= b.len() {
        let n = le_value(b, pos) as int;
        if pos + 8 + n <= b.len() {
            Some((b.subrange(pos + 8, pos + 8 + n), pos + 8 + n))
        } else {
            None
        }
    } else {
        None
    }
}

/// A string field read back as text: the bytes must be valid UTF-8.
pub open spec fn text_of(s: Seq<u8>) -> Option<Seq<char>> {
    if valid_utf8(s) {
        Some(decode_utf8(s))
    } else {
        None
    }
}

proof fn lemma_le_round_trip(n: u64)
    ensures
        ((n & 0xff) as u8 as u64) | ((((n >> 8u64) & 0xff) as u8 as u64) << 8u64) | ((((n
            >> 16u64) & 0xff) as u8 as u64) << 16u64) | ((((n >> 24u64) & 0xff) as u8 as u64)
            << 24u64) | ((((n >> 32u64) & 0xff) as u8 as u64) << 32u64) | ((((n >> 40u64)
            & 0xff) as u8 as u64) << 40u64) | ((((n >> 48u64) & 0xff) as u8 as u64) << 48u64)
            | ((((n >> 56u64) & 0xff) as u8 as u64) << 56u64) == n,
{
    assert(((n & 0xff) as u8 as u64) | ((((n >> 8u64) & 0xff) as u8 as u64) << 8u64) | ((((n
        >> 16u64) & 0xff) as u8 as u64) << 16u64) | ((((n >> 24u64) & 0xff) as u8 as u64)
        << 24u64) | ((((n >> 32u64) & 0xff) as u8 as u64) << 32u64) | ((((n >> 40u64) & 0xff)
        as u8 as u64) << 40u64) | ((((n >> 48u64) & 0xff) as u8 as u64) << 48u64) | ((((n
        >> 56u64) & 0xff) as u8 as u64) << 56u64) == n) by (bit_vector);
}

/// A field written after any prefix is read back whole, whatever follows it.
pub proof fn lemma_field_at(prefix: Seq<u8>, s: Seq<u8>, rest: Seq<u8>)
    requires
        s.len() <= u64::MAX,
    ensures
        field_at(prefix + field(s) + rest, prefix.len() as int) == Some(
            (s, prefix.len() + 8 + s.len() as int),
        ),
{
    reveal(field_at);
    reveal(le_value);
    let b = prefix + field(s) + rest;
    let p = prefix.len() as int;
    let n = s.len() as u64;
    assert(b.subrange(p, p + 8) == le_bytes(n));
    assert forall|k: int| 0 <= k < 8 implies b[p + k] == le_bytes(n)[k] by {
        assert(b[p + k] == b.subrange(p, p + 8)[k]);
    }
    lemma_le_round_trip(n);
    assert(le_value(b, p) == n);
    assert(b.subrange(p + 8, p + 8 + s.len()) == s);
}

/// Appends one field to `out`.
pub fn push_field(out: &mut Vec<u8>, f: &[u8])
    ensures
        final(out)@ == old(out)@ + field(f@),
{
    let n: u64 = f.len() as u64;
    out.push((n & 0xff) as u8);
    out.push(((n >> 8u64) & 0xff) as u8);
    out.push(((n >> 16u64) & 0xff) as u8);
    out.push(((n >> 24u64) & 0xff) as u8);
    out.push(((n >> 32u64) & 0xff) as u8);
    out.push(((n >> 40u64) & 0xff) as u8);
    out.push(((n >> 48u64) & 0xff) as u8);
    out.push(((n >> 56u64) & 0xff) as u8);
    let ghost start = out@;
    assert(start == old(out)@ + le_bytes(n));
    let mut i: usize = 0;
    while i < f.len()
        invariant
            0 <= i <= f@.len(),
            out@ == start + f@.subrange(0, i as int),
        decreases f@.len() - i,
    {
        out.push(f[i]);
        assert(f@.subrange(0, i + 1) == f@.subrange(0, i as int).push(f@[i as int]));
        i = i + 1;
    }
    assert(f@ == f@.subrange(0, f@.len() as int));
}

/// Reads the field that starts at `pos` of `b`.
pub fn read_field(b: &[u8], pos: usize) -> (r: Option<(Vec<u8>, usize)>)
    ensures
        match r {
            Some((f, p)) => field_at(b@, pos as int) == Some((f@, p as int)),
            None => field_at(b@, pos as int) is None,
        },
{
    reveal(field_at);
    reveal(le_value);
    if pos > b.len() || b.len() - pos < 8 {
        return None;
    }
    let n: u64 = (b[pos] as u64) | ((b[pos + 1] as u64) << 8u64) | ((b[pos + 2] as u64)
        << 16u64) | ((b[pos + 3] as u64) << 24u64) | ((b[pos + 4] as u64) << 32u64) | ((b[pos
        + 5] as u64) << 40u64) | ((b[pos + 6] as u64) << 48u64) | ((b[pos + 7] as u64) << 56u64);
    assert(n == le_value(b@, pos as int));
    let avail: usize = b.len() - pos - 8;
    if n > avail as u64 {
        return None;
    }
    let len: usize = n as usize;
    let start: usize = pos + 8;
    let mut f: Vec<u8> = Vec::new();
    let mut i: usize = 0;
    while i < len
        invariant
            start + len <= b.len(),
            b@.len() == b.len(),
            0 <= i <= len,
            f@ == b@.subrange(start as int, start + i),
        decreases len - i,
    {
        f.push(b[start + i]);
        assert(b@.subrange(start as int, start + i + 1) == b@.subrange(
            start as int,
            start + i,
        ).push(b@[start + i]));
        i = i + 1;
    }
    Some((f, start + len))
}

/// Relies on `String::from_utf8`: `Ok` exactly when the bytes are valid
/// UTF-8, and then the string holds the characters they encode.
#[verifier::external_body]
fn string_from_utf8(bytes: Vec<u8>) -> (r: Option<String>)
    ensures
        r is Some <==> valid_utf8(bytes@),
        r is Some ==> r->Some_0@ == decode_utf8(bytes@),
{
    match String::from_utf8(bytes) {
        Ok(s) => Some(s),
        Err(_) => None,
    }
}

/// Reads a field back as text.
pub fn text_from_bytes(bytes: Vec<u8>) -> (r: Option<String>)
    ensures
        match r {
            Some(s) => text_of(bytes@) == Some(s@),
            None => text_of(bytes@) is None,
        },
{
    string_from_utf8(bytes)
}

/// Text written as its UTF-8 bytes reads back as the same text.
pub proof fn lemma_text_round_trip(s: Seq<char>)
    ensures
        text_of(encode_utf8(s)) == Some(s),
{
    encode_utf8_valid_utf8(s);
    encode_utf8_decode_utf8(s);
}

/// The UTF-8 bytes of a string.
pub fn text_bytes(s: &String) -> (r: &[u8])
    ensures
        r@ == encode_utf8(s@),
{
    s.as_str().as_bytes()
}

} // verus!
