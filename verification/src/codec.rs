//! A stable, self-describing binary encoding for the values the store keeps.
//!
//! Every durable record is laid out as a fixed sequence of fields: integers
//! little-endian, byte strings and text length-prefixed, options and enums
//! behind a one-byte tag.  The spec-level encoders (`enc_*`) and decoders
//! (`dec_*`) define the format once; the executable readers and writers are
//! proved against them, and the `lemma_dec_*` family shows that decoding
//! reads back exactly what encoding laid down — the round-trip law the
//! durable maps depend on.
//!
//! The format tolerates additive evolution: a record's decoder reads the
//! fields it knows and ignores any bytes a later revision appended after
//! them.  Removing or reordering fields is not tolerated.

use vstd::prelude::*;
use vstd::bytes::*;
use vstd::utf8::*;
use vstd::slice::*;

verus! {

broadcast use vstd::seq_lib::group_seq_lib_default, vstd::seq::group_seq_axioms;

// ---------------------------------------------------------------------------
// Spec-level encoders
// ---------------------------------------------------------------------------
pub open spec fn enc_u8(x: u8) -> Seq<u8> {
    seq![x]
}

pub open spec fn enc_u32(x: u32) -> Seq<u8> {
    spec_u32_to_le_bytes(x)
}

pub open spec fn enc_u64(x: u64) -> Seq<u8> {
    spec_u64_to_le_bytes(x)
}

/// A length-prefixed byte string.
pub open spec fn enc_bytes(b: Seq<u8>) -> Seq<u8> {
    enc_u64(b.len() as u64) + b
}

/// Text: its UTF-8 bytes, length-prefixed.
pub open spec fn enc_str(s: Seq<char>) -> Seq<u8> {
    enc_bytes(encode_utf8(s))
}

/// Optional text behind a one-byte presence tag.
pub open spec fn enc_opt_str(o: Option<Seq<char>>) -> Seq<u8> {
    match o {
        Option::None => seq![0u8],
        Option::Some(s) => seq![1u8] + enc_str(s),
    }
}

// ---------------------------------------------------------------------------
// Spec-level decoders: parse at an offset, yield the value and the offset
// just past it, or nothing if the input does not carry the field.
// ---------------------------------------------------------------------------
pub open spec fn dec_u8(b: Seq<u8>, i: int) -> Option<(u8, int)> {
    if 0 <= i && i + 1 <= b.len() {
        Some((b[i], i + 1))
    } else {
        None
    }
}

pub open spec fn dec_u32(b: Seq<u8>, i: int) -> Option<(u32, int)> {
    if 0 <= i && i + 4 <= b.len() {
        Some((spec_u32_from_le_bytes(b.subrange(i, i + 4)), i + 4))
    } else {
        None
    }
}

pub open spec fn dec_u64(b: Seq<u8>, i: int) -> Option<(u64, int)> {
    if 0 <= i && i + 8 <= b.len() {
        Some((spec_u64_from_le_bytes(b.subrange(i, i + 8)), i + 8))
    } else {
        None
    }
}

pub open spec fn dec_bytes(b: Seq<u8>, i: int) -> Option<(Seq<u8>, int)> {
    match dec_u64(b, i) {
        Option::None => None,
        Option::Some((n, j)) => if j + n <= b.len() {
            Some((b.subrange(j, j + n), j + n))
        } else {
            None
        },
    }
}

pub open spec fn dec_str(b: Seq<u8>, i: int) -> Option<(Seq<char>, int)> {
    match dec_bytes(b, i) {
        Option::None => None,
        Option::Some((bs, j)) => if valid_utf8(bs) {
            Some((decode_utf8(bs), j))
        } else {
            None
        },
    }
}

pub open spec fn dec_opt_str(b: Seq<u8>, i: int) -> Option<(Option<Seq<char>>, int)> {
    match dec_u8(b, i) {
        Option::None => None,
        Option::Some((tag, j)) => if tag == 0 {
            Some((None, j))
        } else if tag == 1 {
            match dec_str(b, j) {
                Option::None => None,
                Option::Some((s, k)) => Some((Some(s), k)),
            }
        } else {
            None
        },
    }
}

// ---------------------------------------------------------------------------
// Decoding reads back what encoding wrote.
// ---------------------------------------------------------------------------
/// Parsing a buffer that carries an encoded `u8` at `i` yields it back.
pub proof fn lemma_dec_u8(b: Seq<u8>, i: int, x: u8)
    requires
        0 <= i,
        i + 1 <= b.len(),
        b.subrange(i, i + 1) == enc_u8(x),
    ensures
        dec_u8(b, i) == Some((x, i + 1)),
{
    assert(b[i] == b.subrange(i, i + 1)[0]);
}

/// Parsing a buffer that carries an encoded `u32` at `i` yields it back.
pub proof fn lemma_dec_u32(b: Seq<u8>, i: int, x: u32)
    requires
        0 <= i,
        i + 4 <= b.len(),
        b.subrange(i, i + 4) == enc_u32(x),
    ensures
        dec_u32(b, i) == Some((x, i + 4)),
{
    lemma_auto_spec_u32_to_from_le_bytes();
    assert(spec_u32_to_le_bytes(x).len() == 4);
}

/// Parsing a buffer that carries an encoded `u64` at `i` yields it back.
pub proof fn lemma_dec_u64(b: Seq<u8>, i: int, x: u64)
    requires
        0 <= i,
        i + 8 <= b.len(),
        b.subrange(i, i + 8) == enc_u64(x),
    ensures
        dec_u64(b, i) == Some((x, i + 8)),
{
    lemma_auto_spec_u64_to_from_le_bytes();
    assert(spec_u64_to_le_bytes(x).len() == 8);
}

/// Parsing a buffer that carries an encoded byte string at `i` yields it back.
pub proof fn lemma_dec_bytes(b: Seq<u8>, i: int, s: Seq<u8>)
    requires
        0 <= i,
        s.len() <= u64::MAX,
        i + enc_bytes(s).len() <= b.len(),
        b.subrange(i, i + enc_bytes(s).len() as int) == enc_bytes(s),
    ensures
        enc_bytes(s).len() == 8 + s.len(),
        dec_bytes(b, i) == Some((s, i + enc_bytes(s).len() as int)),
{
    lemma_auto_spec_u64_to_from_le_bytes();
    let n = s.len() as u64;
    let e = enc_bytes(s);
    assert(e.len() == 8 + s.len());
    assert(b.subrange(i, i + 8) =~= e.subrange(0, 8));
    assert(e.subrange(0, 8) =~= enc_u64(n));
    lemma_dec_u64(b, i, n);
    assert(b.subrange(i + 8, i + 8 + s.len() as int) =~= e.subrange(8, e.len() as int));
    assert(e.subrange(8, e.len() as int) =~= s);
}

/// Parsing a buffer that carries encoded text at `i` yields it back.
pub proof fn lemma_dec_str(b: Seq<u8>, i: int, s: Seq<char>)
    requires
        0 <= i,
        encode_utf8(s).len() <= u64::MAX,
        i + enc_str(s).len() <= b.len(),
        b.subrange(i, i + enc_str(s).len() as int) == enc_str(s),
    ensures
        enc_str(s).len() == 8 + encode_utf8(s).len(),
        dec_str(b, i) == Some((s, i + enc_str(s).len() as int)),
{
    broadcast use encode_utf8_valid_utf8, encode_utf8_decode_utf8;

    lemma_dec_bytes(b, i, encode_utf8(s));
}

/// Parsing a buffer that carries encoded optional text at `i` yields it back.
pub proof fn lemma_dec_opt_str(b: Seq<u8>, i: int, o: Option<Seq<char>>)
    requires
        0 <= i,
        (o matches Some(s) ==> encode_utf8(s).len() <= u64::MAX),
        i + enc_opt_str(o).len() <= b.len(),
        b.subrange(i, i + enc_opt_str(o).len() as int) == enc_opt_str(o),
    ensures
        dec_opt_str(b, i) == Some((o, i + enc_opt_str(o).len() as int)),
{
    let e = enc_opt_str(o);
    match o {
        Option::None => {
            assert(b.subrange(i, i + 1) =~= enc_u8(0u8));
            lemma_dec_u8(b, i, 0u8);
        },
        Option::Some(s) => {
            assert(b.subrange(i, i + 1) =~= enc_u8(1u8)) by {
                assert(e[0] == 1u8);
                assert(b.subrange(i, i + 1)[0] == b.subrange(i, i + e.len() as int)[0]);
            }
            lemma_dec_u8(b, i, 1u8);
            assert(b.subrange(i + 1, i + 1 + enc_str(s).len() as int) =~= e.subrange(
                1,
                e.len() as int,
            ));
            assert(e.subrange(1, e.len() as int) =~= enc_str(s));
            lemma_dec_str(b, i + 1, s);
        },
    }
}

// ---------------------------------------------------------------------------
// Executable writers
// ---------------------------------------------------------------------------
/// Appends raw bytes.
pub fn write_raw(out: &mut Vec<u8>, b: &[u8])
    ensures
        final(out)@ == old(out)@ + b@,
{
    let n = b.len();
    let mut k: usize = 0;
    while k < n
        invariant
            n == b@.len(),
            0 <= k <= n,
            out@ =~= old(out)@ + b@.subrange(0, k as int),
        decreases n - k,
    {
        out.push(*slice_index_get(b, k));
        k += 1;
    }
    proof {
        assert(out@ =~= old(out)@ + b@);
    }
}

/// Appends one byte.
pub fn write_u8(out: &mut Vec<u8>, x: u8)
    ensures
        final(out)@ == old(out)@ + enc_u8(x),
{
    out.push(x);
    proof {
        assert(out@ =~= old(out)@ + enc_u8(x));
    }
}

/// Appends a `u32`, little-endian.
pub fn write_u32(out: &mut Vec<u8>, x: u32)
    ensures
        final(out)@ == old(out)@ + enc_u32(x),
{
    let mut bs = u32_to_le_bytes(x);
    out.append(&mut bs);
}

/// Appends a `u64`, little-endian.
pub fn write_u64(out: &mut Vec<u8>, x: u64)
    ensures
        final(out)@ == old(out)@ + enc_u64(x),
{
    let mut bs = u64_to_le_bytes(x);
    out.append(&mut bs);
}

/// Appends a length-prefixed byte string.
pub fn write_bytes(out: &mut Vec<u8>, b: &Vec<u8>)
    ensures
        final(out)@ == old(out)@ + enc_bytes(b@),
{
    write_u64(out, b.len() as u64);
    write_raw(out, b.as_slice());
}

/// Appends length-prefixed text as UTF-8.
pub fn write_str(out: &mut Vec<u8>, s: &String)
    ensures
        final(out)@ == old(out)@ + enc_str(s@),
{
    let bs = s.as_str().as_bytes();
    write_u64(out, bs.len() as u64);
    write_raw(out, bs);
}

/// Appends optional text behind a presence tag.
pub fn write_opt_str(out: &mut Vec<u8>, o: &Option<String>)
    ensures
        final(out)@ == old(out)@ + enc_opt_str(match *o {
            Option::Some(ref s) => Some(s@),
            Option::None => None,
        }),
{
    match o {
        None => {
            write_u8(out, 0u8);
        },
        Some(s) => {
            write_u8(out, 1u8);
            write_str(out, s);
        },
    }
}

// ---------------------------------------------------------------------------
// Executable readers
// ---------------------------------------------------------------------------
/// Reads one byte at `i`.
pub fn read_u8(b: &Vec<u8>, i: usize) -> (r: Option<(u8, usize)>)
    ensures
        match r {
            Some((x, j)) => dec_u8(b@, i as int) == Some((x, j as int)),
            None => dec_u8(b@, i as int) is None,
        },
{
    if i < b.len() {
        Some((b[i], i + 1))
    } else {
        None
    }
}

/// Reads a little-endian `u32` at `i`.
pub fn read_u32(b: &Vec<u8>, i: usize) -> (r: Option<(u32, usize)>)
    ensures
        match r {
            Some((x, j)) => dec_u32(b@, i as int) == Some((x, j as int)),
            None => dec_u32(b@, i as int) is None,
        },
{
    if b.len() >= 4 && i <= b.len() - 4 {
        let s = slice_subrange(b.as_slice(), i, i + 4);
        Some((u32_from_le_bytes(s), i + 4))
    } else {
        None
    }
}

/// Reads a little-endian `u64` at `i`.
pub fn read_u64(b: &Vec<u8>, i: usize) -> (r: Option<(u64, usize)>)
    ensures
        match r {
            Some((x, j)) => dec_u64(b@, i as int) == Some((x, j as int)),
            None => dec_u64(b@, i as int) is None,
        },
{
    if b.len() >= 8 && i <= b.len() - 8 {
        let s = slice_subrange(b.as_slice(), i, i + 8);
        Some((u64_from_le_bytes(s), i + 8))
    } else {
        None
    }
}

/// Reads a length-prefixed byte string at `i`.
pub fn read_bytes(b: &Vec<u8>, i: usize) -> (r: Option<(Vec<u8>, usize)>)
    ensures
        match r {
            Some((v, j)) => dec_bytes(b@, i as int) == Some((v@, j as int)),
            None => dec_bytes(b@, i as int) is None,
        },
{
    match read_u64(b, i) {
        None => None,
        Some((n, j)) => {
            if n <= (b.len() - j) as u64 {
                let m = n as usize;
                let s = slice_subrange(b.as_slice(), j, j + m);
                Some((slice_to_vec(s), j + m))
            } else {
                None
            }
        },
    }
}

/// Establishes that real text always fits the encoding's length prefix.
pub fn note_text_fits(s: &String)
    ensures
        encode_utf8(s@).len() <= u64::MAX,
{
    let bs = s.as_str().as_bytes();
    proof {
        vstd::slice::axiom_spec_len(bs);
        assert(usize::MAX <= u64::MAX);
    }
}

/// Relies on `String::from_utf8`: yields the string whose UTF-8 encoding is
/// the given byte vector, and nothing when the bytes are not valid UTF-8.
#[verifier::external_body]
fn string_from_utf8(v: Vec<u8>) -> (r: Option<String>)
    ensures
        match r {
            Some(s) => valid_utf8(v@) && s@ == decode_utf8(v@),
            None => !valid_utf8(v@),
        },
{
    match String::from_utf8(v) {
        Ok(s) => Some(s),
        Err(_) => None,
    }
}

/// Reads length-prefixed UTF-8 text at `i`.
pub fn read_str(b: &Vec<u8>, i: usize) -> (r: Option<(String, usize)>)
    ensures
        match r {
            Some((s, j)) => dec_str(b@, i as int) == Some((s@, j as int)),
            None => dec_str(b@, i as int) is None,
        },
{
    match read_bytes(b, i) {
        None => None,
        Some((bs, j)) => match string_from_utf8(bs) {
            None => None,
            Some(s) => Some((s, j)),
        },
    }
}

/// Reads optional text behind a presence tag at `i`.
pub fn read_opt_str(b: &Vec<u8>, i: usize) -> (r: Option<(Option<String>, usize)>)
    ensures
        match r {
            Some((o, j)) => dec_opt_str(b@, i as int) == Some(
                (
                    match o {
                        Option::Some(ref s) => Some(s@),
                        Option::None => None,
                    },
                    j as int,
                ),
            ),
            None => dec_opt_str(b@, i as int) is None,
        },
{
    match read_u8(b, i) {
        None => None,
        Some((tag, j)) => {
            if tag == 0 {
                Some((None, j))
            } else if tag == 1 {
                match read_str(b, j) {
                    None => None,
                    Some((s, k)) => Some((Some(s), k)),
                }
            } else {
                None
            }
        },
    }
}

} // verus!
