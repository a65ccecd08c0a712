//! Byte-level primitives of the wire protocol: the compact variable-length
//! integer, the fixed 32-byte hash, the variable-length string and the
//! network-address record.
//!
//! Every value has a canonical byte encoding, given by a `spec` function
//! (`enc_*`), and a parser, given by a `spec` function (`dec_*`) over the
//! remaining input. The executable `encode`/`decode` methods are proved to
//! produce exactly those bytes and exactly those parses. Multi-byte integers
//! are little-endian except the port of a network address, which is
//! big-endian.

use vstd::prelude::*;
use vstd::bytes::*;
use vstd::slice::{slice_index_get, slice_subrange, slice_to_vec};

use crate::CodecError;

verus! {

/// Parse result of a `spec`-level parser: the value and the number of input
/// bytes it occupies, or the error the executable decoder reports.
pub type Parsed<T> = Result<(T, int), CodecError>;

// ---------------------------------------------------------------------------
// Fixed-width little-endian integers
// ---------------------------------------------------------------------------

pub open spec fn dec_u8(s: Seq<u8>) -> Parsed<u8> {
    if s.len() < 1 {
        Err(CodecError::UnexpectedEof)
    } else {
        Ok((s[0], 1))
    }
}

pub open spec fn dec_u16(s: Seq<u8>) -> Parsed<u16> {
    if s.len() < 2 {
        Err(CodecError::UnexpectedEof)
    } else {
        Ok((spec_u16_from_le_bytes(s.subrange(0, 2)), 2))
    }
}

pub open spec fn dec_u32(s: Seq<u8>) -> Parsed<u32> {
    if s.len() < 4 {
        Err(CodecError::UnexpectedEof)
    } else {
        Ok((spec_u32_from_le_bytes(s.subrange(0, 4)), 4))
    }
}

pub open spec fn dec_u64(s: Seq<u8>) -> Parsed<u64> {
    if s.len() < 8 {
        Err(CodecError::UnexpectedEof)
    } else {
        Ok((spec_u64_from_le_bytes(s.subrange(0, 8)), 8))
    }
}

/// Reads one byte and advances the cursor.
pub fn read_u8(bytes: &[u8], pos: &mut usize) -> (r: Result<u8, CodecError>)
    requires
        *old(pos) <= bytes@.len(),
    ensures
        *old(pos) <= *final(pos) <= bytes@.len(),
        match dec_u8(bytes@.skip(*old(pos) as int)) {
            Ok(p) => r == Ok::<u8, CodecError>(p.0) && *final(pos) == *old(pos) + p.1,
            Err(e) => r == Err::<u8, CodecError>(e) && *final(pos) == *old(pos),
        },
{
    if *pos < bytes.len() {
        let b = *slice_index_get(bytes, *pos);
        *pos = *pos + 1;
        Ok(b)
    } else {
        Err(CodecError::UnexpectedEof)
    }
}

/// Reads a little-endian `u16` and advances the cursor.
pub fn read_u16(bytes: &[u8], pos: &mut usize) -> (r: Result<u16, CodecError>)
    requires
        *old(pos) <= bytes@.len(),
    ensures
        *old(pos) <= *final(pos) <= bytes@.len(),
        match dec_u16(bytes@.skip(*old(pos) as int)) {
            Ok(p) => r == Ok::<u16, CodecError>(p.0) && *final(pos) == *old(pos) + p.1,
            Err(e) => r == Err::<u16, CodecError>(e) && *final(pos) == *old(pos),
        },
{
    if bytes.len() - *pos >= 2 {
        let sub = slice_subrange(bytes, *pos, *pos + 2);
        let v = u16_from_le_bytes(sub);
        *pos = *pos + 2;
        assert(bytes@.skip(*old(pos) as int).subrange(0, 2) =~= sub@);
        Ok(v)
    } else {
        Err(CodecError::UnexpectedEof)
    }
}

/// Reads a little-endian `u32` and advances the cursor.
pub fn read_u32(bytes: &[u8], pos: &mut usize) -> (r: Result<u32, CodecError>)
    requires
        *old(pos) <= bytes@.len(),
    ensures
        *old(pos) <= *final(pos) <= bytes@.len(),
        match dec_u32(bytes@.skip(*old(pos) as int)) {
            Ok(p) => r == Ok::<u32, CodecError>(p.0) && *final(pos) == *old(pos) + p.1,
            Err(e) => r == Err::<u32, CodecError>(e) && *final(pos) == *old(pos),
        },
{
    if bytes.len() - *pos >= 4 {
        let sub = slice_subrange(bytes, *pos, *pos + 4);
        let v = u32_from_le_bytes(sub);
        *pos = *pos + 4;
        assert(bytes@.skip(*old(pos) as int).subrange(0, 4) =~= sub@);
        Ok(v)
    } else {
        Err(CodecError::UnexpectedEof)
    }
}

/// Reads a little-endian `u64` and advances the cursor.
pub fn read_u64(bytes: &[u8], pos: &mut usize) -> (r: Result<u64, CodecError>)
    requires
        *old(pos) <= bytes@.len(),
    ensures
        *old(pos) <= *final(pos) <= bytes@.len(),
        match dec_u64(bytes@.skip(*old(pos) as int)) {
            Ok(p) => r == Ok::<u64, CodecError>(p.0) && *final(pos) == *old(pos) + p.1,
            Err(e) => r == Err::<u64, CodecError>(e) && *final(pos) == *old(pos),
        },
{
    if bytes.len() - *pos >= 8 {
        let sub = slice_subrange(bytes, *pos, *pos + 8);
        let v = u64_from_le_bytes(sub);
        *pos = *pos + 8;
        assert(bytes@.skip(*old(pos) as int).subrange(0, 8) =~= sub@);
        Ok(v)
    } else {
        Err(CodecError::UnexpectedEof)
    }
}

/// Appends the little-endian bytes of a `u16`.
pub fn write_u16(v: u16, buffer: &mut Vec<u8>)
    ensures
        final(buffer)@ == old(buffer)@ + spec_u16_to_le_bytes(v),
{
    let mut b = u16_to_le_bytes(v);
    buffer.append(&mut b);
}

/// Appends the little-endian bytes of a `u32`.
pub fn write_u32(v: u32, buffer: &mut Vec<u8>)
    ensures
        final(buffer)@ == old(buffer)@ + spec_u32_to_le_bytes(v),
{
    let mut b = u32_to_le_bytes(v);
    buffer.append(&mut b);
}

/// Appends the little-endian bytes of a `u64`.
pub fn write_u64(v: u64, buffer: &mut Vec<u8>)
    ensures
        final(buffer)@ == old(buffer)@ + spec_u64_to_le_bytes(v),
{
    let mut b = u64_to_le_bytes(v);
    buffer.append(&mut b);
}

// ---------------------------------------------------------------------------
// VarInt: the compact variable-length integer
// ---------------------------------------------------------------------------

/// A protocol variable-length integer. One byte below `0xFD` stands for
/// itself; `0xFD`, `0xFE` and `0xFF` prefix a little-endian `u16`, `u32` and
/// `u64` respectively.
#[derive(Clone, Copy, Debug, PartialEq, Eq, Structural)]
pub struct VarInt(pub u64);

/// The canonical (shortest) encoding of a variable-length integer.
pub open spec fn enc_varint(v: u64) -> Seq<u8> {
    if v < 0xFD {
        seq![v as u8]
    } else if v <= 0xFFFF {
        seq![0xFDu8] + spec_u16_to_le_bytes(v as u16)
    } else if v <= 0xFFFF_FFFF {
        seq![0xFEu8] + spec_u32_to_le_bytes(v as u32)
    } else {
        seq![0xFFu8] + spec_u64_to_le_bytes(v)
    }
}

/// The lenient parse of a variable-length integer: a non-canonical (wider
/// than necessary) form is accepted and yields the same value.
pub open spec fn dec_varint(s: Seq<u8>) -> Parsed<u64> {
    if s.len() < 1 {
        Err(CodecError::UnexpectedEof)
    } else if s[0] < 0xFD {
        Ok((s[0] as u64, 1))
    } else if s[0] == 0xFD {
        match dec_u16(s.skip(1)) {
            Ok(p) => Ok((p.0 as u64, 1 + p.1)),
            Err(e) => Err(e),
        }
    } else if s[0] == 0xFE {
        match dec_u32(s.skip(1)) {
            Ok(p) => Ok((p.0 as u64, 1 + p.1)),
            Err(e) => Err(e),
        }
    } else {
        match dec_u64(s.skip(1)) {
            Ok(p) => Ok((p.0 as u64, 1 + p.1)),
            Err(e) => Err(e),
        }
    }
}

impl VarInt {
    /// Writes the canonical encoding.
    pub fn encode(&self, buffer: &mut Vec<u8>) -> (r: Result<(), CodecError>)
        ensures
            r == Ok::<(), CodecError>(()),
            final(buffer)@ == old(buffer)@ + enc_varint(self.0),
    {
        let v = self.0;
        if v < 0xFD {
            buffer.push(v as u8);
            assert(buffer@ =~= old(buffer)@ + enc_varint(v));
        } else if v <= 0xFFFF {
            buffer.push(0xFD);
            write_u16(v as u16, buffer);
            assert(buffer@ =~= old(buffer)@ + enc_varint(v));
        } else if v <= 0xFFFF_FFFF {
            buffer.push(0xFE);
            write_u32(v as u32, buffer);
            assert(buffer@ =~= old(buffer)@ + enc_varint(v));
        } else {
            buffer.push(0xFF);
            write_u64(v, buffer);
            assert(buffer@ =~= old(buffer)@ + enc_varint(v));
        }
        Ok(())
    }

    /// Reads a variable-length integer, leniently: a non-canonical form is
    /// accepted and yields the same value.
    pub fn decode(bytes: &[u8], pos: &mut usize) -> (r: Result<Self, CodecError>)
        requires
            *old(pos) <= bytes@.len(),
        ensures
            *old(pos) <= *final(pos) <= bytes@.len(),
            match dec_varint(bytes@.skip(*old(pos) as int)) {
                Ok(p) => r == Ok::<VarInt, CodecError>(VarInt(p.0)) && *final(pos) == *old(pos)
                    + p.1,
                Err(e) => r == Err::<VarInt, CodecError>(e) && *final(pos) == *old(pos),
            },
    {
        let ghost rest = bytes@.skip(*old(pos) as int);
        let tag = match read_u8(bytes, pos) {
            Ok(b) => b,
            Err(e) => {
                return Err(e);
            },
        };
        proof {
            assert(rest.skip(1) =~= bytes@.skip(*pos as int));
        }
        if tag < 0xFD {
            Ok(VarInt(tag as u64))
        } else if tag == 0xFD {
            match read_u16(bytes, pos) {
                Ok(v) => Ok(VarInt(v as u64)),
                Err(e) => {
                    *pos = *pos - 1;
                    Err(e)
                },
            }
        } else if tag == 0xFE {
            match read_u32(bytes, pos) {
                Ok(v) => Ok(VarInt(v as u64)),
                Err(e) => {
                    *pos = *pos - 1;
                    Err(e)
                },
            }
        } else {
            match read_u64(bytes, pos) {
                Ok(v) => Ok(VarInt(v as u64)),
                Err(e) => {
                    *pos = *pos - 1;
                    Err(e)
                },
            }
        }
    }
}

/// The strict parse of a variable-length integer: a non-canonical (wider
/// than necessary) form is refused as malformed.
pub open spec fn dec_varint_strict(s: Seq<u8>) -> Parsed<u64> {
    match dec_varint(s) {
        Err(e) => Err(e),
        Ok(p) => if p.1 == enc_varint(p.0).len() {
            Ok(p)
        } else {
            Err(CodecError::InvalidData)
        },
    }
}

impl VarInt {
    /// Reads a variable-length integer, strictly: only the canonical
    /// (shortest) form is accepted; a wider form is malformed. This is
    /// the opt-in alternative to the lenient `decode`.
    pub fn decode_strict(bytes: &[u8], pos: &mut usize) -> (r: Result<Self, CodecError>)
        requires
            *old(pos) <= bytes@.len(),
        ensures
            *old(pos) <= *final(pos) <= bytes@.len(),
            match dec_varint_strict(bytes@.skip(*old(pos) as int)) {
                Ok(p) => r == Ok::<VarInt, CodecError>(VarInt(p.0)) && *final(pos) == *old(pos)
                    + p.1,
                Err(e) => r == Err::<VarInt, CodecError>(e) && *final(pos) == *old(pos),
            },
    {
        let start: usize = *pos;
        let v = match VarInt::decode(bytes, pos) {
            Ok(v) => v,
            Err(e) => {
                return Err(e);
            },
        };
        let consumed = *pos - start;
        let canonical: usize = if v.0 < 0xFD {
            1
        } else if v.0 <= 0xFFFF {
            3
        } else if v.0 <= 0xFFFF_FFFF {
            5
        } else {
            9
        };
        proof {
            lemma_auto_spec_u16_to_from_le_bytes();
            lemma_auto_spec_u32_to_from_le_bytes();
            lemma_auto_spec_u64_to_from_le_bytes();
            assert(canonical as int == enc_varint(v.0).len());
        }
        if consumed != canonical {
            *pos = start;
            return Err(CodecError::InvalidData);
        }
        Ok(v)
    }
}

/// A canonical variable-length integer parses back to the value it encodes,
/// whatever follows it.
pub proof fn lemma_varint_roundtrip(v: u64, tail: Seq<u8>)
    ensures
        dec_varint(enc_varint(v) + tail) == Ok::<(u64, int), CodecError>((v, enc_varint(v).len() as int)),
{
    let s = enc_varint(v) + tail;
    if v < 0xFD {
        assert(s[0] == v as u8);
    } else if v <= 0xFFFF {
        lemma_auto_spec_u16_to_from_le_bytes();
        assert(s[0] == 0xFDu8);
        assert(s.skip(1).subrange(0, 2) =~= spec_u16_to_le_bytes(v as u16));
        assert(s.skip(1).len() >= 2);
    } else if v <= 0xFFFF_FFFF {
        lemma_auto_spec_u32_to_from_le_bytes();
        assert(s[0] == 0xFEu8);
        assert(s.skip(1).subrange(0, 4) =~= spec_u32_to_le_bytes(v as u32));
        assert(s.skip(1).len() >= 4);
    } else {
        lemma_auto_spec_u64_to_from_le_bytes();
        assert(s[0] == 0xFFu8);
        assert(s.skip(1).subrange(0, 8) =~= spec_u64_to_le_bytes(v));
        assert(s.skip(1).len() >= 8);
    }
}


// ---------------------------------------------------------------------------
// Wire values: one shared shape for encoders and parsers
// ---------------------------------------------------------------------------

/// A value with a place on the wire. `enc` gives the canonical bytes of its
/// mathematical model, `dec` the parse of a model value from the head of the
/// input, and the executable `encode`/`decode` are proved against the two.
/// `roundtrip` obliges every implementation to show that a canonical
/// encoding parses back to the value it came from.
pub trait Wire: View + Sized {
    /// Canonical encoding of a model value.
    spec fn enc(v: Self::V) -> Seq<u8>;

    /// Parse of a model value from the head of the input.
    spec fn dec(s: Seq<u8>) -> Parsed<Self::V>;

    /// Which model values an executable value can hold (at least: the models
    /// of all reachable executable values). Encodings are only claimed to
    /// parse back for these.
    spec fn wf(v: Self::V) -> bool;

    /// A canonical encoding parses back to its value, whatever follows it.
    proof fn roundtrip(v: Self::V, tail: Seq<u8>)
        requires
            Self::wf(v),
        ensures
            Self::dec(Self::enc(v) + tail) == Ok::<(Self::V, int), CodecError>(
                (v, Self::enc(v).len() as int),
            ),
    ;

    /// Appends the canonical encoding of `self`.
    fn encode(&self, buffer: &mut Vec<u8>) -> (r: Result<(), CodecError>)
        ensures
            r == Ok::<(), CodecError>(()),
            final(buffer)@ == old(buffer)@ + Self::enc(self@),
    ;

    /// Reads one value from the cursor, exactly as `dec` parses it.
    fn decode(bytes: &[u8], pos: &mut usize) -> (r: Result<Self, CodecError>)
        requires
            *old(pos) <= bytes@.len(),
        ensures
            *old(pos) <= *final(pos) <= bytes@.len(),
            match Self::dec(bytes@.skip(*old(pos) as int)) {
                Ok(p) => r matches Ok(v) && v@ == p.0 && *final(pos) == *old(pos) + p.1,
                Err(e) => r == Err::<Self, CodecError>(e) && *final(pos) == *old(pos),
            },
    ;
}

/// The models of a sequence of encodable values.
pub open spec fn seq_view<T: View>(s: Seq<T>) -> Seq<T::V> {
    s.map_values(|x: T| x@)
}

/// Concatenation of the canonical encodings of a list of model values.
pub open spec fn enc_list<T: Wire>(s: Seq<T::V>) -> Seq<u8>
    decreases s.len(),
{
    if s.len() == 0 {
        Seq::empty()
    } else {
        T::enc(s[0]) + enc_list::<T>(s.skip(1))
    }
}

/// Parse of exactly `n` consecutive values.
pub open spec fn dec_list<T: Wire>(s: Seq<u8>, n: nat) -> Parsed<Seq<T::V>>
    decreases n,
{
    if n == 0 {
        Ok((Seq::empty(), 0))
    } else {
        match T::dec(s) {
            Err(e) => Err(e),
            Ok(p) => match dec_list::<T>(s.skip(p.1), (n - 1) as nat) {
                Err(e) => Err(e),
                Ok(q) => Ok((seq![p.0] + q.0, p.1 + q.1)),
            },
        }
    }
}

/// Appending one value to a list extends its encoding at the end.
pub proof fn lemma_enc_list_push<T: Wire>(s: Seq<T::V>, v: T::V)
    ensures
        enc_list::<T>(s.push(v)) == enc_list::<T>(s) + T::enc(v),
    decreases s.len(),
{
    let t = s.push(v);
    assert(t.len() == s.len() + 1);
    assert(t[0] == if s.len() == 0 { v } else { s[0] });
    if s.len() == 0 {
        assert(t.skip(1) =~= Seq::<T::V>::empty());
        assert(enc_list::<T>(t) == T::enc(v) + enc_list::<T>(t.skip(1)));
        assert(enc_list::<T>(Seq::<T::V>::empty()) == Seq::<u8>::empty());
        assert(enc_list::<T>(t) =~= enc_list::<T>(s) + T::enc(v));
    } else {
        assert(t.skip(1) =~= s.skip(1).push(v));
        lemma_enc_list_push::<T>(s.skip(1), v);
        assert(enc_list::<T>(t) == T::enc(s[0]) + enc_list::<T>(s.skip(1).push(v)));
        assert(enc_list::<T>(t) =~= enc_list::<T>(s) + T::enc(v));
    }
}

/// A list of canonical encodings parses back to the values it came from,
/// whatever follows it.
pub proof fn lemma_list_roundtrip<T: Wire>(s: Seq<T::V>, tail: Seq<u8>)
    requires
        forall|i: int| 0 <= i < s.len() ==> T::wf(#[trigger] s[i]),
    ensures
        dec_list::<T>(enc_list::<T>(s) + tail, s.len()) == Ok::<(Seq<T::V>, int), CodecError>(
            (s, enc_list::<T>(s).len() as int),
        ),
    decreases s.len(),
{
    if s.len() == 0 {
        assert(s =~= Seq::<T::V>::empty());
    } else {
        let v = s[0];
        let rest = s.skip(1);
        let whole = enc_list::<T>(s) + tail;
        assert(whole =~= T::enc(v) + (enc_list::<T>(rest) + tail));
        T::roundtrip(v, enc_list::<T>(rest) + tail);
        assert(whole.skip(T::enc(v).len() as int) =~= enc_list::<T>(rest) + tail);
        lemma_list_roundtrip::<T>(rest, tail);
        assert(seq![v] + rest =~= s);
    }
}

/// Encodes each value of the list in order.
pub fn encode_list<T: Wire>(items: &Vec<T>, buffer: &mut Vec<u8>) -> (r: Result<(), CodecError>)
    ensures
        r == Ok::<(), CodecError>(()),
        final(buffer)@ == old(buffer)@ + enc_list::<T>(seq_view(items@)),
{
    let n = items.len();
    for i in 0..n
        invariant
            n == items@.len(),
            buffer@ == old(buffer)@ + enc_list::<T>(seq_view(items@.take(i as int))),
    {
        let ghost pre = seq_view(items@.take(i as int));
        let _ = items[i].encode(buffer);
        proof {
            assert(seq_view(items@.take(i + 1)) =~= pre.push(items@[i as int]@));
            lemma_enc_list_push::<T>(pre, items@[i as int]@);
        }
    }
    assert(items@.take(n as int) =~= items@);
    Ok(())
}

/// Prefixes an already-read chunk of values and bytes to a parse of the
/// remainder.
pub open spec fn dec_prepend<V>(pre: Seq<V>, off: int, q: Parsed<Seq<V>>) -> Parsed<Seq<V>> {
    match q {
        Ok(p) => Ok((pre + p.0, off + p.1)),
        Err(e) => Err(e),
    }
}

/// Reads exactly `count` values from the cursor, exactly as `dec_list`
/// parses them.
pub fn decode_list<T: Wire>(bytes: &[u8], pos: &mut usize, count: u64) -> (r: Result<
    Vec<T>,
    CodecError,
>)
    requires
        *old(pos) <= bytes@.len(),
    ensures
        *old(pos) <= *final(pos) <= bytes@.len(),
        match dec_list::<T>(bytes@.skip(*old(pos) as int), count as nat) {
            Ok(p) => r matches Ok(v) && seq_view(v@) == p.0 && *final(pos) == *old(pos) + p.1,
            Err(e) => r == Err::<Vec<T>, CodecError>(e) && *final(pos) == *old(pos),
        },
{
    let start: usize = *pos;
    let mut items: Vec<T> = Vec::new();
    let mut i: u64 = 0;
    proof {
        assert(seq_view(items@) =~= Seq::<T::V>::empty());
        let q = dec_list::<T>(bytes@.skip(start as int), count as nat);
        if q is Ok {
            assert(seq_view(items@) + q->Ok_0.0 =~= q->Ok_0.0);
        }
    }
    while i < count
        invariant
            i <= count,
            start == *old(pos),
            start <= *pos <= bytes@.len(),
            items@.len() == i,
            dec_list::<T>(bytes@.skip(start as int), count as nat) == dec_prepend(
                seq_view(items@),
                *pos - start,
                dec_list::<T>(bytes@.skip(*pos as int), (count - i) as nat),
            ),
        decreases count - i,
    {
        let ghost pos_before = *pos;
        let ghost items_before = items@;
        match T::decode(bytes, pos) {
            Ok(v) => {
                items.push(v);
                i = i + 1;
                proof {
                    let p = T::dec(bytes@.skip(pos_before as int))->Ok_0;
                    assert(bytes@.skip(pos_before as int).skip(p.1) =~= bytes@.skip(*pos as int));
                    assert(seq_view(items@) =~= seq_view(items_before).push(p.0));
                    let q = dec_list::<T>(bytes@.skip(*pos as int), (count - i) as nat);
                    if q is Ok {
                        let p2 = q->Ok_0;
                        assert(seq_view(items_before) + (seq![p.0] + p2.0) =~= seq_view(items@)
                            + p2.0);
                    }
                }
            },
            Err(e) => {
                proof {
                    assert((count - i) as nat > 0);
                }
                *pos = start;
                return Err(e);
            },
        }
    }
    proof {
        assert(dec_list::<T>(bytes@.skip(*pos as int), 0nat) == Ok::<(Seq<T::V>, int), CodecError>(
            (Seq::empty(), 0),
        ));
        assert(seq_view(items@) + Seq::<T::V>::empty() =~= seq_view(items@));
    }
    Ok(items)
}

// ---------------------------------------------------------------------------
// Hash256: the fixed 32-byte value
// ---------------------------------------------------------------------------

/// A 32-byte hash (or other fixed 32-byte value), held as four `u64` words
/// in wire order: word `i` covers bytes `8*i .. 8*i + 8`, little-endian.
/// Equality is therefore byte-wise equality of the encoding. The all-zero
/// hash is the sentinel "stop" value.
#[derive(Clone, Copy, Debug, PartialEq, Eq, Structural)]
pub struct Hash256 {
    pub w0: u64,
    pub w1: u64,
    pub w2: u64,
    pub w3: u64,
}

/// The 32 bytes of a hash.
pub open spec fn enc_hash(h: Hash256) -> Seq<u8> {
    spec_u64_to_le_bytes(h.w0) + spec_u64_to_le_bytes(h.w1) + spec_u64_to_le_bytes(h.w2)
        + spec_u64_to_le_bytes(h.w3)
}

/// The hash whose encoding is the first 32 bytes of `s`.
pub open spec fn hash_of_bytes(s: Seq<u8>) -> Hash256
    recommends
        s.len() >= 32,
{
    Hash256 {
        w0: spec_u64_from_le_bytes(s.subrange(0, 8)),
        w1: spec_u64_from_le_bytes(s.subrange(8, 16)),
        w2: spec_u64_from_le_bytes(s.subrange(16, 24)),
        w3: spec_u64_from_le_bytes(s.subrange(24, 32)),
    }
}

pub open spec fn dec_hash(s: Seq<u8>) -> Parsed<Hash256> {
    if s.len() < 32 {
        Err(CodecError::UnexpectedEof)
    } else {
        Ok((hash_of_bytes(s), 32))
    }
}

/// The all-zero hash.
pub open spec fn zero_hash() -> Hash256 {
    Hash256 { w0: 0, w1: 0, w2: 0, w3: 0 }
}

/// A 32-byte sequence is recovered from the hash it denotes.
pub proof fn lemma_hash_of_bytes_inverse(s: Seq<u8>)
    requires
        s.len() == 32,
    ensures
        enc_hash(hash_of_bytes(s)) == s,
{
    lemma_auto_spec_u64_to_from_le_bytes();
    assert(enc_hash(hash_of_bytes(s)) =~= s);
}

impl View for Hash256 {
    type V = Hash256;

    open spec fn view(&self) -> Hash256 {
        *self
    }
}

impl Wire for Hash256 {
    open spec fn enc(v: Hash256) -> Seq<u8> {
        enc_hash(v)
    }

    open spec fn dec(s: Seq<u8>) -> Parsed<Hash256> {
        dec_hash(s)
    }

    open spec fn wf(v: Hash256) -> bool {
        true
    }

    proof fn roundtrip(v: Hash256, tail: Seq<u8>) {
        lemma_auto_spec_u64_to_from_le_bytes();
        let s = enc_hash(v) + tail;
        assert(s.subrange(0, 8) =~= spec_u64_to_le_bytes(v.w0));
        assert(s.subrange(8, 16) =~= spec_u64_to_le_bytes(v.w1));
        assert(s.subrange(16, 24) =~= spec_u64_to_le_bytes(v.w2));
        assert(s.subrange(24, 32) =~= spec_u64_to_le_bytes(v.w3));
    }

    fn encode(&self, buffer: &mut Vec<u8>) -> (r: Result<(), CodecError>) {
        write_u64(self.w0, buffer);
        write_u64(self.w1, buffer);
        write_u64(self.w2, buffer);
        write_u64(self.w3, buffer);
        assert(buffer@ =~= old(buffer)@ + enc_hash(*self));
        Ok(())
    }

    fn decode(bytes: &[u8], pos: &mut usize) -> (r: Result<Self, CodecError>) {
        let ghost rest = bytes@.skip(*old(pos) as int);
        if bytes.len() - *pos < 32 {
            return Err(CodecError::UnexpectedEof);
        }
        proof {
            assert(rest.subrange(0, 8) =~= rest.subrange(0, 8));
        }
        let w0 = match read_u64(bytes, pos) {
            Ok(v) => v,
            Err(e) => { return Err(e); },
        };
        let w1 = match read_u64(bytes, pos) {
            Ok(v) => v,
            Err(e) => { return Err(e); },
        };
        let w2 = match read_u64(bytes, pos) {
            Ok(v) => v,
            Err(e) => { return Err(e); },
        };
        let w3 = match read_u64(bytes, pos) {
            Ok(v) => v,
            Err(e) => { return Err(e); },
        };
        proof {
            assert(rest.subrange(0, 8) =~= rest.skip(0).subrange(0, 8));
            assert(rest.subrange(8, 16) =~= rest.skip(8).subrange(0, 8));
            assert(rest.subrange(16, 24) =~= rest.skip(16).subrange(0, 8));
            assert(rest.subrange(24, 32) =~= rest.skip(24).subrange(0, 8));
            assert(bytes@.skip(*old(pos) + 8) =~= rest.skip(8));
            assert(bytes@.skip(*old(pos) + 16) =~= rest.skip(16));
            assert(bytes@.skip(*old(pos) + 24) =~= rest.skip(24));
        }
        Ok(Hash256 { w0, w1, w2, w3 })
    }
}

impl Hash256 {
    /// A hash from its 32 wire bytes.
    pub fn new(bytes: [u8; 32]) -> (h: Hash256)
        ensures
            enc_hash(h) == bytes@,
            h == hash_of_bytes(bytes@),
    {
        let s = bytes.as_slice();
        let h = Hash256 {
            w0: u64_from_le_bytes(slice_subrange(s, 0, 8)),
            w1: u64_from_le_bytes(slice_subrange(s, 8, 16)),
            w2: u64_from_le_bytes(slice_subrange(s, 16, 24)),
            w3: u64_from_le_bytes(slice_subrange(s, 24, 32)),
        };
        proof {
            lemma_hash_of_bytes_inverse(bytes@);
        }
        h
    }

    /// A hash from 32 bytes held in a vector.
    pub fn from_bytes(bytes: &Vec<u8>) -> (h: Hash256)
        requires
            bytes@.len() == 32,
        ensures
            enc_hash(h) == bytes@,
            h == hash_of_bytes(bytes@),
    {
        let s = bytes.as_slice();
        let h = Hash256 {
            w0: u64_from_le_bytes(slice_subrange(s, 0, 8)),
            w1: u64_from_le_bytes(slice_subrange(s, 8, 16)),
            w2: u64_from_le_bytes(slice_subrange(s, 16, 24)),
            w3: u64_from_le_bytes(slice_subrange(s, 24, 32)),
        };
        proof {
            lemma_hash_of_bytes_inverse(bytes@);
        }
        h
    }

    /// The all-zero hash: the sentinel "stop" value.
    pub fn zeroed() -> (h: Hash256)
        ensures
            h == zero_hash(),
    {
        Hash256 { w0: 0, w1: 0, w2: 0, w3: 0 }
    }

    /// Whether this is the all-zero sentinel.
    pub fn is_zero(&self) -> (r: bool)
        ensures
            r == (*self == zero_hash()),
    {
        self.w0 == 0 && self.w1 == 0 && self.w2 == 0 && self.w3 == 0
    }
}

// ---------------------------------------------------------------------------
// VarStr: a length-prefixed byte string
// ---------------------------------------------------------------------------

/// A variable-length string: a `VarInt` length followed by that many bytes.
/// The bytes are carried as they stand on the wire; whether they are valid
/// UTF-8 is no concern of the codec.
#[derive(Clone, Debug, PartialEq, Eq)]
pub struct VarStr(pub Vec<u8>);

/// The canonical encoding of a byte string: shortest length prefix, then the
/// bytes.
pub open spec fn enc_varstr(v: Seq<u8>) -> Seq<u8> {
    enc_varint(v.len() as u64) + v
}

pub open spec fn dec_varstr(s: Seq<u8>) -> Parsed<Seq<u8>> {
    match dec_varint(s) {
        Err(e) => Err(e),
        Ok(p) => if s.len() - p.1 < p.0 {
            Err(CodecError::UnexpectedEof)
        } else {
            Ok((s.subrange(p.1, p.1 + p.0), p.1 + p.0))
        },
    }
}

impl View for VarStr {
    type V = Seq<u8>;

    open spec fn view(&self) -> Seq<u8> {
        self.0@
    }
}

impl Wire for VarStr {
    open spec fn enc(v: Seq<u8>) -> Seq<u8> {
        enc_varstr(v)
    }

    open spec fn dec(s: Seq<u8>) -> Parsed<Seq<u8>> {
        dec_varstr(s)
    }

    open spec fn wf(v: Seq<u8>) -> bool {
        v.len() <= u64::MAX
    }

    proof fn roundtrip(v: Seq<u8>, tail: Seq<u8>) {
        let n = v.len() as u64;
        lemma_varint_roundtrip(n, v + tail);
        let s = enc_varstr(v) + tail;
        assert(s =~= enc_varint(n) + (v + tail));
        let k = enc_varint(n).len() as int;
        assert(s.subrange(k, k + n as int) =~= v);
    }

    fn encode(&self, buffer: &mut Vec<u8>) -> (r: Result<(), CodecError>) {
        let n = VarInt(self.0.len() as u64);
        let _ = n.encode(buffer);
        let mut body = self.0.clone();
        buffer.append(&mut body);
        assert(buffer@ =~= old(buffer)@ + enc_varstr(self@));
        Ok(())
    }

    fn decode(bytes: &[u8], pos: &mut usize) -> (r: Result<Self, CodecError>) {
        let start: usize = *pos;
        let ghost rest = bytes@.skip(start as int);
        let n = match VarInt::decode(bytes, pos) {
            Ok(v) => v.0,
            Err(e) => { return Err(e); },
        };
        let remaining: u64 = (bytes.len() - *pos) as u64;
        if remaining < n {
            *pos = start;
            return Err(CodecError::UnexpectedEof);
        }
        let len = n as usize;
        let body = slice_to_vec(slice_subrange(bytes, *pos, *pos + len));
        proof {
            let k = (*pos - start) as int;
            assert(rest.subrange(k, k + n as int) =~= bytes@.subrange(
                *pos as int,
                *pos + n as int,
            ));
        }
        *pos = *pos + len;
        Ok(VarStr(body))
    }
}

impl VarStr {
    /// An empty string.
    pub fn empty() -> (r: VarStr)
        ensures
            r@ == Seq::<u8>::empty(),
    {
        VarStr(Vec::new())
    }
}

// ---------------------------------------------------------------------------
// Network addresses
// ---------------------------------------------------------------------------

/// A transport endpoint: a 16-byte IP (IPv4 mapped into IPv6) and a port.
/// The IP bytes are packed in wire order into two `u64` words (word `hi`
/// covers bytes 0..8, little-endian, word `lo` bytes 8..16); the port is
/// carried big-endian on the wire.
#[derive(Clone, Copy, Debug, PartialEq, Eq, Structural)]
pub struct NodeAddr {
    pub ip_hi: u64,
    pub ip_lo: u64,
    pub port: u16,
}

/// The 18 wire bytes of an endpoint: 16 IP bytes then the big-endian port.
pub open spec fn enc_nodeaddr(a: NodeAddr) -> Seq<u8> {
    spec_u64_to_le_bytes(a.ip_hi) + spec_u64_to_le_bytes(a.ip_lo) + seq![
        (a.port / 256) as u8,
        (a.port % 256) as u8,
    ]
}

pub open spec fn dec_nodeaddr(s: Seq<u8>) -> Parsed<NodeAddr> {
    if s.len() < 18 {
        Err(CodecError::UnexpectedEof)
    } else {
        Ok(
            (
                NodeAddr {
                    ip_hi: spec_u64_from_le_bytes(s.subrange(0, 8)),
                    ip_lo: spec_u64_from_le_bytes(s.subrange(8, 16)),
                    port: ((s[16] as u16) * 256 + (s[17] as u16)) as u16,
                },
                18,
            ),
        )
    }
}

impl View for NodeAddr {
    type V = NodeAddr;

    open spec fn view(&self) -> NodeAddr {
        *self
    }
}

impl Wire for NodeAddr {
    open spec fn enc(v: NodeAddr) -> Seq<u8> {
        enc_nodeaddr(v)
    }

    open spec fn dec(s: Seq<u8>) -> Parsed<NodeAddr> {
        dec_nodeaddr(s)
    }

    open spec fn wf(v: NodeAddr) -> bool {
        true
    }

    proof fn roundtrip(v: NodeAddr, tail: Seq<u8>) {
        lemma_auto_spec_u64_to_from_le_bytes();
        let s = enc_nodeaddr(v) + tail;
        assert(s.subrange(0, 8) =~= spec_u64_to_le_bytes(v.ip_hi));
        assert(s.subrange(8, 16) =~= spec_u64_to_le_bytes(v.ip_lo));
        assert(s[16] == (v.port / 256) as u8);
        assert(s[17] == (v.port % 256) as u8);
    }

    fn encode(&self, buffer: &mut Vec<u8>) -> (r: Result<(), CodecError>) {
        write_u64(self.ip_hi, buffer);
        write_u64(self.ip_lo, buffer);
        buffer.push((self.port / 256) as u8);
        buffer.push((self.port % 256) as u8);
        assert(buffer@ =~= old(buffer)@ + enc_nodeaddr(*self));
        Ok(())
    }

    fn decode(bytes: &[u8], pos: &mut usize) -> (r: Result<Self, CodecError>) {
        let start: usize = *pos;
        let ghost rest = bytes@.skip(start as int);
        if bytes.len() - *pos < 18 {
            return Err(CodecError::UnexpectedEof);
        }
        let ip_hi = match read_u64(bytes, pos) {
            Ok(v) => v,
            Err(e) => { return Err(e); },
        };
        let ip_lo = match read_u64(bytes, pos) {
            Ok(v) => v,
            Err(e) => { *pos = start; return Err(e); },
        };
        let b0 = match read_u8(bytes, pos) {
            Ok(v) => v,
            Err(e) => { *pos = start; return Err(e); },
        };
        let b1 = match read_u8(bytes, pos) {
            Ok(v) => v,
            Err(e) => { *pos = start; return Err(e); },
        };
        proof {
            assert(rest.subrange(0, 8) =~= rest.subrange(0, 8));
            assert(rest.subrange(8, 16) =~= bytes@.skip(start + 8).subrange(0, 8));
            assert(rest[16] == bytes@.skip(start + 16)[0]);
            assert(rest[17] == bytes@.skip(start + 17)[0]);
        }
        Ok(NodeAddr { ip_hi, ip_lo, port: (b0 as u16) * 256 + (b1 as u16) })
    }
}

/// A peer record as gossiped in `addr`: the seconds-precision timestamp of
/// last contact, the peer's service bits and its endpoint. The timestamp is
/// present here and absent in the `version` message.
#[derive(Clone, Copy, Debug, PartialEq, Eq, Structural)]
pub struct NetworkAddr {
    pub timestamp: u32,
    pub services: u64,
    pub addr: NodeAddr,
}

/// The 30 wire bytes of a peer record.
pub open spec fn enc_netaddr(a: NetworkAddr) -> Seq<u8> {
    spec_u32_to_le_bytes(a.timestamp) + spec_u64_to_le_bytes(a.services) + enc_nodeaddr(a.addr)
}

pub open spec fn dec_netaddr(s: Seq<u8>) -> Parsed<NetworkAddr> {
    if s.len() < 30 {
        Err(CodecError::UnexpectedEof)
    } else {
        match dec_nodeaddr(s.skip(12)) {
            Err(e) => Err(e),
            Ok(p) => Ok(
                (
                    NetworkAddr {
                        timestamp: spec_u32_from_le_bytes(s.subrange(0, 4)),
                        services: spec_u64_from_le_bytes(s.subrange(4, 12)),
                        addr: p.0,
                    },
                    30,
                ),
            ),
        }
    }
}

impl View for NetworkAddr {
    type V = NetworkAddr;

    open spec fn view(&self) -> NetworkAddr {
        *self
    }
}

impl Wire for NetworkAddr {
    open spec fn enc(v: NetworkAddr) -> Seq<u8> {
        enc_netaddr(v)
    }

    open spec fn dec(s: Seq<u8>) -> Parsed<NetworkAddr> {
        dec_netaddr(s)
    }

    open spec fn wf(v: NetworkAddr) -> bool {
        true
    }

    proof fn roundtrip(v: NetworkAddr, tail: Seq<u8>) {
        lemma_auto_spec_u32_to_from_le_bytes();
        lemma_auto_spec_u64_to_from_le_bytes();
        let s = enc_netaddr(v) + tail;
        assert(s.subrange(0, 4) =~= spec_u32_to_le_bytes(v.timestamp));
        assert(s.subrange(4, 12) =~= spec_u64_to_le_bytes(v.services));
        assert(s.skip(12) =~= enc_nodeaddr(v.addr) + tail);
        NodeAddr::roundtrip(v.addr, tail);
    }

    fn encode(&self, buffer: &mut Vec<u8>) -> (r: Result<(), CodecError>) {
        write_u32(self.timestamp, buffer);
        write_u64(self.services, buffer);
        let _ = self.addr.encode(buffer);
        assert(buffer@ =~= old(buffer)@ + enc_netaddr(*self));
        Ok(())
    }

    fn decode(bytes: &[u8], pos: &mut usize) -> (r: Result<Self, CodecError>) {
        let start: usize = *pos;
        let ghost rest = bytes@.skip(start as int);
        if bytes.len() - *pos < 30 {
            return Err(CodecError::UnexpectedEof);
        }
        let timestamp = match read_u32(bytes, pos) {
            Ok(v) => v,
            Err(e) => { return Err(e); },
        };
        let services = match read_u64(bytes, pos) {
            Ok(v) => v,
            Err(e) => { *pos = start; return Err(e); },
        };
        let addr = match NodeAddr::decode(bytes, pos) {
            Ok(v) => v,
            Err(e) => { *pos = start; return Err(e); },
        };
        proof {
            assert(rest.subrange(0, 4) =~= rest.subrange(0, 4));
            assert(rest.subrange(4, 12) =~= bytes@.skip(start + 4).subrange(0, 8));
            assert(rest.skip(12) =~= bytes@.skip(start + 12));
        }
        Ok(NetworkAddr { timestamp, services, addr })
    }
}

impl NetworkAddr {
    /// A fresh record for an endpoint, with no timestamp and no service
    /// bits yet.
    pub fn new(addr: NodeAddr) -> (r: NetworkAddr)
        ensures
            r == (NetworkAddr { timestamp: 0, services: 0, addr }),
    {
        NetworkAddr { timestamp: 0, services: 0, addr }
    }
}

} // verus!
