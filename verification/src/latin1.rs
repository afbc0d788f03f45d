//! Windows-1252 ("Latin-1") strings, the text encoding of every TES3 format.

use vstd::prelude::*;
use crate::text::push_char;
use vstd::utf8::encode_utf8;

verus! {

/// The character a Windows-1252 byte stands for. Bytes outside `0x80..=0x9F` map to
/// the code point of the same value; the five bytes Windows-1252 leaves unassigned map
/// to the C1 control of the same value.
pub open spec fn decode_byte(b: u8) -> char {
    if b == 0x80 { '\u{20AC}' }
    else if b == 0x82 { '\u{201A}' }
    else if b == 0x83 { '\u{0192}' }
    else if b == 0x84 { '\u{201E}' }
    else if b == 0x85 { '\u{2026}' }
    else if b == 0x86 { '\u{2020}' }
    else if b == 0x87 { '\u{2021}' }
    else if b == 0x88 { '\u{02C6}' }
    else if b == 0x89 { '\u{2030}' }
    else if b == 0x8A { '\u{0160}' }
    else if b == 0x8B { '\u{2039}' }
    else if b == 0x8C { '\u{0152}' }
    else if b == 0x8E { '\u{017D}' }
    else if b == 0x91 { '\u{2018}' }
    else if b == 0x92 { '\u{2019}' }
    else if b == 0x93 { '\u{201C}' }
    else if b == 0x94 { '\u{201D}' }
    else if b == 0x95 { '\u{2022}' }
    else if b == 0x96 { '\u{2013}' }
    else if b == 0x97 { '\u{2014}' }
    else if b == 0x98 { '\u{02DC}' }
    else if b == 0x99 { '\u{2122}' }
    else if b == 0x9A { '\u{0161}' }
    else if b == 0x9B { '\u{203A}' }
    else if b == 0x9C { '\u{0153}' }
    else if b == 0x9E { '\u{017E}' }
    else if b == 0x9F { '\u{0178}' }
    else { b as char }
}

/// The text that a Windows-1252 byte sequence stands for, one character per byte.
pub open spec fn decode(bytes: Seq<u8>) -> Seq<char> {
    bytes.map_values(|b: u8| decode_byte(b))
}

/// Every byte is ASCII (below 0x80).
pub open spec fn is_ascii_bytes(bytes: Seq<u8>) -> bool {
    forall|i: int| 0 <= i < bytes.len() ==> #[trigger] bytes[i] < 0x80
}

proof fn lemma_ascii_low_bits(v: u32)
    by (bit_vector)
    requires
        v < 0x80,
    ensures
        (v & 0x7f) == v,
{
}

/// ASCII bytes come back unchanged from decoding and re-encoding: the UTF-8 bytes of
/// their decoded text are the bytes themselves.
pub proof fn lemma_decode_ascii_utf8(bytes: Seq<u8>)
    requires
        is_ascii_bytes(bytes),
    ensures
        encode_utf8(decode(bytes)) == bytes,
    decreases bytes.len(),
{
    if bytes.len() > 0 {
        let rest = bytes.drop_first();
        assert(is_ascii_bytes(rest)) by {
            assert forall|i: int| 0 <= i < rest.len() implies #[trigger] rest[i] < 0x80 by {
                assert(rest[i] == bytes[i + 1]);
            }
        }
        lemma_decode_ascii_utf8(rest);
        assert(decode(bytes).drop_first() =~= decode(rest));
        let b = bytes[0];
        assert(b < 0x80);
        lemma_ascii_low_bits(b as u32);
        assert(decode(bytes)[0] as u32 == b as u32);
        assert(encode_utf8(decode(bytes)) =~= seq![b] + rest);
        assert(bytes =~= seq![b] + rest);
    } else {
        assert(encode_utf8(decode(bytes)) =~= bytes);
    }
}

/// Decode one Windows-1252 byte.
pub fn decode_one(b: u8) -> (c: char)
    ensures
        c == decode_byte(b),
{
    match b {
        0x80 => '\u{20AC}',
        0x82 => '\u{201A}',
        0x83 => '\u{0192}',
        0x84 => '\u{201E}',
        0x85 => '\u{2026}',
        0x86 => '\u{2020}',
        0x87 => '\u{2021}',
        0x88 => '\u{02C6}',
        0x89 => '\u{2030}',
        0x8A => '\u{0160}',
        0x8B => '\u{2039}',
        0x8C => '\u{0152}',
        0x8E => '\u{017D}',
        0x91 => '\u{2018}',
        0x92 => '\u{2019}',
        0x93 => '\u{201C}',
        0x94 => '\u{201D}',
        0x95 => '\u{2022}',
        0x96 => '\u{2013}',
        0x97 => '\u{2014}',
        0x98 => '\u{02DC}',
        0x99 => '\u{2122}',
        0x9A => '\u{0161}',
        0x9B => '\u{203A}',
        0x9C => '\u{0153}',
        0x9E => '\u{017E}',
        0x9F => '\u{0178}',
        _ => b as char,
    }
}

/// Decode a Windows-1252 byte slice into a `String`.
pub fn decode_bytes(bytes: &[u8]) -> (s: String)
    ensures
        s@ == decode(bytes@),
{
    let mut s = String::new();
    let mut i: usize = 0;
    while i < bytes.len()
        invariant
            i <= bytes@.len(),
            s@ == decode(bytes@.take(i as int)),
        decreases bytes@.len() - i,
    {
        let c = decode_one(bytes[i]);
        push_char(&mut s, c);
        assert(decode(bytes@.take(i + 1)) =~= decode(bytes@.take(i as int)).push(c));
        i += 1;
    }
    assert(bytes@.take(i as int) =~= bytes@);
    s
}

/// An owned Windows-1252 string: raw bytes, decoded to text only on demand.
#[derive(Debug, Clone)]
pub struct L1String {
    bytes: Vec<u8>,
}

impl View for L1String {
    type V = Seq<u8>;

    closed spec fn view(&self) -> Seq<u8> {
        self.bytes@
    }
}

impl Default for L1String {
    /// The empty string.
    fn default() -> (s: L1String)
        ensures
            s@ == Seq::<u8>::empty(),
    {
        L1String { bytes: Vec::new() }
    }
}

impl L1String {
    /// Take ownership of raw Windows-1252 bytes.
    pub fn from_bytes(bytes: Vec<u8>) -> (s: L1String)
        ensures
            s@ == bytes@,
    {
        L1String { bytes }
    }

    /// The raw bytes.
    pub fn as_bytes(&self) -> (b: &[u8])
        ensures
            b@ == self@,
    {
        self.bytes.as_slice()
    }

    /// Number of bytes (equivalently, of characters).
    pub fn len(&self) -> (n: usize)
        ensures
            n == self@.len(),
    {
        self.bytes.len()
    }

    /// Whether the string has no bytes.
    pub fn is_empty(&self) -> (b: bool)
        ensures
            b == (self@.len() == 0),
    {
        self.bytes.len() == 0
    }

    /// The text these bytes stand for.
    pub fn decode(&self) -> (s: String)
        ensures
            s@ == decode(self@),
    {
        decode_bytes(self.bytes.as_slice())
    }
}

} // verus!
