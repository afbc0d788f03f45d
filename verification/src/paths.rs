//! The game-data path convention.
//!
//! The engine treats data paths — archive directory entries, model and icon references,
//! texture names, loose files — as case-insensitive with interchangeable `/` and `\`
//! separators. Every index or comparison goes through one normal form: lowercase,
//! backslash-separated (the form archive directories store natively).

use vstd::prelude::*;
use crate::bytes::until_nul;
use crate::text::push_char;
use vstd::utf8::{encode_scalar, encode_utf8};

verus! {

/// The normal form of one path byte: ASCII-lowercase, with `/` rewritten to `\`.
pub open spec fn normalize_byte(b: u8) -> u8 {
    if b == 0x2f {
        0x5c
    } else if 0x41 <= b <= 0x5a {
        (b + 0x20) as u8
    } else {
        b
    }
}

/// The normal form of a path's bytes.
pub open spec fn normalize_seq(bytes: Seq<u8>) -> Seq<u8> {
    bytes.map_values(|b: u8| normalize_byte(b))
}

/// The normal form of one path character: ASCII-lowercase, with `/` rewritten to `\`.
pub open spec fn normalize_char(c: char) -> char {
    if c == '/' {
        '\\'
    } else if 'A' <= c <= 'Z' {
        ((c as u32) + 32) as char
    } else {
        c
    }
}

/// The normal form of a path's text.
pub open spec fn normalize_chars(path: Seq<char>) -> Seq<char> {
    path.map_values(|c: char| normalize_char(c))
}

/// Whether two paths name the same file: equal in normal form.
pub open spec fn same_path(a: Seq<u8>, b: Seq<u8>) -> bool {
    normalize_seq(a) == normalize_seq(b)
}

/// Path equality is an equivalence: every path equals itself, the relation is symmetric,
/// and two paths equal to a third are equal to each other.
pub proof fn lemma_same_path_equivalence(a: Seq<u8>, b: Seq<u8>, c: Seq<u8>)
    ensures
        same_path(a, a),
        same_path(a, b) ==> same_path(b, a),
        same_path(a, b) && same_path(b, c) ==> same_path(a, c),
{
}

/// The normal form is a fixed point: normalizing twice changes nothing more, and a path
/// names the same file as its normal form.
pub proof fn lemma_normal_form_stable(a: Seq<u8>)
    ensures
        normalize_seq(normalize_seq(a)) == normalize_seq(a),
        same_path(a, normalize_seq(a)),
{
    assert(normalize_seq(normalize_seq(a)) =~= normalize_seq(a));
}

/// Keys decide equality: two paths are equal exactly when their normal-form keys are
/// equal, and a key is its own key, so a map keyed by [`TesPath::key`] finds a path under
/// any spelling that compares equal to it.
pub proof fn lemma_key_decides_path_equality(a: Seq<u8>, b: Seq<u8>)
    ensures
        same_path(a, b) <==> normalize_seq(a) == normalize_seq(b),
        normalize_seq(normalize_seq(a)) == normalize_seq(a),
{
    lemma_normal_form_stable(a);
}

/// Two paths name the same file exactly when they have the same length and agree byte by
/// byte up to ASCII case and the choice of `/` or `\`.
pub proof fn lemma_same_path_bytewise(a: Seq<u8>, b: Seq<u8>)
    ensures
        same_path(a, b) <==> (a.len() == b.len() && forall|i: int|
            0 <= i < a.len() ==> normalize_byte(#[trigger] a[i]) == normalize_byte(b[i])),
{
    if same_path(a, b) {
        assert(normalize_seq(a).len() == normalize_seq(b).len());
        assert forall|i: int| 0 <= i < a.len() implies normalize_byte(#[trigger] a[i])
            == normalize_byte(b[i]) by {
            assert(normalize_seq(a)[i] == normalize_seq(b)[i]);
        }
    }
    if a.len() == b.len() && forall|i: int|
        0 <= i < a.len() ==> normalize_byte(#[trigger] a[i]) == normalize_byte(b[i]) {
        assert(normalize_seq(a) =~= normalize_seq(b));
    }
}

/// Normalizing a path's text is a fixed point: a second pass changes nothing.
pub proof fn lemma_normalize_chars_idempotent(p: Seq<char>)
    ensures
        normalize_chars(normalize_chars(p)) == normalize_chars(p),
{
    assert(normalize_chars(normalize_chars(p)) =~= normalize_chars(p));
}

/// Every byte of a multi-byte UTF-8 encoding has its high bit set.
proof fn lemma_marked_bytes_high(x: u8)
    by (bit_vector)
    ensures
        (0x80u8 | x) >= 0x80u8,
        (0xC0u8 | x) >= 0x80u8,
        (0xE0u8 | x) >= 0x80u8,
        (0xF0u8 | x) >= 0x80u8,
{
}

/// A scalar below 0x80 is its own one-byte encoding.
proof fn lemma_ascii_scalar_byte(v: u32)
    by (bit_vector)
    requires
        v <= 0x7f,
    ensures
        (v & 0x7f) == v,
{
}

/// The bytes of one normalized character are the normalized bytes of the character: an
/// ASCII character is one byte mapped alike, and the bytes of any other character are at
/// least 0x80, where both maps are the identity.
proof fn lemma_normalize_scalar(c: char)
    ensures
        encode_scalar(normalize_char(c) as u32) == normalize_seq(encode_scalar(c as u32)),
{
    let v = c as u32;
    if v <= 0x7f {
        lemma_ascii_scalar_byte(v);
        let n = normalize_char(c) as u32;
        assert(n <= 0x7f);
        lemma_ascii_scalar_byte(n);
        assert(encode_scalar(n) =~= normalize_seq(encode_scalar(v)));
    } else {
        assert(normalize_char(c) == c);
        lemma_marked_bytes_high(((v >> 6) & 0x1f) as u8);
        lemma_marked_bytes_high(((v >> 12) & 0x0f) as u8);
        lemma_marked_bytes_high(((v >> 18) & 0x7) as u8);
        lemma_marked_bytes_high((v & 0x3f) as u8);
        lemma_marked_bytes_high(((v >> 6) & 0x3f) as u8);
        lemma_marked_bytes_high(((v >> 12) & 0x3f) as u8);
        assert(encode_scalar(v) =~= normalize_seq(encode_scalar(v)));
    }
}

/// Normalizing text and normalizing its UTF-8 bytes agree: the bytes of the normalized
/// text are the normalized bytes of the text. ASCII letters and `/` are one byte each,
/// and no byte of a non-ASCII character is touched.
pub proof fn lemma_normalize_utf8(p: Seq<char>)
    ensures
        encode_utf8(normalize_chars(p)) == normalize_seq(encode_utf8(p)),
    decreases p.len(),
{
    if p.len() > 0 {
        lemma_normalize_utf8(p.drop_first());
        lemma_normalize_scalar(p[0]);
        assert(normalize_chars(p).drop_first() =~= normalize_chars(p.drop_first()));
        assert(normalize_seq(encode_scalar(p[0] as u32) + encode_utf8(p.drop_first()))
            =~= normalize_seq(encode_scalar(p[0] as u32)) + normalize_seq(encode_utf8(p.drop_first())));
    } else {
        assert(normalize_seq(encode_utf8(p)) =~= encode_utf8(normalize_chars(p)));
    }
}

/// Two texts with the same character normal form have the same byte normal form, so
/// anything computed from the normalized bytes (the archive hash, a directory lookup) sees
/// them alike.
pub proof fn lemma_same_text_same_bytes(a: Seq<char>, b: Seq<char>)
    requires
        normalize_chars(a) == normalize_chars(b),
    ensures
        normalize_seq(encode_utf8(a)) == normalize_seq(encode_utf8(b)),
{
    lemma_normalize_utf8(a);
    lemma_normalize_utf8(b);
}

/// Normalize one path byte: ASCII-lowercase, `/` → `\`.
pub fn normalized_byte(b: u8) -> (r: u8)
    ensures
        r == normalize_byte(b),
{
    if b == 0x2f {
        0x5c
    } else if 0x41 <= b && b <= 0x5a {
        b + 0x20
    } else {
        b
    }
}

/// Normalize one path character: ASCII-lowercase, `/` → `\`.
pub fn normalized_char(c: char) -> (r: char)
    ensures
        r == normalize_char(c),
{
    if c == '/' {
        '\\'
    } else if 'A' <= c && c <= 'Z' {
        let b: u8 = (c as u8) + 32;
        b as char
    } else {
        c
    }
}

/// Normalize a game-data path for lookup or comparison: ASCII-lowercase, `/` → `\`.
///
/// This is the shared normal form of the archive index and the layered file system, so
/// indexes built with it and keys looked up through it always agree.
pub fn normalize(path: &str) -> (r: String)
    ensures
        r@ == normalize_chars(path@),
        encode_utf8(r@) == normalize_seq(encode_utf8(path@)),
        normalize_chars(r@) == r@,
{
    let n = path.unicode_len();
    let mut r = String::new();
    let mut i: usize = 0;
    while i < n
        invariant
            n == path@.len(),
            i <= n,
            r@ == normalize_chars(path@.take(i as int)),
        decreases n - i,
    {
        let c = path.get_char(i);
        push_char(&mut r, normalized_char(c));
        assert(normalize_chars(path@.take(i + 1)) =~= normalize_chars(path@.take(i as int)).push(
            normalize_char(c),
        ));
        i += 1;
    }
    assert(path@.take(n as int) =~= path@);
    proof {
        lemma_normalize_utf8(path@);
        lemma_normalize_chars_idempotent(path@);
    }
    r
}

/// Normalize raw path bytes into a new buffer.
pub fn normalize_bytes(bytes: &[u8]) -> (r: Vec<u8>)
    ensures
        r@ == normalize_seq(bytes@),
{
    let mut r: Vec<u8> = Vec::new();
    let mut i: usize = 0;
    while i < bytes.len()
        invariant
            i <= bytes@.len(),
            r@ == normalize_seq(bytes@.take(i as int)),
        decreases bytes@.len() - i,
    {
        r.push(normalized_byte(bytes[i]));
        assert(normalize_seq(bytes@.take(i + 1)) =~= normalize_seq(bytes@.take(i as int)).push(
            normalize_byte(bytes@[i as int]),
        ));
        i += 1;
    }
    assert(bytes@.take(i as int) =~= bytes@);
    r
}

/// Whether two byte paths are equal in normal form, compared byte by byte.
pub fn paths_equal(a: &[u8], b: &[u8]) -> (r: bool)
    ensures
        r == same_path(a@, b@),
{
    if a.len() != b.len() {
        assert(normalize_seq(a@).len() != normalize_seq(b@).len());
        return false;
    }
    let mut i: usize = 0;
    while i < a.len()
        invariant
            a@.len() == b@.len(),
            i <= a@.len(),
            forall|j: int| 0 <= j < i ==> normalize_byte(#[trigger] a@[j]) == normalize_byte(b@[j]),
        decreases a@.len() - i,
    {
        if normalized_byte(a[i]) != normalized_byte(b[i]) {
            assert(normalize_seq(a@)[i as int] != normalize_seq(b@)[i as int]);
            return false;
        }
        i += 1;
    }
    assert(normalize_seq(a@) =~= normalize_seq(b@));
    true
}

/// A game-data path (`meshes\m\probe.nif`) whose equality uses the path normal form —
/// ASCII-lowercase, `/` → `\` — so `MESHES\Probe.NIF` and `meshes/probe.nif` are equal.
/// A zero-copy view: it keeps the bytes as given and normalizes only when comparing.
#[derive(Debug, Clone, Copy)]
pub struct TesPath<'a> {
    bytes: &'a [u8],
}

impl<'a> View for TesPath<'a> {
    type V = Seq<u8>;

    closed spec fn view(&self) -> Seq<u8> {
        self.bytes@
    }
}

impl<'a> TesPath<'a> {
    /// View raw Windows-1252 path bytes as a `TesPath`, without copying or decoding.
    pub fn from_bytes(bytes: &'a [u8]) -> (p: TesPath<'a>)
        ensures
            p@ == bytes@,
    {
        TesPath { bytes }
    }

    /// View raw path bytes as a `TesPath` ending at the first NUL byte (or the whole
    /// slice if there is none), without copying or decoding.
    pub fn from_bytes_until_null(bytes: &'a [u8]) -> (p: TesPath<'a>)
        ensures
            p@ == until_nul(bytes@),
    {
        TesPath { bytes: crate::bytes::l1(bytes) }
    }

    /// The bytes as given (not normalized).
    pub fn as_bytes(&self) -> (b: &'a [u8])
        ensures
            b@ == self@,
    {
        self.bytes
    }

    /// The normal form, for keying a map: two paths are equal (`==`) exactly when their
    /// keys are equal.
    pub fn key(&self) -> (k: Vec<u8>)
        ensures
            k@ == normalize_seq(self@),
    {
        normalize_bytes(self.bytes)
    }
}

impl<'a> PartialEq for TesPath<'a> {
    fn eq(&self, other: &Self) -> (r: bool) {
        paths_equal(self.bytes, other.bytes)
    }
}

impl<'a> vstd::std_specs::cmp::PartialEqSpecImpl for TesPath<'a> {
    open spec fn obeys_eq_spec() -> bool {
        true
    }

    open spec fn eq_spec(&self, other: &Self) -> bool {
        same_path(self@, other@)
    }
}

impl<'a> Eq for TesPath<'a> {}

/// View a model reference as a [`TesPath`] for lookup; an empty reference (some records
/// carry an empty one) becomes `None`. Folding is deferred to the path's equality, so this
/// neither copies nor normalizes.
pub fn model_path(model: Option<&[u8]>) -> (p: Option<TesPath<'_>>)
    ensures
        match model {
            Some(m) => if m@.len() == 0 {
                p is None
            } else {
                p matches Some(t) && t@ == m@
            },
            None => p is None,
        },
{
    match model {
        Some(m) => if m.len() == 0 {
            None
        } else {
            Some(TesPath::from_bytes(m))
        },
        None => None,
    }
}

} // verus!
