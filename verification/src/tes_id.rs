//! Case-insensitive editor ids.
//!
//! Records name each other by **editor id** — a short Windows-1252 string (an object's
//! id, a cell's name, a script name). The engine compares these case-insensitively, so
//! every id comparison goes through one normal form: ASCII-lowercase (the engine folds
//! case byte-wise, not with Unicode rules). Unlike a path, an id has no separators, so no
//! `/`↔`\` rewriting happens.

use vstd::prelude::*;
use crate::bytes::{l1, until_nul};
use crate::paths::normalize_byte;

verus! {

/// One id byte folded to ASCII lowercase.
pub open spec fn fold_byte(b: u8) -> u8 {
    if 0x41 <= b <= 0x5a {
        (b + 0x20) as u8
    } else {
        b
    }
}

/// An id's bytes folded to ASCII lowercase.
pub open spec fn fold_seq(bytes: Seq<u8>) -> Seq<u8> {
    bytes.map_values(|b: u8| fold_byte(b))
}

/// Whether two ids name the same thing: equal once case is folded.
pub open spec fn same_id(a: Seq<u8>, b: Seq<u8>) -> bool {
    fold_seq(a) == fold_seq(b)
}

/// Fold one id byte to ASCII lowercase.
pub fn folded_byte(b: u8) -> (r: u8)
    ensures
        r == fold_byte(b),
{
    if 0x41 <= b && b <= 0x5a {
        b + 0x20
    } else {
        b
    }
}

/// Whether two byte ids are equal ignoring ASCII case, compared byte by byte.
pub fn ids_equal(a: &[u8], b: &[u8]) -> (r: bool)
    ensures
        r == same_id(a@, b@),
{
    if a.len() != b.len() {
        assert(fold_seq(a@).len() != fold_seq(b@).len());
        return false;
    }
    let mut i: usize = 0;
    while i < a.len()
        invariant
            a@.len() == b@.len(),
            i <= a@.len(),
            forall|j: int| 0 <= j < i ==> fold_byte(#[trigger] a@[j]) == fold_byte(b@[j]),
        decreases a@.len() - i,
    {
        if folded_byte(a[i]) != folded_byte(b[i]) {
            assert(fold_seq(a@)[i as int] != fold_seq(b@)[i as int]);
            return false;
        }
        i += 1;
    }
    assert(fold_seq(a@) =~= fold_seq(b@));
    true
}

/// Fold raw id bytes to ASCII lowercase into a new buffer.
pub fn fold_bytes(bytes: &[u8]) -> (r: Vec<u8>)
    ensures
        r@ == fold_seq(bytes@),
{
    let mut r: Vec<u8> = Vec::new();
    let mut i: usize = 0;
    while i < bytes.len()
        invariant
            i <= bytes@.len(),
            r@ == fold_seq(bytes@.take(i as int)),
        decreases bytes@.len() - i,
    {
        r.push(folded_byte(bytes[i]));
        assert(fold_seq(bytes@.take(i + 1)) =~= fold_seq(bytes@.take(i as int)).push(
            fold_byte(bytes@[i as int]),
        ));
        i += 1;
    }
    assert(bytes@.take(i as int) =~= bytes@);
    r
}

/// An editor id (`furn_de_table_02`, `Balmora, Guild of Mages`) whose equality folds
/// ASCII case, so `Furn_DE_Table_02` and `furn_de_table_02` are equal. A zero-copy view:
/// it keeps the bytes as given and folds only when comparing.
#[derive(Debug, Clone, Copy)]
pub struct TesId<'a> {
    bytes: &'a [u8],
}

impl<'a> View for TesId<'a> {
    type V = Seq<u8>;

    closed spec fn view(&self) -> Seq<u8> {
        self.bytes@
    }
}

impl<'a> TesId<'a> {
    /// View raw Windows-1252 id bytes as a `TesId` without copying or decoding.
    pub fn from_bytes(bytes: &'a [u8]) -> (id: TesId<'a>)
        ensures
            id@ == bytes@,
    {
        TesId { bytes }
    }

    /// View raw id bytes as a `TesId` ending at the first NUL byte (or the whole slice if
    /// there is none), without copying or decoding.
    pub fn from_bytes_until_null(bytes: &'a [u8]) -> (id: TesId<'a>)
        ensures
            id@ == until_nul(bytes@),
    {
        TesId { bytes: l1(bytes) }
    }

    /// The bytes as given (not folded).
    pub fn as_bytes(&self) -> (b: &'a [u8])
        ensures
            b@ == self@,
    {
        self.bytes
    }

    /// The folded form, for keying a map: two ids are equal (`==`) exactly when their keys
    /// are equal.
    pub fn key(&self) -> (k: Vec<u8>)
        ensures
            k@ == fold_seq(self@),
    {
        fold_bytes(self.bytes)
    }

    /// An owned copy of this id.
    pub fn to_owned(&self) -> (o: TesIdBuf)
        ensures
            o@ == self@,
    {
        TesIdBuf { bytes: vstd::slice::slice_to_vec(self.bytes) }
    }
}

impl<'a> PartialEq for TesId<'a> {
    fn eq(&self, other: &Self) -> (r: bool) {
        ids_equal(self.bytes, other.bytes)
    }
}

impl<'a> vstd::std_specs::cmp::PartialEqSpecImpl for TesId<'a> {
    open spec fn obeys_eq_spec() -> bool {
        true
    }

    open spec fn eq_spec(&self, other: &Self) -> bool {
        same_id(self@, other@)
    }
}

impl<'a> Eq for TesId<'a> {}

/// An owned editor id: the [`TesId`] counterpart that owns its bytes. It compares the same
/// way, and [`TesIdBuf::as_tes_id`] borrows it as a [`TesId`], so an owned key and a
/// borrowed probe agree on equality.
#[derive(Debug, Clone)]
pub struct TesIdBuf {
    bytes: Vec<u8>,
}

impl View for TesIdBuf {
    type V = Seq<u8>;

    closed spec fn view(&self) -> Seq<u8> {
        self.bytes@
    }
}

impl TesIdBuf {
    /// Take ownership of raw Windows-1252 id bytes.
    pub fn from_bytes(bytes: Vec<u8>) -> (id: TesIdBuf)
        ensures
            id@ == bytes@,
    {
        TesIdBuf { bytes }
    }

    /// Borrow as a [`TesId`].
    pub fn as_tes_id(&self) -> (id: TesId<'_>)
        ensures
            id@ == self@,
    {
        TesId { bytes: self.bytes.as_slice() }
    }

    /// The folded form, for keying a map; the same key as the borrowed [`TesId::key`], so
    /// an owned id and a borrowed probe of it find the same entry.
    pub fn key(&self) -> (k: Vec<u8>)
        ensures
            k@ == fold_seq(self@),
    {
        fold_bytes(self.bytes.as_slice())
    }
}

impl PartialEq for TesIdBuf {
    fn eq(&self, other: &Self) -> (r: bool) {
        ids_equal(self.bytes.as_slice(), other.bytes.as_slice())
    }
}

impl vstd::std_specs::cmp::PartialEqSpecImpl for TesIdBuf {
    open spec fn obeys_eq_spec() -> bool {
        true
    }

    open spec fn eq_spec(&self, other: &Self) -> bool {
        same_id(self@, other@)
    }
}

impl Eq for TesIdBuf {}

/// Id equality is an equivalence: every id equals itself, the relation is symmetric, and
/// two ids equal to a third are equal to each other.
pub proof fn lemma_same_id_equivalence(a: Seq<u8>, b: Seq<u8>, c: Seq<u8>)
    ensures
        same_id(a, a),
        same_id(a, b) ==> same_id(b, a),
        same_id(a, b) && same_id(b, c) ==> same_id(a, c),
{
}

/// Keys decide equality: two ids are equal exactly when their folded keys are equal, and a
/// key is its own key, so a map keyed by [`TesId::key`] or [`TesIdBuf::key`] finds an id
/// under any spelling that compares equal to it.
pub proof fn lemma_key_decides_id_equality(a: Seq<u8>, b: Seq<u8>)
    ensures
        same_id(a, b) <==> fold_seq(a) == fold_seq(b),
        fold_seq(fold_seq(a)) == fold_seq(a),
{
    assert(fold_seq(fold_seq(a)) =~= fold_seq(a));
}

/// Ids and paths fold case alike: a path byte's normal form is the id fold of the byte,
/// except that `/` becomes `\`; and the fold changes exactly the 26 ASCII capitals, each
/// to the lowercase letter 32 above it, which folds to itself.
pub proof fn lemma_fold_matches_path_form(b: u8)
    ensures
        normalize_byte(b) == if b == 0x2f { 0x5c } else { fold_byte(b) },
        (fold_byte(b) != b) <==> (0x41 <= b && b <= 0x5a),
        fold_byte(b) != b ==> fold_byte(b) == b + 32,
        fold_byte(fold_byte(b)) == fold_byte(b),
{
}

/// Equality ignores exactly ASCII case: two ids are equal when and only when they have
/// the same length and each pair of bytes at the same position is equal once folded.
pub proof fn lemma_same_id_bytewise(a: Seq<u8>, b: Seq<u8>)
    ensures
        same_id(a, b) <==> (a.len() == b.len() && forall|i: int|
            0 <= i < a.len() ==> fold_byte(#[trigger] a[i]) == fold_byte(b[i])),
{
    if same_id(a, b) {
        assert(fold_seq(a).len() == fold_seq(b).len());
        assert forall|i: int| 0 <= i < a.len() implies fold_byte(#[trigger] a[i]) == fold_byte(b[i]) by {
            assert(fold_seq(a)[i] == fold_seq(b)[i]);
        }
    }
    if a.len() == b.len() && forall|i: int| 0 <= i < a.len() ==> fold_byte(#[trigger] a[i]) == fold_byte(b[i]) {
        assert(fold_seq(a) =~= fold_seq(b));
    }
}

} // verus!
