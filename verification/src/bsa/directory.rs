//! The on-disk directory of a TES3 BSA archive, and zero-copy views over it.
//!
//! The directory is a 12-byte little-endian header — `version`, `hash_offset`, `count` —
//! followed by four parallel tables, every one ordered by [`name_hash`]:
//!
//! | section      | size        | contents                                    |
//! |--------------|-------------|---------------------------------------------|
//! | size/offset  | `count × 8` | `(u32 size, u32 offset)` per file           |
//! | name offsets | `count × 4` | `u32` offset of each name in the name blob  |
//! | name blob    | *variable*  | NUL-terminated Windows-1252 paths           |
//! | hash table   | `count × 8` | each name's hash as two `u32` halves        |
//!
//! `hash_offset` spans from the end of the header to the start of the hash table (so the
//! name blob's length is `hash_offset − count × 12`), and the file data section begins at
//! `12 + hash_offset + count × 8`; file offsets are relative to it.
//!
//! [`parse`] validates the whole geometry up front — tables in bounds, name offsets
//! inside the blob, hash table sorted, data extents inside the archive — and returns a
//! [`Directory`] over the archive bytes. Every accessor after that serves records, hash
//! lookups and file bytes straight out of the archive, with no copies and no failure
//! paths.

use vstd::prelude::*;
use vstd::string::{StringSliceAdditionalSpecFns, StringExecFns};
use crate::bytes::{until_nul, l1};
use crate::paths::{
    normalize_seq, normalize_chars, same_path, normalize_bytes, paths_equal, TesPath,
    lemma_same_text_same_bytes,
};
use vstd::utf8::encode_utf8;
use crate::text::{decimal, hex, push_decimal, push_hex, push_str};
use super::BsaError;

verus! {

/// The only BSA layout version Morrowind/Tribunal/Bloodmoon use.
pub const VERSION_TES3: u32 = 0x100;

/// Bytes before the directory tables: `version`, `hash_offset`, `count`.
pub const HEADER_LEN: usize = 12;

// ---- the format, as spec functions over the archive bytes -------------------------

/// The little-endian `u32` stored at `p`.
pub open spec fn le32(s: Seq<u8>, p: int) -> int {
    s[p] + s[p + 1] * 256 + s[p + 2] * 65536 + s[p + 3] * 16777216
}

pub open spec fn hdr_version(s: Seq<u8>) -> int {
    le32(s, 0)
}

pub open spec fn hdr_hash_offset(s: Seq<u8>) -> int {
    le32(s, 4)
}

pub open spec fn hdr_count(s: Seq<u8>) -> int {
    le32(s, 8)
}

/// Start of the name blob.
pub open spec fn names_start(s: Seq<u8>) -> int {
    12 + 12 * hdr_count(s)
}

/// Length of the name blob.
pub open spec fn names_len(s: Seq<u8>) -> int {
    hdr_hash_offset(s) - 12 * hdr_count(s)
}

/// Start of the hash table.
pub open spec fn hashes_start(s: Seq<u8>) -> int {
    12 + hdr_hash_offset(s)
}

/// Start of the file data section.
pub open spec fn data_start(s: Seq<u8>) -> int {
    12 + hdr_hash_offset(s) + 8 * hdr_count(s)
}

/// Length of the file data section.
pub open spec fn data_len(s: Seq<u8>) -> int {
    s.len() - data_start(s)
}

/// Entry `i`'s byte length.
pub open spec fn entry_size(s: Seq<u8>, i: int) -> int {
    le32(s, 12 + 8 * i)
}

/// Entry `i`'s offset within the data section.
pub open spec fn entry_offset(s: Seq<u8>, i: int) -> int {
    le32(s, 12 + 8 * i + 4)
}

/// Entry `i`'s offset within the name blob.
pub open spec fn entry_name_offset(s: Seq<u8>, i: int) -> int {
    le32(s, 12 + 8 * hdr_count(s) + 4 * i)
}

/// Entry `i`'s stored hash: the first stored word is the high half of the sort key.
pub open spec fn entry_hash(s: Seq<u8>, i: int) -> int {
    le32(s, hashes_start(s) + 8 * i) * 0x1_0000_0000 + le32(s, hashes_start(s) + 8 * i + 4)
}

/// Entry `i`'s name: the name blob from its offset, up to the first NUL.
pub open spec fn entry_name(s: Seq<u8>, i: int) -> Seq<u8> {
    until_nul(
        s.subrange(names_start(s) + entry_name_offset(s, i), names_start(s) + names_len(s)),
    )
}

/// Entry `i`'s file bytes.
pub open spec fn entry_bytes(s: Seq<u8>, i: int) -> Seq<u8> {
    s.subrange(
        data_start(s) + entry_offset(s, i),
        data_start(s) + entry_offset(s, i) + entry_size(s, i),
    )
}

/// The message for entry `i`'s name offset lying outside the name blob.
pub open spec fn msg_name_offset(i: int, off: int) -> Seq<char> {
    "BSA entry "@ + decimal(i as nat) + ": name offset "@ + decimal(off as nat)
        + " outside the name blob"@
}

/// The message for entry `i`'s data running past the end of the archive.
pub open spec fn msg_data_past_end(i: int) -> Seq<char> {
    "BSA entry "@ + decimal(i as nat) + ": data extends past the end of the archive"@
}

/// The message for the hash table decreasing at entry `i`.
pub open spec fn msg_not_sorted(i: int) -> Seq<char> {
    "BSA hash table is not sorted at entry "@ + decimal(i as nat)
}

/// The first problem among entries `i..count`, in entry order (within one entry: name
/// offset, then data extent, then hash order), or `None` when they are all sound.
pub open spec fn entries_error(s: Seq<u8>, i: int) -> Option<Seq<char>>
    decreases hdr_count(s) - i,
{
    if i < 0 || i >= hdr_count(s) {
        None
    } else if entry_name_offset(s, i) > names_len(s) {
        Some(msg_name_offset(i, entry_name_offset(s, i)))
    } else if entry_offset(s, i) + entry_size(s, i) > data_len(s) {
        Some(msg_data_past_end(i))
    } else if i > 0 && entry_hash(s, i) < entry_hash(s, i - 1) {
        Some(msg_not_sorted(i))
    } else {
        entries_error(s, i + 1)
    }
}

/// Why `s` is not a valid TES3 archive directory, or `None` when it is one.
pub open spec fn directory_error(s: Seq<u8>) -> Option<Seq<char>> {
    if s.len() < 12 {
        Some("truncated BSA header"@)
    } else if hdr_version(s) != VERSION_TES3 {
        Some("unsupported BSA version 0x"@ + hex(hdr_version(s) as nat) + " (expected 0x100)"@)
    } else if hdr_hash_offset(s) < 12 * hdr_count(s) {
        Some(
            "hash offset "@ + decimal(hdr_hash_offset(s) as nat) + " leaves no room for "@
                + decimal(hdr_count(s) as nat) + " directory entries"@,
        )
    } else if s.len() < data_start(s) {
        Some(
            "truncated BSA directory: "@ + decimal(s.len()) + " bytes, directory alone needs "@
                + decimal(data_start(s) as nat),
        )
    } else {
        entries_error(s, 0)
    }
}

/// Entry `i` passes every per-entry check.
pub open spec fn entry_ok(s: Seq<u8>, i: int) -> bool {
    &&& entry_name_offset(s, i) <= names_len(s)
    &&& entry_offset(s, i) + entry_size(s, i) <= data_len(s)
}

/// A valid archive: the header is sound, the tables fit, and every entry checks out.
pub open spec fn valid_archive(s: Seq<u8>) -> bool {
    directory_error(s) is None
}

/// The indices of the entries filed under `hash`.
pub open spec fn has_hash(s: Seq<u8>, i: int, hash: int) -> bool {
    0 <= i < hdr_count(s) && entry_hash(s, i) == hash
}

/// The entry `Bsa::get` serves for the path with bytes `name`: among the entries filed
/// under the path's [`name_hash`] whose name equals it in normal form, the last one.
pub open spec fn is_lookup_hit(s: Seq<u8>, name: Seq<u8>, i: int) -> bool {
    has_hash(s, i, spec_name_hash(normalize_seq(name)) as int) && same_path(entry_name(s, i), name)
}

/// The last entry below `n` that [`is_lookup_hit`] for `name`, if any.
pub open spec fn last_hit(s: Seq<u8>, name: Seq<u8>, n: int) -> Option<int>
    decreases n,
{
    if n <= 0 {
        None
    } else if is_lookup_hit(s, name, n - 1) {
        Some(n - 1)
    } else {
        last_hit(s, name, n - 1)
    }
}

/// The bytes a lookup of `name` serves from the archive `s`: those of the last entry
/// filed under the path's hash whose name equals it in normal form; `None` when no entry
/// does.
pub open spec fn archive_lookup(s: Seq<u8>, name: Seq<u8>) -> Option<Seq<u8>> {
    match last_hit(s, name, hdr_count(s)) {
        Some(i) => Some(entry_bytes(s, i)),
        None => None,
    }
}

/// A hit with no later hit is the last hit.
pub proof fn lemma_last_hit_is(s: Seq<u8>, name: Seq<u8>, n: int, i: int)
    requires
        is_lookup_hit(s, name, i),
        i < n,
        forall|j: int| i < j ==> !is_lookup_hit(s, name, j),
    ensures
        last_hit(s, name, n) == Some(i),
    decreases n,
{
    if n - 1 != i {
        lemma_last_hit_is(s, name, n - 1, i);
    }
}

/// With no hit at all there is no last hit.
pub proof fn lemma_last_hit_none(s: Seq<u8>, name: Seq<u8>, n: int)
    requires
        forall|j: int| !is_lookup_hit(s, name, j),
    ensures
        last_hit(s, name, n) is None,
    decreases n,
{
    if n > 0 {
        lemma_last_hit_none(s, name, n - 1);
    }
}

/// Lookups are insensitive to case and separators: two names equal in normal form serve
/// the same bytes.
pub proof fn lemma_archive_lookup_normal_form(s: Seq<u8>, a: Seq<u8>, b: Seq<u8>)
    requires
        same_path(a, b),
    ensures
        archive_lookup(s, a) == archive_lookup(s, b),
{
    assert forall|n: int| last_hit(s, a, n) == last_hit(s, b, n) by {
        lemma_last_hit_same(s, a, b, n);
    }
}

pub proof fn lemma_last_hit_same(s: Seq<u8>, a: Seq<u8>, b: Seq<u8>, n: int)
    requires
        same_path(a, b),
    ensures
        last_hit(s, a, n) == last_hit(s, b, n),
    decreases n,
{
    if n > 0 {
        assert(is_lookup_hit(s, a, n - 1) == is_lookup_hit(s, b, n - 1));
        lemma_last_hit_same(s, a, b, n - 1);
    }
}

/// A valid archive serves each entry under its own name: when the entry's stored hash is
/// its name's hash and no other entry's name equals it in normal form, looking the name
/// up yields exactly that entry's bytes.
pub proof fn lemma_lookup_finds_entry(s: Seq<u8>, i: int)
    requires
        0 <= i < hdr_count(s),
        entry_hash(s, i) == spec_name_hash(normalize_seq(entry_name(s, i))),
        forall|j: int| 0 <= j < hdr_count(s) && j != i ==> !same_path(#[trigger] entry_name(s, j), entry_name(s, i)),
    ensures
        archive_lookup(s, entry_name(s, i)) == Some(entry_bytes(s, i)),
{
    let name = entry_name(s, i);
    assert(is_lookup_hit(s, name, i));
    assert forall|j: int| i < j implies !is_lookup_hit(s, name, j) by {}
    lemma_last_hit_is(s, name, hdr_count(s), i);
}

/// Names equal in normal form have equal hashes: the hash sees only the normal form.
pub proof fn lemma_name_hash_normal_form(a: Seq<u8>, b: Seq<u8>)
    requires
        same_path(a, b),
    ensures
        spec_name_hash(normalize_seq(a)) == spec_name_hash(normalize_seq(b)),
{
}

/// Texts with the same character normal form ([`normalize`](crate::paths::normalize))
/// hash alike: `name_hash("Meshes/B/Thing.NIF") == name_hash("meshes\b\thing.nif")`.
pub proof fn lemma_name_hash_same_text(a: Seq<char>, b: Seq<char>)
    requires
        normalize_chars(a) == normalize_chars(b),
    ensures
        spec_name_hash(normalize_seq(encode_utf8(a))) == spec_name_hash(
            normalize_seq(encode_utf8(b)),
        ),
{
    lemma_same_text_same_bytes(a, b);
}

/// What [`last_hit`] finds is a hit below `n`.
pub proof fn lemma_last_hit_bounds(s: Seq<u8>, name: Seq<u8>, n: int)
    ensures
        last_hit(s, name, n) matches Some(i) ==> 0 <= i < n && is_lookup_hit(s, name, i),
    decreases n,
{
    if n > 0 && !is_lookup_hit(s, name, n - 1) {
        lemma_last_hit_bounds(s, name, n - 1);
    }
}

/// Whether entry `i` is the one a lookup of its own name lands on: the last entry of
/// its path filed under its path's hash. Such entries make up the archive's listing.
pub open spec fn is_listed(s: Seq<u8>, i: int) -> bool {
    last_hit(s, entry_name(s, i), hdr_count(s)) == Some(i)
}

/// The listed entries below `n`, in directory order.
pub open spec fn listing_upto(s: Seq<u8>, n: int) -> Seq<int>
    decreases n,
{
    if n <= 0 {
        seq![]
    } else if is_listed(s, n - 1) {
        listing_upto(s, n - 1).push(n - 1)
    } else {
        listing_upto(s, n - 1)
    }
}

/// The archive's listing: one entry per path that lookups reach — for each path, the
/// entry its lookup serves — in directory order.
pub open spec fn listing(s: Seq<u8>) -> Seq<int> {
    listing_upto(s, hdr_count(s))
}

/// The listing below `n` holds exactly the listed entries below `n`, in increasing order.
pub proof fn lemma_listing_upto(s: Seq<u8>, n: int)
    ensures
        forall|a: int, b: int|
            0 <= a < b < listing_upto(s, n).len() ==> listing_upto(s, n)[a] < listing_upto(s, n)[b],
        forall|k: int|
            0 <= k < listing_upto(s, n).len() ==> 0 <= #[trigger] listing_upto(s, n)[k] < n
                && is_listed(s, listing_upto(s, n)[k]),
        forall|i: int|
            0 <= i < n && is_listed(s, i) ==> exists|k: int|
                0 <= k < listing_upto(s, n).len() && #[trigger] listing_upto(s, n)[k] == i,
    decreases n,
{
    if n > 0 {
        lemma_listing_upto(s, n - 1);
        let prev = listing_upto(s, n - 1);
        let cur = listing_upto(s, n);
        assert forall|i: int| 0 <= i < n && is_listed(s, i) implies exists|k: int|
            0 <= k < cur.len() && #[trigger] cur[k] == i by {
            if i == n - 1 {
                assert(cur[cur.len() - 1] == i);
            } else {
                let k = choose|k: int| 0 <= k < prev.len() && #[trigger] prev[k] == i;
                assert(cur[k] == prev[k]);
            }
        }
    }
}

/// Listing and lookup agree: a lookup of `key` serves bytes `d` exactly when some listed
/// entry's path equals `key` in normal form and holds `d`.
pub proof fn lemma_lookup_iff_listed(s: Seq<u8>, key: Seq<u8>, d: Seq<u8>)
    ensures
        archive_lookup(s, key) == Some(d) <==> exists|k: int|
            0 <= k < listing(s).len() && same_path(entry_name(s, #[trigger] listing(s)[k]), key)
                && entry_bytes(s, listing(s)[k]) == d,
{
    let n = hdr_count(s);
    lemma_listing_upto(s, n);
    lemma_last_hit_bounds(s, key, n);
    if archive_lookup(s, key) == Some(d) {
        let j = last_hit(s, key, n)->0;
        assert(same_path(entry_name(s, j), key));
        lemma_archive_lookup_normal_form(s, entry_name(s, j), key);
        lemma_last_hit_same(s, entry_name(s, j), key, n);
        assert(is_listed(s, j));
        let k = choose|k: int| 0 <= k < listing(s).len() && #[trigger] listing(s)[k] == j;
        assert(same_path(entry_name(s, listing(s)[k]), key) && entry_bytes(s, listing(s)[k]) == d);
    }
    if exists|k: int|
        0 <= k < listing(s).len() && same_path(entry_name(s, #[trigger] listing(s)[k]), key)
            && entry_bytes(s, listing(s)[k]) == d {
        let k = choose|k: int|
            0 <= k < listing(s).len() && same_path(entry_name(s, #[trigger] listing(s)[k]), key)
                && entry_bytes(s, listing(s)[k]) == d;
        let i = listing(s)[k];
        lemma_last_hit_same(s, entry_name(s, i), key, n);
    }
}

/// The listing names each path once: no two listed entries' paths are equal in normal
/// form.
pub proof fn lemma_listing_distinct(s: Seq<u8>, a: int, b: int)
    requires
        0 <= a < b < listing(s).len(),
    ensures
        !same_path(entry_name(s, listing(s)[a]), entry_name(s, listing(s)[b])),
{
    let n = hdr_count(s);
    lemma_listing_upto(s, n);
    let i = listing(s)[a];
    let j = listing(s)[b];
    if same_path(entry_name(s, i), entry_name(s, j)) {
        lemma_last_hit_same(s, entry_name(s, i), entry_name(s, j), n);
        assert(is_listed(s, i) && is_listed(s, j));
    }
}

// ---- the path hash ---------------------------------------------------------------

/// `x` rotated right by `r` bits (`r < 32`).
pub open spec fn rotr(x: u32, r: u32) -> u32 {
    if r == 0 {
        x
    } else {
        ((x >> r) | (x << ((32 - r) as u32))) as u32
    }
}

/// The XOR fold of `bytes` into the high word: byte `i` shifted left by `8·(i mod 4)`.
pub open spec fn hash_high(bytes: Seq<u8>) -> u32
    decreases bytes.len(),
{
    if bytes.len() == 0 {
        0
    } else {
        let i = bytes.len() - 1;
        hash_high(bytes.drop_last()) ^ (((bytes.last() as u32) << (((i % 4) * 8) as u32)) as u32)
    }
}

/// The XOR-plus-rotate fold of `bytes` into the low word: byte `i` shifted left by
/// `8·(i mod 4)` is XOR-ed in, then the word is rotated right by that shifted value's
/// low five bits.
pub open spec fn hash_low(bytes: Seq<u8>) -> u32
    decreases bytes.len(),
{
    if bytes.len() == 0 {
        0
    } else {
        let i = bytes.len() - 1;
        let temp = ((bytes.last() as u32) << (((i % 4) * 8) as u32)) as u32;
        rotr(hash_low(bytes.drop_last()) ^ temp, temp & 0x1f)
    }
}

/// Byte `k` of `w` placed in byte lane `k` of a little-endian word (zero past the end).
pub open spec fn lane(w: Seq<u8>, k: int) -> u32 {
    if 0 <= k < w.len() {
        ((w[k] as u32) << ((8 * k) as u32)) as u32
    } else {
        0
    }
}

/// Up to four bytes read as a little-endian word: byte 0 in the low lane, byte 3 in the
/// high one.
pub open spec fn le_word(w: Seq<u8>) -> u32 {
    lane(w, 0) | lane(w, 1) | lane(w, 2) | lane(w, 3)
}

proof fn lemma_lanes_xor(x: u32, a: u32, b: u32, c: u32, d: u32)
    by (bit_vector)
    requires
        a < 0x100,
        b < 0x100,
        c < 0x100,
        d < 0x100,
    ensures
        x ^ a ^ (b << 8) ^ (c << 16) ^ (d << 24) == x ^ (a | (b << 8) | (c << 16) | (d << 24)),
{
}

/// The high word folds the first half word by word: after any whole number of words,
/// the next (up to four) bytes are XOR-ed in as one little-endian word — byte 0 in the
/// low lane, byte 3 in the high one. So the high word of a name's hash is the XOR of its
/// first half read as little-endian words (`"abcdefgh"` → `0x64636261`).
pub proof fn lemma_hash_high_words(s: Seq<u8>, w: Seq<u8>)
    requires
        s.len() % 4 == 0,
        w.len() <= 4,
    ensures
        hash_high(s + w) == hash_high(s) ^ le_word(w),
        hash_high(Seq::<u8>::empty()) == 0,
{
    let n = s.len();
    let x = hash_high(s);
    let a: u32 = if w.len() > 0 { w[0] as u32 } else { 0 };
    let b: u32 = if w.len() > 1 { w[1] as u32 } else { 0 };
    let c: u32 = if w.len() > 2 { w[2] as u32 } else { 0 };
    let d: u32 = if w.len() > 3 { w[3] as u32 } else { 0 };
    let t0 = s + w.take(0);
    let t1 = s + w.take(1);
    let t2 = s + w.take(2);
    let t3 = s + w.take(3);
    let t4 = s + w.take(4);
    assert(t0 =~= s);
    assert(lane(w, 0) == a) by {
        if w.len() > 0 {
            assert(((a << 0u32) as u32) == a) by (bit_vector);
        }
    }
    assert(((8 * 1int) as u32) == 8u32 && ((8 * 2int) as u32) == 16u32 && ((8 * 3int) as u32)
        == 24u32);
    assert((0u32 << 8u32) == 0u32 && (0u32 << 16u32) == 0u32 && (0u32 << 24u32) == 0u32)
        by (bit_vector);
    assert(lane(w, 1) == ((b << 8u32) as u32));
    assert(lane(w, 2) == ((c << 16u32) as u32));
    assert(lane(w, 3) == ((d << 24u32) as u32));
    if w.len() >= 1 {
        assert(t1.drop_last() =~= t0);
        assert((n % 4) == 0 && ((n + 0) % 4) * 8 == 0);
        assert(((a << 0u32) as u32) == a) by (bit_vector);
        assert(hash_high(t1) == x ^ a);
    }
    if w.len() >= 2 {
        assert(t2.drop_last() =~= t1);
        assert((n + 1) % 4 == 1) by (nonlinear_arith) requires n % 4 == 0;
        assert(hash_high(t2) == x ^ a ^ ((b << 8u32) as u32));
    }
    if w.len() >= 3 {
        assert(t3.drop_last() =~= t2);
        assert((n + 2) % 4 == 2) by (nonlinear_arith) requires n % 4 == 0;
        assert(hash_high(t3) == x ^ a ^ ((b << 8u32) as u32) ^ ((c << 16u32) as u32));
    }
    if w.len() >= 4 {
        assert(t4.drop_last() =~= t3);
        assert((n + 3) % 4 == 3) by (nonlinear_arith) requires n % 4 == 0;
        assert(hash_high(t4) == x ^ a ^ ((b << 8u32) as u32) ^ ((c << 16u32) as u32) ^ ((d
            << 24u32) as u32));
    }
    assert(w.take(w.len() as int) =~= w);
    lemma_lanes_xor(x, a, b, c, d);
    let y = x ^ (a | ((b << 8u32) as u32) | ((c << 16u32) as u32) | ((d << 24u32) as u32));
    assert(le_word(w) == (a | ((b << 8u32) as u32) | ((c << 16u32) as u32) | ((d << 24u32) as u32)));
    assert(hash_high(s) ^ le_word(w) == y);
    assert(forall|v: u32| #[trigger] (v ^ 0u32) == v) by (bit_vector);
    if w.len() == 0 {
        assert(hash_high(s + w) == y);
    } else if w.len() == 1 {
        assert(s + w == t1);
        assert(hash_high(s + w) == y);
    } else if w.len() == 2 {
        assert(s + w == t2);
        assert(hash_high(s + w) == y);
    } else if w.len() == 3 {
        assert(s + w == t3);
        assert(hash_high(s + w) == y);
    } else {
        assert(s + w == t4);
    }
}

/// The TES3 hash of already-normalized path bytes: the first half of the bytes folded
/// into the high 32 bits, the second half into the low 32 bits.
pub open spec fn spec_name_hash(bytes: Seq<u8>) -> u64 {
    let half = bytes.len() / 2;
    ((hash_high(bytes.take(half as int)) as u64) * 0x1_0000_0000 + (hash_low(
        bytes.skip(half as int),
    ) as u64)) as u64
}

/// The low word folds the second half byte by byte: byte `i` is placed in lane `i mod 4`
/// (shifted left by `8·(i mod 4)`), XOR-ed in, and the word is then rotated right by the
/// placed value's low five bits.
pub proof fn lemma_hash_low_step(s: Seq<u8>, x: u8)
    ensures
        ({
            let t = ((x as u32) << ((8 * (s.len() % 4)) as u32)) as u32;
            let v = hash_low(s) ^ t;
            let r = t & 0x1f;
            hash_low(s.push(x)) == if r == 0 {
                v
            } else {
                ((v >> r) | (v << ((32 - r) as u32))) as u32
            }
        }),
        hash_low(Seq::<u8>::empty()) == 0,
{
    assert(s.push(x).drop_last() =~= s);
    assert((s.len() % 4) * 8 == 8 * (s.len() % 4));
}

/// A name's hash is its high word over its low word: the high 32 bits fold the first
/// half of the (normalized) bytes, the low 32 bits the second half.
pub proof fn lemma_name_hash_words(bytes: Seq<u8>)
    ensures
        spec_name_hash(bytes) / 0x1_0000_0000 == hash_high(bytes.take((bytes.len() / 2) as int)),
        spec_name_hash(bytes) % 0x1_0000_0000 == hash_low(bytes.skip((bytes.len() / 2) as int)),
{
    let hi = hash_high(bytes.take((bytes.len() / 2) as int)) as int;
    let lo = hash_low(bytes.skip((bytes.len() / 2) as int)) as int;
    assert(hi * 0x1_0000_0000 + lo < 0x1_0000_0000_0000_0000) by (nonlinear_arith)
        requires
            0 <= hi < 0x1_0000_0000,
            0 <= lo < 0x1_0000_0000,
    ;
    assert((hi * 0x1_0000_0000 + lo) / 0x1_0000_0000 == hi) by (nonlinear_arith)
        requires
            0 <= lo < 0x1_0000_0000,
    ;
    assert((hi * 0x1_0000_0000 + lo) % 0x1_0000_0000 == lo) by (nonlinear_arith)
        requires
            0 <= lo < 0x1_0000_0000,
    ;
}

fn rotate_right(x: u32, r: u32) -> (y: u32)
    requires
        r < 32,
    ensures
        y == rotr(x, r),
{
    if r == 0 {
        x
    } else {
        (x >> r) | (x << (32 - r))
    }
}

fn shift_for(i: usize) -> (k: u32)
    ensures
        k == ((i % 4) * 8) as u32,
        k < 32,
{
    ((i % 4) * 8) as u32
}

/// Compute the TES3 hash of a data path — the key under which archive directories sort
/// their entries and the engine looks files up.
///
/// The path is hashed in its normal form (lowercase, `\` separators — the form
/// directories store natively): the first half of the bytes is XOR-folded into the high
/// 32 bits, the second half XOR-plus-rotate-folded into the low 32 bits.
pub fn name_hash(name: &str) -> (h: u64)
    ensures
        h == spec_name_hash(normalize_seq(name.spec_bytes())),
{
    let norm = normalize_bytes(name.as_bytes());
    hash_normalized(norm.as_slice())
}

/// The TES3 hash of path bytes that are already in normal form.
pub fn hash_normalized(bytes: &[u8]) -> (h: u64)
    ensures
        h == spec_name_hash(bytes@),
{
    let half = bytes.len() / 2;
    let ghost first = bytes@.take(half as int);
    let ghost second = bytes@.skip(half as int);
    let mut high: u32 = 0;
    let mut i: usize = 0;
    while i < half
        invariant
            half <= bytes@.len(),
            first == bytes@.take(half as int),
            i <= half,
            high == hash_high(first.take(i as int)),
        decreases half - i,
    {
        let b = bytes[i];
        let k = shift_for(i);
        high = high ^ ((b as u32) << k);
        assert(first.take(i + 1).drop_last() =~= first.take(i as int));
        i += 1;
    }
    assert(first.take(half as int) =~= first);
    let mut low: u32 = 0;
    let mut j: usize = 0;
    let len = bytes.len();
    let n = len - half;
    while j < n
        invariant
            half <= bytes@.len(),
            len == bytes@.len(),
            n == len - half,
            second == bytes@.skip(half as int),
            j <= n,
            low == hash_low(second.take(j as int)),
        decreases n - j,
    {
        let b = bytes[half + j];
        let k = shift_for(j);
        let temp: u32 = (b as u32) << k;
        assert((temp & 0x1f) < 32) by (bit_vector);
        low = rotate_right(low ^ temp, temp & 0x1f);
        assert(second.take(j + 1).drop_last() =~= second.take(j as int));
        assert(second.take(j + 1).last() == b);
        j += 1;
    }
    assert(second.take(n as int) =~= second);
    (high as u64) * 0x1_0000_0000 + (low as u64)
}

// ---- reading the tables ------------------------------------------------------------

/// Read a little-endian `u32` from position `p`.
pub fn u32_at(s: &[u8], p: usize) -> (v: u32)
    requires
        p + 4 <= s@.len(),
    ensures
        v == le32(s@, p as int),
{
    (s[p] as u32) + (s[p + 1] as u32) * 256 + (s[p + 2] as u32) * 65536 + (s[p + 3] as u32)
        * 16777216
}

/// Directory entry for a single archived file, borrowed from the archive bytes: its
/// name, lookup hash, and location within the data section.
#[derive(Debug, Clone, Copy)]
pub struct FileRecord<'a> {
    /// Path within the archive, e.g. `meshes\m\probe_journeyman_01.nif` (Windows-1252,
    /// backslash-separated).
    pub name: &'a [u8],
    /// The directory's stored [`name_hash`] for `name`.
    pub hash: u64,
    /// Byte offset of this file's data within the archive's data section.
    pub offset: u32,
    /// Byte length of this file's data.
    pub size: u32,
}

/// An archive's validated directory over the archive bytes. Produced by [`parse`]; every
/// accessor is infallible, because the geometry was checked up front.
#[derive(Debug, Clone, Copy)]
pub struct Directory<'a> {
    archive: &'a [u8],
    version: u32,
    count: usize,
    hash_offset: usize,
}

impl<'a> View for Directory<'a> {
    type V = Seq<u8>;

    /// The archive bytes.
    closed spec fn view(&self) -> Seq<u8> {
        self.archive@
    }
}

impl<'a> Directory<'a> {
    #[verifier::type_invariant]
    spec fn inv(self) -> bool {
        &&& valid_archive(self.archive@)
        &&& self.version == hdr_version(self.archive@)
        &&& self.count == hdr_count(self.archive@)
        &&& self.hash_offset == hdr_hash_offset(self.archive@)
    }

    /// The directory over archive bytes already known to be valid: only the header is
    /// read again.
    pub fn from_valid(archive: &'a [u8]) -> (d: Directory<'a>)
        requires
            valid_archive(archive@),
        ensures
            d@ == archive@,
    {
        proof {
            lemma_valid_layout(archive@);
        }
        let n = archive.len();
        let version = u32_at(archive, 0);
        let hash_offset = u32_at(archive, 4) as usize;
        let count = u32_at(archive, 8) as usize;
        Directory { archive, version, count, hash_offset }
    }

    /// The archive's layout version — always [`VERSION_TES3`].
    pub fn version(&self) -> (v: u32)
        ensures
            v == hdr_version(self@),
            v == VERSION_TES3,
    {
        proof { use_type_invariant(self); }
        self.version
    }

    /// Number of archived files.
    pub fn len(&self) -> (n: usize)
        ensures
            n == hdr_count(self@),
    {
        proof { use_type_invariant(self); }
        self.count
    }

    /// The file data section: everything after the hash table.
    pub fn data(&self) -> (d: &'a [u8])
        ensures
            d@ == self@.subrange(data_start(self@), self@.len() as int),
            d@.len() == data_len(self@),
    {
        proof {
            use_type_invariant(self);
            lemma_valid_layout(self.archive@);
        }
        let s = self.archive;
        let n = s.len();
        assert(12 + self.hash_offset + self.count * 8 <= n);
        let start = 12 + self.hash_offset + self.count * 8;
        vstd::slice::slice_subrange(s, start, n)
    }

    /// Decode entry `i` as a zero-copy view.
    pub fn record(&self, i: usize) -> (r: FileRecord<'a>)
        requires
            i < hdr_count(self@),
        ensures
            r.name@ == entry_name(self@, i as int),
            r.hash == entry_hash(self@, i as int),
            r.offset == entry_offset(self@, i as int),
            r.size == entry_size(self@, i as int),
            r.offset + r.size <= data_len(self@),
    {
        proof {
            use_type_invariant(self);
            lemma_valid_layout(self.archive@);
            assert(entry_ok(self.archive@, i as int));
        }
        let s = self.archive;
        let n = s.len();
        let c = self.count;
        let size = u32_at(s, 12 + 8 * i);
        let offset = u32_at(s, 12 + 8 * i + 4);
        let name_off = u32_at(s, 12 + 8 * c + 4 * i) as usize;
        let names_lo = 12 + 12 * c;
        let names_hi = 12 + self.hash_offset;
        let names = vstd::slice::slice_subrange(s, names_lo + name_off, names_hi);
        let name = l1(names);
        FileRecord { name, hash: hash_at(s, c, self.hash_offset, i), offset, size }
    }

    /// Binary-search the hash table for `hash`, returning the first entry index filed
    /// under it.
    pub fn find(&self, hash: u64) -> (r: Option<usize>)
        ensures
            match r {
                Some(i) => has_hash(self@, i as int, hash as int) && forall|j: int|
                    0 <= j < i ==> !has_hash(self@, j, hash as int),
                None => forall|j: int| !has_hash(self@, j, hash as int),
            },
    {
        proof {
            use_type_invariant(self);
            lemma_valid_layout(self.archive@);
            lemma_sorted(self.archive@);
        }
        let lo = self.lower_bound(hash);
        if lo < self.count && hash_at(self.archive, self.count, self.hash_offset, lo) == hash {
            Some(lo)
        } else {
            None
        }
    }

    /// The first entry whose hash is not below `hash` (or `len` if none).
    fn lower_bound(&self, hash: u64) -> (lo: usize)
        ensures
            lo <= hdr_count(self@),
            forall|j: int| 0 <= j < lo ==> entry_hash(self@, j) < hash,
            forall|j: int| lo <= j < hdr_count(self@) ==> entry_hash(self@, j) >= hash,
    {
        proof {
            use_type_invariant(self);
            lemma_valid_layout(self.archive@);
            lemma_sorted(self.archive@);
        }
        let ghost s = self.archive@;
        let mut lo: usize = 0;
        let mut hi: usize = self.count;
        while lo < hi
            invariant
                self.inv(),
                s == self.archive@,
                lo <= hi <= hdr_count(s),
                forall|a: int, b: int|
                    0 <= a <= b < hdr_count(s) ==> entry_hash(s, a) <= entry_hash(s, b),
                forall|j: int| 0 <= j < lo ==> entry_hash(s, j) < hash,
                forall|j: int| hi <= j < hdr_count(s) ==> entry_hash(s, j) >= hash,
            decreases hi - lo,
        {
            let mid = lo + (hi - lo) / 2;
            if hash_at(self.archive, self.count, self.hash_offset, mid) < hash {
                lo = mid + 1;
            } else {
                hi = mid;
            }
        }
        lo
    }

    /// The raw bytes for `record`, as a zero-copy slice of the data section.
    pub fn bytes(&self, record: FileRecord<'_>) -> (b: &'a [u8])
        requires
            record.offset + record.size <= data_len(self@),
        ensures
            b@ == self@.subrange(
                data_start(self@) + record.offset,
                data_start(self@) + record.offset + record.size,
            ),
    {
        proof {
            use_type_invariant(self);
            lemma_valid_layout(self.archive@);
        }
        let n = self.archive.len();
        let start = 12 + self.hash_offset + 8 * self.count;
        let lo = start + record.offset as usize;
        vstd::slice::slice_subrange(self.archive, lo, lo + record.size as usize)
    }

    /// The bytes of entry `i`.
    pub fn entry(&self, i: usize) -> (b: &'a [u8])
        requires
            i < hdr_count(self@),
        ensures
            b@ == entry_bytes(self@, i as int),
    {
        let r = self.record(i);
        self.bytes(r)
    }

    /// The entry a lookup of the path with bytes `key` lands on: a binary search of the
    /// hash table for the path's [`name_hash`], then the last entry filed there whose
    /// name equals the path in normal form.
    pub fn lookup(&self, key: &[u8]) -> (r: Option<usize>)
        ensures
            match r {
                Some(k) => {
                    &&& last_hit(self@, key@, hdr_count(self@)) == Some(k as int)
                    &&& is_lookup_hit(self@, key@, k as int)
                    &&& forall|j: int| k < j ==> !is_lookup_hit(self@, key@, j)
                },
                None => {
                    &&& last_hit(self@, key@, hdr_count(self@)) is None
                    &&& forall|i: int| !is_lookup_hit(self@, key@, i)
                },
            },
    {
        proof {
            use_type_invariant(self);
        }
        let norm = normalize_bytes(key);
        let hash = hash_normalized(norm.as_slice());
        let ghost s = self.archive@;
        let lo = self.lower_bound(hash);
        let mut i = lo;
        let mut found: Option<usize> = None;
        while i < self.count && hash_at(self.archive, self.count, self.hash_offset, i) == hash
            invariant
                self.inv(),
                s == self.archive@,
                hash == spec_name_hash(normalize_seq(key@)),
                lo <= i <= hdr_count(s),
                forall|j: int| 0 <= j < lo ==> entry_hash(s, j) < hash,
                forall|j: int| lo <= j < i ==> entry_hash(s, j) == hash,
                match found {
                    Some(k) => lo <= k < i && is_lookup_hit(s, key@, k as int) && forall|j: int|
                        k < j < i ==> !is_lookup_hit(s, key@, j),
                    None => forall|j: int| lo <= j < i ==> !is_lookup_hit(s, key@, j),
                },
            decreases hdr_count(s) - i,
        {
            let r = self.record(i);
            if paths_equal(r.name, key) {
                found = Some(i);
            }
            i += 1;
        }
        proof {
            lemma_sorted(s);
            assert forall|j: int| i <= j implies !has_hash(s, j, hash as int) by {
                if i < hdr_count(s) && j < hdr_count(s) {
                    assert(entry_hash(s, i as int) != hash);
                    assert(entry_hash(s, i as int) >= hash);
                    assert(entry_hash(s, i as int) <= entry_hash(s, j));
                }
            }
        }
        proof {
            match found {
                Some(k) => lemma_last_hit_is(s, key@, hdr_count(s), k as int),
                None => lemma_last_hit_none(s, key@, hdr_count(s)),
            }
        }
        found
    }

    /// Look up a file by path, case-insensitively and tolerant of `/` vs `\` separators:
    /// the bytes of the entry [`Directory::lookup`] lands on, as a zero-copy slice of the
    /// archive.
    pub fn get(&self, name: &str) -> (r: Option<&'a [u8]>)
        ensures
            match r {
                Some(b) => archive_lookup(self@, name.spec_bytes()) == Some(b@),
                None => archive_lookup(self@, name.spec_bytes()) is None,
            },
    {
        match self.lookup(name.as_bytes()) {
            Some(k) => {
                proof {
                    lemma_last_hit_bounds(self@, name.spec_bytes(), hdr_count(self@));
                }
                Some(self.entry(k))
            },
            None => None,
        }
    }
}

/// Read hash-table entry `i`: the first stored word is the high half of the sort key.
fn hash_at(s: &[u8], count: usize, hash_offset: usize, i: usize) -> (h: u64)
    requires
        count == hdr_count(s@),
        hash_offset == hdr_hash_offset(s@),
        s@.len() >= data_start(s@),
        i < count,
    ensures
        h == entry_hash(s@, i as int),
{
    let n = s.len();
    let p = 12 + hash_offset + 8 * i;
    (u32_at(s, p) as u64) * 0x1_0000_0000 + (u32_at(s, p + 4) as u64)
}


// ---- parsing and validation -----------------------------------------------------------

fn parse_error(text: &str) -> (e: BsaError)
    ensures
        e matches BsaError::Parse(m) && m@ == text@,
{
    BsaError::Parse(String::from_str(text))
}

fn err_version(version: u32) -> (e: BsaError)
    ensures
        e matches BsaError::Parse(m) && m@ == "unsupported BSA version 0x"@ + hex(version as nat)
            + " (expected 0x100)"@,
{
    let mut m = String::from_str("unsupported BSA version 0x");
    push_hex(&mut m, version as u64);
    push_str(&mut m, " (expected 0x100)");
    BsaError::Parse(m)
}

fn err_no_room(hash_offset: u64, count: u64) -> (e: BsaError)
    ensures
        e matches BsaError::Parse(m) && m@ == "hash offset "@ + decimal(hash_offset as nat)
            + " leaves no room for "@ + decimal(count as nat) + " directory entries"@,
{
    let mut m = String::from_str("hash offset ");
    push_decimal(&mut m, hash_offset);
    push_str(&mut m, " leaves no room for ");
    push_decimal(&mut m, count);
    push_str(&mut m, " directory entries");
    BsaError::Parse(m)
}

fn err_truncated(len: u64, needed: u64) -> (e: BsaError)
    ensures
        e matches BsaError::Parse(m) && m@ == "truncated BSA directory: "@ + decimal(len as nat)
            + " bytes, directory alone needs "@ + decimal(needed as nat),
{
    let mut m = String::from_str("truncated BSA directory: ");
    push_decimal(&mut m, len);
    push_str(&mut m, " bytes, directory alone needs ");
    push_decimal(&mut m, needed);
    BsaError::Parse(m)
}

fn err_name_offset(i: u64, off: u64) -> (e: BsaError)
    ensures
        e matches BsaError::Parse(m) && m@ == msg_name_offset(i as int, off as int),
{
    let mut m = String::from_str("BSA entry ");
    push_decimal(&mut m, i);
    push_str(&mut m, ": name offset ");
    push_decimal(&mut m, off);
    push_str(&mut m, " outside the name blob");
    BsaError::Parse(m)
}

fn err_past_end(i: u64) -> (e: BsaError)
    ensures
        e matches BsaError::Parse(m) && m@ == msg_data_past_end(i as int),
{
    let mut m = String::from_str("BSA entry ");
    push_decimal(&mut m, i);
    push_str(&mut m, ": data extends past the end of the archive");
    BsaError::Parse(m)
}

fn err_not_sorted(i: u64) -> (e: BsaError)
    ensures
        e matches BsaError::Parse(m) && m@ == msg_not_sorted(i as int),
{
    let mut m = String::from_str("BSA hash table is not sorted at entry ");
    push_decimal(&mut m, i);
    BsaError::Parse(m)
}

/// Parse and validate an archive's directory. After this succeeds, every [`Directory`]
/// accessor is panic-free: all table bounds, name offsets and data extents have been
/// checked, and the hash table is verified sorted (the binary-search precondition).
///
/// Fails with [`BsaError::Parse`] exactly when [`directory_error`] names a problem, with
/// that problem's message.
pub fn parse(archive: &[u8]) -> (r: Result<Directory<'_>, BsaError>)
    ensures
        match r {
            Ok(d) => valid_archive(archive@) && d@ == archive@,
            Err(BsaError::Parse(m)) => directory_error(archive@) == Some(m@),
            Err(_) => false,
        },
{
    let ghost s = archive@;
    if archive.len() < HEADER_LEN {
        return Err(parse_error("truncated BSA header"));
    }
    let version = u32_at(archive, 0);
    let hash_offset64 = u32_at(archive, 4) as u64;
    let count64 = u32_at(archive, 8) as u64;
    if version != VERSION_TES3 {
        return Err(err_version(version));
    }
    if hash_offset64 < count64 * 12 {
        return Err(err_no_room(hash_offset64, count64));
    }
    let data_start64 = 12 + hash_offset64 + count64 * 8;
    if (archive.len() as u64) < data_start64 {
        return Err(err_truncated(archive.len() as u64, data_start64));
    }
    let hash_offset = hash_offset64 as usize;
    let count = count64 as usize;
    let dstart = data_start64 as usize;
    let nlen = hash_offset - count * 12;
    let dlen = archive.len() - dstart;
    let mut prev_hash: u64 = 0;
    let mut i: usize = 0;
    while i < count
        invariant
            s == archive@,
            s.len() >= 12,
            version == hdr_version(s),
            hash_offset == hdr_hash_offset(s),
            count == hdr_count(s),
            hdr_hash_offset(s) >= 12 * hdr_count(s),
            dstart == data_start(s),
            s.len() >= dstart,
            nlen == names_len(s),
            dlen == data_len(s),
            i <= count,
            i > 0 ==> prev_hash == entry_hash(s, i - 1),
            directory_error(s) == entries_error(s, i as int),
        decreases count - i,
    {
        let name_off = u32_at(archive, HEADER_LEN + count * 8 + i * 4) as usize;
        if name_off > nlen {
            return Err(err_name_offset(i as u64, name_off as u64));
        }
        let size = u32_at(archive, HEADER_LEN + 8 * i) as u64;
        let offset = u32_at(archive, HEADER_LEN + 8 * i + 4) as u64;
        if offset + size > dlen as u64 {
            return Err(err_past_end(i as u64));
        }
        let hash = hash_at(archive, count, hash_offset, i);
        if i > 0 && hash < prev_hash {
            return Err(err_not_sorted(i as u64));
        }
        prev_hash = hash;
        i += 1;
    }
    let d = Directory { archive, version, count, hash_offset };
    Ok(d)
}

/// What validity says about the header and the table geometry.
pub proof fn lemma_valid_layout(s: Seq<u8>)
    requires
        valid_archive(s),
    ensures
        s.len() >= 12,
        hdr_version(s) == VERSION_TES3,
        hdr_hash_offset(s) >= 12 * hdr_count(s),
        s.len() >= data_start(s),
        0 <= hdr_count(s),
        0 <= hdr_hash_offset(s),
        forall|i: int| 0 <= i < hdr_count(s) ==> entry_ok(s, i),
{
    assert(0 <= hdr_count(s) && 0 <= hdr_hash_offset(s));
    lemma_entries_ok(s, 0);
}

/// Every entry from `k` on passes the per-entry checks when none reports an error.
pub proof fn lemma_entries_ok(s: Seq<u8>, k: int)
    requires
        0 <= k,
        entries_error(s, k) is None,
    ensures
        forall|i: int| k <= i < hdr_count(s) ==> entry_ok(s, i),
        forall|i: int| k < i < hdr_count(s) ==> entry_hash(s, i - 1) <= #[trigger] entry_hash(s, i),
    decreases hdr_count(s) - k,
{
    if k < hdr_count(s) {
        lemma_entries_ok(s, k + 1);
    }
}

/// A valid archive's hash table is sorted.
pub proof fn lemma_sorted(s: Seq<u8>)
    requires
        valid_archive(s),
    ensures
        forall|a: int, b: int| 0 <= a <= b < hdr_count(s) ==> entry_hash(s, a) <= entry_hash(s, b),
{
    lemma_entries_ok(s, 0);
    assert forall|a: int, b: int| 0 <= a <= b < hdr_count(s) implies entry_hash(s, a) <= entry_hash(
        s,
        b,
    ) by {
        lemma_sorted_from(s, a, b);
    }
}

proof fn lemma_sorted_from(s: Seq<u8>, a: int, b: int)
    requires
        0 <= a <= b < hdr_count(s),
        forall|i: int| 0 < i < hdr_count(s) ==> entry_hash(s, i - 1) <= #[trigger] entry_hash(s, i),
    ensures
        entry_hash(s, a) <= entry_hash(s, b),
    decreases b - a,
{
    if a < b {
        lemma_sorted_from(s, a, b - 1);
        assert(entry_hash(s, b - 1) <= entry_hash(s, b));
    }
}

} // verus!
