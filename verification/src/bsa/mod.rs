//! TES3 (Morrowind) BSA archive reading.
//!
//! A BSA is a flat archive: a small directory (file sizes, offsets, names and lookup
//! hashes) followed by the concatenated file data. A [`Bsa`] owns the archive bytes and
//! serves individual files as zero-copy slices of them, looked up through the
//! directory's sorted hash table.

use vstd::prelude::*;
use vstd::string::{StringSliceAdditionalSpecFns, StringExecFns};

pub mod directory;

use directory::{
    Directory, FileRecord, parse, valid_archive, directory_error, hdr_version, hdr_count,
    entry_name, entry_bytes, entry_hash, entry_offset, entry_size, data_len, data_start,
    VERSION_TES3, archive_lookup, listing, listing_upto, is_listed, lemma_listing_upto,
};
use crate::paths::TesPath;
use crate::latin1::{decode, is_ascii_bytes, lemma_decode_ascii_utf8};
use vstd::utf8::encode_utf8;
use crate::io_error_text;
use crate::text::push_str;

verus! {

/// Error returned when reading or parsing a BSA archive.
#[derive(Debug)]
pub enum BsaError {
    /// I/O failure while reading the archive from disk.
    Io(std::io::Error),
    /// The byte stream could not be parsed as a valid TES3 BSA.
    Parse(String),
}

impl From<std::io::Error> for BsaError {
    fn from(e: std::io::Error) -> (r: BsaError) {
        BsaError::Io(e)
    }
}

impl vstd::std_specs::convert::FromSpecImpl<std::io::Error> for BsaError {
    open spec fn obeys_from_spec() -> bool {
        true
    }

    open spec fn from_spec(v: std::io::Error) -> BsaError {
        BsaError::Io(v)
    }
}

impl BsaError {
    /// The error's text: `parse error: …` or `I/O error: …`.
    pub fn to_text(&self) -> (t: String)
        ensures
            self matches BsaError::Parse(m) ==> t@ == "parse error: "@ + m@,
            self matches BsaError::Io(_) ==> "I/O error: "@.is_prefix_of(t@),
    {
        match self {
            BsaError::Io(e) => {
                let mut t = String::from_str("I/O error: ");
                let ghost head = t@;
                let inner = io_error_text(e);
                push_str(&mut t, inner.as_str());
                assert(t@.subrange(0, head.len() as int) =~= head);
                t
            },
            BsaError::Parse(m) => {
                let mut t = String::from_str("parse error: ");
                push_str(&mut t, m.as_str());
                t
            },
        }
    }
}

/// Every listed file is found again through its decoded name: where an entry's name is
/// ASCII, decoding it from Windows-1252 and looking the text up (as [`Bsa::get`] does)
/// serves that entry's own bytes — the bytes [`Bsa::files`] pairs it with.
pub proof fn lemma_listed_name_round_trip(s: Seq<u8>, k: int)
    requires
        0 <= k < listing(s).len(),
        is_ascii_bytes(entry_name(s, listing(s)[k])),
    ensures
        archive_lookup(s, encode_utf8(decode(entry_name(s, listing(s)[k])))) == Some(
            entry_bytes(s, listing(s)[k]),
        ),
{
    lemma_listing_upto(s, hdr_count(s));
    lemma_decode_ascii_utf8(entry_name(s, listing(s)[k]));
}

/// An open TES3 BSA archive: the archive bytes, validated, plus its listing — for each
/// path a lookup reaches, the entry it serves. File bytes are served as zero-copy slices
/// of the archive.
#[derive(Debug)]
pub struct Bsa {
    archive: Vec<u8>,
    /// The listed entries' indices, in directory order.
    listed: Vec<usize>,
}

impl View for Bsa {
    type V = Seq<u8>;

    /// The archive bytes.
    closed spec fn view(&self) -> Seq<u8> {
        self.archive@
    }
}

/// `v` holds the indices of `l`.
pub open spec fn same_indices(v: Seq<usize>, l: Seq<int>) -> bool {
    v.len() == l.len() && forall|k: int| 0 <= k < v.len() ==> v[k] as int == #[trigger] l[k]
}

impl Bsa {
    #[verifier::type_invariant]
    spec fn inv(self) -> bool {
        &&& valid_archive(self.archive@)
        &&& same_indices(self.listed@, listing(self.archive@))
    }

    /// Take ownership of an archive's bytes, validating its directory. Fails with
    /// [`BsaError::Parse`] exactly when [`directory_error`] names a problem.
    pub fn from_bytes(archive: Vec<u8>) -> (r: Result<Bsa, BsaError>)
        ensures
            match r {
                Ok(b) => valid_archive(archive@) && b@ == archive@,
                Err(BsaError::Parse(m)) => directory_error(archive@) == Some(m@),
                Err(_) => false,
            },
    {
        let listed = match parse(archive.as_slice()) {
            Ok(d) => {
                let ghost s = archive@;
                let n = d.len();
                let mut listed: Vec<usize> = Vec::new();
                let mut i: usize = 0;
                while i < n
                    invariant
                        d@ == s,
                        valid_archive(s),
                        n == hdr_count(s),
                        i <= n,
                        same_indices(listed@, listing_upto(s, i as int)),
                    decreases n - i,
                {
                    let r = d.record(i);
                    if d.lookup(r.name) == Some(i) {
                        listed.push(i);
                    }
                    proof {
                        assert(same_indices(listed@, listing_upto(s, i + 1)));
                    }
                    i += 1;
                }
                listed
            },
            Err(e) => return Err(e),
        };
        Ok(Bsa { archive, listed })
    }

    /// The validated directory over this archive's bytes.
    pub fn directory(&self) -> (d: Directory<'_>)
        ensures
            d@ == self@,
    {
        proof { use_type_invariant(self); }
        Directory::from_valid(self.archive.as_slice())
    }

    /// The archive's layout version — always [`VERSION_TES3`] for an archive that opened.
    pub fn version(&self) -> (v: u32)
        ensures
            v == hdr_version(self@),
            v == VERSION_TES3,
    {
        self.directory().version()
    }

    /// Number of files: of distinct paths a lookup reaches.
    pub fn len(&self) -> (n: usize)
        ensures
            n == listing(self@).len(),
    {
        proof { use_type_invariant(self); }
        self.listed.len()
    }

    /// Whether the archive contains no files.
    pub fn is_empty(&self) -> (b: bool)
        ensures
            b == (listing(self@).len() == 0),
    {
        proof { use_type_invariant(self); }
        self.listed.len() == 0
    }

    /// Every `(path, bytes)` file, one per distinct path, in directory order. Both sides
    /// are zero-copy views into the archive, and looking a listed path up serves exactly
    /// its listed bytes.
    pub fn files(&self) -> (v: Vec<(TesPath<'_>, &[u8])>)
        ensures
            v@.len() == listing(self@).len(),
            forall|k: int|
                0 <= k < v@.len() ==> {
                    let i = listing(self@)[k];
                    &&& (#[trigger] v@[k]).0@ == entry_name(self@, i)
                    &&& v@[k].1@ == entry_bytes(self@, i)
                    &&& archive_lookup(self@, v@[k].0@) == Some(v@[k].1@)
                },
    {
        proof {
            use_type_invariant(self);
            lemma_listing_upto(self.archive@, hdr_count(self.archive@));
        }
        let d = self.directory();
        let mut v: Vec<(TesPath<'_>, &[u8])> = Vec::new();
        let mut k: usize = 0;
        while k < self.listed.len()
            invariant
                d@ == self@,
                valid_archive(self@),
                same_indices(self.listed@, listing(self@)),
                forall|j: int| 0 <= j < listing(self@).len() ==> 0 <= #[trigger] listing(self@)[j] < hdr_count(self@)
                    && is_listed(self@, listing(self@)[j]),
                k <= self.listed@.len(),
                v@.len() == k,
                forall|j: int|
                    0 <= j < k ==> {
                        let i = listing(self@)[j];
                        &&& (#[trigger] v@[j]).0@ == entry_name(self@, i)
                        &&& v@[j].1@ == entry_bytes(self@, i)
                        &&& archive_lookup(self@, v@[j].0@) == Some(v@[j].1@)
                    },
            decreases self.listed@.len() - k,
        {
            let i = self.listed[k];
            assert(i as int == listing(self@)[k as int]);
            let r = d.record(i);
            let b = d.bytes(r);
            v.push((TesPath::from_bytes(r.name), b));
            k += 1;
        }
        v
    }

    /// Every listed file's directory record, one per distinct path, in directory order.
    pub fn records(&self) -> (v: Vec<FileRecord<'_>>)
        ensures
            v@.len() == listing(self@).len(),
            forall|k: int|
                0 <= k < v@.len() ==> {
                    let i = listing(self@)[k];
                    let r = #[trigger] v@[k];
                    &&& r.name@ == entry_name(self@, i)
                    &&& r.hash == entry_hash(self@, i)
                    &&& r.offset == entry_offset(self@, i)
                    &&& r.size == entry_size(self@, i)
                    &&& r.offset + r.size <= data_len(self@)
                },
    {
        proof {
            use_type_invariant(self);
            lemma_listing_upto(self.archive@, hdr_count(self.archive@));
        }
        let d = self.directory();
        let mut v: Vec<FileRecord<'_>> = Vec::new();
        let mut k: usize = 0;
        while k < self.listed.len()
            invariant
                d@ == self@,
                same_indices(self.listed@, listing(self@)),
                forall|j: int| 0 <= j < listing(self@).len() ==> 0 <= #[trigger] listing(self@)[j] < hdr_count(self@),
                k <= self.listed@.len(),
                v@.len() == k,
                forall|j: int|
                    0 <= j < k ==> {
                        let i = listing(self@)[j];
                        let r = #[trigger] v@[j];
                        &&& r.name@ == entry_name(self@, i)
                        &&& r.hash == entry_hash(self@, i)
                        &&& r.offset == entry_offset(self@, i)
                        &&& r.size == entry_size(self@, i)
                        &&& r.offset + r.size <= data_len(self@)
                    },
            decreases self.listed@.len() - k,
        {
            let i = self.listed[k];
            assert(i as int == listing(self@)[k as int]);
            v.push(d.record(i));
            k += 1;
        }
        v
    }

    /// The bytes `record` locates, as a zero-copy slice of the archive's data section.
    pub fn bytes(&self, record: FileRecord<'_>) -> (b: &[u8])
        requires
            record.offset + record.size <= data_len(self@),
        ensures
            b@ == self@.subrange(
                data_start(self@) + record.offset,
                data_start(self@) + record.offset + record.size,
            ),
    {
        self.directory().bytes(record)
    }

    /// Look up a file by path, case-insensitively and tolerant of `/` vs `\` separators.
    /// Returns a zero-copy slice of the archive: the bytes of the last entry filed under
    /// the path's hash whose name equals it in normal form.
    pub fn get(&self, name: &str) -> (r: Option<&[u8]>)
        ensures
            match r {
                Some(b) => archive_lookup(self@, name.spec_bytes()) == Some(b@),
                None => archive_lookup(self@, name.spec_bytes()) is None,
            },
    {
        self.directory().get(name)
    }
}

} // verus!
