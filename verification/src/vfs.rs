//! The layered game-data virtual file system.
//!
//! The engine resolves a data path (`meshes\i\in_de_shack_01.nif`) by checking loose files
//! in the `Data Files` directory first, then the registered archives. [`TesVfs`] does the
//! same over one case-insensitive, separator-agnostic view: **loose files win over
//! archives**, and **later archives win over earlier ones** (the load-order rule —
//! `Bloodmoon.bsa` overrides `Morrowind.bsa`). Among loose files that name the same path,
//! the one listed last wins.
//!
//! Loose files are indexed once, by path hash, when the VFS is built; archive entries
//! are found through each archive's own sorted hash table. Archive entries are served as
//! zero-copy slices of the archive; loose entries are reported by their root-relative
//! path (case preserved as on disk) for the caller to read.

use vstd::prelude::*;
use vstd::string::{StringSliceAdditionalSpecFns, StringExecFns, StrSliceExecFns};
use vstd::utf8::encode_utf8;
use crate::bsa::Bsa;
use crate::loose::{LooseIndex, lemma_loose_hit_none};
use crate::bsa::directory::{archive_lookup, lemma_archive_lookup_normal_form};
use crate::paths::{normalize_char, same_path, normalized_char};
use crate::text::{push_char, push_str};

verus! {

/// Where a resolved path's bytes come from.
#[derive(Debug, Clone, Copy)]
pub enum Source<'a> {
    /// A zero-copy slice of an archive.
    Archived(&'a [u8]),
    /// A loose file, as its path relative to the data root (case preserved as on disk).
    Loose(&'a [u8]),
}

/// The contents of a [`Source`].
pub enum SourceV {
    Archived(Seq<u8>),
    Loose(Seq<u8>),
}

impl<'a> View for Source<'a> {
    type V = SourceV;

    open spec fn view(&self) -> SourceV {
        match self {
            Source::Archived(b) => SourceV::Archived(b@),
            Source::Loose(p) => SourceV::Loose(p@),
        }
    }
}

/// A layered, case-insensitive view over a `Data Files` directory and its archives. See
/// the [module docs](self) for the precedence rules.
pub struct TesVfs {
    /// The data root loose entries are relative to; `None` for the empty VFS.
    root: Option<String>,
    /// The archives, in load order.
    archives: Vec<Bsa>,
    /// The loose files' root-relative paths.
    loose: Vec<Vec<u8>>,
    /// The loose files by path hash.
    loose_index: LooseIndex,
}

/// The contents of a [`TesVfs`]: its root, each archive's bytes in load order, and each
/// loose file's root-relative path.
pub struct TesVfsV {
    pub root: Option<Seq<char>>,
    pub archives: Seq<Seq<u8>>,
    pub loose: Seq<Seq<u8>>,
}

impl View for TesVfs {
    type V = TesVfsV;

    closed spec fn view(&self) -> TesVfsV {
        TesVfsV {
            root: match self.root {
                Some(r) => Some(r@),
                None => None,
            },
            archives: self.archives@.map_values(|b: Bsa| b@),
            loose: self.loose@.map_values(|p: Vec<u8>| p@),
        }
    }
}

/// The last loose file below `n` whose path names `key`.
pub open spec fn loose_hit(loose: Seq<Seq<u8>>, key: Seq<u8>, n: int) -> Option<int>
    decreases n,
{
    if n <= 0 {
        None
    } else if same_path(loose[n - 1], key) {
        Some(n - 1)
    } else {
        loose_hit(loose, key, n - 1)
    }
}

/// What the archives below `n` serve for `key`: the latest archive that has it wins.
pub open spec fn archives_lookup(archives: Seq<Seq<u8>>, key: Seq<u8>, n: int) -> Option<Seq<u8>>
    decreases n,
{
    if n <= 0 {
        None
    } else {
        match archive_lookup(archives[n - 1], key) {
            Some(b) => Some(b),
            None => archives_lookup(archives, key, n - 1),
        }
    }
}

/// What the VFS serves for the path with bytes `key`: the last loose file naming it, else
/// what the latest archive that has it serves, else nothing.
pub open spec fn vfs_lookup(v: TesVfsV, key: Seq<u8>) -> Option<SourceV> {
    match loose_hit(v.loose, key, v.loose.len() as int) {
        Some(i) => Some(SourceV::Loose(v.loose[i])),
        None => match archives_lookup(v.archives, key, v.archives.len() as int) {
            Some(b) => Some(SourceV::Archived(b)),
            None => None,
        },
    }
}

/// Whether the path with text `path` resolves to a file.
pub open spec fn vfs_contains(v: TesVfsV, path: Seq<char>) -> bool {
    vfs_lookup(v, encode_utf8(path)) is Some
}

/// The characters after the last `\` or `/` below `n` start at the returned index.
pub open spec fn base_start(name: Seq<char>, n: int) -> int
    decreases n,
{
    if n <= 0 {
        0
    } else if name[n - 1] == '\\' || name[n - 1] == '/' {
        n
    } else {
        base_start(name, n - 1)
    }
}

/// The file name part of `name`: everything after its last `\` or `/`.
pub open spec fn base_name(name: Seq<char>) -> Seq<char> {
    name.skip(base_start(name, name.len() as int))
}

/// The index of the last `.` below `n`, or `-1`.
pub open spec fn last_dot(s: Seq<char>, n: int) -> int
    decreases n,
{
    if n <= 0 {
        -1
    } else if s[n - 1] == '.' {
        n - 1
    } else {
        last_dot(s, n - 1)
    }
}

/// `base` without its extension: everything before its last `.` (all of it if none).
pub open spec fn stem(base: Seq<char>) -> Seq<char> {
    let d = last_dot(base, base.len() as int);
    if d < 0 {
        base
    } else {
        base.take(d)
    }
}

/// The paths tried for a texture reference, in order: the reference itself when it
/// embeds a directory, then the file name under `textures\`, then its stem with `.dds`
/// and with `.tga` there.
pub open spec fn texture_candidates(name: Seq<char>) -> Seq<Seq<char>> {
    let base = base_name(name);
    let st = stem(base);
    let tail = seq![
        "textures\\"@ + base,
        "textures\\"@ + st + ".dds"@,
        "textures\\"@ + st + ".tga"@,
    ];
    if base != name {
        seq![name] + tail
    } else {
        tail
    }
}

/// The paths tried for a model reference, in order: under `meshes\`, then verbatim.
pub open spec fn model_candidates(name: Seq<char>) -> Seq<Seq<char>> {
    seq!["meshes\\"@ + name, name]
}

/// The first of `cands` that the VFS contains.
pub open spec fn first_present(v: TesVfsV, cands: Seq<Seq<char>>) -> Option<Seq<char>>
    decreases cands.len(),
{
    if cands.len() == 0 {
        None
    } else if vfs_contains(v, cands[0]) {
        Some(cands[0])
    } else {
        first_present(v, cands.drop_first())
    }
}

/// One character of a path in forward-slash normal form: ASCII-lowercase, with both
/// separators written `/`.
pub open spec fn forward_char(c: char) -> char {
    if normalize_char(c) == '\\' {
        '/'
    } else {
        normalize_char(c)
    }
}

/// A path in forward-slash normal form.
pub open spec fn forward_form(path: Seq<char>) -> Seq<char> {
    path.map_values(|c: char| forward_char(c))
}

/// A resolved candidate, reported in forward-slash normal form.
pub open spec fn resolved(found: Option<Seq<char>>) -> Option<Seq<char>> {
    match found {
        Some(c) => Some(forward_form(c)),
        None => None,
    }
}

/// The text of an optional string.
pub open spec fn opt_text(s: Option<String>) -> Option<Seq<char>> {
    match s {
        Some(t) => Some(t@),
        None => None,
    }
}

/// `path` in forward-slash normal form.
fn forward_path(path: &str) -> (r: String)
    ensures
        r@ == forward_form(path@),
{
    let n = path.unicode_len();
    let mut r = String::new();
    let mut i: usize = 0;
    while i < n
        invariant
            n == path@.len(),
            i <= n,
            r@ == forward_form(path@.take(i as int)),
        decreases n - i,
    {
        let c = normalized_char(path.get_char(i));
        let f = if c == '\\' {
            '/'
        } else {
            c
        };
        push_char(&mut r, f);
        assert(forward_form(path@.take(i + 1)) =~= forward_form(path@.take(i as int)).push(
            forward_char(path@[i as int]),
        ));
        i += 1;
    }
    assert(path@.take(n as int) =~= path@);
    r
}

/// Loose files win over archives: when some loose file names `key`, the VFS serves a
/// loose file naming `key`, whatever the archives hold.
pub proof fn lemma_loose_wins(v: TesVfsV, key: Seq<u8>, i: int)
    requires
        0 <= i < v.loose.len(),
        same_path(v.loose[i], key),
    ensures
        vfs_lookup(v, key) matches Some(SourceV::Loose(p)) && same_path(p, key),
{
    lemma_loose_hit_found(v.loose, key, v.loose.len() as int, i);
}

proof fn lemma_loose_hit_found(loose: Seq<Seq<u8>>, key: Seq<u8>, n: int, i: int)
    requires
        0 <= i < n <= loose.len(),
        same_path(loose[i], key),
    ensures
        loose_hit(loose, key, n) matches Some(j) && i <= j < n && same_path(loose[j], key),
    decreases n,
{
    if !same_path(loose[n - 1], key) {
        lemma_loose_hit_found(loose, key, n - 1, i);
    }
}

/// Later archives win over earlier ones: when no loose file names `key`, archive `a`
/// serves it, and no later archive does, the VFS serves what archive `a` serves.
pub proof fn lemma_later_archive_wins(v: TesVfsV, key: Seq<u8>, a: int)
    requires
        forall|i: int| 0 <= i < v.loose.len() ==> !same_path(#[trigger] v.loose[i], key),
        0 <= a < v.archives.len(),
        archive_lookup(v.archives[a], key) is Some,
        forall|b: int| a < b < v.archives.len() ==> archive_lookup(#[trigger] v.archives[b], key) is None,
    ensures
        vfs_lookup(v, key) == Some(SourceV::Archived(archive_lookup(v.archives[a], key)->0)),
{
    lemma_loose_hit_none(v.loose, key, v.loose.len() as int);
    lemma_archives_lookup_latest(v.archives, key, v.archives.len() as int, a);
}

proof fn lemma_archives_lookup_latest(archives: Seq<Seq<u8>>, key: Seq<u8>, n: int, a: int)
    requires
        0 <= a < n <= archives.len(),
        archive_lookup(archives[a], key) is Some,
        forall|b: int| a < b < archives.len() ==> archive_lookup(#[trigger] archives[b], key) is None,
    ensures
        archives_lookup(archives, key, n) == archive_lookup(archives[a], key),
    decreases n,
{
    if n - 1 != a {
        lemma_archives_lookup_latest(archives, key, n - 1, a);
    }
}

/// Lookups ignore case and separators: two keys equal in the path normal form resolve to
/// the same source.
pub proof fn lemma_lookup_normal_form(v: TesVfsV, a: Seq<u8>, b: Seq<u8>)
    requires
        same_path(a, b),
    ensures
        vfs_lookup(v, a) == vfs_lookup(v, b),
{
    lemma_loose_hit_same(v.loose, a, b, v.loose.len() as int);
    lemma_archives_lookup_same(v.archives, a, b, v.archives.len() as int);
}

proof fn lemma_loose_hit_same(loose: Seq<Seq<u8>>, a: Seq<u8>, b: Seq<u8>, n: int)
    requires
        same_path(a, b),
    ensures
        loose_hit(loose, a, n) == loose_hit(loose, b, n),
    decreases n,
{
    if n > 0 {
        lemma_loose_hit_same(loose, a, b, n - 1);
    }
}

proof fn lemma_archives_lookup_same(archives: Seq<Seq<u8>>, a: Seq<u8>, b: Seq<u8>, n: int)
    requires
        same_path(a, b),
    ensures
        archives_lookup(archives, a, n) == archives_lookup(archives, b, n),
    decreases n,
{
    if n > 0 {
        lemma_archive_lookup_normal_form(archives[n - 1], a, b);
        lemma_archives_lookup_same(archives, a, b, n - 1);
    }
}

/// Whether `c` separates path components.
fn is_separator(c: char) -> (b: bool)
    ensures
        b == (c == '\\' || c == '/'),
{
    c == '\\' || c == '/'
}

/// `prefix` followed by `rest`.
fn joined(prefix: &str, rest: &str) -> (r: String)
    ensures
        r@ == prefix@ + rest@,
{
    let mut r = String::from_str(prefix);
    push_str(&mut r, rest);
    r
}

impl TesVfs {
    #[verifier::type_invariant]
    spec fn inv(self) -> bool {
        self.loose_index.indexes(self.loose@.map_values(|p: Vec<u8>| p@))
    }

    /// A VFS over the data root `root`, with `archives` in load order (later ones override
    /// earlier ones) and the root-relative paths of the loose files under `root`, which
    /// override them all.
    pub fn new(root: String, archives: Vec<Bsa>, loose: Vec<Vec<u8>>) -> (v: TesVfs)
        ensures
            v@.root == Some(root@),
            v@.archives == archives@.map_values(|b: Bsa| b@),
            v@.loose == loose@.map_values(|p: Vec<u8>| p@),
    {
        let loose_index = LooseIndex::build(&loose);
        TesVfs { root: Some(root), archives, loose, loose_index }
    }

    /// An empty VFS: every lookup misses. Keeps an app bootable when the data directory
    /// is absent.
    pub fn empty() -> (v: TesVfs)
        ensures
            v@.root is None,
            v@.archives.len() == 0,
            v@.loose.len() == 0,
            forall|key: Seq<u8>| vfs_lookup(v@, key) is None,
    {
        let loose: Vec<Vec<u8>> = Vec::new();
        assert(loose@.map_values(|p: Vec<u8>| p@) =~= Seq::<Seq<u8>>::empty());
        let v = TesVfs { root: None, archives: Vec::new(), loose, loose_index: LooseIndex::empty() };
        assert(v@.archives =~= Seq::<Seq<u8>>::empty());
        assert(v@.loose =~= Seq::<Seq<u8>>::empty());
        v
    }

    /// The data root loose entries are relative to; `None` for the empty VFS.
    pub fn root(&self) -> (r: Option<&str>)
        ensures
            match r {
                Some(t) => self@.root == Some(t@),
                None => self@.root is None,
            },
    {
        match &self.root {
            Some(r) => Some(r.as_str()),
            None => None,
        }
    }

    /// Where `path` (any case, `/` or `\` separators) resolves to: the last loose file
    /// naming it, else the latest archive that has it. `None` when nothing does.
    pub fn lookup(&self, path: &str) -> (r: Option<Source<'_>>)
        ensures
            match r {
                Some(s) => vfs_lookup(self@, path.spec_bytes()) == Some(s@),
                None => vfs_lookup(self@, path.spec_bytes()) is None,
            },
    {
        proof {
            use_type_invariant(self);
        }
        let key = path.as_bytes();
        let ghost v = self@;
        if let Some(i) = self.loose_index.find(&self.loose, key) {
            assert(v.loose[i as int] == self.loose@[i as int]@);
            return Some(Source::Loose(self.loose[i].as_slice()));
        }
        let mut a = self.archives.len();
        while a > 0
            invariant
                v == self@,
                key@ == path.spec_bytes(),
                a <= self.archives@.len(),
                loose_hit(v.loose, key@, v.loose.len() as int) is None,
                archives_lookup(v.archives, key@, v.archives.len() as int) == archives_lookup(
                    v.archives,
                    key@,
                    a as int,
                ),
            decreases a,
        {
            assert(v.archives[a - 1] == self.archives@[a - 1]@);
            match self.archives[a - 1].get(path) {
                Some(b) => return Some(Source::Archived(b)),
                None => {},
            }
            a -= 1;
        }
        None
    }

    /// Whether `path` (any case, `/` or `\` separators) resolves to a file. I/O-free.
    pub fn contains(&self, path: &str) -> (b: bool)
        ensures
            b == vfs_contains(self@, path@),
    {
        self.lookup(path).is_some()
    }

    /// The first of `cands` the VFS contains, in forward-slash normal form.
    fn first_resolved(&self, cands: &Vec<String>) -> (r: Option<String>)
        ensures
            opt_text(r) == resolved(first_present(self@, cands@.map_values(|s: String| s@))),
    {
        let ghost all = cands@.map_values(|s: String| s@);
        assert(all.skip(0) =~= all);
        let mut i: usize = 0;
        while i < cands.len()
            invariant
                all == cands@.map_values(|s: String| s@),
                i <= cands.len(),
                first_present(self@, all) == first_present(self@, all.skip(i as int)),
            decreases cands.len() - i,
        {
            assert(all.skip(i as int).drop_first() =~= all.skip(i + 1));
            assert(all.skip(i as int)[0] == cands@[i as int]@);
            if self.contains(cands[i].as_str()) {
                return Some(forward_path(cands[i].as_str()));
            }
            i += 1;
        }
        None
    }

    /// Resolve a texture reference to the VFS path (forward-slash form) that actually
    /// exists, or `None`.
    ///
    /// Texture names are usually bare filenames (`Tx_BeerStein.dds`) looked up under
    /// `textures\`, occasionally with the prefix embedded; and a `.tga`-named texture is
    /// routinely shipped as `.dds` (or vice versa), so both extensions are tried.
    pub fn resolve_texture(&self, name: &str) -> (r: Option<String>)
        ensures
            opt_text(r) == resolved(first_present(self@, texture_candidates(name@))),
    {
        let n = name.unicode_len();
        let mut b = n;
        while b > 0 && !is_separator(name.get_char(b - 1))
            invariant
                n == name@.len(),
                b <= n,
                base_start(name@, n as int) == base_start(name@, b as int),
            decreases b,
        {
            b -= 1;
        }
        let base = name.substring_char(b, n);
        let bn = base.unicode_len();
        let mut d = bn;
        while d > 0 && base.get_char(d - 1) != '.'
            invariant
                bn == base@.len(),
                d <= bn,
                last_dot(base@, bn as int) == last_dot(base@, d as int),
            decreases d,
        {
            d -= 1;
        }
        let st = if d > 0 {
            base.substring_char(0, d - 1)
        } else {
            base
        };
        assert(base@ == base_name(name@));
        assert(st@ == stem(base@));
        let mut cands: Vec<String> = Vec::new();
        if b != 0 {
            cands.push(String::from_str(name));
        }
        cands.push(joined("textures\\", base));
        let with_dir = joined("textures\\", st);
        cands.push(joined(with_dir.as_str(), ".dds"));
        cands.push(joined(with_dir.as_str(), ".tga"));
        proof {
            reveal_strlit("textures\\");
            reveal_strlit(".dds");
            reveal_strlit(".tga");
            assert((b != 0) == (base@ != name@)) by {
                if b == 0 {
                    assert(base@ =~= name@);
                } else {
                    assert(base@.len() < name@.len());
                }
            }
            assert(cands@.map_values(|s: String| s@) =~= texture_candidates(name@));
        }
        self.first_resolved(&cands)
    }

    /// Resolve a model reference to the VFS path (forward-slash form) that actually
    /// exists, or `None`.
    ///
    /// Model references are relative to `meshes\` without the prefix
    /// (`f\act_bm_firelake00.nif`); the verbatim path is also tried, for references that
    /// embed the prefix.
    pub fn resolve_model(&self, name: &str) -> (r: Option<String>)
        ensures
            opt_text(r) == resolved(first_present(self@, model_candidates(name@))),
    {
        let mut cands: Vec<String> = Vec::new();
        cands.push(joined("meshes\\", name));
        cands.push(String::from_str(name));
        proof {
            reveal_strlit("meshes\\");
            assert(cands@.map_values(|s: String| s@) =~= model_candidates(name@));
        }
        self.first_resolved(&cands)
    }
}

} // verus!
