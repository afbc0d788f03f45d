//! A bounds-checked sequential cursor over the raw byte stream.
//!
//! NIF 4.0.0.2 has no block-size table, so every read is sequential and a short read is
//! the only low-level failure mode. Each read has a spec counterpart over `(data, pos)`
//! returning the value and the new position, or the [`ReadError`] it fails with; the
//! block parsers are specified by chaining those with [`then`].

use vstd::prelude::*;
use crate::bsa::directory::le32;
use crate::latin1::L1String;
use crate::nif::blocks::BlockRef;
use crate::nif::NifError;
use crate::text::{decimal, push_decimal, push_str};
use vstd::string::StringExecFns;

verus! {

/// A short read while decoding the stream.
#[derive(Debug, Clone, Copy, PartialEq, Eq, Structural)]
pub enum ReadError {
    /// `wanted` bytes were requested at `offset`, past the end of the data.
    Eof { wanted: u64, offset: u64 },
    /// No newline follows `offset`.
    NoNewline { offset: u64 },
}

/// The text of a [`ReadError`].
pub open spec fn read_error_message(e: ReadError) -> Seq<char> {
    match e {
        ReadError::Eof { wanted, offset } => "unexpected end of data (wanted "@ + decimal(
            wanted as nat,
        ) + " bytes at offset "@ + decimal(offset as nat) + ")"@,
        ReadError::NoNewline { offset } => "no newline after offset "@ + decimal(offset as nat),
    }
}

impl ReadError {
    /// The error's text, e.g. `unexpected end of data (wanted 4 bytes at offset 40)`.
    pub fn message(&self) -> (m: String)
        ensures
            m@ == read_error_message(*self),
    {
        match *self {
            ReadError::Eof { wanted, offset } => {
                let mut m = String::from_str("unexpected end of data (wanted ");
                push_decimal(&mut m, wanted);
                push_str(&mut m, " bytes at offset ");
                push_decimal(&mut m, offset);
                push_str(&mut m, ")");
                m
            },
            ReadError::NoNewline { offset } => {
                let mut m = String::from_str("no newline after offset ");
                push_decimal(&mut m, offset);
                m
            },
        }
    }

    /// This error as a parse failure, prefixed with where it happened:
    /// `{context}: {message}`.
    pub fn at(&self, context: &str) -> (e: NifError)
        ensures
            e matches NifError::Parse(m) && m@ == context@ + ": "@ + read_error_message(*self),
    {
        let mut m = String::from_str(context);
        push_str(&mut m, ": ");
        let inner = self.message();
        push_str(&mut m, inner.as_str());
        NifError::Parse(m)
    }
}

/// The outcome of a spec-level read: the value and the position after it, or the error.
pub type PResult<T> = Result<(T, int), ReadError>;

/// The outcome of an executable read.
pub type RResult<T> = Result<T, ReadError>;

/// Sequence two spec-level reads: run `f` on the first one's value and end position.
pub open spec fn then<A, B>(r: PResult<A>, f: spec_fn(A, int) -> PResult<B>) -> PResult<B> {
    match r {
        Ok((a, q)) => f(a, q),
        Err(e) => Err(e),
    }
}

/// Read `n` raw bytes at `p`.
pub open spec fn sp_take(d: Seq<u8>, p: int, n: int) -> PResult<Seq<u8>> {
    if p + n <= d.len() {
        Ok((d.subrange(p, p + n), p + n))
    } else {
        Err(ReadError::Eof { wanted: n as u64, offset: p as u64 })
    }
}

/// Skip `n` bytes at `p`.
pub open spec fn sp_skip(d: Seq<u8>, p: int, n: int) -> PResult<()> {
    if p + n <= d.len() {
        Ok(((), p + n))
    } else {
        Err(ReadError::Eof { wanted: n as u64, offset: p as u64 })
    }
}

pub open spec fn sp_u8(d: Seq<u8>, p: int) -> PResult<u8> {
    if p + 1 <= d.len() {
        Ok((d[p], p + 1))
    } else {
        Err(ReadError::Eof { wanted: 1, offset: p as u64 })
    }
}

pub open spec fn le16(d: Seq<u8>, p: int) -> int {
    d[p] + d[p + 1] * 256
}

pub open spec fn sp_u16(d: Seq<u8>, p: int) -> PResult<u16> {
    if p + 2 <= d.len() {
        Ok((le16(d, p) as u16, p + 2))
    } else {
        Err(ReadError::Eof { wanted: 2, offset: p as u64 })
    }
}

pub open spec fn sp_u32(d: Seq<u8>, p: int) -> PResult<u32> {
    if p + 4 <= d.len() {
        Ok((le32(d, p) as u32, p + 4))
    } else {
        Err(ReadError::Eof { wanted: 4, offset: p as u64 })
    }
}

/// Two's-complement reading of a 32-bit word.
pub open spec fn signed32(v: int) -> int {
    if v < 0x8000_0000 {
        v
    } else {
        v - 0x1_0000_0000
    }
}

pub open spec fn sp_i32(d: Seq<u8>, p: int) -> PResult<i32> {
    if p + 4 <= d.len() {
        Ok((signed32(le32(d, p)) as i32, p + 4))
    } else {
        Err(ReadError::Eof { wanted: 4, offset: p as u64 })
    }
}

/// A 4-byte IEEE float, kept as its bit pattern.
pub open spec fn sp_f32(d: Seq<u8>, p: int) -> PResult<u32> {
    sp_u32(d, p)
}

/// A boolean: in NIF ≤ 4.0.0.2 a `bool` is serialized as a 4-byte `uint`.
pub open spec fn sp_bool(d: Seq<u8>, p: int) -> PResult<bool> {
    then(sp_u32(d, p), |v: u32, q: int| Ok((v != 0, q)))
}

/// A `u32`-length-prefixed string.
pub open spec fn sp_string(d: Seq<u8>, p: int) -> PResult<Seq<u8>> {
    then(sp_u32(d, p), |n: u32, q: int| sp_take(d, q, n as int))
}

/// Three floats (bit patterns).
pub open spec fn sp_vec3(d: Seq<u8>, p: int) -> PResult<[u32; 3]> {
    then(
        sp_f32(d, p),
        |x: u32, q: int|
            then(
                sp_f32(d, q),
                |y: u32, q2: int| then(sp_f32(d, q2), |z: u32, q3: int| Ok(([x, y, z], q3))),
            ),
    )
}

/// A single block reference.
pub open spec fn sp_block_ref(d: Seq<u8>, p: int) -> PResult<BlockRef> {
    then(sp_i32(d, p), |v: i32, q: int| Ok((BlockRef(v), q)))
}

/// `n` block references in a row.
pub open spec fn sp_block_refs(d: Seq<u8>, p: int, n: nat) -> PResult<Seq<BlockRef>>
    decreases n,
{
    if n == 0 {
        Ok((seq![], p))
    } else {
        then(
            sp_block_ref(d, p),
            |r: BlockRef, q: int| prepend(r, sp_block_refs(d, q, (n - 1) as nat)),
        )
    }
}

/// Put `v` in front of a successful sequence result.
pub open spec fn prepend<T>(v: T, r: PResult<Seq<T>>) -> PResult<Seq<T>> {
    match r {
        Ok((vs, q)) => Ok((seq![v] + vs, q)),
        Err(e) => Err(e),
    }
}

/// Put `acc` in front of a successful sequence result.
pub open spec fn prefix_with<T>(acc: Seq<T>, r: PResult<Seq<T>>) -> PResult<Seq<T>> {
    match r {
        Ok((vs, q)) => Ok((acc + vs, q)),
        Err(e) => Err(e),
    }
}

/// A `u32` count followed by that many block references.
pub open spec fn sp_refs(d: Seq<u8>, p: int) -> PResult<Seq<BlockRef>> {
    then(sp_u32(d, p), |n: u32, q: int| sp_block_refs(d, q, n as nat))
}


/// Read elements `i..n` in a row with `f` (given the element index and position),
/// collecting them.
pub open spec fn sp_repeat<T>(f: spec_fn(int, int) -> PResult<T>, i: int, n: int, p: int) -> PResult<
    Seq<T>,
>
    decreases n - i,
{
    if i >= n {
        Ok((seq![], p))
    } else {
        then(f(i, p), |v: T, q: int| prepend(v, sp_repeat(f, i + 1, n, q)))
    }
}

/// Read elements `i..n` in a row with `f`, keeping nothing.
pub open spec fn sp_times(f: spec_fn(int, int) -> PResult<()>, i: int, n: int, p: int) -> PResult<()>
    decreases n - i,
{
    if i >= n {
        Ok(((), p))
    } else {
        then(f(i, p), |_u: (), q: int| sp_times(f, i + 1, n, q))
    }
}

/// One step of a collecting loop: the next element either extends the prefix read so
/// far or ends the whole read with its error.
pub proof fn lemma_repeat_step<T>(
    f: spec_fn(int, int) -> PResult<T>,
    i: int,
    n: int,
    p: int,
    acc: Seq<T>,
)
    requires
        i < n,
    ensures
        match f(i, p) {
            Ok((v, q)) => prefix_with(acc, sp_repeat(f, i, n, p)) == prefix_with(
                acc.push(v),
                sp_repeat(f, i + 1, n, q),
            ),
            Err(e) => prefix_with(acc, sp_repeat(f, i, n, p)) == PResult::<Seq<T>>::Err(e),
        },
{
    match f(i, p) {
        Ok((v, q)) => {
            match sp_repeat(f, i + 1, n, q) {
                Ok((vs, q2)) => {
                    assert(acc + (seq![v] + vs) =~= acc.push(v) + vs);
                },
                Err(_) => {},
            }
        },
        Err(_) => {},
    }
}

/// The end of a collecting loop: nothing more is read.
pub proof fn lemma_repeat_end<T>(f: spec_fn(int, int) -> PResult<T>, i: int, n: int, p: int, acc: Seq<T>)
    requires
        i >= n,
    ensures
        prefix_with(acc, sp_repeat(f, i, n, p)) == PResult::<Seq<T>>::Ok((acc, p)),
{
    assert(acc + Seq::<T>::empty() =~= acc);
}

/// The bytes up to the next `\n` after `p`, consuming the newline too.
pub open spec fn sp_line(d: Seq<u8>, p: int) -> PResult<Seq<u8>> {
    if exists|k: int| p <= k < d.len() && d[k] == 0x0a {
        let k = choose|k: int|
            p <= k < d.len() && d[k] == 0x0a && forall|j: int| p <= j < k ==> d[j] != 0x0a;
        Ok((d.subrange(p, k), k + 1))
    } else {
        Err(ReadError::NoNewline { offset: p as u64 })
    }
}

/// The executable read at `r0` ended in `r1` with `res`, as the spec read `s` says. (A
/// read made of several steps may have advanced before a later step fell short; reads of
/// a single step also state that a short read leaves the cursor where it was.)
pub open spec fn steps<T>(r0: Reader, r1: Reader, res: RResult<T>, s: PResult<T>) -> bool {
    &&& r1.data() == r0.data()
    &&& match res {
        Ok(v) => s == PResult::<T>::Ok((v, r1.pos())),
        Err(e) => s == PResult::<T>::Err(e),
    }
}

/// Like [`steps`], for results compared by their view.
pub open spec fn steps_view<T: View>(r0: Reader, r1: Reader, res: RResult<T>, s: PResult<T::V>) -> bool {
    &&& r1.data() == r0.data()
    &&& match res {
        Ok(v) => s == PResult::<T::V>::Ok((v@, r1.pos())),
        Err(e) => s == PResult::<T::V>::Err(e),
    }
}

/// A simple sequential cursor over the byte stream with bounds-checked little-endian
/// reads. All reads advance the cursor; a short read produces a [`ReadError`].
pub struct Reader<'a> {
    data: &'a [u8],
    pos: usize,
}

impl<'a> Reader<'a> {
    #[verifier::type_invariant]
    spec fn inv(self) -> bool {
        self.pos <= self.data@.len()
    }

    /// The bytes being read.
    pub closed spec fn data(self) -> Seq<u8> {
        self.data@
    }

    /// The cursor position.
    pub closed spec fn pos(self) -> int {
        self.pos as int
    }

    pub fn new(data: &'a [u8]) -> (r: Reader<'a>)
        ensures
            r.data() == data@,
            r.pos() == 0,
    {
        Reader { data, pos: 0 }
    }

    /// Take `n` raw bytes.
    pub fn take(&mut self, n: u64) -> (res: RResult<&'a [u8]>)
        ensures
            steps_view(*old(self), *final(self), res, sp_take(old(self).data(), old(self).pos(), n as int)),
            res is Err ==> final(self).pos() == old(self).pos(),
    {
        proof { use_type_invariant(&*self); }
        let len = self.data.len();
        if n <= (len - self.pos) as u64 {
            let end = self.pos + n as usize;
            let slice = vstd::slice::slice_subrange(self.data, self.pos, end);
            self.pos = end;
            Ok(slice)
        } else {
            Err(ReadError::Eof { wanted: n, offset: self.pos as u64 })
        }
    }

    /// Skip `n` bytes.
    pub fn skip(&mut self, n: u64) -> (res: RResult<()>)
        ensures
            steps(*old(self), *final(self), res, sp_skip(old(self).data(), old(self).pos(), n as int)),
            res is Err ==> final(self).pos() == old(self).pos(),
    {
        match self.take(n) {
            Ok(_) => Ok(()),
            Err(e) => Err(e),
        }
    }

    /// The bytes after the cursor.
    pub fn rest(&self) -> (b: &'a [u8])
        ensures
            self.pos() <= self.data().len(),
            b@ == self.data().skip(self.pos()),
    {
        proof { use_type_invariant(self); }
        vstd::slice::slice_subrange(self.data, self.pos, self.data.len())
    }

    /// The number of bytes after the cursor; the cursor never passes the end of the data.
    pub fn remaining(&self) -> (n: usize)
        ensures
            0 <= self.pos() <= self.data().len(),
            n == self.data().len() - self.pos(),
    {
        proof { use_type_invariant(self); }
        self.data.len() - self.pos
    }

    pub fn u8(&mut self) -> (res: RResult<u8>)
        ensures
            steps(*old(self), *final(self), res, sp_u8(old(self).data(), old(self).pos())),
            res is Err ==> final(self).pos() == old(self).pos(),
    {
        proof { use_type_invariant(&*self); }
        if self.pos < self.data.len() {
            let b = self.data[self.pos];
            self.pos = self.pos + 1;
            Ok(b)
        } else {
            Err(ReadError::Eof { wanted: 1, offset: self.pos as u64 })
        }
    }

    pub fn u16(&mut self) -> (res: RResult<u16>)
        ensures
            steps(*old(self), *final(self), res, sp_u16(old(self).data(), old(self).pos())),
            res is Err ==> final(self).pos() == old(self).pos(),
    {
        proof { use_type_invariant(&*self); }
        if 2 <= self.data.len() - self.pos {
            let p = self.pos;
            let v: u16 = (self.data[p] as u16) + (self.data[p + 1] as u16) * 256;
            self.pos = p + 2;
            Ok(v)
        } else {
            Err(ReadError::Eof { wanted: 2, offset: self.pos as u64 })
        }
    }

    pub fn u32(&mut self) -> (res: RResult<u32>)
        ensures
            steps(*old(self), *final(self), res, sp_u32(old(self).data(), old(self).pos())),
            res is Err ==> final(self).pos() == old(self).pos(),
    {
        proof { use_type_invariant(&*self); }
        if 4 <= self.data.len() - self.pos {
            let p = self.pos;
            let v = crate::bsa::directory::u32_at(self.data, p);
            self.pos = p + 4;
            Ok(v)
        } else {
            Err(ReadError::Eof { wanted: 4, offset: self.pos as u64 })
        }
    }

    pub fn i32(&mut self) -> (res: RResult<i32>)
        ensures
            steps(*old(self), *final(self), res, sp_i32(old(self).data(), old(self).pos())),
            res is Err ==> final(self).pos() == old(self).pos(),
    {
        match self.u32() {
            Ok(v) => {
                if v < 0x8000_0000 {
                    Ok(v as i32)
                } else {
                    let w = (v - 0x8000_0000) as i32;
                    Ok(w - 0x7fff_ffff - 1)
                }
            },
            Err(e) => Err(e),
        }
    }

    /// A 4-byte float, as its bit pattern.
    pub fn float_bits(&mut self) -> (res: RResult<u32>)
        ensures
            steps(*old(self), *final(self), res, sp_f32(old(self).data(), old(self).pos())),
            res is Err ==> final(self).pos() == old(self).pos(),
    {
        self.u32()
    }

    /// A boolean. In NIF ≤ 4.0.0.2 a `bool` is serialized as a 4-byte `uint`.
    pub fn boolean(&mut self) -> (res: RResult<bool>)
        ensures
            steps(*old(self), *final(self), res, sp_bool(old(self).data(), old(self).pos())),
            res is Err ==> final(self).pos() == old(self).pos(),
    {
        match self.u32() {
            Ok(v) => Ok(v != 0),
            Err(e) => Err(e),
        }
    }

    /// A `u32`-length-prefixed string (the framing used by block type names and by every
    /// `SizedString` field; not null-terminated).
    pub fn string(&mut self) -> (res: RResult<L1String>)
        ensures
            steps_view(*old(self), *final(self), res, sp_string(old(self).data(), old(self).pos())),
    {
        match self.u32() {
            Ok(n) => match self.take(n as u64) {
                Ok(b) => Ok(L1String::from_bytes(vstd::slice::slice_to_vec(b))),
                Err(e) => Err(e),
            },
            Err(e) => Err(e),
        }
    }

    /// Three floats, as bit patterns.
    pub fn vec3(&mut self) -> (res: RResult<[u32; 3]>)
        ensures
            steps(*old(self), *final(self), res, sp_vec3(old(self).data(), old(self).pos())),
    {
        let x = match self.float_bits() {
            Ok(v) => v,
            Err(e) => return Err(e),
        };
        let y = match self.float_bits() {
            Ok(v) => v,
            Err(e) => return Err(e),
        };
        let z = match self.float_bits() {
            Ok(v) => v,
            Err(e) => return Err(e),
        };
        Ok([x, y, z])
    }

    /// A single block reference (an `i32`, negative meaning "none").
    pub fn block_ref(&mut self) -> (res: RResult<BlockRef>)
        ensures
            steps(*old(self), *final(self), res, sp_block_ref(old(self).data(), old(self).pos())),
            res is Err ==> final(self).pos() == old(self).pos(),
    {
        match self.i32() {
            Ok(v) => Ok(BlockRef(v)),
            Err(e) => Err(e),
        }
    }

    /// A `u32` count followed by that many block references.
    pub fn refs(&mut self) -> (res: RResult<Vec<BlockRef>>)
        ensures
            steps_view(*old(self), *final(self), res, sp_refs(old(self).data(), old(self).pos())),
    {
        let n = match self.u32() {
            Ok(n) => n,
            Err(e) => return Err(e),
        };
        let ghost d = self.data();
        let ghost start = self.pos();
        let mut out: Vec<BlockRef> = Vec::new();
        let mut k: u32 = 0;
        while k < n
            invariant
                self.data() == d,
                d == old(self).data(),
                sp_refs(old(self).data(), old(self).pos()) == sp_block_refs(d, start, n as nat),
                k <= n,
                sp_block_refs(d, start, n as nat) == prefix_with(
                    out@,
                    sp_block_refs(d, self.pos(), (n - k) as nat),
                ),
            decreases n - k,
        {
            let ghost before = self.pos();
            match self.block_ref() {
                Ok(r) => {
                    proof {
                        let rest = sp_block_refs(d, self.pos(), (n - k - 1) as nat);
                        assert(sp_block_refs(d, before, (n - k) as nat) == prepend(r, rest));
                        match rest {
                            Ok((vs, q)) => {
                                assert(out@ + (seq![r] + vs) =~= out@.push(r) + vs);
                            },
                            Err(e) => {},
                        }
                    }
                    out.push(r);
                },
                Err(e) => {
                    proof {
                        assert(sp_block_refs(d, before, (n - k) as nat) == PResult::<
                            Seq<BlockRef>,
                        >::Err(e));
                    }
                    return Err(e);
                },
            }
            k += 1;
        }
        proof {
            assert(out@ + Seq::<BlockRef>::empty() =~= out@);
        }
        Ok(out)
    }

    /// Read up to and including the next `\n`, returning the bytes before it.
    pub fn line(&mut self) -> (res: RResult<&'a [u8]>)
        ensures
            steps_view(*old(self), *final(self), res, sp_line(old(self).data(), old(self).pos())),
            res is Err ==> final(self).pos() == old(self).pos(),
    {
        proof { use_type_invariant(&*self); }
        let ghost d = self.data@;
        let len = self.data.len();
        let start = self.pos;
        let mut k = start;
        while k < len && self.data[k] != 0x0a
            invariant
                start <= k <= len,
                len == d.len(),
                d == self.data@,
                start == self.pos,
                forall|j: int| start <= j < k ==> d[j] != 0x0a,
            decreases len - k,
        {
            k += 1;
        }
        if k == len {
            return Err(ReadError::NoNewline { offset: start as u64 });
        }
        proof {
            let c = choose|c: int|
                start <= c < d.len() && d[c] == 0x0a && forall|j: int| start <= j < c ==> d[j] != 0x0a;
            assert(d[k as int] == 0x0a);
            if c < k {
                assert(d[c] != 0x0a);
            } else if c > k {
                assert(d[k as int] != 0x0a);
            }
        }
        let line = vstd::slice::slice_subrange(self.data, start, k);
        self.pos = k + 1;
        Ok(line)
    }
}

} // verus!
