//! Small byte-level helpers shared by the format readers: NUL-terminated string views,
//! little-endian integers, and the tolerant "parse or default" field rule.

use vstd::prelude::*;

verus! {

/// Index of the first NUL byte of `s`, or its length if there is none.
pub open spec fn nul_index(s: Seq<u8>) -> nat
    decreases s.len(),
{
    if s.len() == 0 {
        0
    } else if s[0] == 0 {
        0
    } else {
        1 + nul_index(s.drop_first())
    }
}

/// The bytes of `s` before its first NUL (all of `s` if it has none).
pub open spec fn until_nul(s: Seq<u8>) -> Seq<u8> {
    s.take(nul_index(s) as int)
}

/// `nul_index` is the one index before which no byte is NUL and at which the input
/// ends or holds a NUL.
pub proof fn lemma_nul_index(s: Seq<u8>)
    ensures
        nul_index(s) <= s.len(),
        forall|j: int| 0 <= j < nul_index(s) ==> s[j] != 0,
        nul_index(s) < s.len() ==> s[nul_index(s) as int] == 0,
    decreases s.len(),
{
    if s.len() > 0 && s[0] != 0 {
        lemma_nul_index(s.drop_first());
        assert forall|j: int| 0 <= j < nul_index(s) implies s[j] != 0 by {
            if j > 0 {
                assert(s[j] == s.drop_first()[j - 1]);
            }
        }
    }
}

/// Any index with that property is `nul_index`.
pub proof fn lemma_nul_index_unique(s: Seq<u8>, k: int)
    requires
        0 <= k <= s.len(),
        forall|j: int| 0 <= j < k ==> s[j] != 0,
        k < s.len() ==> s[k] == 0,
    ensures
        k == nul_index(s),
{
    lemma_nul_index(s);
    if k < nul_index(s) {
        assert(s[k] != 0);
    } else if k > nul_index(s) {
        assert(s[nul_index(s) as int] != 0);
    }
}

/// Position of the first NUL byte in `bytes`, or its length.
pub fn find_nul(bytes: &[u8]) -> (k: usize)
    ensures
        k == nul_index(bytes@),
        k <= bytes@.len(),
{
    let mut k: usize = 0;
    while k < bytes.len() && bytes[k] != 0
        invariant
            k <= bytes@.len(),
            forall|j: int| 0 <= j < k ==> bytes@[j] != 0,
        decreases bytes@.len() - k,
    {
        k += 1;
    }
    proof {
        lemma_nul_index_unique(bytes@, k as int);
    }
    k
}

/// View bytes as a Windows-1252 string, stopping at the first NUL byte. Zero-copy.
///
/// This handles both fixed-length NUL-padded `string` fields and NUL-terminated
/// `zstring` fields, since both are framed by an explicit size.
pub fn l1(bytes: &[u8]) -> (s: &[u8])
    ensures
        s@ == until_nul(bytes@),
{
    let k = find_nul(bytes);
    vstd::slice::slice_subrange(bytes, 0, k)
}

/// What a field reader yields: the input left after the field, and the field's value;
/// `None` when the input is too short or malformed.
pub type ParseResult<'a, T> = Option<(&'a [u8], T)>;

/// Read a fixed-length `char[n]` field: exactly `n` bytes, viewed up to their first NUL.
/// Used for fixed-length name fields. `None` when fewer than `n` bytes remain.
pub fn fixed_l1str<'a>(n: usize, input: &'a [u8]) -> (r: ParseResult<'a, &'a [u8]>)
    ensures
        match r {
            Some((rest, s)) => n <= input@.len() && rest@ == input@.skip(n as int) && s@ == until_nul(
                input@.take(n as int),
            ),
            None => n > input@.len(),
        },
{
    if n > input.len() {
        return None;
    }
    let field = vstd::slice::slice_subrange(input, 0, n);
    let rest = vstd::slice::slice_subrange(input, n, input.len());
    Some((rest, l1(field)))
}

/// The value of a field read over a complete payload, ignoring any trailing bytes
/// (alignment padding and version variants leave them routinely).
pub fn finish<T>(result: ParseResult<'_, T>) -> (r: Option<T>)
    ensures
        match result {
            Some((_, v)) => r == Some(v),
            None => r is None,
        },
{
    match result {
        Some((_, v)) => Some(v),
        None => None,
    }
}

/// Run a field reader over a payload, falling back to `T::default()` when the payload is
/// too short or malformed, so that decoding stays total for real data. Trailing bytes
/// are ignored.
pub fn parse_or_default<'a, T: Default, F: Fn(&'a [u8]) -> ParseResult<'a, T>>(parser: F, data: &'a [u8]) -> (r: T)
    requires
        parser.requires((data,)),
    ensures
        exists|o: ParseResult<'a, T>|
            #![trigger parser.ensures((data,), o)]
            {
            &&& parser.ensures((data,), o)
            &&& match o {
                Some((_, v)) => r == v,
                None => call_ensures(T::default, (), r),
            }
        },
{
    let o = parser(data);
    let ghost seen = o;
    match finish(o) {
        Some(v) => {
            assert(parser.ensures((data,), seen));
            assert(seen matches Some((_, w)) && v == w);
            v
        },
        None => {
            let d = T::default();
            assert(parser.ensures((data,), seen) && seen is None && call_ensures(T::default, (), d));
            d
        },
    }
}

} // verus!
