//! Parser for NetImmerse/Gamebryo `.nif` model files (TES3 / Morrowind).
//!
//! Morrowind ships NIF version **4.0.0.2** (`0x0400_0002`). Unlike later NIFs, a 4.0.0.2
//! file has no block-type table and no block-size table in its header: each block is
//! preceded inline by its type name (a length-prefixed string) and block sizes are
//! implicit, so traversal needs a body parser per block type. [`Nif::parse`] decodes the
//! static-mesh block graph — nodes, shapes, geometry, the texturing/material/alpha
//! properties and source textures — and walks past animation, particle, skinning and
//! effect blocks (kept as [`Block::Other`] so block indices stay aligned). Any other block
//! type makes parsing fail with a message naming it.

use vstd::prelude::*;
use vstd::string::StringExecFns;
use crate::latin1::{L1String, decode};
use crate::bytes::ParseResult;
use crate::io_error_text;
use crate::text::{decimal, hex_fixed, push_decimal, push_hex_fixed, push_str, str_debug, debug_quoted};

pub mod blocks;
pub mod parse;
pub mod plan;
pub mod reader;
pub mod scene;
pub mod share;

use blocks::{Block, BlockRef, BlockV};
use parse::{NifHeader, NifHeaderV, nif_header, parse_block_inner, sp_block, sp_nif_header};
use reader::{ReadError, Reader, read_error_message, sp_refs, sp_string};

verus! {

/// The NIF version Morrowind/Tribunal/Bloodmoon use: `4.0.0.2`.
pub const VERSION_TES3: u32 = 0x0400_0002;

/// Error returned when reading or parsing a NIF file.
#[derive(Debug)]
pub enum NifError {
    /// I/O failure while reading the file from disk.
    Io(std::io::Error),
    /// The byte stream could not be parsed as a supported NIF.
    Parse(String),
}

impl From<std::io::Error> for NifError {
    fn from(e: std::io::Error) -> (r: NifError) {
        NifError::Io(e)
    }
}

impl vstd::std_specs::convert::FromSpecImpl<std::io::Error> for NifError {
    open spec fn obeys_from_spec() -> bool {
        true
    }

    open spec fn from_spec(v: std::io::Error) -> NifError {
        NifError::Io(v)
    }
}

impl NifError {
    /// The error's text: `parse error: …` or `I/O error: …`.
    pub fn to_text(&self) -> (t: String)
        ensures
            self matches NifError::Parse(m) ==> t@ == "parse error: "@ + m@,
            self matches NifError::Io(_) ==> "I/O error: "@.is_prefix_of(t@),
    {
        match self {
            NifError::Io(e) => {
                let mut t = String::from_str("I/O error: ");
                let ghost head = t@;
                let inner = io_error_text(e);
                push_str(&mut t, inner.as_str());
                assert(t@.subrange(0, head.len() as int) =~= head);
                t
            },
            NifError::Parse(m) => {
                let mut t = String::from_str("parse error: ");
                push_str(&mut t, m.as_str());
                t
            },
        }
    }
}

/// A parsed NIF file: its header, the decoded block graph, and the root block references
/// the scene is traversed from.
#[derive(Debug)]
pub struct Nif {
    pub header: NifHeader,
    /// Decoded blocks, one per block in the file, in file order.
    pub blocks: Vec<Block>,
    /// Root block references from the file footer; scene traversal starts here. Empty
    /// when the footer is absent, in which case traversal falls back to block 0.
    pub roots: Vec<BlockRef>,
}

/// The contents of a [`Nif`].
pub struct NifV {
    pub header: NifHeaderV,
    pub blocks: Seq<BlockV>,
    pub roots: Seq<BlockRef>,
}

impl View for Nif {
    type V = NifV;

    open spec fn view(&self) -> NifV {
        NifV {
            header: self.header@,
            blocks: self.blocks@.map_values(|b: Block| b@),
            roots: self.roots@,
        }
    }
}

/// The message for a short read of block `i`'s type name.
pub open spec fn msg_type_read(i: int, e: ReadError) -> Seq<char> {
    "block "@ + decimal(i as nat) + " type: "@ + read_error_message(e)
}

/// The message for block `i` naming a type outside the supported set.
pub open spec fn msg_unsupported(i: int, ty: Seq<u8>) -> Seq<char> {
    "block "@ + decimal(i as nat) + ": unsupported block type "@ + str_debug(decode(ty))
}

/// The message for a short read inside block `i` of type `ty`.
pub open spec fn msg_body_read(i: int, ty: Seq<u8>, e: ReadError) -> Seq<char> {
    "block "@ + decimal(i as nat) + ": "@ + decode(ty) + ": "@ + read_error_message(e)
}

/// Block `i` at `p`: its type name, then the body that name calls for.
pub open spec fn sp_one_block(d: Seq<u8>, i: int, p: int) -> Result<(BlockV, int), Seq<char>> {
    match sp_string(d, p) {
        Err(e) => Err(msg_type_read(i, e)),
        Ok((ty, q)) => match sp_block(ty, d, q) {
            None => Err(msg_unsupported(i, ty)),
            Some(Err(e)) => Err(msg_body_read(i, ty, e)),
            Some(Ok((b, q2))) => Ok((b, q2)),
        },
    }
}

/// Blocks `i..n` from `p`, one after another.
pub open spec fn sp_blocks(d: Seq<u8>, i: int, n: int, p: int) -> Result<(Seq<BlockV>, int), Seq<char>>
    decreases n - i,
{
    if i >= n {
        Ok((seq![], p))
    } else {
        match sp_one_block(d, i, p) {
            Err(m) => Err(m),
            Ok((b, q)) => match sp_blocks(d, i + 1, n, q) {
                Ok((bs, q3)) => Ok((seq![b] + bs, q3)),
                Err(m) => Err(m),
            },
        }
    }
}

/// The roots in the footer at `p`, or none when it is absent or short.
pub open spec fn sp_footer(d: Seq<u8>, p: int) -> Seq<BlockRef> {
    match sp_refs(d, p) {
        Ok((roots, _)) => roots,
        Err(_) => seq![],
    }
}

/// The message for a version other than 4.0.0.2.
pub open spec fn msg_version(v: u32) -> Seq<char> {
    "unsupported NIF version 0x"@ + hex_fixed(v as nat, 8) + " (expected 0x04000002)"@
}

/// What parsing `d` as a NIF yields: the header, one block per declared block, and the
/// footer's roots — or the message of the first problem.
pub open spec fn sp_nif(d: Seq<u8>) -> Result<NifV, Seq<char>> {
    match sp_nif_header(d, 0) {
        Err(e) => Err("header: "@ + read_error_message(e)),
        Ok((h, p)) => if h.version != VERSION_TES3 {
            Err(msg_version(h.version))
        } else {
            match sp_blocks(d, 0, h.num_blocks as int, p) {
                Err(m) => Err(m),
                Ok((bs, q)) => Ok(NifV { header: h, blocks: bs, roots: sp_footer(d, q) }),
            }
        },
    }
}

/// A parsed file has exactly one block per block its header declares.
pub proof fn lemma_parse_block_count(d: Seq<u8>)
    ensures
        sp_nif(d) matches Ok(v) ==> v.blocks.len() == v.header.num_blocks,
{
    match sp_nif_header(d, 0) {
        Ok((h, p)) => {
            lemma_blocks_count(d, 0, h.num_blocks as int, p);
        },
        Err(_) => {},
    }
}

proof fn lemma_blocks_count(d: Seq<u8>, i: int, n: int, p: int)
    requires
        i <= n,
    ensures
        sp_blocks(d, i, n, p) matches Ok((bs, _)) ==> bs.len() == n - i,
    decreases n - i,
{
    if i < n {
        match sp_one_block(d, i, p) {
            Ok((b, q)) => {
                lemma_blocks_count(d, i + 1, n, q);
            },
            Err(_) => {},
        }
    }
}

/// Read a block type name: a `u32` length, then that many bytes. Returns the input after
/// it and the name; `None` when the input is too short.
pub fn block_type(input: &[u8]) -> (res: ParseResult<'_, L1String>)
    ensures
        match sp_string(input@, 0) {
            Ok((ty, q)) => res matches Some((rest, name)) && name@ == ty && rest@ == input@.skip(q),
            Err(_) => res is None,
        },
{
    let mut r = Reader::new(input);
    match r.string() {
        Ok(name) => {
            let rest = r.rest();
            Some((rest, name))
        },
        Err(_) => None,
    }
}

fn message_with_index(i: u32, tail: &str) -> (m: String)
    ensures
        m@ == "block "@ + decimal(i as nat) + tail@,
{
    let mut m = String::from_str("block ");
    push_decimal(&mut m, i as u64);
    push_str(&mut m, tail);
    m
}

/// Read block `i`: its type name, then its body.
fn read_block(r: &mut Reader, i: u32) -> (res: Result<Block, String>)
    ensures
        final(r).data() == old(r).data(),
        match sp_one_block(old(r).data(), i as int, old(r).pos()) {
            Ok((b, q)) => res matches Ok(blk) && blk@ == b && final(r).pos() == q,
            Err(m) => res matches Err(t) && t@ == m,
        },
{
    let ty = match r.string() {
        Ok(t) => t,
        Err(e) => {
            let context = message_with_index(i, " type");
            proof {
                reveal_strlit(" type");
                reveal_strlit(": ");
                reveal_strlit(" type: ");
                assert(context@ + ": "@ + read_error_message(e) =~= msg_type_read(i as int, e));
            }
            return match e.at(context.as_str()) {
                NifError::Parse(m) => Err(m),
                NifError::Io(_) => Err(String::new()),
            };
        },
    };
    match parse_block_inner(r, ty.as_bytes()) {
        Ok(b) => Ok(b),
        Err(None) => {
            let mut m = String::from_str(": unsupported block type ");
            let name = ty.decode();
            let quoted = debug_quoted(name.as_str());
            push_str(&mut m, quoted.as_str());
            Err(message_with_index(i, m.as_str()))
        },
        Err(Some(e)) => {
            let mut m = String::from_str(": ");
            let name = ty.decode();
            push_str(&mut m, name.as_str());
            push_str(&mut m, ": ");
            let inner = e.message();
            push_str(&mut m, inner.as_str());
            Err(message_with_index(i, m.as_str()))
        },
    }
}

impl Nif {
    /// Parse a NIF from an in-memory byte slice. Validates the version is
    /// [`VERSION_TES3`] and decodes every block, failing on any block type outside the
    /// supported set. The footer's root list is read when present.
    pub fn parse(input: &[u8]) -> (res: Result<Nif, NifError>)
        ensures
            match sp_nif(input@) {
                Ok(v) => res matches Ok(nif) && nif@ == v,
                Err(m) => res matches Err(NifError::Parse(t)) && t@ == m,
            },
    {
        let mut r = Reader::new(input);
        let header = match nif_header(&mut r) {
            Ok(h) => h,
            Err(e) => {
                let mut m = String::from_str("header: ");
                let inner = e.message();
                push_str(&mut m, inner.as_str());
                return Err(NifError::Parse(m));
            },
        };
        if header.version != VERSION_TES3 {
            let mut m = String::from_str("unsupported NIF version 0x");
            push_hex_fixed(&mut m, header.version as u64, 8);
            push_str(&mut m, " (expected 0x04000002)");
            return Err(NifError::Parse(m));
        }
        let ghost d = input@;
        let ghost start = r.pos();
        let n = header.num_blocks;
        let mut blocks: Vec<Block> = Vec::new();
        let mut i: u32 = 0;
        while i < n
            invariant
                d == input@,
                r.data() == d,
                i <= n,
                blocks@.len() == i,
                sp_nif(d) == match sp_blocks(d, 0, n as int, start) {
                    Err(m) => Err(m),
                    Ok((bs, q)) => Ok(NifV { header: header@, blocks: bs, roots: sp_footer(d, q) }),
                },
                sp_blocks(d, 0, n as int, start) == match sp_blocks(d, i as int, n as int, r.pos()) {
                    Ok((bs, q)) => Ok((blocks@.map_values(|b: Block| b@) + bs, q)),
                    Err(m) => Err(m),
                },
            decreases n - i,
        {
            let ghost p = r.pos();
            let b = match read_block(&mut r, i) {
                Ok(b) => b,
                Err(m) => {
                    proof {
                        assert(sp_blocks(d, i as int, n as int, p) == Err::<(Seq<BlockV>, int), Seq<char>>(m@));
                    }
                    return Err(NifError::Parse(m));
                },
            };
            proof {
                let rest = sp_blocks(d, i + 1, n as int, r.pos());
                assert(sp_one_block(d, i as int, p) == Ok::<(BlockV, int), Seq<char>>((b@, r.pos())));
                match rest {
                    Ok((bs, q3)) => {
                        assert(blocks@.map_values(|b: Block| b@) + (seq![b@] + bs)
                            =~= blocks@.push(b).map_values(|b: Block| b@) + bs);
                    },
                    Err(_) => {},
                }
            }
            blocks.push(b);
            i += 1;
        }
        proof {
            assert(blocks@.map_values(|b: Block| b@) + Seq::<BlockV>::empty() =~= blocks@.map_values(
                |b: Block| b@,
            ));
        }
        // The footer (root count + root refs) follows the blocks. It's optional: read it
        // if present, else traversal falls back to block 0.
        let roots = match r.refs() {
            Ok(v) => v,
            Err(_) => Vec::new(),
        };
        Ok(Nif { header, blocks, roots })
    }
}


} // verus!
