//! The decoded NIF data model: the [`Block`] enum and the typed structures inside it.
//!
//! Floating-point fields (positions, colours, scales) are kept as the IEEE-754 bit
//! patterns read from the file; converting them to `f32` and doing arithmetic with them
//! is left to the caller.

use vstd::prelude::*;
use crate::latin1::L1String;

verus! {

/// A reference from one block to another: an index into the block list, with `-1` (on
/// disk, any negative value) meaning "no block" ([`BlockRef::none`]).
#[derive(Debug, Clone, Copy, PartialEq, Eq, Structural)]
pub struct BlockRef(pub i32);

impl BlockRef {
    /// The absent reference (`-1` on disk).
    pub open spec fn spec_none() -> BlockRef {
        BlockRef(-1i32)
    }

    /// The absent reference (`-1` on disk).
    pub fn none() -> (r: BlockRef)
        ensures
            r == BlockRef::spec_none(),
    {
        BlockRef(-1)
    }

    /// `true` when this reference points at no block.
    pub fn is_none(self) -> (b: bool)
        ensures
            b == (self.0 < 0),
    {
        self.0 < 0
    }

    /// The block index, or `None` for a negative ("none") reference.
    pub fn index(self) -> (r: Option<usize>)
        ensures
            r == (if self.0 >= 0 { Some(self.0 as usize) } else { None::<usize> }),
    {
        if self.0 >= 0 {
            Some(self.0 as usize)
        } else {
            None
        }
    }
}

impl Default for BlockRef {
    fn default() -> (r: BlockRef)
        ensures
            r == BlockRef::spec_none(),
    {
        BlockRef(-1)
    }
}

/// The bit pattern of the float `1.0`.
pub const ONE_BITS: u32 = 0x3f80_0000;

/// A local node transform: translation, a row-major 3×3 rotation matrix, and a uniform
/// scale, each float kept as its bit pattern. Taken straight from the block's
/// `NiAVObject` fields; it is *not* composed with ancestor transforms.
#[derive(Debug, Clone, Copy)]
pub struct NifTransform {
    pub translation: [u32; 3],
    /// Row-major rotation matrix (`rotation[row][col]`).
    pub rotation: [[u32; 3]; 3],
    pub scale: u32,
}

impl Default for NifTransform {
    /// The identity transform.
    fn default() -> (t: NifTransform)
        ensures
            t.translation == [0u32, 0, 0],
            t.rotation == [[ONE_BITS, 0, 0], [0, ONE_BITS, 0], [0, 0, ONE_BITS]],
            t.scale == ONE_BITS,
    {
        NifTransform {
            translation: [0, 0, 0],
            rotation: [[ONE_BITS, 0, 0], [0, ONE_BITS, 0], [0, 0, ONE_BITS]],
            scale: ONE_BITS,
        }
    }
}

/// Surface material decoded from a `NiMaterialProperty`: the fixed-function colours and
/// factors Morrowind authored per shape (float bit patterns).
#[derive(Debug, Clone, Copy)]
pub struct Material {
    pub ambient: [u32; 3],
    pub diffuse: [u32; 3],
    pub specular: [u32; 3],
    pub emissive: [u32; 3],
    /// Specular exponent (0–128 range in practice).
    pub glossiness: u32,
    /// Opacity, `0.0`–`1.0`.
    pub alpha: u32,
}

impl Default for Material {
    /// White ambient and diffuse, no specular or emission, fully opaque.
    fn default() -> (m: Material)
        ensures
            m.ambient == [ONE_BITS, ONE_BITS, ONE_BITS],
            m.diffuse == [ONE_BITS, ONE_BITS, ONE_BITS],
            m.specular == [0u32, 0, 0],
            m.emissive == [0u32, 0, 0],
            m.glossiness == 0,
            m.alpha == ONE_BITS,
    {
        Material {
            ambient: [ONE_BITS, ONE_BITS, ONE_BITS],
            diffuse: [ONE_BITS, ONE_BITS, ONE_BITS],
            specular: [0, 0, 0],
            emissive: [0, 0, 0],
            glossiness: 0,
            alpha: ONE_BITS,
        }
    }
}

/// Triangle mesh geometry decoded from a `NiTriShapeData` block.
#[derive(Debug, Clone)]
pub struct TriMesh {
    pub vertices: Vec<[u32; 3]>,
    /// Per-vertex normals; empty when the block has none.
    pub normals: Vec<[u32; 3]>,
    /// First UV set, per vertex; empty when the block has none.
    pub uvs: Vec<[u32; 2]>,
    pub triangles: Vec<[u16; 3]>,
}

/// The contents of a [`TriMesh`].
pub struct TriMeshV {
    pub vertices: Seq<[u32; 3]>,
    pub normals: Seq<[u32; 3]>,
    pub uvs: Seq<[u32; 2]>,
    pub triangles: Seq<[u16; 3]>,
}

impl View for TriMesh {
    type V = TriMeshV;

    open spec fn view(&self) -> TriMeshV {
        TriMeshV {
            vertices: self.vertices@,
            normals: self.normals@,
            uvs: self.uvs@,
            triangles: self.triangles@,
        }
    }
}

/// `NiNode` (and node-like blocks): a transform, its child block references, its attached
/// property references (inherited by descendants), and traversal flags.
#[derive(Debug, Clone)]
pub struct Node {
    pub transform: NifTransform,
    pub children: Vec<BlockRef>,
    /// References to attached property blocks, inherited by descendant shapes.
    pub properties: Vec<BlockRef>,
    /// `NiAVObject` "hidden" flag (bit 0): the node and its subtree should not be drawn.
    pub hidden: bool,
    /// `true` for a `RootCollisionNode`: its subtree is collision geometry, not visuals.
    pub collision: bool,
}

/// The contents of a [`Node`].
pub struct NodeV {
    pub transform: NifTransform,
    pub children: Seq<BlockRef>,
    pub properties: Seq<BlockRef>,
    pub hidden: bool,
    pub collision: bool,
}

impl View for Node {
    type V = NodeV;

    open spec fn view(&self) -> NodeV {
        NodeV {
            transform: self.transform,
            children: self.children@,
            properties: self.properties@,
            hidden: self.hidden,
            collision: self.collision,
        }
    }
}

/// `NiTriShape`: a transform, a reference to its [`Block::TriShapeData`], the references
/// of its attached properties, and the "hidden" flag.
#[derive(Debug, Clone)]
pub struct TriShape {
    pub transform: NifTransform,
    /// Reference to the geometry data ([`Block::TriShapeData`]).
    pub data: BlockRef,
    /// References to attached property blocks (texturing, material, alpha, …).
    pub properties: Vec<BlockRef>,
    /// `NiAVObject` "hidden" flag (bit 0): the shape should not be drawn.
    pub hidden: bool,
}

/// The contents of a [`TriShape`].
pub struct TriShapeV {
    pub transform: NifTransform,
    pub data: BlockRef,
    pub properties: Seq<BlockRef>,
    pub hidden: bool,
}

impl View for TriShape {
    type V = TriShapeV;

    open spec fn view(&self) -> TriShapeV {
        TriShapeV {
            transform: self.transform,
            data: self.data,
            properties: self.properties@,
            hidden: self.hidden,
        }
    }
}

/// `NiTexturingProperty`: the `NiSourceTexture` references of the slots this crate
/// models — base (slot 0) and glow (slot 4). Unused slots are [`BlockRef::none`].
#[derive(Debug, Clone, Copy)]
pub struct TexturingProperty {
    pub base_texture: BlockRef,
    pub glow_texture: BlockRef,
}

impl Default for TexturingProperty {
    fn default() -> (t: TexturingProperty)
        ensures
            t.base_texture == BlockRef::spec_none(),
            t.glow_texture == BlockRef::spec_none(),
    {
        TexturingProperty { base_texture: BlockRef(-1), glow_texture: BlockRef(-1) }
    }
}

/// `NiSourceTexture`: an external texture reference, keeping the filename it names
/// (e.g. `Tx_BeerStein.dds`). Empty for the internal-pixel-data case.
#[derive(Debug, Clone)]
pub struct SourceTexture {
    pub file_name: L1String,
}

/// `NiAlphaProperty`: how a shape's alpha channel is rendered — blending and/or cutout
/// testing.
#[derive(Debug, Clone, Copy)]
pub struct AlphaProperty {
    /// The raw flags word; see the accessor methods for the fields inside it.
    pub flags: u16,
    /// Alpha-test reference value, `0`–`255`.
    pub threshold: u8,
}

impl AlphaProperty {
    /// Alpha blending enabled (bit 0).
    pub fn blending(self) -> (b: bool)
        ensures
            b == (self.flags & 0x0001 != 0),
    {
        self.flags & 0x0001 != 0
    }

    /// Source blend mode (bits 1–4), a D3D-style blend factor: `0` ONE, `1` ZERO,
    /// `2` SRC_COLOR, `3` INV_SRC_COLOR, `4` DEST_COLOR, `5` INV_DEST_COLOR,
    /// `6` SRC_ALPHA, `7` INV_SRC_ALPHA, `8` DEST_ALPHA, `9` INV_DEST_ALPHA,
    /// `10` SRC_ALPHA_SATURATE.
    pub fn source_blend_mode(self) -> (m: u16)
        ensures
            m == (self.flags >> 1u16) & 0x000F,
            m < 16,
    {
        let flags = self.flags;
        let m = (flags >> 1u16) & 0x000F;
        assert(m < 16) by (bit_vector)
            requires
                m == (flags >> 1u16) & 0x000F,
        ;
        m
    }

    /// Destination blend mode (bits 5–8); same encoding as the source blend mode.
    pub fn dest_blend_mode(self) -> (m: u16)
        ensures
            m == (self.flags >> 5u16) & 0x000F,
            m < 16,
    {
        let flags = self.flags;
        let m = (flags >> 5u16) & 0x000F;
        assert(m < 16) by (bit_vector)
            requires
                m == (flags >> 5u16) & 0x000F,
        ;
        m
    }

    /// Alpha (cutout) testing enabled (bit 9).
    pub fn testing(self) -> (b: bool)
        ensures
            b == (self.flags & 0x0200 != 0),
    {
        self.flags & 0x0200 != 0
    }

    /// Alpha-test comparison function (bits 10–12): `0` ALWAYS, `1` LESS, `2` EQUAL,
    /// `3` LESS_EQUAL, `4` GREATER, `5` NOT_EQUAL, `6` GREATER_EQUAL, `7` NEVER.
    pub fn test_function(self) -> (f: u16)
        ensures
            f == (self.flags >> 10u16) & 0x0007,
            f < 8,
    {
        let flags = self.flags;
        let f = (flags >> 10u16) & 0x0007;
        assert(f < 8) by (bit_vector)
            requires
                f == (flags >> 10u16) & 0x0007,
        ;
        f
    }
}

/// How a shape's alpha is rendered, decided from its alpha property.
#[derive(Debug, Clone, Copy, PartialEq, Eq, Structural)]
pub enum AlphaMode {
    /// Drawn fully opaque.
    Opaque,
    /// Cut out: fragments are kept when their alpha passes the threshold (`0`–`255`).
    Mask(u8),
    /// Blended additively: colour accumulates over what is behind.
    Add,
    /// Blended by alpha over what is behind.
    Blend,
}

/// The `test_function` value "keep if greater".
pub const TEST_GREATER: u16 = 4;

/// The `test_function` value "keep if greater or equal".
pub const TEST_GREATER_EQUAL: u16 = 6;

/// The blend factor ONE.
pub const BLEND_ONE: u16 = 0;

/// Map an alpha property onto a rendering mode:
///
/// - alpha **testing** with a keep-if-above function (`GREATER` or `GREATER_EQUAL`) →
///   [`AlphaMode::Mask`] at the property's threshold;
/// - otherwise alpha **blending** → [`AlphaMode::Add`] when the destination factor is
///   `ONE`, else [`AlphaMode::Blend`];
/// - no property, or one with both features disabled → [`AlphaMode::Opaque`].
///
/// A property with both testing and blending enabled becomes a mask.
pub fn alpha_mode(alpha: Option<AlphaProperty>) -> (m: AlphaMode)
    ensures
        m == match alpha {
            Some(a) => if a.flags & 0x0200 != 0 && ((a.flags >> 10u16) & 0x0007 == TEST_GREATER
                || (a.flags >> 10u16) & 0x0007 == TEST_GREATER_EQUAL) {
                AlphaMode::Mask(a.threshold)
            } else if a.flags & 0x0001 != 0 {
                if (a.flags >> 5u16) & 0x000F == BLEND_ONE {
                    AlphaMode::Add
                } else {
                    AlphaMode::Blend
                }
            } else {
                AlphaMode::Opaque
            },
            None => AlphaMode::Opaque,
        },
{
    match alpha {
        Some(a) => {
            let f = a.test_function();
            if a.testing() && (f == TEST_GREATER || f == TEST_GREATER_EQUAL) {
                AlphaMode::Mask(a.threshold)
            } else if a.blending() {
                if a.dest_blend_mode() == BLEND_ONE {
                    AlphaMode::Add
                } else {
                    AlphaMode::Blend
                }
            } else {
                AlphaMode::Opaque
            }
        },
        None => AlphaMode::Opaque,
    }
}

/// One decoded NIF block. Every block in the file produces exactly one entry (in file
/// order), so an index into the block list matches the [`BlockRef`]s stored in other
/// blocks. Blocks this crate doesn't model are kept as [`Block::Other`] purely to
/// preserve that indexing.
#[derive(Debug, Clone)]
pub enum Block {
    /// `NiNode` and friends — see [`Node`].
    Node(Node),
    /// `NiTriShape` — see [`TriShape`].
    TriShape(TriShape),
    /// `NiTriShapeData`: the actual triangle geometry.
    TriShapeData(TriMesh),
    /// `NiTexturingProperty` — see [`TexturingProperty`].
    TexturingProperty(TexturingProperty),
    /// `NiMaterialProperty`: the decoded surface [`Material`].
    MaterialProperty(Material),
    /// `NiAlphaProperty` — see [`AlphaProperty`].
    AlphaProperty(AlphaProperty),
    /// `NiSourceTexture` — see [`SourceTexture`].
    SourceTexture(SourceTexture),
    /// A block parsed past but not represented (extra data, controllers, …).
    Other,
}

/// The contents of a [`Block`].
pub enum BlockV {
    Node(NodeV),
    TriShape(TriShapeV),
    TriShapeData(TriMeshV),
    TexturingProperty(TexturingProperty),
    MaterialProperty(Material),
    AlphaProperty(AlphaProperty),
    SourceTexture(Seq<u8>),
    Other,
}

impl View for Block {
    type V = BlockV;

    open spec fn view(&self) -> BlockV {
        match self {
            Block::Node(n) => BlockV::Node(n@),
            Block::TriShape(t) => BlockV::TriShape(t@),
            Block::TriShapeData(m) => BlockV::TriShapeData(m@),
            Block::TexturingProperty(t) => BlockV::TexturingProperty(*t),
            Block::MaterialProperty(m) => BlockV::MaterialProperty(*m),
            Block::AlphaProperty(a) => BlockV::AlphaProperty(*a),
            Block::SourceTexture(s) => BlockV::SourceTexture(s.file_name@),
            Block::Other => BlockV::Other,
        }
    }
}

} // verus!
