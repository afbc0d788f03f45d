//! Scene-graph traversal over a parsed [`Nif`]: which shapes are drawn, with which
//! chain of local transforms, geometry, texture and material.
//!
//! The walk starts at the footer's roots (block 0 when there are none) and descends
//! depth-first through node children. Hidden nodes and shapes, and `RootCollisionNode`
//! subtrees, are skipped. Properties are inherited: a shape sees its own property
//! references first, then its parent's, then its grandparent's, and so on. The first
//! texturing property decides the textures (none when its source is missing, internal
//! or unnamed), and the first material property decides the material.
//!
//! A block graph read from a file may contain a cycle. The walk never descends more than
//! one level per block in the file, which no acyclic graph can exceed; a cyclic one is
//! cut off there instead of being followed forever.

use vstd::prelude::*;
use crate::latin1::L1String;
use super::Nif;
use super::blocks::{AlphaProperty, Block, BlockRef, BlockV, Material, NifTransform, TriMesh, TriMeshV};

verus! {

/// A drawable `NiTriShape` located in the scene, produced by [`Nif::instances`].
#[derive(Debug, Clone)]
pub struct ShapeInstance<'a> {
    /// The local transforms from the outermost node down to the shape itself, in that
    /// order; their composition is the shape's world transform.
    pub transforms: Vec<NifTransform>,
    /// The triangle geometry from the shape's `NiTriShapeData`, in the shape's local space.
    pub mesh: &'a TriMesh,
    /// Base-colour texture filename (from the first inherited `NiTexturingProperty`, when
    /// its base slot names a texture), if any — e.g. `Tx_BeerStein.dds`.
    pub base_texture: Option<&'a L1String>,
    /// Surface material (first inherited `NiMaterialProperty`), if any.
    pub material: Option<Material>,
}

/// The contents of a [`ShapeInstance`].
pub struct ShapeInstanceV {
    pub transforms: Seq<NifTransform>,
    pub mesh: TriMeshV,
    pub base_texture: Option<Seq<u8>>,
    pub material: Option<Material>,
}

impl<'a> View for ShapeInstance<'a> {
    type V = ShapeInstanceV;

    open spec fn view(&self) -> ShapeInstanceV {
        ShapeInstanceV {
            transforms: self.transforms@,
            mesh: self.mesh@,
            base_texture: match self.base_texture {
                Some(t) => Some(t@),
                None => None,
            },
            material: self.material,
        }
    }
}

/// The views of a list of instances.
pub open spec fn instances_view(v: Seq<ShapeInstance>) -> Seq<ShapeInstanceV> {
    v.map_values(|s: ShapeInstance| s@)
}

/// The block `r` refers to, if it is in range.
pub open spec fn block_at(blocks: Seq<BlockV>, r: BlockRef) -> Option<BlockV> {
    if 0 <= r.0 < blocks.len() {
        Some(blocks[r.0 as int])
    } else {
        None
    }
}

/// The base-texture filename property `p` provides: `p` is a texturing property whose
/// base slot refers to a source texture with a non-empty filename.
pub open spec fn texture_of(blocks: Seq<BlockV>, p: BlockRef) -> Option<Seq<u8>> {
    match block_at(blocks, p) {
        Some(BlockV::TexturingProperty(t)) => match block_at(blocks, t.base_texture) {
            Some(BlockV::SourceTexture(name)) => if name.len() > 0 {
                Some(name)
            } else {
                None
            },
            _ => None,
        },
        _ => None,
    }
}

/// The glow-texture filename property `p` provides: `p` is a texturing property whose
/// glow slot refers to a source texture with a non-empty filename.
pub open spec fn glow_of(blocks: Seq<BlockV>, p: BlockRef) -> Option<Seq<u8>> {
    match block_at(blocks, p) {
        Some(BlockV::TexturingProperty(t)) => match block_at(blocks, t.glow_texture) {
            Some(BlockV::SourceTexture(name)) => if name.len() > 0 {
                Some(name)
            } else {
                None
            },
            _ => None,
        },
        _ => None,
    }
}

/// The alpha property `p` provides.
pub open spec fn alpha_of(blocks: Seq<BlockV>, p: BlockRef) -> Option<AlphaProperty> {
    match block_at(blocks, p) {
        Some(BlockV::AlphaProperty(a)) => Some(a),
        _ => None,
    }
}

/// The glow texture along `props`: the first texturing property decides — its source's
/// filename when that is a non-empty external texture, else none.
pub open spec fn first_glow(blocks: Seq<BlockV>, props: Seq<BlockRef>) -> Option<Seq<u8>>
    decreases props.len(),
{
    if props.len() == 0 {
        None
    } else if is_texturing(blocks, props[0]) {
        glow_of(blocks, props[0])
    } else {
        first_glow(blocks, props.drop_first())
    }
}

/// The first alpha property provided along `props`.
pub open spec fn first_alpha(blocks: Seq<BlockV>, props: Seq<BlockRef>) -> Option<AlphaProperty>
    decreases props.len(),
{
    if props.len() == 0 {
        None
    } else {
        match alpha_of(blocks, props[0]) {
            Some(a) => Some(a),
            None => first_alpha(blocks, props.drop_first()),
        }
    }
}

/// Whether `p` refers to a texturing property.
pub open spec fn is_texturing(blocks: Seq<BlockV>, p: BlockRef) -> bool {
    block_at(blocks, p) matches Some(BlockV::TexturingProperty(_))
}

/// Whether some reference of `props` is a texturing property.
pub open spec fn has_texturing(blocks: Seq<BlockV>, props: Seq<BlockRef>) -> bool {
    exists|i: int| 0 <= i < props.len() && is_texturing(blocks, #[trigger] props[i])
}

/// The material property `p` provides.
pub open spec fn material_of(blocks: Seq<BlockV>, p: BlockRef) -> Option<Material> {
    match block_at(blocks, p) {
        Some(BlockV::MaterialProperty(m)) => Some(m),
        _ => None,
    }
}

/// The base texture along `props`: the first texturing property decides — its source's
/// filename when that is a non-empty external texture, else none.
pub open spec fn first_texture(blocks: Seq<BlockV>, props: Seq<BlockRef>) -> Option<Seq<u8>>
    decreases props.len(),
{
    if props.len() == 0 {
        None
    } else if is_texturing(blocks, props[0]) {
        texture_of(blocks, props[0])
    } else {
        first_texture(blocks, props.drop_first())
    }
}

/// The first material provided along `props`.
pub open spec fn first_material(blocks: Seq<BlockV>, props: Seq<BlockRef>) -> Option<Material>
    decreases props.len(),
{
    if props.len() == 0 {
        None
    } else {
        match material_of(blocks, props[0]) {
            Some(m) => Some(m),
            None => first_material(blocks, props.drop_first()),
        }
    }
}

/// The instances found under block `r`, reached through the transforms `chain` with the
/// inherited properties `inherited` (nearest first), descending at most `fuel` levels.
pub open spec fn sp_collect(
    blocks: Seq<BlockV>,
    fuel: nat,
    r: BlockRef,
    chain: Seq<NifTransform>,
    inherited: Seq<BlockRef>,
) -> Seq<ShapeInstanceV>
    decreases fuel, 0int,
{
    if fuel == 0 {
        seq![]
    } else {
        match block_at(blocks, r) {
            Some(BlockV::Node(n)) => if n.hidden || n.collision {
                seq![]
            } else {
                sp_children(
                    blocks,
                    (fuel - 1) as nat,
                    n.children,
                    chain.push(n.transform),
                    n.properties + inherited,
                    0,
                )
            },
            Some(BlockV::TriShape(s)) => if s.hidden {
                seq![]
            } else {
                match block_at(blocks, s.data) {
                    Some(BlockV::TriShapeData(mesh)) => {
                        let props = s.properties + inherited;
                        seq![
                            ShapeInstanceV {
                                transforms: chain.push(s.transform),
                                mesh,
                                base_texture: first_texture(blocks, props),
                                material: first_material(blocks, props),
                            },
                        ]
                    },
                    _ => seq![],
                }
            },
            _ => seq![],
        }
    }
}

/// The instances under each of `kids[i..]` in turn, all reached the same way.
pub open spec fn sp_children(
    blocks: Seq<BlockV>,
    fuel: nat,
    kids: Seq<BlockRef>,
    chain: Seq<NifTransform>,
    inherited: Seq<BlockRef>,
    i: int,
) -> Seq<ShapeInstanceV>
    decreases fuel, kids.len() - i + 1,
{
    if i < 0 || i >= kids.len() {
        seq![]
    } else {
        sp_collect(blocks, fuel, kids[i], chain, inherited) + sp_children(
            blocks,
            fuel,
            kids,
            chain,
            inherited,
            i + 1,
        )
    }
}

/// The roots the walk starts from: the footer's, or block 0 when it has none.
pub open spec fn start_roots(roots: Seq<BlockRef>) -> Seq<BlockRef> {
    if roots.len() == 0 {
        seq![BlockRef(0i32)]
    } else {
        roots
    }
}

/// Every drawable shape of the scene, in depth-first order from each root in turn.
pub open spec fn sp_instances(blocks: Seq<BlockV>, roots: Seq<BlockRef>) -> Seq<ShapeInstanceV> {
    sp_children(blocks, blocks.len(), start_roots(roots), seq![], seq![], 0)
}

/// What a subtree inherits comes after everything inside it: for the subtree at `r` there
/// are property lists `paths` — one per instance, from the shape itself up through its
/// nodes to `r`, nearest first, and not depending on what `r` inherits — such that under
/// any inherited list `inh`, each instance's texture and material are those found along
/// its path followed by `inh`. So a nearer node's texturing or material property always
/// decides over a farther one's, and inherited properties decide only where the path
/// provides none.
pub proof fn lemma_collect_inherits(
    blocks: Seq<BlockV>,
    fuel: nat,
    r: BlockRef,
    chain: Seq<NifTransform>,
) -> (paths: Seq<Seq<BlockRef>>)
    ensures
        forall|inh: Seq<BlockRef>|
            #![trigger sp_collect(blocks, fuel, r, chain, inh)]
            sp_collect(blocks, fuel, r, chain, inh).len() == paths.len() && forall|k: int|
                0 <= k < paths.len() ==> {
                    &&& (#[trigger] sp_collect(blocks, fuel, r, chain, inh)[k]).base_texture
                        == first_texture(blocks, paths[k] + inh)
                    &&& sp_collect(blocks, fuel, r, chain, inh)[k].material == first_material(
                        blocks,
                        paths[k] + inh,
                    )
                },
        block_at(blocks, r) matches Some(BlockV::Node(n)) ==> forall|k: int|
            0 <= k < paths.len() ==> (#[trigger] paths[k]).len() >= n.properties.len()
                && paths[k].subrange(paths[k].len() - n.properties.len(), paths[k].len() as int)
                == n.properties,
    decreases fuel, 0int,
{
    if fuel == 0 {
        seq![]
    } else {
        match block_at(blocks, r) {
            Some(BlockV::Node(n)) => if n.hidden || n.collision {
                seq![]
            } else {
                let cp = lemma_children_inherit(blocks, (fuel - 1) as nat, n.children, chain.push(n.transform), 0);
                let paths = Seq::new(cp.len(), |k: int| cp[k] + n.properties);
                assert forall|inh: Seq<BlockRef>|
                    #![trigger sp_collect(blocks, fuel, r, chain, inh)]
                    sp_collect(blocks, fuel, r, chain, inh).len() == paths.len() && forall|k: int|
                        0 <= k < paths.len() ==> {
                            &&& (#[trigger] sp_collect(blocks, fuel, r, chain, inh)[k]).base_texture
                                == first_texture(blocks, paths[k] + inh)
                            &&& sp_collect(blocks, fuel, r, chain, inh)[k].material == first_material(
                                blocks,
                                paths[k] + inh,
                            )
                        } by {
                    let inner = n.properties + inh;
                    let v = sp_children(blocks, (fuel - 1) as nat, n.children, chain.push(n.transform), inner, 0);
                    assert(sp_collect(blocks, fuel, r, chain, inh) == v);
                    assert(v.len() == cp.len());
                    assert forall|k: int| 0 <= k < paths.len() implies {
                        &&& (#[trigger] v[k]).base_texture == first_texture(blocks, paths[k] + inh)
                        &&& v[k].material == first_material(blocks, paths[k] + inh)
                    } by {
                        assert(v[k].base_texture == first_texture(blocks, cp[k] + inner));
                        assert(cp[k] + inner =~= paths[k] + inh);
                    }
                }
                assert forall|k: int| 0 <= k < paths.len() implies (#[trigger] paths[k]).len()
                    >= n.properties.len() && paths[k].subrange(
                    paths[k].len() - n.properties.len(),
                    paths[k].len() as int,
                ) == n.properties by {
                    assert(paths[k] == cp[k] + n.properties);
                    assert(paths[k].subrange(paths[k].len() - n.properties.len(), paths[k].len() as int)
                        =~= n.properties);
                }
                paths
            },
            Some(BlockV::TriShape(s)) => if s.hidden {
                seq![]
            } else {
                match block_at(blocks, s.data) {
                    Some(BlockV::TriShapeData(mesh)) => seq![s.properties],
                    _ => seq![],
                }
            },
            _ => seq![],
        }
    }
}

/// [`lemma_collect_inherits`] for each of `kids[i..]` in turn.
pub proof fn lemma_children_inherit(
    blocks: Seq<BlockV>,
    fuel: nat,
    kids: Seq<BlockRef>,
    chain: Seq<NifTransform>,
    i: int,
) -> (paths: Seq<Seq<BlockRef>>)
    ensures
        forall|inh: Seq<BlockRef>|
            #![trigger sp_children(blocks, fuel, kids, chain, inh, i)]
            sp_children(blocks, fuel, kids, chain, inh, i).len() == paths.len() && forall|k: int|
                0 <= k < paths.len() ==> {
                    &&& (#[trigger] sp_children(blocks, fuel, kids, chain, inh, i)[k]).base_texture
                        == first_texture(blocks, paths[k] + inh)
                    &&& sp_children(blocks, fuel, kids, chain, inh, i)[k].material == first_material(
                        blocks,
                        paths[k] + inh,
                    )
                },
    decreases fuel, kids.len() - i + 1,
{
    if i < 0 || i >= kids.len() {
        seq![]
    } else {
        let a = lemma_collect_inherits(blocks, fuel, kids[i], chain);
        let b = lemma_children_inherit(blocks, fuel, kids, chain, i + 1);
        let paths = a + b;
        assert forall|inh: Seq<BlockRef>|
            #![trigger sp_children(blocks, fuel, kids, chain, inh, i)]
            sp_children(blocks, fuel, kids, chain, inh, i).len() == paths.len() && forall|k: int|
                0 <= k < paths.len() ==> {
                    &&& (#[trigger] sp_children(blocks, fuel, kids, chain, inh, i)[k]).base_texture
                        == first_texture(blocks, paths[k] + inh)
                    &&& sp_children(blocks, fuel, kids, chain, inh, i)[k].material == first_material(
                        blocks,
                        paths[k] + inh,
                    )
                } by {
            let va = sp_collect(blocks, fuel, kids[i], chain, inh);
            let vb = sp_children(blocks, fuel, kids, chain, inh, i + 1);
            let v = sp_children(blocks, fuel, kids, chain, inh, i);
            assert(v == va + vb);
            assert forall|k: int| 0 <= k < paths.len() implies {
                &&& (#[trigger] v[k]).base_texture == first_texture(blocks, paths[k] + inh)
                &&& v[k].material == first_material(blocks, paths[k] + inh)
            } by {
                if k < a.len() {
                    assert(v[k] == va[k]);
                    assert(paths[k] == a[k]);
                } else {
                    assert(v[k] == vb[k - a.len()]);
                    assert(paths[k] == b[k - a.len()]);
                }
            }
        }
        paths
    }
}

/// A shape's own properties take precedence over inherited ones: along `own` followed by
/// `inherited`, when `own` holds a texturing property the base texture is decided by
/// `own` alone (possibly none), and only when it holds none does `inherited` decide.
pub proof fn lemma_texture_precedence(blocks: Seq<BlockV>, own: Seq<BlockRef>, inherited: Seq<BlockRef>)
    ensures
        first_texture(blocks, own + inherited) == if has_texturing(blocks, own) {
            first_texture(blocks, own)
        } else {
            first_texture(blocks, inherited)
        },
    decreases own.len(),
{
    if own.len() == 0 {
        assert(own + inherited =~= inherited);
    } else {
        assert((own + inherited).drop_first() =~= own.drop_first() + inherited);
        assert((own + inherited)[0] == own[0]);
        lemma_texture_precedence(blocks, own.drop_first(), inherited);
        if is_texturing(blocks, own[0]) {
            assert(has_texturing(blocks, own));
        } else {
            if has_texturing(blocks, own) {
                let i = choose|i: int| 0 <= i < own.len() && is_texturing(blocks, #[trigger] own[i]);
                assert(own.drop_first()[i - 1] == own[i]);
                assert(has_texturing(blocks, own.drop_first()));
            }
            if has_texturing(blocks, own.drop_first()) {
                let i = choose|i: int|
                    0 <= i < own.drop_first().len() && is_texturing(blocks, #[trigger] own.drop_first()[i]);
                assert(own[i + 1] == own.drop_first()[i]);
            }
        }
    }
}

/// The same precedence for materials: the first material `own` provides wins over any
/// that `inherited` provides.
pub proof fn lemma_material_precedence(blocks: Seq<BlockV>, own: Seq<BlockRef>, inherited: Seq<BlockRef>)
    ensures
        first_material(blocks, own + inherited) == match first_material(blocks, own) {
            Some(m) => Some(m),
            None => first_material(blocks, inherited),
        },
    decreases own.len(),
{
    if own.len() == 0 {
        assert(own + inherited =~= inherited);
    } else {
        assert((own + inherited).drop_first() =~= own.drop_first() + inherited);
        lemma_material_precedence(blocks, own.drop_first(), inherited);
    }
}

/// The same precedence for glow textures: a texturing property of `own` decides.
pub proof fn lemma_glow_precedence(blocks: Seq<BlockV>, own: Seq<BlockRef>, inherited: Seq<BlockRef>)
    ensures
        first_glow(blocks, own + inherited) == if has_texturing(blocks, own) {
            first_glow(blocks, own)
        } else {
            first_glow(blocks, inherited)
        },
    decreases own.len(),
{
    if own.len() == 0 {
        assert(own + inherited =~= inherited);
    } else {
        assert((own + inherited).drop_first() =~= own.drop_first() + inherited);
        assert((own + inherited)[0] == own[0]);
        lemma_glow_precedence(blocks, own.drop_first(), inherited);
        if is_texturing(blocks, own[0]) {
            assert(has_texturing(blocks, own));
        } else {
            if has_texturing(blocks, own) {
                let i = choose|i: int| 0 <= i < own.len() && is_texturing(blocks, #[trigger] own[i]);
                assert(own.drop_first()[i - 1] == own[i]);
                assert(has_texturing(blocks, own.drop_first()));
            }
            if has_texturing(blocks, own.drop_first()) {
                let i = choose|i: int|
                    0 <= i < own.drop_first().len() && is_texturing(blocks, #[trigger] own.drop_first()[i]);
                assert(own[i + 1] == own.drop_first()[i]);
            }
        }
    }
}

/// The same precedence for alpha properties.
pub proof fn lemma_alpha_precedence(blocks: Seq<BlockV>, own: Seq<BlockRef>, inherited: Seq<BlockRef>)
    ensures
        first_alpha(blocks, own + inherited) == match first_alpha(blocks, own) {
            Some(a) => Some(a),
            None => first_alpha(blocks, inherited),
        },
    decreases own.len(),
{
    if own.len() == 0 {
        assert(own + inherited =~= inherited);
    } else {
        assert((own + inherited).drop_first() =~= own.drop_first() + inherited);
        lemma_alpha_precedence(blocks, own.drop_first(), inherited);
    }
}

/// Materials with glow maps and alpha are told apart by what feeds them: the resolved
/// base and glow texture paths, the material's diffuse and emissive colours and alpha (as
/// float bit patterns), and the alpha property's flags and threshold.
pub type GlowMaterialKey = (Option<String>, Option<String>, Option<[u32; 7]>, Option<(u16, u8)>);

/// The text of an optional string.
pub open spec fn opt_chars(s: Option<String>) -> Option<Seq<char>> {
    match s {
        Some(t) => Some(t@),
        None => None,
    }
}

/// A copy of an optional string.
fn copy_opt(s: &Option<String>) -> (r: Option<String>)
    ensures
        opt_chars(r) == opt_chars(*s),
{
    match s {
        Some(t) => Some(t.clone()),
        None => None,
    }
}

/// The key two shapes share exactly when they can share one material: resolved base and
/// glow textures, distinguishing colours, and alpha flags and threshold.
pub fn material_key(
    texture: &Option<String>,
    glow: &Option<String>,
    material: Option<&Material>,
    alpha: Option<AlphaProperty>,
) -> (k: GlowMaterialKey)
    ensures
        opt_chars(k.0) == opt_chars(*texture),
        opt_chars(k.1) == opt_chars(*glow),
        k.2 == match material {
            Some(m) => Some(crate::nif::plan::material_colors(*m)),
            None => None::<[u32; 7]>,
        },
        k.3 == match alpha {
            Some(a) => Some((a.flags, a.threshold)),
            None => None::<(u16, u8)>,
        },
{
    let colors = match material {
        Some(m) => Some(
            [
                m.diffuse[0],
                m.diffuse[1],
                m.diffuse[2],
                m.emissive[0],
                m.emissive[1],
                m.emissive[2],
                m.alpha,
            ],
        ),
        None => None,
    };
    let alpha_key = match alpha {
        Some(a) => Some((a.flags, a.threshold)),
        None => None,
    };
    (copy_opt(texture), copy_opt(glow), colors, alpha_key)
}

/// `a` followed by `b`.
pub(crate) fn concat_refs(a: &Vec<BlockRef>, b: &Vec<BlockRef>) -> (r: Vec<BlockRef>)
    ensures
        r@ == a@ + b@,
{
    let mut r: Vec<BlockRef> = Vec::new();
    let mut i: usize = 0;
    while i < a.len()
        invariant
            i <= a.len(),
            r@ == a@.subrange(0, i as int),
        decreases a.len() - i,
    {
        r.push(a[i]);
        i += 1;
    }
    let mut j: usize = 0;
    while j < b.len()
        invariant
            j <= b.len(),
            r@ == a@ + b@.subrange(0, j as int),
        decreases b.len() - j,
    {
        r.push(b[j]);
        j += 1;
    }
    r
}

/// `chain` with `t` appended.
fn extended(chain: &Vec<NifTransform>, t: NifTransform) -> (r: Vec<NifTransform>)
    ensures
        r@ == chain@.push(t),
{
    let mut r: Vec<NifTransform> = Vec::new();
    let mut i: usize = 0;
    while i < chain.len()
        invariant
            i <= chain.len(),
            r@ == chain@.subrange(0, i as int),
        decreases chain.len() - i,
    {
        r.push(chain[i]);
        i += 1;
    }
    r.push(t);
    r
}

impl Nif {
    /// The block `r` refers to, if it is in range.
    pub fn block(&self, r: BlockRef) -> (b: Option<&Block>)
        ensures
            match b {
                Some(blk) => block_at(self@.blocks, r) == Some(blk@),
                None => block_at(self@.blocks, r) is None,
            },
    {
        match r.index() {
            Some(i) => if i < self.blocks.len() {
                Some(&self.blocks[i])
            } else {
                None
            },
            None => None,
        }
    }

    /// Resolve a shape's base-colour texture filename by walking its (inheritance-ordered)
    /// property references to the first texturing property, then following that to its
    /// source texture. `None` when no external base texture applies.
    pub fn base_texture(&self, properties: &Vec<BlockRef>) -> (t: Option<&L1String>)
        ensures
            match t {
                Some(s) => first_texture(self@.blocks, properties@) == Some(s@),
                None => first_texture(self@.blocks, properties@) is None,
            },
    {
        let ghost blocks = self@.blocks;
        assert(properties@.subrange(0, properties@.len() as int) =~= properties@);
        let mut i: usize = 0;
        while i < properties.len()
            invariant
                blocks == self@.blocks,
                i <= properties.len(),
                first_texture(blocks, properties@) == first_texture(
                    blocks,
                    properties@.subrange(i as int, properties@.len() as int),
                ),
            decreases properties.len() - i,
        {
            let ghost rest = properties@.subrange(i as int, properties@.len() as int);
            assert(rest.drop_first() =~= properties@.subrange(i + 1, properties@.len() as int));
            if let Some(Block::TexturingProperty(tp)) = self.block(properties[i]) {
                if let Some(Block::SourceTexture(st)) = self.block(tp.base_texture) {
                    if !st.file_name.is_empty() {
                        return Some(&st.file_name);
                    }
                }
                return None;
            }
            i += 1;
        }
        None
    }

    /// Resolve a shape's glow-texture filename: the first texturing property in its
    /// (inheritance-ordered) property references, followed to the source texture of its
    /// glow slot. `None` when no external glow texture applies.
    pub fn glow_texture(&self, properties: &Vec<BlockRef>) -> (t: Option<&L1String>)
        ensures
            match t {
                Some(s) => first_glow(self@.blocks, properties@) == Some(s@),
                None => first_glow(self@.blocks, properties@) is None,
            },
    {
        let ghost blocks = self@.blocks;
        assert(properties@.subrange(0, properties@.len() as int) =~= properties@);
        let mut i: usize = 0;
        while i < properties.len()
            invariant
                blocks == self@.blocks,
                i <= properties.len(),
                first_glow(blocks, properties@) == first_glow(
                    blocks,
                    properties@.subrange(i as int, properties@.len() as int),
                ),
            decreases properties.len() - i,
        {
            let ghost rest = properties@.subrange(i as int, properties@.len() as int);
            assert(rest.drop_first() =~= properties@.subrange(i + 1, properties@.len() as int));
            if let Some(Block::TexturingProperty(tp)) = self.block(properties[i]) {
                if let Some(Block::SourceTexture(st)) = self.block(tp.glow_texture) {
                    if !st.file_name.is_empty() {
                        return Some(&st.file_name);
                    }
                }
                return None;
            }
            i += 1;
        }
        None
    }

    /// Resolve a shape's alpha property: the first one in its (inheritance-ordered)
    /// property references. `None` when none applies.
    pub fn alpha(&self, properties: &Vec<BlockRef>) -> (a: Option<AlphaProperty>)
        ensures
            a == first_alpha(self@.blocks, properties@),
    {
        let ghost blocks = self@.blocks;
        assert(properties@.subrange(0, properties@.len() as int) =~= properties@);
        let mut i: usize = 0;
        while i < properties.len()
            invariant
                blocks == self@.blocks,
                i <= properties.len(),
                first_alpha(blocks, properties@) == first_alpha(
                    blocks,
                    properties@.subrange(i as int, properties@.len() as int),
                ),
            decreases properties.len() - i,
        {
            let ghost rest = properties@.subrange(i as int, properties@.len() as int);
            assert(rest.drop_first() =~= properties@.subrange(i + 1, properties@.len() as int));
            if let Some(Block::AlphaProperty(a)) = self.block(properties[i]) {
                return Some(*a);
            }
            i += 1;
        }
        None
    }

    /// Resolve a shape's material from the first material property in its
    /// (inheritance-ordered) property references. `None` when none applies.
    pub fn material(&self, properties: &Vec<BlockRef>) -> (m: Option<Material>)
        ensures
            m == first_material(self@.blocks, properties@),
    {
        let ghost blocks = self@.blocks;
        assert(properties@.subrange(0, properties@.len() as int) =~= properties@);
        let mut i: usize = 0;
        while i < properties.len()
            invariant
                blocks == self@.blocks,
                i <= properties.len(),
                first_material(blocks, properties@) == first_material(
                    blocks,
                    properties@.subrange(i as int, properties@.len() as int),
                ),
            decreases properties.len() - i,
        {
            let ghost rest = properties@.subrange(i as int, properties@.len() as int);
            assert(rest.drop_first() =~= properties@.subrange(i + 1, properties@.len() as int));
            if let Some(Block::MaterialProperty(m)) = self.block(properties[i]) {
                return Some(*m);
            }
            i += 1;
        }
        None
    }
}

impl Nif {
    /// The roots scene traversal starts from: the footer's, or block 0 when the footer
    /// named none.
    pub fn scene_roots(&self) -> (v: Vec<BlockRef>)
        ensures
            v@ == start_roots(self@.roots),
    {
        if self.roots.len() == 0 {
            vec![BlockRef(0)]
        } else {
            concat_refs(&self.roots, &Vec::new())
        }
    }

    /// Walk the scene graph from the roots, yielding a [`ShapeInstance`] for every
    /// drawable `NiTriShape` with the chain of transforms above it. Hidden nodes and shapes
    /// and `RootCollisionNode` subtrees are skipped, and each shape's texture and material
    /// are resolved with property inheritance (the shape's own properties take precedence
    /// over an ancestor's).
    pub fn instances(&self) -> (v: Vec<ShapeInstance<'_>>)
        ensures
            instances_view(v@) == sp_instances(self@.blocks, self@.roots),
    {
        let mut out: Vec<ShapeInstance<'_>> = Vec::new();
        let roots = self.scene_roots();
        let chain: Vec<NifTransform> = Vec::new();
        let inherited: Vec<BlockRef> = Vec::new();
        assert(instances_view(out@) =~= Seq::<ShapeInstanceV>::empty());
        self.collect_children(&roots, self.blocks.len(), &chain, &inherited, &mut out);
        assert(instances_view(out@) =~= sp_instances(self@.blocks, self@.roots));
        out
    }

    /// Depth-first traversal of the subtree at `r`, appending its instances to `out`.
    /// `chain` holds the transforms above `r`, `inherited` the ancestors' property
    /// references, nearest first.
    fn collect_instances<'a>(
        &'a self,
        r: BlockRef,
        fuel: usize,
        chain: &Vec<NifTransform>,
        inherited: &Vec<BlockRef>,
        out: &mut Vec<ShapeInstance<'a>>,
    )
        ensures
            instances_view(final(out)@) == instances_view(old(out)@) + sp_collect(
                self@.blocks,
                fuel as nat,
                r,
                chain@,
                inherited@,
            ),
        decreases fuel, 1int,
    {
        let ghost before = instances_view(out@);
        if fuel == 0 {
            assert(before + Seq::<ShapeInstanceV>::empty() =~= before);
            return;
        }
        match self.block(r) {
            Some(Block::Node(n)) => {
                if n.hidden || n.collision {
                    assert(before + Seq::<ShapeInstanceV>::empty() =~= before);
                    return;
                }
                let node_chain = extended(chain, n.transform);
                let props = concat_refs(&n.properties, inherited);
                self.collect_children(&n.children, fuel - 1, &node_chain, &props, out);
            },
            Some(Block::TriShape(s)) => {
                if s.hidden {
                    assert(before + Seq::<ShapeInstanceV>::empty() =~= before);
                    return;
                }
                match self.block(s.data) {
                    Some(Block::TriShapeData(mesh)) => {
                        let props = concat_refs(&s.properties, inherited);
                        let inst = ShapeInstance {
                            transforms: extended(chain, s.transform),
                            mesh,
                            base_texture: self.base_texture(&props),
                            material: self.material(&props),
                        };
                        let ghost iv = inst@;
                        out.push(inst);
                        assert(instances_view(out@) =~= before.push(iv));
                        assert(before.push(iv) =~= before + seq![iv]);
                    },
                    _ => {
                        assert(before + Seq::<ShapeInstanceV>::empty() =~= before);
                    },
                }
            },
            _ => {
                assert(before + Seq::<ShapeInstanceV>::empty() =~= before);
            },
        }
    }

    /// [`Nif::collect_instances`] for each of `kids` in turn.
    fn collect_children<'a>(
        &'a self,
        kids: &Vec<BlockRef>,
        fuel: usize,
        chain: &Vec<NifTransform>,
        inherited: &Vec<BlockRef>,
        out: &mut Vec<ShapeInstance<'a>>,
    )
        ensures
            instances_view(final(out)@) == instances_view(old(out)@) + sp_children(
                self@.blocks,
                fuel as nat,
                kids@,
                chain@,
                inherited@,
                0,
            ),
        decreases fuel, 2int,
    {
        let ghost blocks = self@.blocks;
        let ghost start = instances_view(out@);
        let mut i: usize = 0;
        while i < kids.len()
            invariant
                blocks == self@.blocks,
                i <= kids.len(),
                instances_view(out@) + sp_children(blocks, fuel as nat, kids@, chain@, inherited@, i as int)
                    == start + sp_children(blocks, fuel as nat, kids@, chain@, inherited@, 0),
            decreases kids.len() - i,
        {
            let ghost mid = instances_view(out@);
            self.collect_instances(kids[i], fuel, chain, inherited, out);
            let ghost one = sp_collect(blocks, fuel as nat, kids@[i as int], chain@, inherited@);
            let ghost rest = sp_children(blocks, fuel as nat, kids@, chain@, inherited@, i + 1);
            assert(mid + one + rest =~= mid + (one + rest));
            i += 1;
        }
        assert(instances_view(out@) + Seq::<ShapeInstanceV>::empty() =~= instances_view(out@));
    }
}

} // verus!
