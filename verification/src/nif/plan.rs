//! The node hierarchy of a parsed [`Nif`] as a flat list of entities to spawn.
//!
//! [`Nif::scene_plan`] walks the scene graph with the same rules as
//! [`Nif::instances`](super::scene) — hidden and collision subtrees skipped, a shape's own
//! properties ahead of inherited ones — but keeps the hierarchy: one entry per visible
//! node and per drawable shape, each naming its parent by slot. Slot 0 is the scene root
//! the entries hang under; entry `k` occupies slot `k + 1`. Shapes whose geometry has no
//! vertices or no triangles are left out.

use vstd::prelude::*;
use vstd::string::StringExecFns;
use crate::latin1::L1String;
use crate::text::{decimal, push_decimal};
use super::Nif;
use super::blocks::{AlphaProperty, Block, BlockRef, BlockV, Material, NifTransform, TriMesh, TriMeshV};
use super::scene::{block_at, concat_refs, first_alpha, first_glow, first_material, first_texture, start_roots};

verus! {

/// What a shape entry draws: its geometry, texture filenames, material and alpha.
#[derive(Debug, Clone, Copy)]
pub struct Surface<'a> {
    pub mesh: &'a TriMesh,
    /// Base-colour texture filename (from the first inherited texturing property).
    pub base_texture: Option<&'a L1String>,
    /// Glow texture filename (from the first inherited texturing property).
    pub glow_texture: Option<&'a L1String>,
    /// Surface material (first inherited material property).
    pub material: Option<Material>,
    /// Alpha rendering (first inherited alpha property).
    pub alpha: Option<AlphaProperty>,
}

/// One entity to spawn: its parent's slot, the block it comes from, its local transform,
/// its name (`Node{i}` or `Shape{i}` after the block index), and for a shape what it
/// draws, with every property resolved by inheritance.
#[derive(Debug, Clone)]
pub struct SceneEntry<'a> {
    pub parent: usize,
    pub block: BlockRef,
    pub transform: NifTransform,
    pub name: String,
    pub surface: Option<Surface<'a>>,
}

/// The contents of a [`Surface`].
pub struct SurfaceV {
    pub mesh: TriMeshV,
    pub base_texture: Option<Seq<u8>>,
    pub glow_texture: Option<Seq<u8>>,
    pub material: Option<Material>,
    pub alpha: Option<AlphaProperty>,
}

/// The contents of a [`SceneEntry`].
pub struct SceneEntryV {
    pub parent: nat,
    pub block: BlockRef,
    pub transform: NifTransform,
    pub name: Seq<char>,
    pub surface: Option<SurfaceV>,
}

impl<'a> View for Surface<'a> {
    type V = SurfaceV;

    open spec fn view(&self) -> SurfaceV {
        SurfaceV {
            mesh: self.mesh@,
            base_texture: match self.base_texture {
                Some(t) => Some(t@),
                None => None,
            },
            glow_texture: match self.glow_texture {
                Some(t) => Some(t@),
                None => None,
            },
            material: self.material,
            alpha: self.alpha,
        }
    }
}

impl<'a> View for SceneEntry<'a> {
    type V = SceneEntryV;

    open spec fn view(&self) -> SceneEntryV {
        SceneEntryV {
            parent: self.parent as nat,
            block: self.block,
            transform: self.transform,
            name: self.name@,
            surface: match self.surface {
                Some(s) => Some(s@),
                None => None,
            },
        }
    }
}

/// The views of a list of entries.
pub open spec fn entries_view(v: Seq<SceneEntry>) -> Seq<SceneEntryV> {
    v.map_values(|e: SceneEntry| e@)
}

/// The entries for the subtree at `r`, hung under slot `parent`, when `base` entries
/// precede them, with the inherited properties `inherited` (nearest first), descending at
/// most `fuel` levels.
pub open spec fn sp_walk(
    blocks: Seq<BlockV>,
    fuel: nat,
    r: BlockRef,
    parent: nat,
    inherited: Seq<BlockRef>,
    base: nat,
) -> Seq<SceneEntryV>
    decreases fuel, 0int,
{
    if fuel == 0 {
        seq![]
    } else {
        match block_at(blocks, r) {
            Some(BlockV::Node(n)) => if n.hidden || n.collision {
                seq![]
            } else {
                seq![
                    SceneEntryV {
                        parent,
                        block: r,
                        transform: n.transform,
                        name: "Node"@ + decimal(r.0 as nat),
                        surface: None,
                    },
                ] + sp_walk_children(
                    blocks,
                    (fuel - 1) as nat,
                    n.children,
                    base + 1,
                    n.properties + inherited,
                    base + 1,
                    0,
                )
            },
            Some(BlockV::TriShape(s)) => if s.hidden {
                seq![]
            } else {
                match block_at(blocks, s.data) {
                    Some(BlockV::TriShapeData(mesh)) => if mesh.vertices.len() == 0
                        || mesh.triangles.len() == 0 {
                        seq![]
                    } else {
                        let props = s.properties + inherited;
                        seq![
                            SceneEntryV {
                                parent,
                                block: r,
                                transform: s.transform,
                                name: "Shape"@ + decimal(r.0 as nat),
                                surface: Some(
                                    SurfaceV {
                                        mesh,
                                        base_texture: first_texture(blocks, props),
                                        glow_texture: first_glow(blocks, props),
                                        material: first_material(blocks, props),
                                        alpha: first_alpha(blocks, props),
                                    },
                                ),
                            },
                        ]
                    },
                    _ => seq![],
                }
            },
            _ => seq![],
        }
    }
}

/// The entries for each of `kids[i..]` in turn, all hung under slot `parent`, the first
/// preceded by `base` entries.
pub open spec fn sp_walk_children(
    blocks: Seq<BlockV>,
    fuel: nat,
    kids: Seq<BlockRef>,
    parent: nat,
    inherited: Seq<BlockRef>,
    base: nat,
    i: int,
) -> Seq<SceneEntryV>
    decreases fuel, kids.len() - i + 1,
{
    if i < 0 || i >= kids.len() {
        seq![]
    } else {
        let first = sp_walk(blocks, fuel, kids[i], parent, inherited, base);
        first + sp_walk_children(blocks, fuel, kids, parent, inherited, base + first.len(), i + 1)
    }
}

/// The spawn plan of a scene: every root's subtree under slot 0, in order.
pub open spec fn sp_scene_plan(blocks: Seq<BlockV>, roots: Seq<BlockRef>) -> Seq<SceneEntryV> {
    sp_walk_children(blocks, blocks.len(), start_roots(roots), 0, seq![], 0, 0)
}

/// The surface `e` draws agrees with the properties `path` followed by `inh`: texture,
/// glow, material and alpha are each the first found along them.
pub open spec fn surface_from(blocks: Seq<BlockV>, e: SceneEntryV, path: Seq<BlockRef>, inh: Seq<BlockRef>) -> bool {
    match e.surface {
        Some(sf) => {
            &&& sf.base_texture == first_texture(blocks, path + inh)
            &&& sf.glow_texture == first_glow(blocks, path + inh)
            &&& sf.material == first_material(blocks, path + inh)
            &&& sf.alpha == first_alpha(blocks, path + inh)
        },
        None => true,
    }
}

/// What a subtree inherits comes after everything inside it: for the subtree at `r` there
/// are property lists `paths` — one per entry, for a shape from the shape itself up
/// through its nodes to `r`, nearest first, and not depending on what `r` inherits — such
/// that under any inherited list `inh` each shape's texture, glow, material and alpha are
/// those found along its path followed by `inh`. So a nearer node's property always
/// decides over a farther one's, and inherited properties decide only where the path
/// provides none.
pub proof fn lemma_walk_inherits(
    blocks: Seq<BlockV>,
    fuel: nat,
    r: BlockRef,
    parent: nat,
    base: nat,
) -> (paths: Seq<Seq<BlockRef>>)
    ensures
        forall|inh: Seq<BlockRef>|
            #![trigger sp_walk(blocks, fuel, r, parent, inh, base)]
            sp_walk(blocks, fuel, r, parent, inh, base).len() == paths.len() && forall|k: int|
                0 <= k < paths.len() ==> surface_from(
                    blocks,
                    #[trigger] sp_walk(blocks, fuel, r, parent, inh, base)[k],
                    paths[k],
                    inh,
                ),
    decreases fuel, 0int,
{
    if fuel == 0 {
        seq![]
    } else {
        match block_at(blocks, r) {
            Some(BlockV::Node(n)) => if n.hidden || n.collision {
                seq![]
            } else {
                let cp = lemma_walk_children_inherit(blocks, (fuel - 1) as nat, n.children, base + 1, base + 1, 0);
                let paths = seq![Seq::<BlockRef>::empty()] + Seq::new(cp.len(), |k: int| cp[k] + n.properties);
                assert forall|inh: Seq<BlockRef>|
                    #![trigger sp_walk(blocks, fuel, r, parent, inh, base)]
                    sp_walk(blocks, fuel, r, parent, inh, base).len() == paths.len() && forall|k: int|
                        0 <= k < paths.len() ==> surface_from(
                            blocks,
                            #[trigger] sp_walk(blocks, fuel, r, parent, inh, base)[k],
                            paths[k],
                            inh,
                        ) by {
                    let inner = n.properties + inh;
                    let kids = sp_walk_children(blocks, (fuel - 1) as nat, n.children, base + 1, inner, base + 1, 0);
                    let v = sp_walk(blocks, fuel, r, parent, inh, base);
                    assert(v.len() == 1 + kids.len());
                    assert forall|k: int| 0 <= k < paths.len() implies surface_from(blocks, #[trigger] v[k], paths[k], inh) by {
                        if k > 0 {
                            assert(v[k] == kids[k - 1]);
                            assert(surface_from(blocks, kids[k - 1], cp[k - 1], inner));
                            assert(cp[k - 1] + inner =~= paths[k] + inh);
                        }
                    }
                }
                paths
            },
            Some(BlockV::TriShape(s)) => if s.hidden {
                seq![]
            } else {
                match block_at(blocks, s.data) {
                    Some(BlockV::TriShapeData(mesh)) => if mesh.vertices.len() == 0
                        || mesh.triangles.len() == 0 {
                        seq![]
                    } else {
                        seq![s.properties]
                    },
                    _ => seq![],
                }
            },
            _ => seq![],
        }
    }
}

/// [`lemma_walk_inherits`] for each of `kids[i..]` in turn.
pub proof fn lemma_walk_children_inherit(
    blocks: Seq<BlockV>,
    fuel: nat,
    kids: Seq<BlockRef>,
    parent: nat,
    base: nat,
    i: int,
) -> (paths: Seq<Seq<BlockRef>>)
    ensures
        forall|inh: Seq<BlockRef>|
            #![trigger sp_walk_children(blocks, fuel, kids, parent, inh, base, i)]
            sp_walk_children(blocks, fuel, kids, parent, inh, base, i).len() == paths.len()
                && forall|k: int|
                0 <= k < paths.len() ==> surface_from(
                    blocks,
                    #[trigger] sp_walk_children(blocks, fuel, kids, parent, inh, base, i)[k],
                    paths[k],
                    inh,
                ),
    decreases fuel, kids.len() - i + 1,
{
    if i < 0 || i >= kids.len() {
        seq![]
    } else {
        let a = lemma_walk_inherits(blocks, fuel, kids[i], parent, base);
        let b = lemma_walk_children_inherit(blocks, fuel, kids, parent, base + a.len(), i + 1);
        let paths = a + b;
        assert forall|inh: Seq<BlockRef>|
            #![trigger sp_walk_children(blocks, fuel, kids, parent, inh, base, i)]
            sp_walk_children(blocks, fuel, kids, parent, inh, base, i).len() == paths.len()
                && forall|k: int|
                0 <= k < paths.len() ==> surface_from(
                    blocks,
                    #[trigger] sp_walk_children(blocks, fuel, kids, parent, inh, base, i)[k],
                    paths[k],
                    inh,
                ) by {
            let va = sp_walk(blocks, fuel, kids[i], parent, inh, base);
            assert(va.len() == a.len());
            let vb = sp_walk_children(blocks, fuel, kids, parent, inh, base + a.len(), i + 1);
            let v = sp_walk_children(blocks, fuel, kids, parent, inh, base, i);
            assert(v == va + vb);
            assert forall|k: int| 0 <= k < paths.len() implies surface_from(blocks, #[trigger] v[k], paths[k], inh) by {
                if k < a.len() {
                    assert(v[k] == va[k]);
                    assert(paths[k] == a[k]);
                } else {
                    assert(v[k] == vb[k - a.len()]);
                    assert(paths[k] == b[k - a.len()]);
                }
            }
        }
        paths
    }
}

/// Every entry of a plan hangs under an earlier slot: the root, or an entry before it.
pub open spec fn parents_precede(plan: Seq<SceneEntryV>) -> bool {
    forall|k: int| 0 <= k < plan.len() ==> #[trigger] plan[k].parent <= k
}

/// Every entry of a scene's plan hangs under an earlier slot — the scene root or an entry
/// before it — so spawning the entries in order always finds the parent already spawned.
pub proof fn lemma_scene_plan_parents_precede(blocks: Seq<BlockV>, roots: Seq<BlockRef>)
    ensures
        parents_precede(sp_scene_plan(blocks, roots)),
{
    let plan = sp_scene_plan(blocks, roots);
    lemma_walk_children_parents(blocks, blocks.len(), start_roots(roots), 0, seq![], 0, 0);
    assert forall|k: int| 0 <= k < plan.len() implies #[trigger] plan[k].parent <= k by {}
}

proof fn lemma_walk_parents(
    blocks: Seq<BlockV>,
    fuel: nat,
    r: BlockRef,
    parent: nat,
    inherited: Seq<BlockRef>,
    base: nat,
)
    requires
        parent <= base,
    ensures
        forall|k: int|
            0 <= k < sp_walk(blocks, fuel, r, parent, inherited, base).len() ==> #[trigger] sp_walk(
                blocks,
                fuel,
                r,
                parent,
                inherited,
                base,
            )[k].parent <= base + k,
    decreases fuel, 0int,
{
    if fuel > 0 {
        match block_at(blocks, r) {
            Some(BlockV::Node(n)) => {
                if !(n.hidden || n.collision) {
                    let props = n.properties + inherited;
                    lemma_walk_children_parents(
                        blocks,
                        (fuel - 1) as nat,
                        n.children,
                        base + 1,
                        props,
                        base + 1,
                        0,
                    );
                }
            },
            _ => {},
        }
    }
}

proof fn lemma_walk_children_parents(
    blocks: Seq<BlockV>,
    fuel: nat,
    kids: Seq<BlockRef>,
    parent: nat,
    inherited: Seq<BlockRef>,
    base: nat,
    i: int,
)
    requires
        parent <= base,
    ensures
        forall|k: int|
            0 <= k < sp_walk_children(blocks, fuel, kids, parent, inherited, base, i).len()
                ==> #[trigger] sp_walk_children(blocks, fuel, kids, parent, inherited, base, i)[k].parent
                <= base + k,
    decreases fuel, kids.len() - i + 1,
{
    if 0 <= i < kids.len() {
        let first = sp_walk(blocks, fuel, kids[i], parent, inherited, base);
        lemma_walk_parents(blocks, fuel, kids[i], parent, inherited, base);
        lemma_walk_children_parents(blocks, fuel, kids, parent, inherited, base + first.len(), i + 1);
        let all = sp_walk_children(blocks, fuel, kids, parent, inherited, base, i);
        let rest = sp_walk_children(blocks, fuel, kids, parent, inherited, base + first.len(), i + 1);
        assert forall|k: int| 0 <= k < all.len() implies #[trigger] all[k].parent <= base + k by {
            if k < first.len() {
                assert(all[k] == first[k]);
            } else {
                assert(all[k] == rest[k - first.len()]);
            }
        }
    }
}

/// Materials are told apart by what actually feeds them: the resolved texture path and
/// the material's diffuse and emissive colours and alpha (as float bit patterns).
pub type MaterialKey = (Option<String>, Option<[u32; 7]>);

/// The colours of `m` that distinguish one material from another: diffuse, emissive and
/// alpha.
pub open spec fn material_colors(m: Material) -> [u32; 7] {
    [m.diffuse[0], m.diffuse[1], m.diffuse[2], m.emissive[0], m.emissive[1], m.emissive[2], m.alpha]
}

/// The key two shapes share exactly when they can share one material: the resolved
/// texture path and the distinguishing colours.
pub fn material_key(texture: &Option<String>, material: Option<&Material>) -> (k: MaterialKey)
    ensures
        match (k.0, *texture) {
            (Some(a), Some(b)) => a@ == b@,
            (None, None) => true,
            _ => false,
        },
        k.1 == match material {
            Some(m) => Some(material_colors(*m)),
            None => None::<[u32; 7]>,
        },
{
    let colors = match material {
        Some(m) => Some(
            [
                m.diffuse[0],
                m.diffuse[1],
                m.diffuse[2],
                m.emissive[0],
                m.emissive[1],
                m.emissive[2],
                m.alpha,
            ],
        ),
        None => None,
    };
    let tex = match texture {
        Some(t) => Some(t.clone()),
        None => None,
    };
    (tex, colors)
}

/// `text` followed by the decimal digits of `n`.
fn numbered(text: &str, n: usize) -> (r: String)
    ensures
        r@ == text@ + decimal(n as nat),
{
    let mut r = String::from_str(text);
    push_decimal(&mut r, n as u64);
    r
}

impl Nif {
    /// The scene's node hierarchy as a flat spawn list: one entry per visible node and
    /// drawable shape, in depth-first order, each naming its parent's slot (0 for the
    /// scene root, `k + 1` for entry `k`).
    pub fn scene_plan(&self) -> (v: Vec<SceneEntry<'_>>)
        ensures
            entries_view(v@) == sp_scene_plan(self@.blocks, self@.roots),
    {
        let mut out: Vec<SceneEntry<'_>> = Vec::new();
        let roots = self.scene_roots();
        let inherited: Vec<BlockRef> = Vec::new();
        assert(entries_view(out@) =~= Seq::<SceneEntryV>::empty());
        self.walk_children(&roots, self.blocks.len(), 0, &inherited, &mut out);
        assert(entries_view(out@) =~= sp_scene_plan(self@.blocks, self@.roots));
        out
    }

    /// Append the entries for the subtree at `r`, hung under slot `parent`.
    fn walk<'a>(
        &'a self,
        r: BlockRef,
        fuel: usize,
        parent: usize,
        inherited: &Vec<BlockRef>,
        out: &mut Vec<SceneEntry<'a>>,
    )
        requires
            parent <= old(out)@.len(),
        ensures
            entries_view(final(out)@) == entries_view(old(out)@) + sp_walk(
                self@.blocks,
                fuel as nat,
                r,
                parent as nat,
                inherited@,
                old(out)@.len(),
            ),
        decreases fuel, 1int,
    {
        let ghost before = entries_view(out@);
        let ghost blocks = self@.blocks;
        if fuel == 0 {
            assert(before + Seq::<SceneEntryV>::empty() =~= before);
            return;
        }
        match self.block(r) {
            Some(Block::Node(n)) => {
                if n.hidden || n.collision {
                    assert(before + Seq::<SceneEntryV>::empty() =~= before);
                    return;
                }
                let props = concat_refs(&n.properties, inherited);
                let entry = SceneEntry {
                    parent,
                    block: r,
                    transform: n.transform,
                    name: numbered("Node", r.0 as usize),
                    surface: None,
                };
                let ghost ev = entry@;
                out.push(entry);
                assert(entries_view(out@) =~= before + seq![ev]);
                let slot = out.len();
                self.walk_children(&n.children, fuel - 1, slot, &props, out);
                assert(before + seq![ev] + sp_walk_children(
                    blocks,
                    (fuel - 1) as nat,
                    n.children@,
                    slot as nat,
                    props@,
                    slot as nat,
                    0,
                ) =~= before + (seq![ev] + sp_walk_children(
                    blocks,
                    (fuel - 1) as nat,
                    n.children@,
                    slot as nat,
                    props@,
                    slot as nat,
                    0,
                )));
            },
            Some(Block::TriShape(s)) => {
                if s.hidden {
                    assert(before + Seq::<SceneEntryV>::empty() =~= before);
                    return;
                }
                match self.block(s.data) {
                    Some(Block::TriShapeData(mesh)) => {
                        if mesh.vertices.len() == 0 || mesh.triangles.len() == 0 {
                            assert(before + Seq::<SceneEntryV>::empty() =~= before);
                            return;
                        }
                        let props = concat_refs(&s.properties, inherited);
                        let entry = SceneEntry {
                            parent,
                            block: r,
                            transform: s.transform,
                            name: numbered("Shape", r.0 as usize),
                            surface: Some(
                                Surface {
                                    mesh,
                                    base_texture: self.base_texture(&props),
                                    glow_texture: self.glow_texture(&props),
                                    material: self.material(&props),
                                    alpha: self.alpha(&props),
                                },
                            ),
                        };
                        let ghost ev = entry@;
                        out.push(entry);
                        assert(entries_view(out@) =~= before + seq![ev]);
                    },
                    _ => {
                        assert(before + Seq::<SceneEntryV>::empty() =~= before);
                    },
                }
            },
            _ => {
                assert(before + Seq::<SceneEntryV>::empty() =~= before);
            },
        }
    }

    /// [`Nif::walk`] for each of `kids` in turn, all under slot `parent`.
    fn walk_children<'a>(
        &'a self,
        kids: &Vec<BlockRef>,
        fuel: usize,
        parent: usize,
        inherited: &Vec<BlockRef>,
        out: &mut Vec<SceneEntry<'a>>,
    )
        requires
            parent <= old(out)@.len(),
        ensures
            entries_view(final(out)@) == entries_view(old(out)@) + sp_walk_children(
                self@.blocks,
                fuel as nat,
                kids@,
                parent as nat,
                inherited@,
                old(out)@.len(),
                0,
            ),
        decreases fuel, 2int,
    {
        let ghost blocks = self@.blocks;
        let ghost start = entries_view(out@);
        let ghost start_len = out@.len();
        let mut i: usize = 0;
        while i < kids.len()
            invariant
                blocks == self@.blocks,
                i <= kids.len(),
                parent <= start_len <= out@.len(),
                entries_view(out@) + sp_walk_children(
                    blocks,
                    fuel as nat,
                    kids@,
                    parent as nat,
                    inherited@,
                    out@.len(),
                    i as int,
                ) == start + sp_walk_children(
                    blocks,
                    fuel as nat,
                    kids@,
                    parent as nat,
                    inherited@,
                    start_len,
                    0,
                ),
            decreases kids.len() - i,
        {
            let ghost mid = entries_view(out@);
            let ghost mid_len = out@.len();
            self.walk(kids[i], fuel, parent, inherited, out);
            let ghost one = sp_walk(blocks, fuel as nat, kids@[i as int], parent as nat, inherited@, mid_len);
            let ghost rest = sp_walk_children(
                blocks,
                fuel as nat,
                kids@,
                parent as nat,
                inherited@,
                mid_len + one.len(),
                i + 1,
            );
            assert(out@.len() == mid_len + one.len()) by {
                assert(entries_view(out@).len() == out@.len());
                assert(mid.len() == mid_len);
            }
            assert(mid + one + rest =~= mid + (one + rest));
            i += 1;
        }
        assert(entries_view(out@) + Seq::<SceneEntryV>::empty() =~= entries_view(out@));
    }
}

} // verus!
