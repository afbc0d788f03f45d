//! Cell identifiers and the plain components that mark spawned cell content.

use vstd::prelude::*;
use vstd::string::StringExecFns;
use crate::vfs::{TesVfs, first_present, model_candidates, opt_text, resolved};

verus! {

/// Identifies a cell within a plugin or load order.
#[derive(Debug, Clone, Hash)]
pub enum CellId {
    /// An interior cell by name, e.g. `Balmora, Guild of Mages`.
    Interior(String),
    /// An exterior cell by grid coordinates.
    Exterior { x: i32, y: i32 },
}

impl CellId {
    /// An interior cell id, by name.
    pub fn interior(name: &str) -> (c: CellId)
        ensures
            c matches CellId::Interior(n) && n@ == name@,
    {
        CellId::Interior(String::from_str(name))
    }

    /// An exterior cell id, by grid coordinates.
    pub fn exterior(x: i32, y: i32) -> (c: CellId)
        ensures
            c == (CellId::Exterior { x, y }),
    {
        CellId::Exterior { x, y }
    }
}

impl PartialEq for CellId {
    fn eq(&self, other: &Self) -> (r: bool) {
        match (self, other) {
            (CellId::Interior(a), CellId::Interior(b)) => *a == *b,
            (CellId::Exterior { x: ax, y: ay }, CellId::Exterior { x: bx, y: by }) => *ax == *bx
                && *ay == *by,
            _ => false,
        }
    }
}

impl vstd::std_specs::cmp::PartialEqSpecImpl for CellId {
    open spec fn obeys_eq_spec() -> bool {
        true
    }

    open spec fn eq_spec(&self, other: &Self) -> bool {
        match (self, other) {
            (CellId::Interior(a), CellId::Interior(b)) => a@ == b@,
            (CellId::Exterior { x: ax, y: ay }, CellId::Exterior { x: bx, y: by }) => ax == bx
                && ay == by,
            _ => false,
        }
    }
}

impl Eq for CellId {}

/// The category of a placeable object record — the record type its editor id was found
/// on.
#[derive(Debug, Clone, Copy, PartialEq, Eq, Structural)]
pub enum ObjectKind {
    Static,
    Activator,
    Container,
    Door,
    Light,
    Misc,
    Weapon,
    Armor,
    Clothing,
    Book,
    Ingredient,
    Potion,
    Apparatus,
    Lockpick,
    Probe,
    Repair,
    Creature,
    Npc,
    BodyPart,
    LeveledCreature,
    LeveledItem,
}

/// Marks a seed entity once its children have been spawned.
#[derive(Debug, Clone, Copy)]
pub struct CellSpawned {
    /// Reference children spawned (including model-less stand-ins).
    pub spawned: usize,
    /// References skipped (NPCs/creatures, leveled lists, disabled, unknown ids).
    pub skipped: usize,
}

/// Marks a seed entity, in place of [`CellSpawned`], when its plugin failed to load or the
/// cell doesn't exist in it; holds the reason.
#[derive(Debug, Clone)]
pub struct CellSpawnFailed(pub String);

/// On every spawned reference child: which cell reference it came from.
#[derive(Debug, Clone)]
pub struct CellReference {
    /// The reference's `FRMR` id.
    pub id: u32,
    /// The object's editor id, as authored.
    pub object: String,
}

/// Marker on the stand-in water plane spawned for cells with water.
#[derive(Debug, Clone, Copy)]
pub struct CellWater;

/// Marker on the terrain mesh child spawned for an exterior cell with land data.
#[derive(Debug, Clone, Copy)]
pub struct CellTerrain;

/// Whether objects of `kind` can be placed: skinned actors and runtime-resolved spawn
/// points (NPCs, creatures, body parts, leveled lists) cannot yet.
pub open spec fn spawnable_kind(kind: ObjectKind) -> bool {
    !(kind == ObjectKind::Npc || kind == ObjectKind::Creature || kind == ObjectKind::BodyPart || kind
        == ObjectKind::LeveledCreature || kind == ObjectKind::LeveledItem)
}

impl ObjectKind {
    /// Whether objects of this kind can be placed in a cell.
    pub fn is_spawnable(self) -> (b: bool)
        ensures
            b == spawnable_kind(self),
    {
        !matches!(
            self,
            ObjectKind::Npc | ObjectKind::Creature | ObjectKind::BodyPart | ObjectKind::LeveledCreature
                | ObjectKind::LeveledItem
        )
    }
}

/// The kinds a cell places: every inanimate object — statics, activators, containers,
/// doors, lights and every kind of item — while actors and body parts (which need
/// skinning) and leveled lists (resolved at run time) are left out. A live reference to
/// an object of a placeable kind is placed, with its model when the model resolves.
pub proof fn lemma_placeable_kinds(vfs: TesVfs, k: ObjectKind, model: Option<&str>, d: ReferenceDecision)
    requires
        call_ensures(reference_decision, (&vfs, Some(k), false, model), d),
    ensures
        spawnable_kind(k) == (k is Static || k is Activator || k is Container || k is Door
            || k is Light || k is Misc || k is Weapon || k is Armor || k is Clothing || k is Book
            || k is Ingredient || k is Potion || k is Apparatus || k is Lockpick || k is Probe
            || k is Repair),
        (k is Static || k is Activator || k is Container || k is Door || k is Light || k is Misc
            || k is Weapon || k is Armor || k is Clothing || k is Book || k is Ingredient
            || k is Potion || k is Apparatus || k is Lockpick || k is Probe || k is Repair)
            <==> d is Placed,
{
}

/// What becomes of one placed reference in a cell.
#[derive(Debug, Clone)]
pub enum ReferenceDecision {
    /// The reference names an object id no record defines; it is skipped (with a warning
    /// keyed by the id).
    UnknownObject,
    /// The object cannot be placed, or the reference is disabled; it is skipped.
    Skipped,
    /// The reference is placed, loading the model at `model_path` when its model
    /// resolves. `unresolved_model` is set when the object names a model the data
    /// does not contain (warned about, placed without a model).
    Placed { model_path: Option<String>, unresolved_model: bool },
}

/// Decide what to do with a reference to an object of kind `kind` (`None` when its id is
/// unknown), `disabled` or not, whose object names `model` (relative to `meshes\`).
pub fn reference_decision(
    vfs: &TesVfs,
    kind: Option<ObjectKind>,
    disabled: bool,
    model: Option<&str>,
) -> (d: ReferenceDecision)
    ensures
        match kind {
            None => d is UnknownObject,
            Some(k) => if !spawnable_kind(k) || disabled {
                d is Skipped
            } else {
                d matches ReferenceDecision::Placed { model_path, unresolved_model } && match model {
                    Some(m) => {
                        &&& opt_text(model_path) == resolved(first_present(vfs@, model_candidates(m@)))
                        &&& unresolved_model == (model_path is None)
                    },
                    None => model_path is None && !unresolved_model,
                }
            },
        },
{
    match kind {
        None => ReferenceDecision::UnknownObject,
        Some(k) => {
            if !k.is_spawnable() || disabled {
                return ReferenceDecision::Skipped;
            }
            match model {
                Some(m) => {
                    let model_path = vfs.resolve_model(m);
                    let unresolved_model = model_path.is_none();
                    ReferenceDecision::Placed { model_path, unresolved_model }
                },
                None => ReferenceDecision::Placed { model_path: None, unresolved_model: false },
            }
        },
    }
}

} // verus!
