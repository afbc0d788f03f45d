//! Texture layers for splatted terrain.
//!
//! A cell's land carries a grid of texture values, one per texel. The terrain material
//! binds a fixed number of texture layers, so the distinct values are given layer slots
//! in the order they first appear, up to [`MAX_TERRAIN_LAYERS`]; every texel then names
//! its value's slot. Values seen after the layers are full fall back to slot 0.

use vstd::prelude::*;

verus! {

/// Maximum distinct textures per cell — the fixed size of the material's layer array.
pub const MAX_TERRAIN_LAYERS: usize = 16;

/// The layer values after taking in `grid[0..n]`: each value not yet present is appended
/// while fewer than [`MAX_TERRAIN_LAYERS`] are held.
pub open spec fn layers_upto(grid: Seq<u16>, n: int) -> Seq<u16>
    decreases n,
{
    if n <= 0 {
        seq![]
    } else {
        let acc = layers_upto(grid, n - 1);
        let v = grid[n - 1];
        if acc.contains(v) || acc.len() >= MAX_TERRAIN_LAYERS {
            acc
        } else {
            acc.push(v)
        }
    }
}

/// The slot of value `v` among `layers`: its position, or 0 when it has none.
pub open spec fn slot_of(layers: Seq<u16>, v: u16) -> int {
    if layers.contains(v) {
        layers.index_of(v)
    } else {
        0
    }
}

/// The layer assignment of a texture grid.
pub struct SplatLayers {
    /// The distinct texture values given a layer, in order of first appearance.
    pub values: Vec<u16>,
    /// Each texel's layer slot.
    pub indices: Vec<u32>,
    /// Whether some value found the layers full (and fell back to slot 0).
    pub overflow: bool,
}

/// Assign layer slots to the texture values of `grid`: distinct values take slots in
/// order of first appearance, up to [`MAX_TERRAIN_LAYERS`]; each texel gets its value's
/// slot, or slot 0 when its value arrived after the layers were full.
pub fn splat_layers(grid: &[u16]) -> (s: SplatLayers)
    ensures
        s.values@ == layers_upto(grid@, grid@.len() as int),
        s.indices@.len() == grid@.len(),
        forall|k: int|
            0 <= k < grid@.len() ==> s.indices@[k] == slot_of(s.values@, #[trigger] grid@[k]),
        s.overflow == exists|k: int| 0 <= k < grid@.len() && !s.values@.contains(#[trigger] grid@[k]),
{
    let mut values: Vec<u16> = Vec::new();
    let mut indices: Vec<u32> = Vec::new();
    let mut overflow = false;
    let mut k: usize = 0;
    while k < grid.len()
        invariant
            k <= grid@.len(),
            values@ == layers_upto(grid@, k as int),
            values@.len() <= MAX_TERRAIN_LAYERS,
            indices@.len() == k,
            forall|j: int| 0 <= j < k ==> indices@[j] == slot_of(values@, #[trigger] grid@[j]),
            forall|j: int|
                0 <= j < k && !values@.contains(#[trigger] grid@[j]) ==> values@.len()
                    == MAX_TERRAIN_LAYERS,
            overflow == exists|j: int| 0 <= j < k && !values@.contains(#[trigger] grid@[j]),
        decreases grid@.len() - k,
    {
        let v = grid[k];
        let ghost before = values@;
        let mut found: Option<usize> = None;
        let mut i: usize = 0;
        while i < values.len()
            invariant
                values@ == before,
                i <= values@.len(),
                found is None ==> forall|j: int| 0 <= j < i ==> values@[j] != v,
                found matches Some(p) ==> p < values@.len() && values@[p as int] == v && forall|j: int|
                    0 <= j < p ==> values@[j] != v,
            decreases values@.len() - i,
        {
            if found.is_none() && values[i] == v {
                found = Some(i);
            }
            i += 1;
        }
        proof {
            lemma_layers_distinct(grid@, k as int);
            lemma_layers_distinct(grid@, k + 1);
        }
        let slot: u32 = match found {
            Some(p) => {
                proof {
                    lemma_index_of_unique(values@, v, p as int);
                }
                p as u32
            },
            None => {
                assert(!values@.contains(v));
                if values.len() < MAX_TERRAIN_LAYERS {
                    values.push(v);
                    proof {
                        assert(values@ == before.push(v));
                        lemma_index_of_unique(values@, v, before.len() as int);
                        assert forall|j: int| 0 <= j < k && before.contains(#[trigger] grid@[j]) implies slot_of(
                            values@,
                            grid@[j],
                        ) == slot_of(before, grid@[j]) by {
                            lemma_slot_push(before, v, grid@[j]);
                        }
                        assert forall|j: int| 0 <= j < k implies before.contains(#[trigger] grid@[j]) by {
                            if !before.contains(grid@[j]) {
                                assert(before.len() == MAX_TERRAIN_LAYERS);
                            }
                        }
                    }
                    (values.len() - 1) as u32
                } else {
                    overflow = true;
                    0
                }
            },
        };
        proof {
            assert(values@ == layers_upto(grid@, k + 1));
        }
        indices.push(slot);
        proof {
            assert forall|j: int| 0 <= j < k + 1 implies indices@[j] == slot_of(values@, #[trigger] grid@[j]) by {
                if j < k {
                    if values@ != before {
                        assert(before.contains(grid@[j]));
                    }
                }
            }
            assert forall|j: int|
                0 <= j < k + 1 && !values@.contains(#[trigger] grid@[j]) implies values@.len()
                == MAX_TERRAIN_LAYERS by {
                if j < k && values@ != before {
                    assert(before.contains(grid@[j]));
                    let w = choose|w: int| 0 <= w < before.len() && before[w] == grid@[j];
                    assert(values@[w] == grid@[j]);
                }
            }
            if values@ == before {
                if overflow {
                    if !(exists|j: int| 0 <= j < k && !before.contains(#[trigger] grid@[j])) {
                        assert(!values@.contains(grid@[k as int]));
                    }
                } else {
                    assert(values@.contains(grid@[k as int]));
                }
            } else {
                assert(values@.contains(grid@[k as int])) by {
                    assert(values@[before.len() as int] == v);
                }
                assert forall|j: int| 0 <= j < k implies values@.contains(#[trigger] grid@[j]) by {
                    assert(before.contains(grid@[j]));
                    let w = choose|w: int| 0 <= w < before.len() && before[w] == grid@[j];
                    assert(values@[w] == grid@[j]);
                }
            }
        }
        k += 1;
    }
    SplatLayers { values, indices, overflow }
}

/// `s` holds no value twice.
pub open spec fn no_repeats(s: Seq<u16>) -> bool {
    forall|a: int, b: int| 0 <= a < b < s.len() ==> s[a] != s[b]
}

/// The layers never hold a value twice.
pub proof fn lemma_layers_distinct(grid: Seq<u16>, n: int)
    ensures
        no_repeats(layers_upto(grid, n)),
    decreases n,
{
    if n > 0 {
        lemma_layers_distinct(grid, n - 1);
        let acc = layers_upto(grid, n - 1);
        let v = grid[n - 1];
        if !(acc.contains(v) || acc.len() >= MAX_TERRAIN_LAYERS) {
            let r = acc.push(v);
            assert forall|a: int, b: int| 0 <= a < b < r.len() implies r[a] != r[b] by {
                assert(r[a] == acc[a]);
                if b == acc.len() {
                    if acc[a] == v {
                        assert(acc.contains(v));
                    }
                } else {
                    assert(r[b] == acc[b]);
                }
            }
        }
    }
}

/// In a sequence without repeats, the value at position `p` has index `p`.
proof fn lemma_index_of_unique(s: Seq<u16>, v: u16, p: int)
    requires
        no_repeats(s),
        0 <= p < s.len(),
        s[p] == v,
    ensures
        s.contains(v),
        s.index_of(v) == p,
{
    assert(s.contains(v));
    let q = s.index_of(v);
    assert(0 <= q < s.len() && s[q] == v);
    if q < p {
        assert(s[q] != s[p]);
    } else if p < q {
        assert(s[p] != s[q]);
    }
}

/// Appending a new value to the layers keeps every held value's slot.
proof fn lemma_slot_push(before: Seq<u16>, v: u16, w: u16)
    requires
        no_repeats(before.push(v)),
        before.contains(w),
    ensures
        slot_of(before.push(v), w) == slot_of(before, w),
{
    let p = before.index_of(w);
    assert(0 <= p < before.len() && before[p] == w);
    lemma_index_of_unique(before.push(v).take(before.len() as int), w, p);
    assert(before.push(v).take(before.len() as int) =~= before);
    assert(before.push(v)[p] == w);
    lemma_index_of_unique(before.push(v), w, p);
}

/// Every texel's slot names a layer holding its value, unless that value arrived after
/// the layers were full; and slots stay below [`MAX_TERRAIN_LAYERS`].
pub proof fn lemma_slots_in_range(grid: Seq<u16>, k: int)
    requires
        0 <= k < grid.len(),
    ensures
        layers_upto(grid, grid.len() as int).contains(grid[k]) ==> {
            let layers = layers_upto(grid, grid.len() as int);
            &&& 0 <= slot_of(layers, grid[k]) < layers.len()
            &&& layers[slot_of(layers, grid[k])] == grid[k]
        },
        0 <= slot_of(layers_upto(grid, grid.len() as int), grid[k]) < MAX_TERRAIN_LAYERS,
{
    lemma_layers_bounded(grid, grid.len() as int);
}

proof fn lemma_layers_bounded(grid: Seq<u16>, n: int)
    ensures
        layers_upto(grid, n).len() <= MAX_TERRAIN_LAYERS,
    decreases n,
{
    if n > 0 {
        lemma_layers_bounded(grid, n - 1);
    }
}

} // verus!
