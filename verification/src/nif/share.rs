//! Material sharing across a model's shapes.
//!
//! A scene mints one material per distinct [`material_key`](super::scene::material_key):
//! shapes whose keys are equal share the material the first of them minted, and materials
//! are minted in the order their keys are first seen.

use vstd::prelude::*;
use super::scene::{GlowMaterialKey, opt_chars};
use super::plan::MaterialKey;

verus! {

/// A material key compared by what it holds: texture paths by their text, colours and
/// alpha settings by value.
pub trait SharedKey: Sized {
    /// What two keys must agree on to share a material.
    type Identity;

    spec fn identity(&self) -> Self::Identity;

    /// Whether the two keys share a material.
    fn same_material(&self, other: &Self) -> (r: bool)
        ensures
            r == (self.identity() == other.identity()),
    ;
}

/// Whether two optional texture paths hold the same text.
fn same_text(a: &Option<String>, b: &Option<String>) -> (r: bool)
    ensures
        r == (opt_chars(*a) == opt_chars(*b)),
{
    match (a, b) {
        (Some(x), Some(y)) => x.eq(y),
        (None, None) => true,
        _ => false,
    }
}

/// Whether two optional colour sets are equal.
fn same_colors(a: &Option<[u32; 7]>, b: &Option<[u32; 7]>) -> (r: bool)
    ensures
        r == (*a == *b),
{
    match (a, b) {
        (Some(x), Some(y)) => {
            let mut i: usize = 0;
            while i < 7
                invariant
                    *a == Some(*x),
                    *b == Some(*y),
                    i <= 7,
                    forall|j: int| 0 <= j < i ==> x[j] == y[j],
                decreases 7 - i,
            {
                if x[i] != y[i] {
                    proof {
                        if *x == *y {
                            assert(x[i as int] == y[i as int]);
                        }
                    }
                    return false;
                }
                i += 1;
            }
            proof {
                broadcast use vstd::array::group_array_axioms;
                assert(*x =~= *y);
            }
            true
        },
        (None, None) => true,
        _ => false,
    }
}

impl SharedKey for GlowMaterialKey {
    type Identity = (Option<Seq<char>>, Option<Seq<char>>, Option<[u32; 7]>, Option<(u16, u8)>);

    open spec fn identity(&self) -> Self::Identity {
        (opt_chars(self.0), opt_chars(self.1), self.2, self.3)
    }

    fn same_material(&self, other: &Self) -> (r: bool) {
        same_text(&self.0, &other.0) && same_text(&self.1, &other.1) && same_colors(
            &self.2,
            &other.2,
        ) && self.3 == other.3
    }
}

impl SharedKey for MaterialKey {
    type Identity = (Option<Seq<char>>, Option<[u32; 7]>);

    open spec fn identity(&self) -> Self::Identity {
        (opt_chars(self.0), self.1)
    }

    fn same_material(&self, other: &Self) -> (r: bool) {
        same_text(&self.0, &other.0) && same_colors(&self.1, &other.1)
    }
}

/// Whether `keys[i]` is the first key of its material: no earlier key shares it.
pub open spec fn first_of_material<K: SharedKey>(keys: Seq<K>, i: int) -> bool {
    forall|j: int| 0 <= j < i ==> (#[trigger] keys[j]).identity() != keys[i].identity()
}

/// How a model's shapes share materials: `minted[m]` is the index of the shape whose key
/// mints material `m`, and `material_of[i]` the material shape `i` uses.
pub struct MaterialSharing {
    pub material_of: Vec<usize>,
    pub minted: Vec<usize>,
}

/// The sharing of `keys` is `s`: one material per distinct key, minted in the order the
/// keys are first seen, each shape using the material of its key.
pub open spec fn shares<K: SharedKey>(keys: Seq<K>, s: MaterialSharing) -> bool {
    let (of, minted) = (s.material_of@, s.minted@);
    &&& of.len() == keys.len()
    &&& forall|m: int|
        0 <= m < minted.len() ==> #[trigger] minted[m] < keys.len() && first_of_material(
            keys,
            minted[m] as int,
        )
    &&& forall|a: int, b: int| 0 <= a < b < minted.len() ==> #[trigger] minted[a] < #[trigger] minted[b]
    &&& forall|i: int|
        0 <= i < keys.len() ==> {
            &&& #[trigger] of[i] < minted.len()
            &&& keys[minted[of[i] as int] as int].identity() == keys[i].identity()
            &&& first_of_material(keys, i) ==> minted[of[i] as int] == i
        }
}

/// Decide which shapes share a material: one material per distinct key, in the order the
/// keys are first seen; every shape uses the material its key's first occurrence minted.
pub fn share_materials<K: SharedKey>(keys: &Vec<K>) -> (s: MaterialSharing)
    ensures
        shares(keys@, s),
{
    let mut material_of: Vec<usize> = Vec::new();
    let mut minted: Vec<usize> = Vec::new();
    let mut i: usize = 0;
    while i < keys.len()
        invariant
            i <= keys@.len(),
            material_of@.len() == i,
            minted@.len() <= i,
            forall|m: int|
                0 <= m < minted@.len() ==> #[trigger] minted@[m] < i && first_of_material(
                    keys@,
                    minted@[m] as int,
                ),
            forall|a: int, b: int|
                0 <= a < b < minted@.len() ==> #[trigger] minted@[a] < #[trigger] minted@[b],
            forall|k: int|
                0 <= k < i ==> {
                    &&& #[trigger] material_of@[k] < minted@.len()
                    &&& keys@[minted@[material_of@[k] as int] as int].identity()
                        == keys@[k].identity()
                    &&& first_of_material(keys@, k) ==> minted@[material_of@[k] as int] == k
                },
        decreases keys@.len() - i,
    {
        let mut m: usize = 0;
        let mut found = false;
        while m < minted.len() && !found
            invariant
                i < keys@.len(),
                m <= minted@.len(),
                forall|m2: int| 0 <= m2 < minted@.len() ==> #[trigger] minted@[m2] < i,
                found ==> m < minted@.len() && keys@[minted@[m as int] as int].identity()
                    == keys@[i as int].identity(),
                forall|m2: int|
                    0 <= m2 < m ==> keys@[#[trigger] minted@[m2] as int].identity()
                        != keys@[i as int].identity(),
            decreases minted@.len() - m + if found { 0int } else { 1int },
        {
            if keys[minted[m]].same_material(&keys[i]) {
                found = true;
            } else {
                m += 1;
            }
        }
        if found {
            proof {
                assert(!first_of_material(keys@, i as int)) by {
                    let j = minted@[m as int] as int;
                    assert(keys@[j].identity() == keys@[i as int].identity());
                }
            }
            material_of.push(m);
        } else {
            proof {
                assert forall|j: int| 0 <= j < i implies (#[trigger] keys@[j]).identity()
                    != keys@[i as int].identity() by {
                    let s = material_of@[j] as int;
                    assert(keys@[minted@[s] as int].identity() == keys@[j].identity());
                }
            }
            material_of.push(minted.len());
            minted.push(i);
        }
        i += 1;
    }
    MaterialSharing { material_of, minted }
}

} // verus!
