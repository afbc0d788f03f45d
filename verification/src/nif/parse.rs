//! Block-body parsers, one per block type Morrowind ships.
//!
//! Because 4.0.0.2 stores no block sizes, every body must be decoded exactly to reach the
//! next block. Each parser below has a spec counterpart (`sp_…`) that states the byte
//! layout it reads, field by field, over `(data, pos)`; the executable parser is proved
//! to read exactly that. Blocks the crate doesn't model are decoded just far enough to
//! walk past and returned as [`Block::Other`].

use vstd::prelude::*;
use vstd::string::{StringSliceAdditionalSpecFns, StringExecFns};
use crate::latin1::L1String;
use crate::bsa::directory::le32;
use crate::nif::blocks::{
    AlphaProperty, Block, BlockRef, BlockV, Material, NifTransform, Node, NodeV, SourceTexture,
    TexturingProperty, TriMesh, TriMeshV, TriShape, TriShapeV,
};
use crate::nif::reader::{
    PResult, RResult, ReadError, Reader, prefix_with, sp_repeat, sp_times,
    lemma_repeat_step, lemma_repeat_end, sp_block_ref, sp_bool, sp_f32,
    sp_i32, sp_line, sp_refs, le16, sp_skip, sp_string, sp_u16, sp_u32, sp_u8, sp_vec3, steps, steps_view, then,
};

verus! {

/// A `NiObjectNET`: name string + extra-data ref + controller ref; yields the name.
pub open spec fn sp_ni_object_net(d: Seq<u8>, p: int) -> PResult<Seq<u8>> {
    then(
        sp_string(d, p),
        |name: Seq<u8>, p1: int|
            then(
                sp_block_ref(d, p1),
                |_e: BlockRef, p2: int| then(sp_block_ref(d, p2), |_c: BlockRef, p3: int| Ok((name, p3))),
            ),
    )
}

/// `NiObjectNET`: name string + extra-data ref + controller ref.
pub fn ni_object_net(r: &mut Reader) -> (res: RResult<L1String>)
    ensures
        steps_view(*old(r), *final(r), res, sp_ni_object_net(old(r).data(), old(r).pos())),
{
    let name = match r.string() {
        Ok(v) => v,
        Err(e) => return Err(e),
    };
    match r.block_ref() {
        Ok(_) => {},
        Err(e) => return Err(e),
    }
    match r.block_ref() {
        Ok(_) => {},
        Err(e) => return Err(e),
    }
    Ok(name)
}

/// The decoded common `NiAVObject` fields: local transform, attached property refs, and
/// the flags word (bit 0 = hidden).
pub struct AvObject {
    pub transform: NifTransform,
    pub properties: Vec<BlockRef>,
    pub flags: u16,
}

/// The contents of an [`AvObject`].
pub struct AvObjectV {
    pub transform: NifTransform,
    pub properties: Seq<BlockRef>,
    pub flags: u16,
}

impl View for AvObject {
    type V = AvObjectV;

    open spec fn view(&self) -> AvObjectV {
        AvObjectV { transform: self.transform, properties: self.properties@, flags: self.flags }
    }
}

/// Skip `n` bytes when `cond` holds, else read nothing.
pub open spec fn sp_skip_if(d: Seq<u8>, p: int, cond: bool, n: int) -> PResult<()> {
    if cond {
        sp_skip(d, p, n)
    } else {
        Ok(((), p))
    }
}

/// `NiAVObject`: `NiObjectNET` + flags + local transform + velocity + property refs +
/// optional bounding box (unknown `u32` + center + 3×3 axes + extents: 64 bytes).
pub open spec fn sp_av_object(d: Seq<u8>, p: int) -> PResult<AvObjectV> {
    then(sp_ni_object_net(d, p), |_n: Seq<u8>, p1: int|
    then(sp_u16(d, p1), |flags: u16, p2: int|
    then(sp_vec3(d, p2), |t: [u32; 3], p3: int|
    then(sp_vec3(d, p3), |r0: [u32; 3], p4: int|
    then(sp_vec3(d, p4), |r1: [u32; 3], p5: int|
    then(sp_vec3(d, p5), |r2: [u32; 3], p6: int|
    then(sp_f32(d, p6), |scale: u32, p7: int|
    then(sp_vec3(d, p7), |_v: [u32; 3], p8: int|
    then(sp_refs(d, p8), |props: Seq<BlockRef>, p9: int|
    then(sp_bool(d, p9), |bbox: bool, p10: int|
    then(sp_skip_if(d, p10, bbox, 64), |_u: (), p11: int|
        Ok((AvObjectV {
            transform: NifTransform { translation: t, rotation: [r0, r1, r2], scale },
            properties: props,
            flags,
        }, p11))
    )))))))))))
}

/// Where an `NiAVObject`'s fields lie: right after its `NiObjectNET` header come the
/// 2-byte flags, the translation (three little-endian words), the rotation rows in order
/// (three words each), the scale, a 12-byte velocity, then the property references.
pub proof fn lemma_av_object_layout(d: Seq<u8>, p: int)
    ensures
        match sp_ni_object_net(d, p) {
            Ok((_, q)) => match sp_av_object(d, p) {
                Ok((a, _)) => {
                    &&& q + 66 <= d.len()
                    &&& a.flags == le16(d, q)
                    &&& a.transform.translation == words3_at(d, q + 2)
                    &&& a.transform.rotation == [
                        words3_at(d, q + 14),
                        words3_at(d, q + 26),
                        words3_at(d, q + 38),
                    ]
                    &&& a.transform.scale == le32(d, q + 50)
                    &&& sp_refs(d, q + 66) matches Ok((props, _)) && a.properties == props
                },
                Err(_) => true,
            },
            Err(_) => sp_av_object(d, p) is Err,
        },
{
}

/// Skip `n` bytes when `cond` holds.
pub fn skip_if(r: &mut Reader, cond: bool, n: u64) -> (res: RResult<()>)
    ensures
        steps(*old(r), *final(r), res, sp_skip_if(old(r).data(), old(r).pos(), cond, n as int)),
{
    if cond {
        r.skip(n)
    } else {
        Ok(())
    }
}

/// `NiAVObject`: `NiObjectNET` + flags + local transform + velocity + property refs +
/// optional bounding box.
pub fn av_object(r: &mut Reader) -> (res: RResult<AvObject>)
    ensures
        steps_view(*old(r), *final(r), res, sp_av_object(old(r).data(), old(r).pos())),
{
    match ni_object_net(r) {
        Ok(_) => {},
        Err(e) => return Err(e),
    }
    let flags = match r.u16() {
        Ok(v) => v,
        Err(e) => return Err(e),
    };
    let translation = match r.vec3() {
        Ok(v) => v,
        Err(e) => return Err(e),
    };
    let r0 = match r.vec3() {
        Ok(v) => v,
        Err(e) => return Err(e),
    };
    let r1 = match r.vec3() {
        Ok(v) => v,
        Err(e) => return Err(e),
    };
    let r2 = match r.vec3() {
        Ok(v) => v,
        Err(e) => return Err(e),
    };
    let scale = match r.float_bits() {
        Ok(v) => v,
        Err(e) => return Err(e),
    };
    match r.vec3() {
        Ok(_) => {},
        Err(e) => return Err(e),
    }
    let properties = match r.refs() {
        Ok(v) => v,
        Err(e) => return Err(e),
    };
    let bbox = match r.boolean() {
        Ok(v) => v,
        Err(e) => return Err(e),
    };
    match skip_if(r, bbox, 64) {
        Ok(_) => {},
        Err(e) => return Err(e),
    }
    Ok(AvObject {
        transform: NifTransform { translation, rotation: [r0, r1, r2], scale },
        properties,
        flags,
    })
}

/// `NiTimeController` (the common controller body): next-controller ref, flags, four
/// timing floats (frequency, phase, start, stop) and the target ref.
pub open spec fn sp_time_controller(d: Seq<u8>, p: int) -> PResult<()> {
    then(sp_block_ref(d, p), |_a: BlockRef, p1: int|
    then(sp_u16(d, p1), |_f: u16, p2: int|
    then(sp_f32(d, p2), |_x: u32, p3: int|
    then(sp_f32(d, p3), |_y: u32, p4: int|
    then(sp_f32(d, p4), |_z: u32, p5: int|
    then(sp_f32(d, p5), |_w: u32, p6: int|
    then(sp_block_ref(d, p6), |_t: BlockRef, p7: int| Ok(((), p7)))))))))
}

/// `NiTimeController` (the common controller body).
pub fn time_controller(r: &mut Reader) -> (res: RResult<()>)
    ensures
        steps(*old(r), *final(r), res, sp_time_controller(old(r).data(), old(r).pos())),
{
    r.block_ref()?;
    r.u16()?;
    r.float_bits()?;
    r.float_bits()?;
    r.float_bits()?;
    r.float_bits()?;
    r.block_ref()?;
    Ok(())
}

/// `NiParticleSystemController` (also `NiBSPArrayController`): emitter parameters plus
/// the saved per-particle state (see [`sp_particle_state`]).
pub open spec fn sp_particle_system_controller(d: Seq<u8>, p: int) -> PResult<()> {
    then(sp_time_controller(d, p), |_a: (), p1: int|
    then(sp_skip(d, p1, 24), |_b: (), p2: int|
    then(sp_skip(d, p2, 32), |_c: (), p3: int|
    then(sp_skip(d, p3, 8), |_e: (), p4: int|
    then(sp_u8(d, p4), |_f: u8, p5: int|
    then(sp_skip(d, p5, 12), |_g: (), p6: int|
    then(sp_u8(d, p6), |_h: u8, p7: int|
    then(sp_u8(d, p7), |_i: u8, p8: int|
    then(sp_skip(d, p8, 12), |_j: (), p9: int|
    then(sp_block_ref(d, p9), |_k: BlockRef, p10: int| sp_particle_state(d, p10)))))))))))
}

/// The tail of a particle-system controller: spawn parameters, the saved per-particle
/// state (40 bytes per particle), the modifier/collider refs and the static-bound flag.
pub open spec fn sp_particle_state(d: Seq<u8>, p: int) -> PResult<()> {
    then(sp_skip(d, p, 16), |_l: (), p11: int|
    then(sp_u16(d, p11), |num: u16, p12: int|
    then(sp_u16(d, p12), |_m: u16, p13: int|
    then(sp_skip(d, p13, num * 40), |_n: (), p14: int|
    then(sp_block_ref(d, p14), |_o: BlockRef, p15: int|
    then(sp_block_ref(d, p15), |_q: BlockRef, p16: int|
    then(sp_block_ref(d, p16), |_r: BlockRef, p17: int|
    then(sp_u8(d, p17), |_s: u8, p18: int| Ok(((), p18))))))))))
}

/// `NiParticleSystemController` (also `NiBSPArrayController`).
pub fn particle_system_controller(r: &mut Reader) -> (res: RResult<()>)
    ensures
        steps(*old(r), *final(r), res, sp_particle_system_controller(old(r).data(), old(r).pos())),
{
    time_controller(r)?;
    r.skip(6 * 4)?; // speed/variation + declination/variation + planar angle/variation
    r.skip(12 + 16 + 4)?; // initial normal + initial color (rgba) + initial size
    r.skip(4 + 4)?; // emit start/stop time
    r.u8()?; // reset particle system
    r.skip(4 + 4 + 4)?; // birth rate + lifetime + lifetime variation
    r.u8()?; // use birth rate
    r.u8()?; // spawn on death
    r.skip(12)?; // emitter dimensions
    r.block_ref()?; // emitter object
    particle_state(r)
}

/// The tail of a particle-system controller.
pub fn particle_state(r: &mut Reader) -> (res: RResult<()>)
    ensures
        steps(*old(r), *final(r), res, sp_particle_state(old(r).data(), old(r).pos())),
{
    r.skip(2 + 4 + 2 + 4 + 4)?; // spawn generations + % spawned + multiplier + speed/dir chaos
    let num_particles = r.u16()? as u64;
    r.u16()?; // num valid
    r.skip(num_particles * 40)?; // saved per-particle state
    r.block_ref()?; // emitter modifier
    r.block_ref()?; // particle modifier chain
    r.block_ref()?; // particle collider
    r.u8()?; // static target bound
    Ok(())
}

/// Bytes per key of a `Key<T>` sequence with `elem`-byte values: a time plus the value,
/// with quadratic keys (type 2) adding forward/backward tangents and TBC keys (type 3)
/// adding tension/bias/continuity.
pub open spec fn key_size(interpolation: u32, elem: int) -> int {
    4 + elem + if interpolation == 2 {
        elem * 2
    } else if interpolation == 3 {
        12
    } else {
        0
    }
}

/// The tail of a `Key<T>` sequence: `count` keys of [`key_size`] bytes.
pub open spec fn sp_keys(d: Seq<u8>, p: int, count: int, interpolation: u32, elem: int) -> PResult<()> {
    sp_skip(d, p, count * key_size(interpolation, elem))
}

/// Whether keys of `elem`-byte values can be sized in 64 bits for any key count a file can
/// state (a `u32`). Every width the format uses — 4, 12 and 16 bytes — is far inside.
pub open spec fn key_width_fits(elem: int) -> bool {
    0 <= elem && 0xffff_ffff * (16 + 3 * elem) <= u64::MAX
}

/// The tail of a `Key<T>` sequence: each key is a time plus an `elem`-byte value.
pub fn keys(r: &mut Reader, count: u64, interpolation: u32, elem: u64) -> (res: RResult<()>)
    requires
        key_size(interpolation, elem as int) <= u64::MAX,
        count * key_size(interpolation, elem as int) <= u64::MAX,
    ensures
        steps(
            *old(r),
            *final(r),
            res,
            sp_keys(old(r).data(), old(r).pos(), count as int, interpolation, elem as int),
        ),
{
    let extra = if interpolation == 2 {
        elem * 2
    } else if interpolation == 3 {
        12
    } else {
        0
    };
    let per_key = 4 + elem + extra;
    r.skip(count * per_key)
}

/// `KeyGroup<T>`: a key count, the interpolation type (only when non-empty), and the
/// keys, with `elem`-byte values.
pub open spec fn sp_key_group(d: Seq<u8>, p: int, elem: int) -> PResult<()> {
    then(
        sp_u32(d, p),
        |n: u32, p1: int|
            if n > 0 {
                then(
                    sp_u32(d, p1),
                    |interpolation: u32, p2: int| sp_keys(d, p2, n as int, interpolation, elem),
                )
            } else {
                Ok(((), p1))
            },
    )
}

/// `KeyGroup<T>`: a key count, the interpolation type (only when non-empty), and the keys.
pub fn key_group(r: &mut Reader, elem: u64) -> (res: RResult<()>)
    requires
        key_width_fits(elem as int),
    ensures
        steps(*old(r), *final(r), res, sp_key_group(old(r).data(), old(r).pos(), elem as int)),
{
    let n = r.u32()?;
    if n > 0 {
        let interpolation = r.u32()?;
        assert(n * key_size(interpolation, elem as int) <= 0xffff_ffff * (16 + 3 * elem))
            by (nonlinear_arith)
            requires
                n <= 0xffff_ffff,
                0 <= key_size(interpolation, elem as int) <= 16 + 3 * elem,
        ;
        keys(r, n as u64, interpolation, elem)?;
    }
    Ok(())
}

/// The element reader for `count` key groups of `elem`-byte values.
pub open spec fn key_group_elem(d: Seq<u8>, elem: int) -> spec_fn(int, int) -> PResult<()> {
    |i: int, p: int| sp_key_group(d, p, elem)
}

/// `count` key groups in a row.
pub fn key_groups(r: &mut Reader, count: u32, elem: u64) -> (res: RResult<()>)
    requires
        key_width_fits(elem as int),
    ensures
        steps(
            *old(r),
            *final(r),
            res,
            sp_times(key_group_elem(old(r).data(), elem as int), 0, count as int, old(r).pos()),
        ),
{
    let ghost d = r.data();
    let ghost whole = sp_times(key_group_elem(d, elem as int), 0, count as int, r.pos());
    let mut i: u32 = 0;
    while i < count
        invariant
            r.data() == d,
            d == old(r).data(),
            key_width_fits(elem as int),
            i <= count,
            whole == sp_times(key_group_elem(d, elem as int), 0, count as int, old(r).pos()),
            whole == sp_times(key_group_elem(d, elem as int), i as int, count as int, r.pos()),
        decreases count - i,
    {
        key_group(r, elem)?;
        i += 1;
    }
    Ok(())
}

/// `NiKeyframeData`: quaternion (or per-axis) rotation keys, then translation and scale
/// key groups.
pub open spec fn sp_keyframe_data(d: Seq<u8>, p: int) -> PResult<()> {
    then(
        sp_u32(d, p),
        |num_rotations: u32, p1: int|
            then(
                if num_rotations > 0 {
                    then(
                        sp_u32(d, p1),
                        |rotation_type: u32, p2: int|
                            if rotation_type == 4 {
                                then(
                                    sp_f32(d, p2),
                                    |_axis: u32, p3: int| sp_times(key_group_elem(d, 4), 0, 3, p3),
                                )
                            } else {
                                sp_skip(
                                    d,
                                    p2,
                                    num_rotations * (20 + if rotation_type == 3 {
                                        12int
                                    } else {
                                        0int
                                    }),
                                )
                            },
                    )
                } else {
                    Ok(((), p1))
                },
                |_u: (), p4: int|
                    then(
                        sp_key_group(d, p4, 12),
                        |_t: (), p5: int| sp_key_group(d, p5, 4),
                    ),
            ),
    )
}

/// `NiKeyframeData`: rotation keys, then translation and scale key groups.
pub fn keyframe_data(r: &mut Reader) -> (res: RResult<()>)
    ensures
        steps(*old(r), *final(r), res, sp_keyframe_data(old(r).data(), old(r).pos())),
{
    let num_rotations = r.u32()?;
    if num_rotations > 0 {
        let rotation_type = r.u32()?;
        if rotation_type == 4 {
            // Euler rotation: an axis-order float then a key group per axis.
            r.float_bits()?;
            key_groups(r, 3, 4)?;
        } else {
            // Quaternion keys never carry tangents; TBC keys (type 3) add the TBC triple.
            let per_key: u64 = if rotation_type == 3 {
                32
            } else {
                20
            };
            r.skip(num_rotations as u64 * per_key)?;
        }
    }
    key_group(r, 12)?; // translations
    key_group(r, 4)?; // scales
    Ok(())
}

/// The `NiTransform` layout used by skinning data: a 3×3 rotation, translation and scale.
pub open spec fn sp_skin_transform(d: Seq<u8>, p: int) -> PResult<()> {
    sp_skip(d, p, 52int)
}

/// `NiParticleModifier` (the common modifier body): next-modifier ref and controller ref.
pub open spec fn sp_particle_modifier(d: Seq<u8>, p: int) -> PResult<()> {
    then(sp_block_ref(d, p), |_a: BlockRef, p1: int| then(sp_block_ref(d, p1), |_b: BlockRef, p2: int| Ok(((), p2))))
}

/// `NiParticleModifier` (the common modifier body).
pub fn particle_modifier(r: &mut Reader) -> (res: RResult<()>)
    ensures
        steps(*old(r), *final(r), res, sp_particle_modifier(old(r).data(), old(r).pos())),
{
    r.block_ref()?; // next modifier
    r.block_ref()?; // parent controller
    Ok(())
}

/// `NiDynamicEffect` (4.0.0.2): the `NiAVObject` body plus the affected-node list, stored
/// at this version as stale pointer hashes rather than block refs.
pub open spec fn sp_dynamic_effect(d: Seq<u8>, p: int) -> PResult<()> {
    then(
        sp_av_object(d, p),
        |_av: AvObjectV, p1: int| then(sp_u32(d, p1), |n: u32, p2: int| sp_skip(d, p2, n * 4)),
    )
}

/// `NiDynamicEffect` (4.0.0.2).
pub fn dynamic_effect(r: &mut Reader) -> (res: RResult<()>)
    ensures
        steps(*old(r), *final(r), res, sp_dynamic_effect(old(r).data(), old(r).pos())),
{
    av_object(r)?;
    let n = r.u32()? as u64;
    r.skip(n * 4)?;
    Ok(())
}

// ---- geometry ---------------------------------------------------------------------------

/// The element reader for a run of `vec3`s.
pub open spec fn vec3_elem(d: Seq<u8>) -> spec_fn(int, int) -> PResult<[u32; 3]> {
    |i: int, p: int| sp_vec3(d, p)
}

/// The element reader for a run of UV pairs.
pub open spec fn uv_elem(d: Seq<u8>) -> spec_fn(int, int) -> PResult<[u32; 2]> {
    |i: int, p: int|
        then(sp_f32(d, p), |u: u32, q: int| then(sp_f32(d, q), |v: u32, q2: int| Ok(([u, v], q2))))
}

/// The element reader for a run of triangles (three `u16` vertex indices each).
pub open spec fn tri_elem(d: Seq<u8>) -> spec_fn(int, int) -> PResult<[u16; 3]> {
    |i: int, p: int|
        then(
            sp_u16(d, p),
            |a: u16, q: int|
                then(sp_u16(d, q), |b: u16, q2: int| then(sp_u16(d, q2), |c: u16, q3: int| Ok(([a, b, c], q3)))),
        )
}

/// The element reader for skipping `n` bytes per element.
pub open spec fn skip_elem(d: Seq<u8>, n: int) -> spec_fn(int, int) -> PResult<()> {
    |i: int, p: int| sp_skip(d, p, n)
}

/// `n` vec3s in a row.
pub fn read_vec3s(r: &mut Reader, n: u64) -> (res: RResult<Vec<[u32; 3]>>)
    ensures
        steps_view(*old(r), *final(r), res, sp_repeat(vec3_elem(old(r).data()), 0, n as int, old(r).pos())),
{
    let ghost d = r.data();
    let ghost whole = sp_repeat(vec3_elem(d), 0, n as int, r.pos());
    let mut out: Vec<[u32; 3]> = Vec::new();
    let mut i: u64 = 0;
    while i < n
        invariant
            r.data() == d,
            d == old(r).data(),
            i <= n,
            whole == sp_repeat(vec3_elem(d), 0, n as int, old(r).pos()),
            whole == prefix_with(out@, sp_repeat(vec3_elem(d), i as int, n as int, r.pos())),
        decreases n - i,
    {
        proof { lemma_repeat_step(vec3_elem(d), i as int, n as int, r.pos(), out@); }
        let v = r.vec3()?;
        out.push(v);
        i += 1;
    }
    proof { lemma_repeat_end(vec3_elem(d), i as int, n as int, r.pos(), out@); }
    Ok(out)
}

/// `n` UV pairs in a row.
pub fn read_uvs(r: &mut Reader, n: u64) -> (res: RResult<Vec<[u32; 2]>>)
    ensures
        steps_view(*old(r), *final(r), res, sp_repeat(uv_elem(old(r).data()), 0, n as int, old(r).pos())),
{
    let ghost d = r.data();
    let ghost whole = sp_repeat(uv_elem(d), 0, n as int, r.pos());
    let mut out: Vec<[u32; 2]> = Vec::new();
    let mut i: u64 = 0;
    while i < n
        invariant
            r.data() == d,
            d == old(r).data(),
            i <= n,
            whole == sp_repeat(uv_elem(d), 0, n as int, old(r).pos()),
            whole == prefix_with(out@, sp_repeat(uv_elem(d), i as int, n as int, r.pos())),
        decreases n - i,
    {
        proof { lemma_repeat_step(uv_elem(d), i as int, n as int, r.pos(), out@); }
        let u = r.float_bits()?;
        let v = r.float_bits()?;
        out.push([u, v]);
        i += 1;
    }
    proof { lemma_repeat_end(uv_elem(d), i as int, n as int, r.pos(), out@); }
    Ok(out)
}

/// `n` triangles in a row.
pub fn read_triangles(r: &mut Reader, n: u64) -> (res: RResult<Vec<[u16; 3]>>)
    ensures
        steps_view(*old(r), *final(r), res, sp_repeat(tri_elem(old(r).data()), 0, n as int, old(r).pos())),
{
    let ghost d = r.data();
    let ghost whole = sp_repeat(tri_elem(d), 0, n as int, r.pos());
    let mut out: Vec<[u16; 3]> = Vec::new();
    let mut i: u64 = 0;
    while i < n
        invariant
            r.data() == d,
            d == old(r).data(),
            i <= n,
            whole == sp_repeat(tri_elem(d), 0, n as int, old(r).pos()),
            whole == prefix_with(out@, sp_repeat(tri_elem(d), i as int, n as int, r.pos())),
        decreases n - i,
    {
        proof { lemma_repeat_step(tri_elem(d), i as int, n as int, r.pos(), out@); }
        let a = r.u16()?;
        let b = r.u16()?;
        let c = r.u16()?;
        out.push([a, b, c]);
        i += 1;
    }
    proof { lemma_repeat_end(tri_elem(d), i as int, n as int, r.pos(), out@); }
    Ok(out)
}

/// Elements `from..n`, each skipping `size` bytes.
pub fn skip_each(r: &mut Reader, from: u64, n: u64, size: u64) -> (res: RResult<()>)
    ensures
        steps(
            *old(r),
            *final(r),
            res,
            sp_times(skip_elem(old(r).data(), size as int), from as int, n as int, old(r).pos()),
        ),
{
    let ghost d = r.data();
    let ghost whole = sp_times(skip_elem(d, size as int), from as int, n as int, r.pos());
    let mut i: u64 = from;
    while i < n
        invariant
            r.data() == d,
            d == old(r).data(),
            from <= n ==> i <= n,
            from > n ==> i == from,
            whole == sp_times(skip_elem(d, size as int), from as int, n as int, old(r).pos()),
            whole == sp_times(skip_elem(d, size as int), i as int, n as int, r.pos()),
        decreases n - i,
    {
        r.skip(size)?;
        i += 1;
    }
    Ok(())
}

/// The common `NiGeometryData` prefix: vertex count, vertices, normals, bounding sphere,
/// vertex colours and UV sets.
pub struct GeometryData {
    /// Vertex count — the length unit for the per-vertex arrays that may follow.
    pub nv: u64,
    pub vertices: Vec<[u32; 3]>,
    pub normals: Vec<[u32; 3]>,
    pub uvs: Vec<[u32; 2]>,
}

/// The contents of a [`GeometryData`].
pub struct GeometryDataV {
    pub nv: u64,
    pub vertices: Seq<[u32; 3]>,
    pub normals: Seq<[u32; 3]>,
    pub uvs: Seq<[u32; 2]>,
}

impl View for GeometryData {
    type V = GeometryDataV;

    open spec fn view(&self) -> GeometryDataV {
        GeometryDataV {
            nv: self.nv,
            vertices: self.vertices@,
            normals: self.normals@,
            uvs: self.uvs@,
        }
    }
}

/// `n` vec3s when `present`, else none.
pub open spec fn sp_vec3s_if(d: Seq<u8>, p: int, present: bool, n: int) -> PResult<Seq<[u32; 3]>> {
    if present {
        sp_repeat(vec3_elem(d), 0, n, p)
    } else {
        Ok((seq![], p))
    }
}

/// The UV sets: the first set's pairs are kept, the others skipped (8 bytes per vertex).
pub open spec fn sp_uv_sets(d: Seq<u8>, p: int, nv: int, sets: int) -> PResult<Seq<[u32; 2]>> {
    if sets > 0 {
        then(
            sp_repeat(uv_elem(d), 0, nv, p),
            |uvs: Seq<[u32; 2]>, q: int|
                then(sp_times(skip_elem(d, nv * 8), 1, sets, q), |_u: (), q2: int| Ok((uvs, q2))),
        )
    } else {
        Ok((seq![], p))
    }
}

/// The common `NiGeometryData` prefix (4.0.0.2 layout, no inherited name field).
pub open spec fn sp_geometry_data(d: Seq<u8>, p: int) -> PResult<GeometryDataV> {
    then(sp_u16(d, p), |nv: u16, p1: int|
    then(sp_bool(d, p1), |has_v: bool, p2: int|
    then(sp_vec3s_if(d, p2, has_v, nv as int), |verts: Seq<[u32; 3]>, p3: int|
    then(sp_bool(d, p3), |has_n: bool, p4: int|
    then(sp_vec3s_if(d, p4, has_n, nv as int), |norms: Seq<[u32; 3]>, p5: int|
    then(sp_vec3(d, p5), |_c: [u32; 3], p6: int|
    then(sp_f32(d, p6), |_r: u32, p7: int|
    then(sp_bool(d, p7), |has_c: bool, p8: int|
    then(sp_skip_if(d, p8, has_c, nv * 16), |_u: (), p9: int|
    then(sp_u16(d, p9), |sets: u16, p10: int|
    then(sp_bool(d, p10), |has_uv: bool, p11: int|
    then(if has_uv { sp_uv_sets(d, p11, nv as int, sets as int) } else { Ok((seq![], p11)) },
        |uvs: Seq<[u32; 2]>, p12: int|
        Ok((GeometryDataV { nv: nv as u64, vertices: verts, normals: norms, uvs }, p12))
    ))))))))))))
}

/// `n` vec3s when `present`, else none.
pub fn vec3s_if(r: &mut Reader, present: bool, n: u64) -> (res: RResult<Vec<[u32; 3]>>)
    ensures
        steps_view(*old(r), *final(r), res, sp_vec3s_if(old(r).data(), old(r).pos(), present, n as int)),
{
    if present {
        read_vec3s(r, n)
    } else {
        Ok(Vec::new())
    }
}

/// The UV sets: the first set's pairs are kept, the others skipped.
pub fn uv_sets(r: &mut Reader, nv: u64, sets: u64) -> (res: RResult<Vec<[u32; 2]>>)
    requires
        nv <= u16::MAX,
    ensures
        steps_view(*old(r), *final(r), res, sp_uv_sets(old(r).data(), old(r).pos(), nv as int, sets as int)),
{
    if sets > 0 {
        let uvs = read_uvs(r, nv)?;
        skip_each(r, 1, sets, nv * 8)?;
        Ok(uvs)
    } else {
        Ok(Vec::new())
    }
}

/// The common `NiGeometryData` prefix.
pub fn geometry_data(r: &mut Reader) -> (res: RResult<GeometryData>)
    ensures
        steps_view(*old(r), *final(r), res, sp_geometry_data(old(r).data(), old(r).pos())),
{
    let nv = r.u16()? as u64;
    let has_vertices = r.boolean()?;
    let vertices = vec3s_if(r, has_vertices, nv)?;
    let has_normals = r.boolean()?;
    let normals = vec3s_if(r, has_normals, nv)?;
    r.vec3()?; // bounding sphere center
    r.float_bits()?; // bounding sphere radius
    let has_colors = r.boolean()?;
    skip_if(r, has_colors, nv * 16)?; // vertex colors: rgba per vertex
    let num_uv_sets = r.u16()? as u64;
    let has_uv = r.boolean()?;
    let uvs = if has_uv {
        uv_sets(r, nv, num_uv_sets)?
    } else {
        Vec::new()
    };
    Ok(GeometryData { nv, vertices, normals, uvs })
}

/// The element reader for `NiTriShapeData` match groups: a count, then that many `u16`s.
pub open spec fn match_group_elem(d: Seq<u8>) -> spec_fn(int, int) -> PResult<()> {
    |i: int, p: int| then(sp_u16(d, p), |count: u16, q: int| sp_skip(d, q, count * 2))
}

/// `NiTriShapeData`: the geometry-data prefix plus triangles and match groups.
pub open spec fn sp_tri_shape_data(d: Seq<u8>, p: int) -> PResult<TriMeshV> {
    then(sp_geometry_data(d, p), |g: GeometryDataV, p1: int|
    then(sp_u16(d, p1), |ntri: u16, p2: int|
    then(sp_u32(d, p2), |_points: u32, p3: int|
    then(sp_repeat(tri_elem(d), 0, ntri as int, p3), |tris: Seq<[u16; 3]>, p4: int|
    then(sp_u16(d, p4), |groups: u16, p5: int|
    then(sp_times(match_group_elem(d), 0, groups as int, p5), |_u: (), p6: int|
        Ok((TriMeshV { vertices: g.vertices, normals: g.normals, uvs: g.uvs, triangles: tris }, p6))
    ))))))
}

/// `NiTriShapeData` match groups.
pub fn match_groups(r: &mut Reader, n: u64) -> (res: RResult<()>)
    ensures
        steps(*old(r), *final(r), res, sp_times(match_group_elem(old(r).data()), 0, n as int, old(r).pos())),
{
    let ghost d = r.data();
    let ghost whole = sp_times(match_group_elem(d), 0, n as int, r.pos());
    let mut i: u64 = 0;
    while i < n
        invariant
            r.data() == d,
            d == old(r).data(),
            i <= n,
            whole == sp_times(match_group_elem(d), 0, n as int, old(r).pos()),
            whole == sp_times(match_group_elem(d), i as int, n as int, r.pos()),
        decreases n - i,
    {
        let count = r.u16()? as u64;
        r.skip(count * 2)?;
        i += 1;
    }
    Ok(())
}

/// `NiTriShapeData`: the geometry-data prefix plus triangles and match groups.
pub fn tri_shape_data(r: &mut Reader) -> (res: RResult<TriMesh>)
    ensures
        steps_view(*old(r), *final(r), res, sp_tri_shape_data(old(r).data(), old(r).pos())),
{
    let g = geometry_data(r)?;
    let num_triangles = r.u16()? as u64;
    r.u32()?; // num triangle points (== 3 * num_triangles)
    let triangles = read_triangles(r, num_triangles)?;
    let num_match_groups = r.u16()? as u64;
    match_groups(r, num_match_groups)?;
    Ok(TriMesh { vertices: g.vertices, normals: g.normals, uvs: g.uvs, triangles })
}

/// `NiParticlesData` (also its auto-normal alias): the geometry-data prefix plus particle
/// radius/activity and optional per-particle sizes; yields the vertex (particle) count.
pub open spec fn sp_particles_data(d: Seq<u8>, p: int) -> PResult<u64> {
    then(sp_geometry_data(d, p), |g: GeometryDataV, p1: int|
    then(sp_u16(d, p1), |_n: u16, p2: int|
    then(sp_f32(d, p2), |_r: u32, p3: int|
    then(sp_u16(d, p3), |_a: u16, p4: int|
    then(sp_bool(d, p4), |sizes: bool, p5: int|
    then(sp_skip_if(d, p5, sizes, g.nv * 4), |_u: (), p6: int| Ok((g.nv, p6))))))))
}

/// `NiParticlesData`: returns the vertex (particle) count for tails that need it.
pub fn particles_data(r: &mut Reader) -> (res: RResult<u64>)
    ensures
        steps(*old(r), *final(r), res, sp_particles_data(old(r).data(), old(r).pos())),
        res matches Ok(nv) ==> nv <= u16::MAX,
{
    let g = geometry_data(r)?;
    r.u16()?; // num particles
    r.float_bits()?; // particle radius
    r.u16()?; // num active
    let has_sizes = r.boolean()?;
    skip_if(r, has_sizes, g.nv * 4)?; // per-particle sizes
    Ok(g.nv)
}

// ---- properties ------------------------------------------------------------------------

/// `NiMaterialProperty`: `NiObjectNET` + flags, then the four colours, glossiness and
/// alpha.
pub open spec fn sp_material_property(d: Seq<u8>, p: int) -> PResult<Material> {
    then(sp_ni_object_net(d, p), |_n: Seq<u8>, p1: int|
    then(sp_u16(d, p1), |_f: u16, p2: int|
    then(sp_vec3(d, p2), |ambient: [u32; 3], p3: int|
    then(sp_vec3(d, p3), |diffuse: [u32; 3], p4: int|
    then(sp_vec3(d, p4), |specular: [u32; 3], p5: int|
    then(sp_vec3(d, p5), |emissive: [u32; 3], p6: int|
    then(sp_f32(d, p6), |glossiness: u32, p7: int|
    then(sp_f32(d, p7), |alpha: u32, p8: int|
        Ok((Material { ambient, diffuse, specular, emissive, glossiness, alpha }, p8))
    ))))))))
}

/// Three little-endian words at `c`, as a colour (float bit patterns).
pub open spec fn words3_at(d: Seq<u8>, c: int) -> [u32; 3] {
    [le32(d, c) as u32, le32(d, c + 4) as u32, le32(d, c + 8) as u32]
}

/// Where a material property's colours lie: right after its `NiObjectNET` header and the
/// 2-byte flags word come ambient, diffuse, specular and emissive — three little-endian
/// words each, in that file order — then glossiness and alpha, 56 bytes in all. The parse
/// succeeds exactly when the header parses and those 58 bytes are there.
pub proof fn lemma_material_layout(d: Seq<u8>, p: int)
    ensures
        match sp_ni_object_net(d, p) {
            Ok((_, q)) => {
                let c = q + 2;
                match sp_material_property(d, p) {
                    Ok((m, end)) => {
                        &&& c + 56 <= d.len()
                        &&& end == c + 56
                        &&& m.ambient == words3_at(d, c)
                        &&& m.diffuse == words3_at(d, c + 12)
                        &&& m.specular == words3_at(d, c + 24)
                        &&& m.emissive == words3_at(d, c + 36)
                        &&& m.glossiness == le32(d, c + 48)
                        &&& m.alpha == le32(d, c + 52)
                    },
                    Err(_) => c + 56 > d.len(),
                }
            },
            Err(_) => sp_material_property(d, p) is Err,
        },
{
}

/// `NiMaterialProperty`.
pub fn material_property(r: &mut Reader) -> (res: RResult<Material>)
    ensures
        steps(*old(r), *final(r), res, sp_material_property(old(r).data(), old(r).pos())),
{
    ni_object_net(r)?;
    r.u16()?; // flags
    let ambient = r.vec3()?;
    let diffuse = r.vec3()?;
    let specular = r.vec3()?;
    let emissive = r.vec3()?;
    let glossiness = r.float_bits()?;
    let alpha = r.float_bits()?;
    Ok(Material { ambient, diffuse, specular, emissive, glossiness, alpha })
}

/// The element reader for a texturing property's slots: a presence flag, then for a
/// present slot its `TexDesc` — source ref, clamp, filter, UV set, PS2 L/K and an
/// unknown short (18 bytes after the ref), plus 24 more bytes of bump-map scale/offset
/// and matrix in slot 5. Yields the source ref of present slots.
pub open spec fn tex_slot_elem(d: Seq<u8>) -> spec_fn(int, int) -> PResult<Option<BlockRef>> {
    |slot: int, p: int|
        then(
            sp_bool(d, p),
            |has: bool, q: int|
                if has {
                    then(sp_block_ref(d, q), |source: BlockRef, q2: int|
                    then(sp_skip(d, q2, 18), |_a: (), q3: int|
                    then(sp_skip_if(d, q3, slot == 5, 24), |_b: (), q4: int| Ok((Some(source), q4)))))
                } else {
                    Ok((None, q))
                },
        )
}

/// The source ref of slot `k`, or "none" when that slot is absent or unused.
pub open spec fn slot_ref(slots: Seq<Option<BlockRef>>, k: int) -> BlockRef {
    if 0 <= k < slots.len() && slots[k] is Some {
        slots[k]->0
    } else {
        BlockRef::spec_none()
    }
}

/// `NiTexturingProperty`: flags, apply mode and the texture descriptors, keeping the
/// source references of the base (slot 0) and glow (slot 4) textures.
pub open spec fn sp_texturing_property(d: Seq<u8>, p: int) -> PResult<TexturingProperty> {
    then(sp_ni_object_net(d, p), |_n: Seq<u8>, p1: int|
    then(sp_u16(d, p1), |_f: u16, p2: int|
    then(sp_u32(d, p2), |_mode: u32, p3: int|
    then(sp_u32(d, p3), |count: u32, p4: int|
    then(sp_repeat(tex_slot_elem(d), 0, count as int, p4), |slots: Seq<Option<BlockRef>>, p5: int|
        Ok((TexturingProperty { base_texture: slot_ref(slots, 0), glow_texture: slot_ref(slots, 4) }, p5))
    )))))
}

/// Where a texturing property's base texture comes from: after its `NiObjectNET` header,
/// the 2-byte flags and the 4-byte apply mode come the slot count and the slots, base
/// first. The base reference is the one right after the first slot's presence flag when
/// there is a slot and that flag is set, and none otherwise.
pub proof fn lemma_texturing_base_slot(d: Seq<u8>, p: int)
    ensures
        sp_ni_object_net(d, p) matches Ok((_, q)) ==> match sp_texturing_property(d, p) {
            Ok((t, _)) => if le32(d, q + 6) > 0 && le32(d, q + 10) != 0 {
                sp_block_ref(d, q + 14) matches Ok((b, _)) && t.base_texture == b
            } else {
                t.base_texture == BlockRef::spec_none()
            },
            Err(_) => true,
        },
{
}

/// Where a source texture's filename comes from: right after its `NiObjectNET` header a
/// byte says whether the texture is external; if so the filename is the length-prefixed
/// string that follows it, and otherwise (pixel data embedded) the name is empty.
pub proof fn lemma_source_texture_name(d: Seq<u8>, p: int)
    ensures
        sp_ni_object_net(d, p) matches Ok((_, q)) ==> match sp_source_texture(d, p) {
            Ok((name, _)) => if d[q] != 0 {
                sp_string(d, q + 1) matches Ok((s, _)) && name == s
            } else {
                name.len() == 0
            },
            Err(_) => true,
        },
{
}

/// `NiTexturingProperty`: walk past flags, apply mode and the texture descriptors, keeping
/// the `NiSourceTexture` references of the base (slot 0) and glow (slot 4) slots. Unused
/// slots stay "none".
pub fn texturing_property(r: &mut Reader) -> (res: RResult<TexturingProperty>)
    ensures
        steps(*old(r), *final(r), res, sp_texturing_property(old(r).data(), old(r).pos())),
{
    ni_object_net(r)?;
    r.u16()?; // flags
    r.u32()?; // apply mode
    let texture_count = r.u32()?;
    let ghost d = r.data();
    let ghost start = r.pos();
    let ghost whole = sp_repeat(tex_slot_elem(d), 0, texture_count as int, start);
    let ghost mut slots: Seq<Option<BlockRef>> = seq![];
    let mut prop = TexturingProperty::default();
    let mut slot: u32 = 0;
    while slot < texture_count
        invariant
            r.data() == d,
            d == old(r).data(),
            slot <= texture_count,
            slots.len() == slot,
            sp_texturing_property(d, old(r).pos()) == then(
                whole,
                |s: Seq<Option<BlockRef>>, q: int|
                    Ok::<(TexturingProperty, int), ReadError>(
                        (TexturingProperty { base_texture: slot_ref(s, 0), glow_texture: slot_ref(s, 4) }, q),
                    ),
            ),
            whole == prefix_with(slots, sp_repeat(tex_slot_elem(d), slot as int, texture_count as int, r.pos())),
            prop.base_texture == slot_ref(slots, 0),
            prop.glow_texture == slot_ref(slots, 4),
        decreases texture_count - slot,
    {
        proof { lemma_repeat_step(tex_slot_elem(d), slot as int, texture_count as int, r.pos(), slots); }
        let has = r.boolean()?;
        if has {
            let source = r.block_ref()?;
            if slot == 0 {
                prop.base_texture = source;
            } else if slot == 4 {
                prop.glow_texture = source;
            }
            r.skip(4 + 4 + 4 + 2 + 2 + 2)?; // clamp + filter + uv set + ps2 l/k + unknown1
            // The bump-map slot (index 5) carries an extra scale/offset and 2x2 matrix.
            skip_if(r, slot == 5, 4 * 6)?;
            proof { slots = slots.push(Some(source)); }
        } else {
            proof { slots = slots.push(None); }
        }
        slot += 1;
    }
    proof { lemma_repeat_end(tex_slot_elem(d), slot as int, texture_count as int, r.pos(), slots); }
    Ok(prop)
}

/// `NiSourceTexture`: the external filename (or, for internal pixel data, an unknown
/// byte and the pixel-data ref) plus pixel layout, mipmap format, alpha format and the
/// is-static byte; yields the filename, empty for embedded textures.
pub open spec fn sp_source_texture(d: Seq<u8>, p: int) -> PResult<Seq<u8>> {
    then(sp_ni_object_net(d, p), |_n: Seq<u8>, p1: int|
    then(sp_u8(d, p1), |external: u8, p2: int|
    then(
        if external != 0 {
            sp_string(d, p2)
        } else {
            then(sp_u8(d, p2), |_b: u8, q: int| then(sp_block_ref(d, q), |_r: BlockRef, q2: int| Ok((seq![], q2))))
        },
        |name: Seq<u8>, p3: int| then(sp_skip(d, p3, 13), |_u: (), p4: int| Ok((name, p4))),
    )))
}

/// `NiSourceTexture`: read the external filename (or walk past internal pixel data) plus
/// the format flags, returning the filename — empty when the texture is embedded.
pub fn source_texture(r: &mut Reader) -> (res: RResult<L1String>)
    ensures
        steps_view(*old(r), *final(r), res, sp_source_texture(old(r).data(), old(r).pos())),
{
    ni_object_net(r)?;
    let use_external = r.u8()?;
    let file_name = if use_external != 0 {
        r.string()?
    } else {
        r.u8()?; // unknown byte
        r.block_ref()?; // pixel data
        L1String::default()
    };
    r.skip(4 + 4 + 4 + 1)?; // pixel layout + mipmap format + alpha format + is static
    Ok(file_name)
}

// ---- block dispatch --------------------------------------------------------------------

/// Whether the block type name `ty` is `name` (compared byte for byte).
pub open spec fn is_type(ty: Seq<u8>, name: &str) -> bool {
    ty == name.spec_bytes()
}

/// Whether two byte strings are equal.
pub fn bytes_equal(a: &[u8], b: &[u8]) -> (r: bool)
    ensures
        r == (a@ == b@),
{
    if a.len() != b.len() {
        return false;
    }
    let mut i: usize = 0;
    while i < a.len()
        invariant
            a@.len() == b@.len(),
            i <= a@.len(),
            forall|j: int| 0 <= j < i ==> a@[j] == b@[j],
        decreases a@.len() - i,
    {
        if a[i] != b[i] {
            return false;
        }
        i += 1;
    }
    assert(a@ =~= b@);
    true
}

/// Whether the block type name `ty` is `name`.
pub fn type_is(ty: &[u8], name: &str) -> (r: bool)
    ensures
        r == is_type(ty@, name),
{
    bytes_equal(ty, name.as_bytes())
}

/// Node-like block types: they all share the `NiNode` body in 4.0.0.2 (a billboard node's
/// mode lives in its flags at this version).
pub open spec fn is_node_type(ty: Seq<u8>) -> bool {
    is_type(ty, "NiNode") || is_type(ty, "RootCollisionNode") || is_type(ty, "AvoidNode")
        || is_type(ty, "NiBSAnimationNode") || is_type(ty, "NiBSParticleNode") || is_type(
        ty,
        "NiBillboardNode",
    )
}

/// A node block: the `NiAVObject` body, child refs and (unused) effect refs.
pub open spec fn sp_node(d: Seq<u8>, p: int, collision: bool) -> PResult<BlockV> {
    then(sp_av_object(d, p), |av: AvObjectV, p1: int|
    then(sp_refs(d, p1), |children: Seq<BlockRef>, p2: int|
    then(sp_refs(d, p2), |_effects: Seq<BlockRef>, p3: int|
        Ok((BlockV::Node(NodeV {
            transform: av.transform,
            children,
            properties: av.properties,
            hidden: av.flags & 1 != 0,
            collision,
        }), p3))
    )))
}

/// An `NiTriShape`: the `NiAVObject` body, the data ref and the (unused) skin ref.
pub open spec fn sp_tri_shape(d: Seq<u8>, p: int) -> PResult<BlockV> {
    then(sp_av_object(d, p), |av: AvObjectV, p1: int|
    then(sp_block_ref(d, p1), |data: BlockRef, p2: int|
    then(sp_block_ref(d, p2), |_skin: BlockRef, p3: int|
        Ok((BlockV::TriShape(TriShapeV {
            transform: av.transform,
            data,
            properties: av.properties,
            hidden: av.flags & 1 != 0,
        }), p3))
    )))
}

/// Map a successful read to [`Block::Other`].
pub open spec fn other<T>(r: PResult<T>) -> PResult<BlockV> {
    then(r, |_v: T, q: int| Ok((BlockV::Other, q)))
}

/// The scene-graph and geometry blocks.
pub open spec fn sp_scene_block(ty: Seq<u8>, d: Seq<u8>, p: int) -> Option<PResult<BlockV>> {
    if is_node_type(ty) {
        Some(sp_node(d, p, is_type(ty, "RootCollisionNode")))
    } else if is_type(ty, "NiTriShape") {
        Some(sp_tri_shape(d, p))
    } else if is_type(ty, "NiTriShapeData") {
        Some(then(sp_tri_shape_data(d, p), |m: TriMeshV, q: int| Ok((BlockV::TriShapeData(m), q))))
    } else if is_type(ty, "NiParticles") || is_type(ty, "NiRotatingParticles") || is_type(
        ty,
        "NiAutoNormalParticles",
    ) {
        Some(
            other(
                then(
                    sp_av_object(d, p),
                    |_av: AvObjectV, p1: int|
                        then(sp_block_ref(d, p1), |_a: BlockRef, p2: int| sp_block_ref(d, p2)),
                ),
            ),
        )
    } else if is_type(ty, "NiParticlesData") || is_type(ty, "NiAutoNormalParticlesData") {
        Some(other(sp_particles_data(d, p)))
    } else if is_type(ty, "NiRotatingParticlesData") {
        Some(
            other(
                then(
                    sp_particles_data(d, p),
                    |nv: u64, p1: int|
                        then(sp_bool(d, p1), |rot: bool, p2: int| sp_skip_if(d, p2, rot, nv * 16)),
                ),
            ),
        )
    } else {
        None
    }
}

/// The NIF `hidden` flag: bit 0 of the `NiAVObject` flags.
fn hidden(flags: u16) -> (b: bool)
    ensures
        b == (flags & 1 != 0),
{
    flags & 1 != 0
}

/// The scene-graph and geometry blocks; `None` (reader untouched) for other types.
pub fn scene_block(r: &mut Reader, ty: &[u8]) -> (res: Option<RResult<Block>>)
    ensures
        match sp_scene_block(ty@, old(r).data(), old(r).pos()) {
            None => res is None && *final(r) == *old(r),
            Some(s) => res matches Some(x) && steps_view(*old(r), *final(r), x, s),
        },
{
    if type_is(ty, "NiNode") || type_is(ty, "RootCollisionNode") || type_is(ty, "AvoidNode")
        || type_is(ty, "NiBSAnimationNode") || type_is(ty, "NiBSParticleNode") || type_is(
        ty,
        "NiBillboardNode",
    ) {
        let collision = type_is(ty, "RootCollisionNode");
        Some(node_block(r, collision))
    } else if type_is(ty, "NiTriShape") {
        Some(tri_shape_block(r))
    } else if type_is(ty, "NiTriShapeData") {
        Some(
            match tri_shape_data(r) {
                Ok(m) => Ok(Block::TriShapeData(m)),
                Err(e) => Err(e),
            },
        )
    } else if type_is(ty, "NiParticles") || type_is(ty, "NiRotatingParticles") || type_is(
        ty,
        "NiAutoNormalParticles",
    ) {
        // Particle-system leaves share the NiGeometry body; walked past.
        Some(particles_block(r))
    } else if type_is(ty, "NiParticlesData") || type_is(ty, "NiAutoNormalParticlesData") {
        Some(
            match particles_data(r) {
                Ok(_) => Ok(Block::Other),
                Err(e) => Err(e),
            },
        )
    } else if type_is(ty, "NiRotatingParticlesData") {
        Some(rotating_particles_data_block(r))
    } else {
        None
    }
}

fn node_block(r: &mut Reader, collision: bool) -> (res: RResult<Block>)
    ensures
        steps_view(*old(r), *final(r), res, sp_node(old(r).data(), old(r).pos(), collision)),
{
    let av = av_object(r)?;
    let hidden = hidden(av.flags);
    let children = r.refs()?;
    let _effects = r.refs()?;
    Ok(Block::Node(Node {
        transform: av.transform,
        children,
        properties: av.properties,
        hidden,
        collision,
    }))
}

fn tri_shape_block(r: &mut Reader) -> (res: RResult<Block>)
    ensures
        steps_view(*old(r), *final(r), res, sp_tri_shape(old(r).data(), old(r).pos())),
{
    let av = av_object(r)?;
    let hidden = hidden(av.flags);
    let data = r.block_ref()?;
    r.block_ref()?; // skin instance ref
    Ok(Block::TriShape(TriShape { transform: av.transform, data, properties: av.properties, hidden }))
}

fn particles_block(r: &mut Reader) -> (res: RResult<Block>)
    ensures
        steps_view(
            *old(r),
            *final(r),
            res,
            other(
                then(
                    sp_av_object(old(r).data(), old(r).pos()),
                    |_av: AvObjectV, p1: int|
                        then(
                            sp_block_ref(old(r).data(), p1),
                            |_a: BlockRef, p2: int| sp_block_ref(old(r).data(), p2),
                        ),
                ),
            ),
        ),
{
    av_object(r)?;
    r.block_ref()?; // data
    r.block_ref()?; // skin instance
    Ok(Block::Other)
}

fn rotating_particles_data_block(r: &mut Reader) -> (res: RResult<Block>)
    ensures
        steps_view(
            *old(r),
            *final(r),
            res,
            other(
                then(
                    sp_particles_data(old(r).data(), old(r).pos()),
                    |nv: u64, p1: int|
                        then(
                            sp_bool(old(r).data(), p1),
                            |rot: bool, p2: int| sp_skip_if(old(r).data(), p2, rot, nv * 16),
                        ),
                ),
            ),
        ),
{
    let nv = particles_data(r)?;
    let has_rotations = r.boolean()?;
    skip_if(r, has_rotations, nv * 16)?; // per-particle rotation quaternions
    Ok(Block::Other)
}

/// The element reader for `NiTextKeyExtraData` keys: a time and a string value.
pub open spec fn text_key_elem(d: Seq<u8>) -> spec_fn(int, int) -> PResult<()> {
    |i: int, p: int| then(sp_f32(d, p), |_t: u32, q: int| other_unit(sp_string(d, q)))
}

/// Discard a successful read's value.
pub open spec fn other_unit<T>(r: PResult<T>) -> PResult<()> {
    then(r, |_v: T, q: int| Ok(((), q)))
}

/// The "simple" property types: `NiObjectNET` plus a flags word.
pub open spec fn is_flag_property_type(ty: Seq<u8>) -> bool {
    is_type(ty, "NiZBufferProperty") || is_type(ty, "NiSpecularProperty") || is_type(
        ty,
        "NiWireframeProperty",
    ) || is_type(ty, "NiShadeProperty") || is_type(ty, "NiDitherProperty") || is_type(
        ty,
        "NiFogProperty",
    )
}

/// The property, texture and extra-data blocks.
pub open spec fn sp_property_block(ty: Seq<u8>, d: Seq<u8>, p: int) -> Option<PResult<BlockV>> {
    if is_type(ty, "NiTexturingProperty") {
        Some(then(sp_texturing_property(d, p), |t: TexturingProperty, q: int| Ok((BlockV::TexturingProperty(t), q))))
    } else if is_type(ty, "NiMaterialProperty") {
        Some(then(sp_material_property(d, p), |m: Material, q: int| Ok((BlockV::MaterialProperty(m), q))))
    } else if is_type(ty, "NiAlphaProperty") {
        Some(
            then(sp_ni_object_net(d, p), |_n: Seq<u8>, p1: int|
            then(sp_u16(d, p1), |flags: u16, p2: int|
            then(sp_u8(d, p2), |threshold: u8, p3: int|
                Ok((BlockV::AlphaProperty(AlphaProperty { flags, threshold }), p3))))),
        )
    } else if is_type(ty, "NiVertexColorProperty") {
        Some(other(then(sp_ni_object_net(d, p), |_n: Seq<u8>, p1: int| sp_skip(d, p1, 10))))
    } else if is_flag_property_type(ty) {
        Some(other(then(sp_ni_object_net(d, p), |_n: Seq<u8>, p1: int| sp_skip(d, p1, 2))))
    } else if is_type(ty, "NiSourceTexture") {
        Some(then(sp_source_texture(d, p), |name: Seq<u8>, q: int| Ok((BlockV::SourceTexture(name), q))))
    } else if is_type(ty, "NiStringExtraData") {
        Some(
            other(
                then(sp_block_ref(d, p), |_a: BlockRef, p1: int|
                then(sp_u32(d, p1), |_b: u32, p2: int| sp_string(d, p2))),
            ),
        )
    } else if is_type(ty, "NiTextKeyExtraData") {
        Some(
            other(
                then(sp_block_ref(d, p), |_a: BlockRef, p1: int|
                then(sp_u32(d, p1), |_b: u32, p2: int|
                then(sp_u32(d, p2), |n: u32, p3: int| sp_times(text_key_elem(d), 0, n as int, p3)))),
            ),
        )
    } else if is_type(ty, "NiVertWeightsExtraData") {
        Some(
            other(
                then(sp_block_ref(d, p), |_a: BlockRef, p1: int|
                then(sp_u32(d, p1), |_b: u32, p2: int|
                then(sp_u16(d, p2), |n: u16, p3: int| sp_skip(d, p3, n * 4)))),
            ),
        )
    } else {
        None
    }
}

fn alpha_property_block(r: &mut Reader) -> (res: RResult<AlphaProperty>)
    ensures
        steps(
            *old(r),
            *final(r),
            res,
            then(sp_ni_object_net(old(r).data(), old(r).pos()), |_n: Seq<u8>, p1: int|
            then(sp_u16(old(r).data(), p1), |flags: u16, p2: int|
            then(sp_u8(old(r).data(), p2), |threshold: u8, p3: int|
                Ok((AlphaProperty { flags, threshold }, p3))))),
        ),
{
    ni_object_net(r)?;
    let flags = r.u16()?;
    let threshold = r.u8()?;
    Ok(AlphaProperty { flags, threshold })
}

/// `NiTextKeyExtraData` keys.
fn text_keys(r: &mut Reader, n: u32) -> (res: RResult<()>)
    ensures
        steps(*old(r), *final(r), res, sp_times(text_key_elem(old(r).data()), 0, n as int, old(r).pos())),
{
    let ghost d = r.data();
    let ghost whole = sp_times(text_key_elem(d), 0, n as int, r.pos());
    let mut i: u32 = 0;
    while i < n
        invariant
            r.data() == d,
            d == old(r).data(),
            i <= n,
            whole == sp_times(text_key_elem(d), 0, n as int, old(r).pos()),
            whole == sp_times(text_key_elem(d), i as int, n as int, r.pos()),
        decreases n - i,
    {
        r.float_bits()?; // time
        r.string()?; // value
        i += 1;
    }
    Ok(())
}

/// The property, texture and extra-data blocks; `None` (reader untouched) for other types.
pub fn property_block(r: &mut Reader, ty: &[u8]) -> (res: Option<RResult<Block>>)
    ensures
        match sp_property_block(ty@, old(r).data(), old(r).pos()) {
            None => res is None && *final(r) == *old(r),
            Some(s) => res matches Some(x) && steps_view(*old(r), *final(r), x, s),
        },
{
    if type_is(ty, "NiTexturingProperty") {
        Some(
            match texturing_property(r) {
                Ok(t) => Ok(Block::TexturingProperty(t)),
                Err(e) => Err(e),
            },
        )
    } else if type_is(ty, "NiMaterialProperty") {
        Some(
            match material_property(r) {
                Ok(m) => Ok(Block::MaterialProperty(m)),
                Err(e) => Err(e),
            },
        )
    } else if type_is(ty, "NiAlphaProperty") {
        Some(
            match alpha_property_block(r) {
                Ok(a) => Ok(Block::AlphaProperty(a)),
                Err(e) => Err(e),
            },
        )
    } else if type_is(ty, "NiVertexColorProperty") {
        Some(walk_object_net_then(r, 2 + 4 + 4)) // flags + vertex mode + lighting mode
    } else if type_is(ty, "NiZBufferProperty") || type_is(ty, "NiSpecularProperty") || type_is(
        ty,
        "NiWireframeProperty",
    ) || type_is(ty, "NiShadeProperty") || type_is(ty, "NiDitherProperty") || type_is(
        ty,
        "NiFogProperty",
    ) {
        Some(walk_object_net_then(r, 2)) // flags
    } else if type_is(ty, "NiSourceTexture") {
        Some(
            match source_texture(r) {
                Ok(file_name) => Ok(Block::SourceTexture(SourceTexture { file_name })),
                Err(e) => Err(e),
            },
        )
    } else if type_is(ty, "NiStringExtraData") {
        Some(string_extra_data(r))
    } else if type_is(ty, "NiTextKeyExtraData") {
        Some(text_key_extra_data(r))
    } else if type_is(ty, "NiVertWeightsExtraData") {
        Some(vert_weights_extra_data(r))
    } else {
        None
    }
}

/// `NiObjectNET` followed by `n` bytes walked past.
fn walk_object_net_then(r: &mut Reader, n: u64) -> (res: RResult<Block>)
    ensures
        steps_view(
            *old(r),
            *final(r),
            res,
            other(then(sp_ni_object_net(old(r).data(), old(r).pos()), |_n: Seq<u8>, p1: int| sp_skip(old(r).data(), p1, n as int))),
        ),
{
    ni_object_net(r)?;
    r.skip(n)?;
    Ok(Block::Other)
}

fn string_extra_data(r: &mut Reader) -> (res: RResult<Block>)
    ensures
        steps_view(
            *old(r),
            *final(r),
            res,
            other(
                then(sp_block_ref(old(r).data(), old(r).pos()), |_a: BlockRef, p1: int|
                then(sp_u32(old(r).data(), p1), |_b: u32, p2: int| sp_string(old(r).data(), p2))),
            ),
        ),
{
    r.block_ref()?; // next extra data
    r.u32()?; // bytes remaining
    r.string()?;
    Ok(Block::Other)
}

fn text_key_extra_data(r: &mut Reader) -> (res: RResult<Block>)
    ensures
        steps_view(
            *old(r),
            *final(r),
            res,
            other(
                then(sp_block_ref(old(r).data(), old(r).pos()), |_a: BlockRef, p1: int|
                then(sp_u32(old(r).data(), p1), |_b: u32, p2: int|
                then(sp_u32(old(r).data(), p2), |n: u32, p3: int| sp_times(text_key_elem(old(r).data()), 0, n as int, p3)))),
            ),
        ),
{
    r.block_ref()?; // next extra data
    r.u32()?; // bytes remaining
    let n = r.u32()?;
    text_keys(r, n)?;
    Ok(Block::Other)
}

fn vert_weights_extra_data(r: &mut Reader) -> (res: RResult<Block>)
    ensures
        steps_view(
            *old(r),
            *final(r),
            res,
            other(
                then(sp_block_ref(old(r).data(), old(r).pos()), |_a: BlockRef, p1: int|
                then(sp_u32(old(r).data(), p1), |_b: u32, p2: int|
                then(sp_u16(old(r).data(), p2), |n: u16, p3: int| sp_skip(old(r).data(), p3, n * 4)))),
            ),
        ),
{
    r.block_ref()?; // next extra data
    r.u32()?; // bytes remaining
    let n = r.u16()? as u64;
    r.skip(n * 4)?; // per-vertex weights
    Ok(Block::Other)
}

/// Controllers whose tail is just a data ref.
pub open spec fn is_simple_controller_type(ty: Seq<u8>) -> bool {
    is_type(ty, "NiKeyframeController") || is_type(ty, "NiVisController") || is_type(
        ty,
        "NiAlphaController",
    ) || is_type(ty, "NiMaterialColorController") || is_type(ty, "NiRollController")
}

/// The animation-controller blocks: the `NiTimeController` body plus a type-specific
/// tail.
pub open spec fn sp_controller_block(ty: Seq<u8>, d: Seq<u8>, p: int) -> Option<PResult<BlockV>> {
    if is_simple_controller_type(ty) {
        Some(other(then(sp_time_controller(d, p), |_u: (), p1: int| sp_block_ref(d, p1))))
    } else if is_type(ty, "NiUVController") {
        Some(
            other(
                then(sp_time_controller(d, p), |_u: (), p1: int|
                then(sp_u16(d, p1), |_s: u16, p2: int| sp_block_ref(d, p2))),
            ),
        )
    } else if is_type(ty, "NiGeomMorpherController") {
        Some(
            other(
                then(sp_time_controller(d, p), |_u: (), p1: int|
                then(sp_block_ref(d, p1), |_r: BlockRef, p2: int| sp_u8(d, p2))),
            ),
        )
    } else if is_type(ty, "NiPathController") {
        Some(
            other(
                then(sp_time_controller(d, p), |_u: (), p1: int|
                then(sp_i32(d, p1), |_a: i32, p2: int|
                then(sp_f32(d, p2), |_b: u32, p3: int|
                then(sp_f32(d, p3), |_c: u32, p4: int|
                then(sp_u16(d, p4), |_e: u16, p5: int|
                then(sp_block_ref(d, p5), |_f: BlockRef, p6: int| sp_block_ref(d, p6))))))),
            ),
        )
    } else if is_type(ty, "NiLookAtController") {
        Some(other(then(sp_time_controller(d, p), |_u: (), p1: int| sp_block_ref(d, p1))))
    } else if is_type(ty, "NiFlipController") {
        Some(
            other(
                then(sp_time_controller(d, p), |_u: (), p1: int|
                then(sp_u32(d, p1), |_a: u32, p2: int|
                then(sp_f32(d, p2), |_b: u32, p3: int|
                then(sp_f32(d, p3), |_c: u32, p4: int| sp_refs(d, p4))))),
            ),
        )
    } else if is_type(ty, "NiParticleSystemController") || is_type(ty, "NiBSPArrayController") {
        Some(other(sp_particle_system_controller(d, p)))
    } else {
        None
    }
}

/// The animation-controller blocks; `None` (reader untouched) for other types.
pub fn controller_block(r: &mut Reader, ty: &[u8]) -> (res: Option<RResult<Block>>)
    ensures
        match sp_controller_block(ty@, old(r).data(), old(r).pos()) {
            None => res is None && *final(r) == *old(r),
            Some(s) => res matches Some(x) && steps_view(*old(r), *final(r), x, s),
        },
{
    if type_is(ty, "NiKeyframeController") || type_is(ty, "NiVisController") || type_is(
        ty,
        "NiAlphaController",
    ) || type_is(ty, "NiMaterialColorController") || type_is(ty, "NiRollController") {
        Some(controller_then_ref(r)) // data
    } else if type_is(ty, "NiUVController") {
        Some(uv_controller(r))
    } else if type_is(ty, "NiGeomMorpherController") {
        Some(geom_morpher_controller(r))
    } else if type_is(ty, "NiPathController") {
        Some(path_controller(r))
    } else if type_is(ty, "NiLookAtController") {
        Some(controller_then_ref(r)) // look-at target
    } else if type_is(ty, "NiFlipController") {
        Some(flip_controller(r))
    } else if type_is(ty, "NiParticleSystemController") || type_is(ty, "NiBSPArrayController") {
        Some(
            match particle_system_controller(r) {
                Ok(_) => Ok(Block::Other),
                Err(e) => Err(e),
            },
        )
    } else {
        None
    }
}

fn controller_then_ref(r: &mut Reader) -> (res: RResult<Block>)
    ensures
        steps_view(
            *old(r),
            *final(r),
            res,
            other(then(sp_time_controller(old(r).data(), old(r).pos()), |_u: (), p1: int| sp_block_ref(old(r).data(), p1))),
        ),
{
    time_controller(r)?;
    r.block_ref()?;
    Ok(Block::Other)
}

fn uv_controller(r: &mut Reader) -> (res: RResult<Block>)
    ensures
        steps_view(
            *old(r),
            *final(r),
            res,
            other(
                then(sp_time_controller(old(r).data(), old(r).pos()), |_u: (), p1: int|
                then(sp_u16(old(r).data(), p1), |_s: u16, p2: int| sp_block_ref(old(r).data(), p2))),
            ),
        ),
{
    time_controller(r)?;
    r.u16()?; // texture set
    r.block_ref()?; // data
    Ok(Block::Other)
}

fn geom_morpher_controller(r: &mut Reader) -> (res: RResult<Block>)
    ensures
        steps_view(
            *old(r),
            *final(r),
            res,
            other(
                then(sp_time_controller(old(r).data(), old(r).pos()), |_u: (), p1: int|
                then(sp_block_ref(old(r).data(), p1), |_r: BlockRef, p2: int| sp_u8(old(r).data(), p2))),
            ),
        ),
{
    time_controller(r)?;
    r.block_ref()?; // data
    r.u8()?; // always update
    Ok(Block::Other)
}

fn path_controller(r: &mut Reader) -> (res: RResult<Block>)
    ensures
        steps_view(
            *old(r),
            *final(r),
            res,
            other(
                then(sp_time_controller(old(r).data(), old(r).pos()), |_u: (), p1: int|
                then(sp_i32(old(r).data(), p1), |_a: i32, p2: int|
                then(sp_f32(old(r).data(), p2), |_b: u32, p3: int|
                then(sp_f32(old(r).data(), p3), |_c: u32, p4: int|
                then(sp_u16(old(r).data(), p4), |_e: u16, p5: int|
                then(sp_block_ref(old(r).data(), p5), |_f: BlockRef, p6: int| sp_block_ref(old(r).data(), p6))))))),
            ),
        ),
{
    time_controller(r)?;
    r.i32()?; // bank direction
    r.float_bits()?; // max bank angle
    r.float_bits()?; // smoothing
    r.u16()?; // follow axis
    r.block_ref()?; // path (position) data
    r.block_ref()?; // percent (float) data
    Ok(Block::Other)
}

fn flip_controller(r: &mut Reader) -> (res: RResult<Block>)
    ensures
        steps_view(
            *old(r),
            *final(r),
            res,
            other(
                then(sp_time_controller(old(r).data(), old(r).pos()), |_u: (), p1: int|
                then(sp_u32(old(r).data(), p1), |_a: u32, p2: int|
                then(sp_f32(old(r).data(), p2), |_b: u32, p3: int|
                then(sp_f32(old(r).data(), p3), |_c: u32, p4: int| sp_refs(old(r).data(), p4))))),
            ),
        ),
{
    time_controller(r)?;
    r.u32()?; // texture slot
    r.float_bits()?; // accumulated time
    r.float_bits()?; // delta between flips
    r.refs()?; // texture sources
    Ok(Block::Other)
}

/// The element reader for `NiMorphData` morphs over `nv` vertices: a key count, the key
/// type (present even with zero keys), the float keys, then the morph target's vertex
/// offsets.
pub open spec fn morph_elem(d: Seq<u8>, nv: int) -> spec_fn(int, int) -> PResult<()> {
    |i: int, p: int|
        then(sp_u32(d, p), |num_keys: u32, q: int|
        then(sp_u32(d, q), |interpolation: u32, q2: int|
        then(sp_keys(d, q2, num_keys as int, interpolation, 4), |_k: (), q3: int| sp_skip(d, q3, nv * 12))))
}

/// The animation key-data blocks.
pub open spec fn sp_key_data_block(ty: Seq<u8>, d: Seq<u8>, p: int) -> Option<PResult<BlockV>> {
    if is_type(ty, "NiKeyframeData") {
        Some(other(sp_keyframe_data(d, p)))
    } else if is_type(ty, "NiFloatData") {
        Some(other(sp_key_group(d, p, 4)))
    } else if is_type(ty, "NiPosData") {
        Some(other(sp_key_group(d, p, 12)))
    } else if is_type(ty, "NiColorData") {
        Some(other(sp_key_group(d, p, 16)))
    } else if is_type(ty, "NiUVData") {
        Some(other(sp_times(key_group_elem(d, 4), 0, 4, p)))
    } else if is_type(ty, "NiVisData") {
        Some(other(then(sp_u32(d, p), |n: u32, p1: int| sp_skip(d, p1, n * 5))))
    } else if is_type(ty, "NiMorphData") {
        Some(
            other(
                then(sp_u32(d, p), |num_morphs: u32, p1: int|
                then(sp_u32(d, p1), |nv: u32, p2: int|
                then(sp_u8(d, p2), |_rel: u8, p3: int| sp_times(morph_elem(d, nv as int), 0, num_morphs as int, p3)))),
            ),
        )
    } else {
        None
    }
}

/// `NiMorphData` morphs.
fn morphs(r: &mut Reader, n: u32, nv: u64) -> (res: RResult<()>)
    requires
        nv <= u32::MAX,
    ensures
        steps(*old(r), *final(r), res, sp_times(morph_elem(old(r).data(), nv as int), 0, n as int, old(r).pos())),
{
    let ghost d = r.data();
    let ghost whole = sp_times(morph_elem(d, nv as int), 0, n as int, r.pos());
    let mut i: u32 = 0;
    while i < n
        invariant
            r.data() == d,
            d == old(r).data(),
            nv <= u32::MAX,
            i <= n,
            whole == sp_times(morph_elem(d, nv as int), 0, n as int, old(r).pos()),
            whole == sp_times(morph_elem(d, nv as int), i as int, n as int, r.pos()),
        decreases n - i,
    {
        let num_keys = r.u32()? as u64;
        // Unlike a KeyGroup, a morph's key type is present even with zero keys.
        let interpolation = r.u32()?;
        assert(num_keys * key_size(interpolation, 4) <= 0xffff_ffff * 28) by (nonlinear_arith)
            requires
                num_keys <= 0xffff_ffff,
                0 <= key_size(interpolation, 4) <= 28,
        ;
        keys(r, num_keys, interpolation, 4)?;
        r.skip(nv * 12)?; // morph target vertex offsets
        i += 1;
    }
    Ok(())
}

/// The animation key-data blocks; `None` (reader untouched) for other types.
pub fn key_data_block(r: &mut Reader, ty: &[u8]) -> (res: Option<RResult<Block>>)
    ensures
        match sp_key_data_block(ty@, old(r).data(), old(r).pos()) {
            None => res is None && *final(r) == *old(r),
            Some(s) => res matches Some(x) && steps_view(*old(r), *final(r), x, s),
        },
{
    let walked = if type_is(ty, "NiKeyframeData") {
        keyframe_data(r)
    } else if type_is(ty, "NiFloatData") {
        key_group(r, 4)
    } else if type_is(ty, "NiPosData") {
        key_group(r, 12)
    } else if type_is(ty, "NiColorData") {
        key_group(r, 16)
    } else if type_is(ty, "NiUVData") {
        // U/V translation then U/V scale key groups.
        key_groups(r, 4, 4)
    } else if type_is(ty, "NiVisData") {
        vis_data(r)
    } else if type_is(ty, "NiMorphData") {
        morph_data(r)
    } else {
        return None;
    };
    Some(
        match walked {
            Ok(_) => Ok(Block::Other),
            Err(e) => Err(e),
        },
    )
}

fn vis_data(r: &mut Reader) -> (res: RResult<()>)
    ensures
        steps(*old(r), *final(r), res, then(sp_u32(old(r).data(), old(r).pos()), |n: u32, p1: int| sp_skip(old(r).data(), p1, n * 5))),
{
    let n = r.u32()? as u64;
    r.skip(n * 5) // time f32 + visibility byte per key
}

fn morph_data(r: &mut Reader) -> (res: RResult<()>)
    ensures
        steps(
            *old(r),
            *final(r),
            res,
            then(sp_u32(old(r).data(), old(r).pos()), |num_morphs: u32, p1: int|
            then(sp_u32(old(r).data(), p1), |nv: u32, p2: int|
            then(sp_u8(old(r).data(), p2), |_rel: u8, p3: int| sp_times(morph_elem(old(r).data(), nv as int), 0, num_morphs as int, p3)))),
        ),
{
    let num_morphs = r.u32()?;
    let nv = r.u32()? as u64;
    r.u8()?; // relative targets
    morphs(r, num_morphs, nv)
}

/// The element reader for `NiSkinData` bones: the bone's skin transform, its bounding
/// sphere (center + radius), and its vertex weights (`u16` index + `f32` weight each).
pub open spec fn bone_elem(d: Seq<u8>) -> spec_fn(int, int) -> PResult<()> {
    |i: int, p: int|
        then(sp_skin_transform(d, p), |_t: (), q: int|
        then(sp_skip(d, q, 16), |_s: (), q2: int|
        then(sp_u16(d, q2), |nv: u16, q3: int| sp_skip(d, q3, nv * 6))))
}

/// Particle-modifier types whose tail is a fixed number of bytes.
pub open spec fn modifier_tail(ty: Seq<u8>) -> Option<int> {
    if is_type(ty, "NiGravity") {
        Some(36) // decay + force + field type + position + direction
    } else if is_type(ty, "NiParticleGrowFade") {
        Some(8) // grow time + fade time
    } else if is_type(ty, "NiParticleRotation") {
        Some(17) // random-axis flag + initial axis + rotation speed
    } else if is_type(ty, "NiParticleBomb") {
        Some(44) // decay/duration/deltaV/start + decay type + position + direction
    } else {
        None
    }
}

/// The skinning, dynamic-effect, camera, pixel-data and particle-modifier blocks.
pub open spec fn sp_misc_block(ty: Seq<u8>, d: Seq<u8>, p: int) -> Option<PResult<BlockV>> {
    if is_type(ty, "NiSkinInstance") {
        Some(
            other(
                then(sp_block_ref(d, p), |_a: BlockRef, p1: int|
                then(sp_block_ref(d, p1), |_b: BlockRef, p2: int| sp_refs(d, p2))),
            ),
        )
    } else if is_type(ty, "NiSkinData") {
        Some(
            other(
                then(sp_skin_transform(d, p), |_t: (), p1: int|
                then(sp_u32(d, p1), |bones: u32, p2: int|
                then(sp_block_ref(d, p2), |_r: BlockRef, p3: int| sp_times(bone_elem(d), 0, bones as int, p3)))),
            ),
        )
    } else if is_type(ty, "NiTextureEffect") {
        Some(
            other(
                then(sp_dynamic_effect(d, p), |_e: (), p1: int|
                then(sp_skip(d, p1, 48), |_a: (), p2: int|
                then(sp_skip(d, p2, 16), |_b: (), p3: int|
                then(sp_block_ref(d, p3), |_r: BlockRef, p4: int|
                then(sp_u8(d, p4), |_c: u8, p5: int|
                then(sp_skip(d, p5, 16), |_f: (), p6: int| sp_skip(d, p6, 6))))))),
            ),
        )
    } else if is_type(ty, "NiCamera") {
        Some(
            other(
                then(sp_av_object(d, p), |_av: AvObjectV, p1: int|
                then(sp_skip(d, p1, 24), |_a: (), p2: int|
                then(sp_skip(d, p2, 16), |_b: (), p3: int|
                then(sp_f32(d, p3), |_c: u32, p4: int|
                then(sp_block_ref(d, p4), |_r: BlockRef, p5: int| sp_u32(d, p5)))))),
            ),
        )
    } else if is_type(ty, "NiPixelData") {
        Some(
            other(
                then(sp_skip(d, p, 32), |_a: (), p1: int|
                then(sp_block_ref(d, p1), |_r: BlockRef, p2: int|
                then(sp_u32(d, p2), |mipmaps: u32, p3: int|
                then(sp_u32(d, p3), |_bpp: u32, p4: int|
                then(sp_skip(d, p4, mipmaps * 12), |_b: (), p5: int|
                then(sp_u32(d, p5), |num_bytes: u32, p6: int| sp_skip(d, p6, num_bytes as int))))))),
            ),
        )
    } else if modifier_tail(ty) is Some {
        Some(
            other(
                then(
                    sp_particle_modifier(d, p),
                    |_m: (), p1: int| sp_skip(d, p1, modifier_tail(ty)->0),
                ),
            ),
        )
    } else if is_type(ty, "NiParticleColorModifier") {
        Some(other(then(sp_particle_modifier(d, p), |_m: (), p1: int| sp_block_ref(d, p1))))
    } else if is_type(ty, "NiPlanarCollider") {
        Some(
            other(
                then(sp_particle_modifier(d, p), |_m: (), p1: int|
                then(sp_f32(d, p1), |_b: u32, p2: int| sp_skip(d, p2, 60))),
            ),
        )
    } else if is_type(ty, "NiSphericalCollider") {
        Some(
            other(
                then(sp_particle_modifier(d, p), |_m: (), p1: int|
                then(sp_f32(d, p1), |_b: u32, p2: int| sp_skip(d, p2, 16))),
            ),
        )
    } else {
        None
    }
}

/// `NiSkinData` bones.
fn bones(r: &mut Reader, n: u32) -> (res: RResult<()>)
    ensures
        steps(*old(r), *final(r), res, sp_times(bone_elem(old(r).data()), 0, n as int, old(r).pos())),
{
    let ghost d = r.data();
    let ghost whole = sp_times(bone_elem(d), 0, n as int, r.pos());
    let mut i: u32 = 0;
    while i < n
        invariant
            r.data() == d,
            d == old(r).data(),
            i <= n,
            whole == sp_times(bone_elem(d), 0, n as int, old(r).pos()),
            whole == sp_times(bone_elem(d), i as int, n as int, r.pos()),
        decreases n - i,
    {
        r.skip(36 + 12 + 4)?; // skin transform: rotation + translation + scale
        r.skip(12 + 4)?; // bounding sphere center + radius
        let nv = r.u16()? as u64;
        r.skip(nv * 6)?; // vertex index (u16) + weight (f32) pairs
        i += 1;
    }
    Ok(())
}

fn skin_instance(r: &mut Reader) -> (res: RResult<()>)
    ensures
        steps(
            *old(r),
            *final(r),
            res,
            other_unit(
                then(sp_block_ref(old(r).data(), old(r).pos()), |_a: BlockRef, p1: int|
                then(sp_block_ref(old(r).data(), p1), |_b: BlockRef, p2: int| sp_refs(old(r).data(), p2))),
            ),
        ),
{
    r.block_ref()?; // data
    r.block_ref()?; // skeleton root
    r.refs()?; // bones
    Ok(())
}

fn skin_data(r: &mut Reader) -> (res: RResult<()>)
    ensures
        steps(
            *old(r),
            *final(r),
            res,
            then(sp_skin_transform(old(r).data(), old(r).pos()), |_t: (), p1: int|
            then(sp_u32(old(r).data(), p1), |bones: u32, p2: int|
            then(sp_block_ref(old(r).data(), p2), |_r: BlockRef, p3: int| sp_times(bone_elem(old(r).data()), 0, bones as int, p3)))),
        ),
{
    r.skip(36 + 12 + 4)?; // skin transform
    let num_bones = r.u32()?;
    r.block_ref()?; // skin partition (optional hardware-skinning data)
    bones(r, num_bones)
}

fn texture_effect(r: &mut Reader) -> (res: RResult<()>)
    ensures
        steps(
            *old(r),
            *final(r),
            res,
            then(sp_dynamic_effect(old(r).data(), old(r).pos()), |_e: (), p1: int|
            then(sp_skip(old(r).data(), p1, 48), |_a: (), p2: int|
            then(sp_skip(old(r).data(), p2, 16), |_b: (), p3: int|
            then(sp_block_ref(old(r).data(), p3), |_r: BlockRef, p4: int|
            then(sp_u8(old(r).data(), p4), |_c: u8, p5: int|
            then(sp_skip(old(r).data(), p5, 16), |_f: (), p6: int| sp_skip(old(r).data(), p6, 6))))))),
        ),
{
    dynamic_effect(r)?;
    r.skip(36 + 12)?; // model projection matrix + translation
    r.skip(4 * 4)?; // filtering + clamping + texture type + coordinate generation
    r.block_ref()?; // source texture
    r.u8()?; // clipping-plane enable
    r.skip(16)?; // clipping plane (normal + constant)
    r.skip(2 + 2 + 2) // PS2 L + PS2 K + unknown short
}

fn camera(r: &mut Reader) -> (res: RResult<()>)
    ensures
        steps(
            *old(r),
            *final(r),
            res,
            other_unit(
                then(sp_av_object(old(r).data(), old(r).pos()), |_av: AvObjectV, p1: int|
                then(sp_skip(old(r).data(), p1, 24), |_a: (), p2: int|
                then(sp_skip(old(r).data(), p2, 16), |_b: (), p3: int|
                then(sp_f32(old(r).data(), p3), |_c: u32, p4: int|
                then(sp_block_ref(old(r).data(), p4), |_r: BlockRef, p5: int| sp_u32(old(r).data(), p5)))))),
            ),
        ),
{
    av_object(r)?;
    r.skip(6 * 4)?; // frustum left/right/top/bottom/near/far
    r.skip(4 * 4)?; // viewport left/right/top/bottom
    r.float_bits()?; // LOD adjust
    r.block_ref()?; // scene
    r.u32()?; // num screen polygons (always 0)
    Ok(())
}

fn pixel_data(r: &mut Reader) -> (res: RResult<()>)
    ensures
        steps(
            *old(r),
            *final(r),
            res,
            then(sp_skip(old(r).data(), old(r).pos(), 32), |_a: (), p1: int|
            then(sp_block_ref(old(r).data(), p1), |_r: BlockRef, p2: int|
            then(sp_u32(old(r).data(), p2), |mipmaps: u32, p3: int|
            then(sp_u32(old(r).data(), p3), |_bpp: u32, p4: int|
            then(sp_skip(old(r).data(), p4, mipmaps * 12), |_b: (), p5: int|
            then(sp_u32(old(r).data(), p5), |num_bytes: u32, p6: int| sp_skip(old(r).data(), p6, num_bytes as int))))))),
        ),
{
    r.skip(4 + 4 * 4 + 4 + 8)?; // format + channel masks + bpp + fast-compare bytes
    r.block_ref()?; // palette
    let num_mipmaps = r.u32()? as u64;
    r.u32()?; // bytes per pixel
    r.skip(num_mipmaps * 12)?; // width/height/offset per mipmap
    let num_bytes = r.u32()? as u64;
    r.skip(num_bytes) // pixel data
}

fn modifier_then(r: &mut Reader, n: u64) -> (res: RResult<()>)
    ensures
        steps(
            *old(r),
            *final(r),
            res,
            then(sp_particle_modifier(old(r).data(), old(r).pos()), |_m: (), p1: int| sp_skip(old(r).data(), p1, n as int)),
        ),
{
    particle_modifier(r)?;
    r.skip(n)
}

fn collider(r: &mut Reader, n: u64) -> (res: RResult<()>)
    ensures
        steps(
            *old(r),
            *final(r),
            res,
            then(sp_particle_modifier(old(r).data(), old(r).pos()), |_m: (), p1: int|
            then(sp_f32(old(r).data(), p1), |_b: u32, p2: int| sp_skip(old(r).data(), p2, n as int))),
        ),
{
    particle_modifier(r)?;
    r.float_bits()?; // bounce
    r.skip(n)
}

fn color_modifier(r: &mut Reader) -> (res: RResult<()>)
    ensures
        steps(
            *old(r),
            *final(r),
            res,
            other_unit(then(sp_particle_modifier(old(r).data(), old(r).pos()), |_m: (), p1: int| sp_block_ref(old(r).data(), p1))),
        ),
{
    particle_modifier(r)?;
    r.block_ref()?; // color data
    Ok(())
}

/// The skinning, dynamic-effect, camera, pixel-data and particle-modifier blocks; `None`
/// (reader untouched) for other types.
pub fn misc_block(r: &mut Reader, ty: &[u8]) -> (res: Option<RResult<Block>>)
    ensures
        match sp_misc_block(ty@, old(r).data(), old(r).pos()) {
            None => res is None && *final(r) == *old(r),
            Some(s) => res matches Some(x) && steps_view(*old(r), *final(r), x, s),
        },
{
    let walked = if type_is(ty, "NiSkinInstance") {
        skin_instance(r)
    } else if type_is(ty, "NiSkinData") {
        skin_data(r)
    } else if type_is(ty, "NiTextureEffect") {
        texture_effect(r)
    } else if type_is(ty, "NiCamera") {
        camera(r)
    } else if type_is(ty, "NiPixelData") {
        pixel_data(r)
    } else if type_is(ty, "NiGravity") {
        modifier_then(r, 4 + 4 + 4 + 12 + 12) // decay + force + field type + position + direction
    } else if type_is(ty, "NiParticleGrowFade") {
        modifier_then(r, 4 + 4) // grow time + fade time
    } else if type_is(ty, "NiParticleRotation") {
        modifier_then(r, 1 + 12 + 4) // random-axis flag + initial axis + rotation speed
    } else if type_is(ty, "NiParticleBomb") {
        // decay/duration/deltaV/start + decay type + position + direction
        modifier_then(r, 4 * 4 + 4 + 12 + 12)
    } else if type_is(ty, "NiParticleColorModifier") {
        color_modifier(r)
    } else if type_is(ty, "NiPlanarCollider") {
        // height + width + position + X/Y axes + plane
        collider(r, 4 + 4 + 12 + 12 + 12 + 16)
    } else if type_is(ty, "NiSphericalCollider") {
        collider(r, 4 + 12) // radius + position
    } else {
        return None;
    };
    Some(
        match walked {
            Ok(_) => Ok(Block::Other),
            Err(e) => Err(e),
        },
    )
}

// ---- the whole dispatch ----------------------------------------------------------------

/// Parse the body of a block of type `ty` at `p`: `None` for a type outside the supported
/// set, else the block and the position after it, or the short read that stopped it.
#[verifier::opaque]
pub open spec fn sp_block(ty: Seq<u8>, d: Seq<u8>, p: int) -> Option<PResult<BlockV>> {
    if sp_scene_block(ty, d, p) is Some {
        sp_scene_block(ty, d, p)
    } else if sp_property_block(ty, d, p) is Some {
        sp_property_block(ty, d, p)
    } else if sp_controller_block(ty, d, p) is Some {
        sp_controller_block(ty, d, p)
    } else if sp_key_data_block(ty, d, p) is Some {
        sp_key_data_block(ty, d, p)
    } else {
        sp_misc_block(ty, d, p)
    }
}

/// Dispatch a block body by its type name: `Err(None)` for an unsupported type,
/// `Err(Some(_))` for a short read.
pub fn parse_block_inner(r: &mut Reader, ty: &[u8]) -> (res: Result<Block, Option<ReadError>>)
    ensures
        final(r).data() == old(r).data(),
        match sp_block(ty@, old(r).data(), old(r).pos()) {
            None => res == Err::<Block, Option<ReadError>>(None) && final(r).pos() == old(r).pos(),
            Some(Ok((b, q))) => res matches Ok(blk) && blk@ == b && final(r).pos() == q,
            Some(Err(e)) => res == Err::<Block, Option<ReadError>>(Some(e)),
        },
{
    proof {
        reveal(sp_block);
    }
    let found = match scene_block(r, ty) {
        Some(x) => x,
        None => match property_block(r, ty) {
            Some(x) => x,
            None => match controller_block(r, ty) {
                Some(x) => x,
                None => match key_data_block(r, ty) {
                    Some(x) => x,
                    None => match misc_block(r, ty) {
                        Some(x) => x,
                        None => return Err(None),
                    },
                },
            },
        },
    };
    match found {
        Ok(b) => Ok(b),
        Err(e) => Err(Some(e)),
    }
}

// ---- the header ------------------------------------------------------------------------

/// The NIF header (version 4.0.0.2 layout): a newline-terminated identifier string, the
/// numeric version, and the number of blocks that follow.
#[derive(Debug, Clone)]
pub struct NifHeader {
    /// The version identifier line, e.g. `NetImmerse File Format, Version 4.0.0.2`
    /// (without the trailing newline).
    pub ident: L1String,
    /// Numeric version, e.g. [`VERSION_TES3`](crate::nif::VERSION_TES3).
    pub version: u32,
    /// Number of blocks following the header.
    pub num_blocks: u32,
}

/// The contents of a [`NifHeader`].
pub struct NifHeaderV {
    pub ident: Seq<u8>,
    pub version: u32,
    pub num_blocks: u32,
}

impl View for NifHeader {
    type V = NifHeaderV;

    open spec fn view(&self) -> NifHeaderV {
        NifHeaderV { ident: self.ident@, version: self.version, num_blocks: self.num_blocks }
    }
}

/// The header: identifier line (terminated by `\n`), then the version and block-count
/// `u32`s.
pub open spec fn sp_nif_header(d: Seq<u8>, p: int) -> PResult<NifHeaderV> {
    then(sp_line(d, p), |ident: Seq<u8>, p1: int|
    then(sp_u32(d, p1), |version: u32, p2: int|
    then(sp_u32(d, p2), |num_blocks: u32, p3: int|
        Ok((NifHeaderV { ident, version, num_blocks }, p3)))))
}

/// Parse the version-4.0.0.2 header: identifier line (terminated by `\n`), then the
/// version and block-count `u32`s.
pub fn nif_header(r: &mut Reader) -> (res: RResult<NifHeader>)
    ensures
        steps_view(*old(r), *final(r), res, sp_nif_header(old(r).data(), old(r).pos())),
{
    let line = r.line()?;
    let ident = L1String::from_bytes(vstd::slice::slice_to_vec(line));
    let version = r.u32()?;
    let num_blocks = r.u32()?;
    Ok(NifHeader { ident, version, num_blocks })
}

} // verus!
