use bevy_beth::nif::blocks::{alpha_mode, AlphaMode, AlphaProperty, Block, BlockRef, Material, NifTransform, TexturingProperty};
use bevy_beth::nif::parse::{nif_header, texturing_property};
use bevy_beth::nif::plan::material_key as plain_material_key;
use bevy_beth::nif::reader::Reader;
use bevy_beth::nif::scene::material_key;
use bevy_beth::nif::{Nif, NifError, VERSION_TES3};

fn synthetic_header(num_blocks: u32) -> Vec<u8> {
    let mut bytes = b"NetImmerse File Format, Version 4.0.0.2\n".to_vec();
    bytes.extend_from_slice(&VERSION_TES3.to_le_bytes());
    bytes.extend_from_slice(&num_blocks.to_le_bytes());
    bytes
}

fn parse_error_text(bytes: &[u8]) -> String {
    match Nif::parse(bytes) {
        Ok(_) => panic!("should not parse"),
        Err(e) => e.to_text(),
    }
}

#[test]
fn block_ref_resolves_only_valid_indices() {
    assert_eq!(BlockRef::none().index(), None);
    assert!(BlockRef::none().is_none());
    assert_eq!(BlockRef(-7).index(), None);
    assert_eq!(BlockRef(2).index(), Some(2));
    assert!(!BlockRef(0).is_none());
    assert_eq!(BlockRef::default(), BlockRef::none());
}

#[test]
fn lib_parses_header_fields() {
    let bytes = synthetic_header(3);
    let h = nif_header(&mut Reader::new(&bytes)).unwrap();
    assert_eq!(h.version, VERSION_TES3);
    assert_eq!(h.num_blocks, 3);
    assert_eq!(h.ident.as_bytes(), b"NetImmerse File Format, Version 4.0.0.2");
}

#[test]
fn parse_parses_header_fields() {
    let bytes = synthetic_header(3);
    let mut r = Reader::new(&bytes);
    let h = nif_header(&mut r).unwrap();
    assert_eq!(h.version, VERSION_TES3);
    assert_eq!(h.num_blocks, 3);
    assert_eq!(h.ident.decode(), "NetImmerse File Format, Version 4.0.0.2");
    assert_eq!(r.remaining(), 0);
}

#[test]
fn lib_rejects_wrong_version() {
    let mut bytes = b"NetImmerse File Format, Version 10.0.1.0\n".to_vec();
    bytes.extend_from_slice(&0x0A01_0000u32.to_le_bytes());
    bytes.extend_from_slice(&0u32.to_le_bytes());
    assert!(Nif::parse(&bytes).is_err());
}

#[test]
fn parse_rejects_wrong_version() {
    let mut bytes = b"NetImmerse File Format, Version 10.0.1.0\n".to_vec();
    bytes.extend_from_slice(&0x0A01_0000u32.to_le_bytes());
    bytes.extend_from_slice(&0u32.to_le_bytes());
    assert_eq!(
        parse_error_text(&bytes),
        "parse error: unsupported NIF version 0x0a010000 (expected 0x04000002)"
    );
}

#[test]
fn lib_rejects_unsupported_block() {
    let mut bytes = synthetic_header(1);
    let name = b"NiParticleSystemController";
    bytes.extend_from_slice(&(name.len() as u32).to_le_bytes());
    bytes.extend_from_slice(name);
    let err = parse_error_text(&bytes);
    assert!(err.contains("NiParticleSystemController"), "{err}");
}

#[test]
fn parse_rejects_unsupported_block() {
    let mut bytes = synthetic_header(1);
    let name = b"NiUnheardOfBlockType";
    bytes.extend_from_slice(&(name.len() as u32).to_le_bytes());
    bytes.extend_from_slice(name);
    let err = parse_error_text(&bytes);
    assert!(err.contains("NiUnheardOfBlockType"), "{err}");
    assert_eq!(err, "parse error: block 0: unsupported block type \"NiUnheardOfBlockType\"");
}

#[test]
fn short_reads_name_block_and_offset() {
    // Header only: the first block's type name is missing.
    let bytes = synthetic_header(1);
    assert_eq!(
        parse_error_text(&bytes),
        format!(
            "parse error: block 0 type: unexpected end of data (wanted 4 bytes at offset {})",
            bytes.len()
        )
    );
    // A truncated header.
    assert_eq!(
        parse_error_text(b"NetImmerse"),
        "parse error: header: no newline after offset 0"
    );
    let mut bytes = synthetic_header(1);
    bytes.extend_from_slice(&(b"NiAlphaProperty".len() as u32).to_le_bytes());
    bytes.extend_from_slice(b"NiAlphaProperty");
    let at = bytes.len();
    assert_eq!(
        parse_error_text(&bytes),
        format!("parse error: block 0: NiAlphaProperty: unexpected end of data (wanted 4 bytes at offset {at})")
    );
}

#[test]
fn texturing_property_captures_base_and_glow_slots_exactly() {
    let mut bytes = Vec::new();
    bytes.extend_from_slice(&0u32.to_le_bytes()); // name (empty)
    bytes.extend_from_slice(&(-1i32).to_le_bytes()); // extra data ref
    bytes.extend_from_slice(&(-1i32).to_le_bytes()); // controller ref
    bytes.extend_from_slice(&0u16.to_le_bytes()); // flags
    bytes.extend_from_slice(&2u32.to_le_bytes()); // apply mode
    bytes.extend_from_slice(&7u32.to_le_bytes()); // texture count
    fn tex_desc(bytes: &mut Vec<u8>, source: i32, bump: bool) {
        bytes.extend_from_slice(&1u32.to_le_bytes()); // has texture
        bytes.extend_from_slice(&source.to_le_bytes());
        bytes.extend_from_slice(&[0u8; 18]); // clamp + filter + uv set + ps2 l/k + unknown1
        if bump {
            bytes.extend_from_slice(&[0u8; 24]); // luma scale/offset + 2x2 matrix
        }
    }
    tex_desc(&mut bytes, 3, false); // slot 0: base
    for _ in 1..4 {
        bytes.extend_from_slice(&0u32.to_le_bytes()); // slots 1-3 absent
    }
    tex_desc(&mut bytes, 5, false); // slot 4: glow
    tex_desc(&mut bytes, 6, true); // slot 5: bump (walked past)
    bytes.extend_from_slice(&0u32.to_le_bytes()); // slot 6 absent

    let mut r = Reader::new(&bytes);
    let prop = texturing_property(&mut r).unwrap();
    assert_eq!(prop.base_texture, BlockRef(3));
    assert_eq!(prop.glow_texture, BlockRef(5));
    assert_eq!(r.remaining(), 0, "body must be consumed exactly");
}

#[test]
fn alpha_property_fields() {
    // blending on, src 6 (SRC_ALPHA), dest 7 (INV_SRC_ALPHA), testing on, GREATER (4).
    let flags: u16 = 1 | (6 << 1) | (7 << 5) | (1 << 9) | (4 << 10);
    let a = AlphaProperty { flags, threshold: 128 };
    assert!(a.blending());
    assert_eq!(a.source_blend_mode(), 6);
    assert_eq!(a.dest_blend_mode(), 7);
    assert!(a.testing());
    assert_eq!(a.test_function(), 4);
    let none = AlphaProperty { flags: 0, threshold: 0 };
    assert!(!none.blending());
    assert!(!none.testing());
}

// ---- a small synthetic scene --------------------------------------------------------

struct Nb(Vec<u8>);

impl Nb {
    fn u16(&mut self, v: u16) {
        self.0.extend_from_slice(&v.to_le_bytes());
    }
    fn u32(&mut self, v: u32) {
        self.0.extend_from_slice(&v.to_le_bytes());
    }
    fn i32(&mut self, v: i32) {
        self.0.extend_from_slice(&v.to_le_bytes());
    }
    fn f32(&mut self, v: f32) {
        self.0.extend_from_slice(&v.to_le_bytes());
    }
    fn string(&mut self, s: &str) {
        self.u32(s.len() as u32);
        self.0.extend_from_slice(s.as_bytes());
    }
    fn refs(&mut self, refs: &[i32]) {
        self.u32(refs.len() as u32);
        for &r in refs {
            self.i32(r);
        }
    }
    fn net(&mut self) {
        self.string("");
        self.i32(-1);
        self.i32(-1);
    }
    fn av(&mut self, flags: u16, x: f32, props: &[i32]) {
        self.net();
        self.u16(flags);
        for v in [x, 0.0, 0.0] {
            self.f32(v);
        }
        for v in [1.0, 0.0, 0.0, 0.0, 1.0, 0.0, 0.0, 0.0, 1.0] {
            self.f32(v);
        }
        self.f32(1.0); // scale
        for _ in 0..3 {
            self.f32(0.0); // velocity
        }
        self.refs(props);
        self.u32(0); // no bounding box
    }
    fn node(&mut self, ty: &str, flags: u16, x: f32, children: &[i32], props: &[i32]) {
        self.string(ty);
        self.av(flags, x, props);
        self.refs(children);
        self.refs(&[]); // effects
    }
    fn shape(&mut self, flags: u16, x: f32, data: i32, props: &[i32]) {
        self.string("NiTriShape");
        self.av(flags, x, props);
        self.i32(data);
        self.i32(-1); // skin instance
    }
    fn shape_data(&mut self, with_triangle: bool) {
        self.string("NiTriShapeData");
        self.u16(3); // vertices
        self.u32(1); // has vertices
        for v in [0.0, 0.0, 0.0, 1.0, 0.0, 0.0, 0.0, 1.0, 0.0] {
            self.f32(v);
        }
        self.u32(0); // no normals
        for _ in 0..4 {
            self.f32(0.0); // bounding sphere
        }
        self.u32(0); // no vertex colours
        self.u16(1); // uv sets
        self.u32(1); // has uv
        for v in [0.0, 0.0, 1.0, 0.0, 0.0, 1.0] {
            self.f32(v);
        }
        if with_triangle {
            self.u16(1);
            self.u32(3);
            for i in [0u16, 1, 2] {
                self.u16(i);
            }
        } else {
            self.u16(0);
            self.u32(0);
        }
        self.u16(0); // match groups
    }
    fn texturing(&mut self, base: i32) {
        self.string("NiTexturingProperty");
        self.net();
        self.u16(0);
        self.u32(2);
        self.u32(1); // one slot
        self.u32(1); // has texture
        self.i32(base);
        self.0.extend_from_slice(&[0u8; 18]);
    }
    fn source(&mut self, name: &str) {
        self.string("NiSourceTexture");
        self.net();
        self.0.push(1); // external
        self.string(name);
        self.0.extend_from_slice(&[0u8; 13]);
    }
    fn material(&mut self, alpha: f32) {
        self.string("NiMaterialProperty");
        self.net();
        self.u16(0);
        for _ in 0..4 {
            for v in [0.5, 0.25, 1.0] {
                self.f32(v);
            }
        }
        self.f32(10.0);
        self.f32(alpha);
    }
}

/// 0 root node (texturing 2) → [1 shape (material 4), 5 hidden node → [1], 7 collision
/// node → [1], 8 shape without triangles]; 3 and 9 geometry, 6 the source texture.
fn scene(with_footer: bool) -> Vec<u8> {
    let mut b = Nb(synthetic_header(10));
    b.node("NiNode", 0, 1.0, &[1, 5, 7, 8], &[2]);
    b.shape(0, 2.0, 3, &[4]);
    b.texturing(6);
    b.shape_data(true);
    b.material(0.5);
    b.node("NiNode", 1, 0.0, &[1], &[]);
    b.source("Tx_Wood.dds");
    b.node("RootCollisionNode", 0, 0.0, &[1], &[]);
    b.shape(0, 3.0, 9, &[]);
    b.shape_data(false);
    if with_footer {
        b.refs(&[0]);
    }
    b.0
}

#[test]
fn parses_a_synthetic_scene() {
    let nif = Nif::parse(&scene(true)).expect("scene parses");
    assert_eq!(nif.header.num_blocks, 10);
    assert_eq!(nif.blocks.len(), 10);
    assert_eq!(nif.roots, vec![BlockRef(0)]);
    assert!(matches!(nif.blocks[0], Block::Node(_)));
    assert!(matches!(nif.blocks[1], Block::TriShape(_)));
    match &nif.blocks[6] {
        Block::SourceTexture(s) => assert_eq!(s.file_name.as_bytes(), b"Tx_Wood.dds"),
        other => panic!("expected a source texture, got {other:?}"),
    }
    match &nif.blocks[5] {
        Block::Node(n) => assert!(n.hidden && !n.collision),
        other => panic!("expected a node, got {other:?}"),
    }
    match &nif.blocks[7] {
        Block::Node(n) => assert!(n.collision && !n.hidden),
        other => panic!("expected a node, got {other:?}"),
    }
    match &nif.blocks[3] {
        Block::TriShapeData(m) => {
            assert_eq!(m.vertices.len(), 3);
            assert_eq!(m.uvs.len(), 3);
            assert!(m.normals.is_empty());
            assert_eq!(m.triangles, vec![[0, 1, 2]]);
            assert_eq!(m.vertices[1][0], 1.0f32.to_bits());
        }
        other => panic!("expected geometry, got {other:?}"),
    }
}

#[test]
fn missing_footer_falls_back_to_block_zero() {
    let nif = Nif::parse(&scene(false)).expect("scene parses");
    assert!(nif.roots.is_empty());
    assert_eq!(nif.scene_roots(), vec![BlockRef(0)]);
    assert_eq!(nif.instances().len(), 2);
}

#[test]
fn instances_skip_hidden_and_collision_and_inherit_properties() {
    let nif = Nif::parse(&scene(true)).unwrap();
    let shapes = nif.instances();
    // Block 1 is reached through the root (visible), the hidden node and the collision
    // node; only the first path draws. Block 8 draws with its empty geometry.
    assert_eq!(shapes.len(), 2);
    let first = &shapes[0];
    assert_eq!(first.transforms.len(), 2);
    assert_eq!(first.transforms[0].translation[0], 1.0f32.to_bits());
    assert_eq!(first.transforms[1].translation[0], 2.0f32.to_bits());
    assert_eq!(first.mesh.vertices.len(), 3);
    assert_eq!(first.base_texture.unwrap().as_bytes(), b"Tx_Wood.dds");
    let m = first.material.expect("own material");
    assert_eq!(m.alpha, 0.5f32.to_bits());
    assert_eq!(m.diffuse[1], 0.25f32.to_bits());
    let second = &shapes[1];
    assert_eq!(second.transforms[1].translation[0], 3.0f32.to_bits());
    assert!(second.mesh.triangles.is_empty());
    assert_eq!(second.base_texture.unwrap().as_bytes(), b"Tx_Wood.dds");
    assert!(second.material.is_none());
}

#[test]
fn scene_plan_keeps_the_hierarchy() {
    let nif = Nif::parse(&scene(true)).unwrap();
    let plan = nif.scene_plan();
    // Root node, then its drawable shape; the shape without triangles is left out.
    assert_eq!(plan.len(), 2);
    assert_eq!(plan[0].name, "Node0");
    assert_eq!(plan[0].parent, 0);
    assert!(plan[0].surface.is_none());
    assert_eq!(plan[1].name, "Shape1");
    assert_eq!(plan[1].parent, 1);
    let surface = plan[1].surface.expect("a shape draws");
    assert_eq!(surface.base_texture.unwrap().decode(), "Tx_Wood.dds");
    assert_eq!(surface.mesh.triangles.len(), 1);
    for (k, entry) in plan.iter().enumerate() {
        assert!(entry.parent <= k);
    }
}

#[test]
fn property_lookups_follow_the_given_order() {
    let nif = Nif::parse(&scene(true)).unwrap();
    assert!(nif.base_texture(&vec![BlockRef(4)]).is_none());
    assert_eq!(nif.base_texture(&vec![BlockRef(4), BlockRef(2)]).unwrap().as_bytes(), b"Tx_Wood.dds");
    assert!(nif.material(&vec![BlockRef(2), BlockRef(-1), BlockRef(99)]).is_none());
    assert!(nif.material(&vec![BlockRef(2), BlockRef(4)]).is_some());
    assert!(matches!(nif.block(BlockRef(6)), Some(Block::SourceTexture(_))));
    assert!(nif.block(BlockRef(10)).is_none());
    assert!(nif.block(BlockRef::none()).is_none());
}

#[test]
fn material_keys_tell_materials_apart() {
    let m = Material {
        ambient: [1, 2, 3],
        diffuse: [4, 5, 6],
        specular: [7, 8, 9],
        emissive: [10, 11, 12],
        glossiness: 13,
        alpha: 14,
    };
    let tex = Some("textures/a.dds".to_string());
    let (t, colors) = plain_material_key(&tex, Some(&m));
    assert_eq!(t, tex);
    assert_eq!(colors, Some([4, 5, 6, 10, 11, 12, 14]));
    assert_eq!(plain_material_key(&None, None), (None, None));

    let alpha = AlphaProperty { flags: 0x1ed, threshold: 9 };
    let glow = Some("textures/g.dds".to_string());
    let key = material_key(&tex, &glow, Some(&m), Some(alpha));
    assert_eq!(key.0, tex);
    assert_eq!(key.1, glow);
    assert_eq!(key.2, Some([4, 5, 6, 10, 11, 12, 14]));
    assert_eq!(key.3, Some((0x1ed, 9)));
    assert_eq!(material_key(&None, &None, None, None), (None, None, None, None));
}

#[test]
fn defaults_are_identity_and_white() {
    let one = 1.0f32.to_bits();
    let t = NifTransform::default();
    assert_eq!(t.translation, [0, 0, 0]);
    assert_eq!(t.rotation, [[one, 0, 0], [0, one, 0], [0, 0, one]]);
    assert_eq!(t.scale, one);
    let m = Material::default();
    assert_eq!(m.diffuse, [one, one, one]);
    assert_eq!(m.alpha, one);
    let tp = TexturingProperty::default();
    assert!(tp.base_texture.is_none() && tp.glow_texture.is_none());
}

#[test]
fn io_errors_render_with_their_prefix() {
    let e = NifError::Io(std::io::Error::new(std::io::ErrorKind::NotFound, "gone"));
    assert_eq!(e.to_text(), "I/O error: gone");
    assert_eq!(NifError::Parse("x".to_string()).to_text(), "parse error: x");
}

#[test]
fn block_type_reads_a_length_prefixed_name() {
    let mut bytes = 6u32.to_le_bytes().to_vec();
    bytes.extend_from_slice(b"NiNodeREST");
    let (rest, name) = bevy_beth::nif::block_type(&bytes).unwrap();
    assert_eq!(name.as_bytes(), b"NiNode");
    assert_eq!(rest, b"REST");
    assert!(bevy_beth::nif::block_type(&bytes[..8]).is_none());
    assert!(bevy_beth::nif::block_type(&[1, 0]).is_none());
}

#[test]
fn a_shapes_own_properties_win_over_inherited_ones() {
    // 0 root node with material 3 → [1 shape with material 2]; 4 its geometry.
    let mut b = Nb(synthetic_header(5));
    b.node("NiNode", 0, 0.0, &[1], &[3]);
    b.shape(0, 0.0, 4, &[2]);
    b.material(0.75);
    b.material(0.25);
    b.shape_data(true);
    let nif = Nif::parse(&b.0).unwrap();
    let shapes = nif.instances();
    assert_eq!(shapes.len(), 1);
    assert_eq!(shapes[0].material.unwrap().alpha, 0.75f32.to_bits());
    assert_eq!(nif.material(&vec![BlockRef(3), BlockRef(2)]).unwrap().alpha, 0.25f32.to_bits());
}

#[test]
fn alpha_property_maps_to_alpha_mode() {
    let mode = |flags, threshold| alpha_mode(Some(AlphaProperty { flags, threshold }));

    // No property at all → opaque; material alpha alone never blends.
    assert_eq!(alpha_mode(None), AlphaMode::Opaque);
    // Testing GREATER + blending (typical foliage flags): the cutout wins.
    assert_eq!(mode(1 | (6 << 1) | (7 << 5) | 0x0200 | (4 << 10), 128), AlphaMode::Mask(128));
    // Plain src-alpha / inv-src-alpha blending.
    assert_eq!(mode(1 | (6 << 1) | (7 << 5), 0), AlphaMode::Blend);
    // Destination factor ONE → additive.
    assert_eq!(mode(1 | (6 << 1), 0), AlphaMode::Add);
    // A property with everything switched off is explicitly opaque.
    assert_eq!(mode(0, 128), AlphaMode::Opaque);
}

#[test]
fn alpha_testing_with_other_functions_does_not_mask() {
    // Testing LESS (1) without blending: opaque; GREATER_EQUAL (6): mask.
    assert_eq!(alpha_mode(Some(AlphaProperty { flags: 0x0200 | (1 << 10), threshold: 9 })), AlphaMode::Opaque);
    assert_eq!(alpha_mode(Some(AlphaProperty { flags: 0x0200 | (6 << 10), threshold: 9 })), AlphaMode::Mask(9));
}

#[test]
fn scene_plan_resolves_glow_and_alpha_by_inheritance() {
    // 0 root node (alpha 2) → [1 shape (texturing 3)]; 3 names base 4 and glow 5; 6 geometry.
    let mut b = Nb(synthetic_header(7));
    b.node("NiNode", 0, 0.0, &[1], &[2]);
    b.shape(0, 0.0, 6, &[3]);
    b.string("NiAlphaProperty");
    b.net();
    b.u16(0x12ed);
    b.0.push(77);
    b.string("NiTexturingProperty");
    b.net();
    b.u16(0);
    b.u32(2);
    b.u32(5); // five slots: base, three absent, glow
    b.u32(1);
    b.i32(4);
    b.0.extend_from_slice(&[0u8; 18]);
    for _ in 0..3 {
        b.u32(0);
    }
    b.u32(1);
    b.i32(5);
    b.0.extend_from_slice(&[0u8; 18]);
    b.source("base.dds");
    b.source("glow.dds");
    b.shape_data(true);
    let nif = Nif::parse(&b.0).unwrap();
    let plan = nif.scene_plan();
    assert_eq!(plan.len(), 2);
    let s = plan[1].surface.unwrap();
    assert_eq!(s.base_texture.unwrap().as_bytes(), b"base.dds");
    assert_eq!(s.glow_texture.unwrap().as_bytes(), b"glow.dds");
    let a = s.alpha.unwrap();
    assert_eq!((a.flags, a.threshold), (0x12ed, 77));
    assert!(s.material.is_none());
    assert_eq!(alpha_mode(s.alpha), AlphaMode::Mask(77));
}

#[test]
fn the_first_texturing_property_decides_the_base_texture() {
    // 0 root node (texturing 3, naming 5) → [1 shape (texturing 2, naming the empty 4)];
    // 6 geometry. The shape's own texturing property decides: no texture.
    let mut b = Nb(synthetic_header(7));
    b.node("NiNode", 0, 0.0, &[1], &[3]);
    b.shape(0, 0.0, 6, &[2]);
    b.texturing(4);
    b.texturing(5);
    b.source("");
    b.source("wood.dds");
    b.shape_data(true);
    let nif = Nif::parse(&b.0).unwrap();
    let shapes = nif.instances();
    assert_eq!(shapes.len(), 1);
    assert!(shapes[0].base_texture.is_none());
    assert!(nif.base_texture(&vec![BlockRef(2), BlockRef(3)]).is_none());
    assert_eq!(nif.base_texture(&vec![BlockRef(3), BlockRef(2)]).unwrap().as_bytes(), b"wood.dds");
    // A texturing property whose source reference is missing decides too.
    assert!(nif.base_texture(&vec![BlockRef(0), BlockRef(2)]).is_none());
}

#[test]
fn failed_reads_leave_the_cursor() {
    let data = [1u8, 2, 3, 4];
    let mut r = Reader::new(&data);
    assert!(r.take(5).is_err());
    assert_eq!(r.remaining(), 4);
    assert_eq!(r.take(3).unwrap(), &[1, 2, 3]);
    assert!(r.u16().is_err());
    assert_eq!(r.remaining(), 1);
    let mut r = Reader::new(&data);
    assert!(matches!(
        bevy_beth::nif::parse::parse_block_inner(&mut r, b"NiUnheardOfBlockType"),
        Err(None)
    ));
    assert_eq!(r.remaining(), 4);
}
