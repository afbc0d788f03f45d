use bevy_beth::nif::blocks::{AlphaProperty, Material};
use bevy_beth::nif::parse::{key_group, keys};
use bevy_beth::nif::plan::material_key as plain_material_key;
use bevy_beth::nif::reader::Reader;
use bevy_beth::nif::scene::material_key;
use bevy_beth::nif::share::{share_materials, SharedKey};

fn material(diffuse: u32) -> Material {
    Material {
        ambient: [0, 0, 0],
        diffuse: [diffuse, 0, 0],
        specular: [0, 0, 0],
        emissive: [0, 0, 0],
        glossiness: 0,
        alpha: 1,
    }
}

#[test]
fn shapes_with_equal_keys_share_one_material() {
    let a = Some("textures\\a.dds".to_string());
    let b = Some("textures\\b.dds".to_string());
    let red = material(1);
    let blue = material(2);
    let keys = vec![
        material_key(&a, &None, Some(&red), None),
        material_key(&b, &None, Some(&red), None),
        material_key(&a, &None, Some(&red), None),
        material_key(&a, &None, Some(&blue), None),
        material_key(&b, &None, Some(&red), None),
        material_key(&a, &None, Some(&red), Some(AlphaProperty { flags: 0x1ed, threshold: 0 })),
    ];
    let s = share_materials(&keys);
    assert_eq!(s.minted, vec![0, 1, 3, 5]);
    assert_eq!(s.material_of, vec![0, 1, 0, 2, 1, 3]);
}

#[test]
fn sharing_compares_texture_text_not_allocation() {
    let one = Some("textures\\x.dds".to_string());
    let other = Some(String::from("textures\\x.dds"));
    let k1 = plain_material_key(&one, None);
    let k2 = plain_material_key(&other, None);
    assert!(k1.same_material(&k2));
    assert!(!k1.same_material(&plain_material_key(&None, None)));
    let s = share_materials(&vec![k1, k2, plain_material_key(&None, None)]);
    assert_eq!(s.minted, vec![0, 2]);
    assert_eq!(s.material_of, vec![0, 0, 1]);
}

#[test]
fn glow_and_alpha_separate_materials() {
    let t = Some("textures\\t.dds".to_string());
    let g = Some("textures\\g.dds".to_string());
    let k1 = material_key(&t, &None, None, None);
    let k2 = material_key(&t, &g, None, None);
    let k3 = material_key(&t, &g, None, Some(AlphaProperty { flags: 1, threshold: 128 }));
    assert!(!k1.same_material(&k2));
    assert!(!k2.same_material(&k3));
    assert!(k3.same_material(&k3.clone()));
}

#[test]
fn no_shapes_mint_no_materials() {
    let keys: Vec<(Option<String>, Option<[u32; 7]>)> = Vec::new();
    let s = share_materials(&keys);
    assert!(s.minted.is_empty());
    assert!(s.material_of.is_empty());
}

#[test]
fn wide_key_values_are_sized_without_a_width_cap() {
    // Two linear keys of 100-byte values: 2 * (4 + 100) bytes.
    let data = vec![0u8; 208];
    let mut r = Reader::new(&data);
    assert!(keys(&mut r, 2, 0, 100).is_ok());
    assert_eq!(r.remaining(), 0);

    // A key group of one quadratic key of 20-byte values: count, type, 4 + 20 + 40 bytes.
    let mut group = Vec::new();
    group.extend_from_slice(&1u32.to_le_bytes());
    group.extend_from_slice(&2u32.to_le_bytes());
    group.extend_from_slice(&[0u8; 64]);
    let mut r = Reader::new(&group);
    assert!(key_group(&mut r, 20).is_ok());
    assert_eq!(r.remaining(), 0);

    // One byte short fails.
    let mut r = Reader::new(&group[..group.len() - 1]);
    assert!(key_group(&mut r, 20).is_err());
}
