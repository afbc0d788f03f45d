use bevy_beth::bytes::{finish, fixed_l1str, l1, parse_or_default};
use bevy_beth::latin1::{decode_bytes, L1String};
use bevy_beth::math::{color, Color};
use bevy_beth::paths::{model_path, normalize, normalize_bytes, paths_equal, TesPath};
use bevy_beth::tes_id::{TesId, TesIdBuf};

#[test]
fn l1_stops_at_nul() {
    assert_eq!(l1(b"a\x00bc"), b"a");
    assert_eq!(l1(b"abc"), b"abc");
}

#[test]
fn fixed_reads_exactly_n() {
    let (rest, s) = fixed_l1str(4, b"ab\x00\x00XY").unwrap();
    assert_eq!(s, b"ab");
    assert_eq!(rest, b"XY");
}

#[test]
fn fixed_refuses_short_input() {
    assert!(fixed_l1str(4, b"abc").is_none());
    let (rest, s) = fixed_l1str(3, b"abc").unwrap();
    assert_eq!(s, b"abc");
    assert!(rest.is_empty());
}

#[test]
fn finish_ignores_trailing_bytes() {
    assert_eq!(finish(Some((&b"trailing"[..], 7u32))), Some(7));
    assert_eq!(finish::<u32>(None), None);
}

#[test]
fn parse_or_default_falls_back_on_short_payloads() {
    let full = parse_or_default(color, &[1, 2, 3, 4, 5]);
    assert_eq!(full, Color { r: 1, g: 2, b: 3, a: 4 });
    let short = parse_or_default(color, &[1, 2]);
    assert_eq!(short, Color::default());
}

#[test]
fn color_reads_four_bytes() {
    let (rest, c) = color(&[1, 2, 3, 4, 9]).unwrap();
    assert_eq!(c, Color { r: 1, g: 2, b: 3, a: 4 });
    assert_eq!(rest, &[9]);
}

#[test]
fn color_needs_four_bytes() {
    assert!(color(&[1, 2, 3]).is_none());
}

#[test]
fn normalizes_case_and_separators() {
    assert_eq!(normalize("Textures/TX_Wood.DDS"), r"textures\tx_wood.dds");
    assert_eq!(normalize(r"meshes\i\Shack.NIF"), r"meshes\i\shack.nif");
    assert_eq!(normalize(""), "");
}

#[test]
fn normalize_leaves_non_ascii_alone() {
    assert_eq!(normalize("Ä/É"), r"Ä\É");
    assert_eq!(normalize_bytes(b"A/\xC4"), b"a\\\xC4".to_vec());
}

#[test]
fn equal_ignoring_case_and_separators() {
    let a = TesPath::from_bytes(br"MESHES\I\Shack.NIF");
    let b = TesPath::from_bytes(b"meshes/i/shack.nif");
    assert_eq!(a, b);
    assert!(paths_equal(a.as_bytes(), b.as_bytes()));
}

#[test]
fn distinct_paths_differ() {
    assert_ne!(TesPath::from_bytes(br"meshes\a.nif"), TesPath::from_bytes(br"meshes\b.nif"));
}

#[test]
fn paths_of_different_length_differ() {
    assert_ne!(TesPath::from_bytes(br"meshes\a.nif"), TesPath::from_bytes(br"meshes\a.nif2"));
}

#[test]
fn paths_deref_exposes_original_bytes() {
    let p = TesPath::from_bytes(br"MESHES\Probe.NIF");
    assert_eq!(p.as_bytes(), br"MESHES\Probe.NIF");
}

#[test]
fn path_until_null_stops_at_nul() {
    let p = TesPath::from_bytes_until_null(b"meshes\\a.nif\x00junk");
    assert_eq!(p.as_bytes(), b"meshes\\a.nif");
}

#[test]
fn model_path_skips_empty_references() {
    assert!(model_path(None).is_none());
    assert!(model_path(Some(b"")).is_none());
    assert_eq!(model_path(Some(br"f\x.nif")).unwrap().as_bytes(), br"f\x.nif");
}

#[test]
fn equal_ignoring_case() {
    let a = TesId::from_bytes(b"Furn_DE_Table_02");
    let b = TesId::from_bytes(b"furn_de_table_02");
    assert_eq!(a, b);
}

#[test]
fn separators_are_significant() {
    assert_ne!(TesId::from_bytes(b"a/b"), TesId::from_bytes(b"a\\b"));
}

#[test]
fn distinct_ids_differ() {
    assert_ne!(TesId::from_bytes(b"rat"), TesId::from_bytes(b"cliff_racer"));
}

#[test]
fn tes_id_deref_exposes_original_bytes() {
    let id = TesId::from_bytes(b"Furn_Thing");
    assert_eq!(id.as_bytes(), b"Furn_Thing");
}

#[test]
fn owned_key_probed_by_borrowed_id() {
    // An association list keyed by owned ids, probed through borrowed ids of another case.
    let map: Vec<(TesIdBuf, i32)> = vec![(TesId::from_bytes(b"Light_Fire").to_owned(), 7)];
    let get = |probe: TesId| map.iter().find(|(k, _)| k.as_tes_id() == probe).map(|(_, v)| v);
    assert_eq!(get(TesId::from_bytes(b"light_fire")), Some(&7));
    assert_eq!(get(TesId::from_bytes(b"light_ice")), None);
}

#[test]
fn owned_ids_compare_like_borrowed_ones() {
    let a = TesIdBuf::from_bytes(b"Ex_Common".to_vec());
    let b = TesIdBuf::from_bytes(b"EX_COMMON".to_vec());
    assert!(a == b);
    assert_eq!(TesId::from_bytes_until_null(b"rat\x00x").as_bytes(), b"rat");
}

#[test]
fn latin1_decodes_windows_1252() {
    assert_eq!(decode_bytes(b"caf\xe9 \x80\x99"), "café €™");
    assert_eq!(decode_bytes(b"\x81\x8d"), "\u{81}\u{8d}");
    let s = L1String::from_bytes(b"Tx_Wood.dds".to_vec());
    assert_eq!(s.decode(), "Tx_Wood.dds");
    assert_eq!(s.len(), 11);
    assert!(!s.is_empty());
    assert!(L1String::default().is_empty());
}

#[test]
fn normalize_maps_bytes_and_is_a_fixed_point() {
    let path = "Textures/Ünï/ÄB.DDS";
    let r = normalize(path);
    assert_eq!(r, "textures\\Ünï\\Äb.dds");
    assert_eq!(r.len(), path.len());
    for (a, b) in path.bytes().zip(r.bytes()) {
        let expected = if a == b'/' { b'\\' } else { a.to_ascii_lowercase() };
        assert_eq!(b, expected);
    }
    assert_eq!(r.as_bytes(), normalize_bytes(path.as_bytes()).as_slice());
    assert_eq!(normalize(&r), r);
}

#[test]
fn path_keys_agree_with_path_equality() {
    let a = TesPath::from_bytes(b"Meshes/M/Probe.NIF");
    let b = TesPath::from_bytes(b"meshes\\m\\probe.nif");
    let c = TesPath::from_bytes(b"meshes\\m\\probe2.nif");
    assert_eq!(a.key(), b"meshes\\m\\probe.nif".to_vec());
    assert_eq!(a.key(), b.key());
    assert!(a == b);
    assert_ne!(a.key(), c.key());
    assert!(a != c);
    assert_eq!(a.as_bytes(), b"Meshes/M/Probe.NIF");
}

#[test]
fn owned_id_key_found_by_borrowed_probe() {
    let mut map = std::collections::HashMap::new();
    map.insert(TesIdBuf::from_bytes(b"Light_Fire".to_vec()).key(), 7);
    assert_eq!(map.get(&TesId::from_bytes(b"LIGHT_FIRE").key()), Some(&7));
    assert_eq!(map.get(&TesId::from_bytes(b"light_ice").key()), None);
    assert_eq!(TesId::from_bytes(b"Ex/Common").key(), b"ex/common".to_vec());
}
