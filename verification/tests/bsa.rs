use bevy_beth::bsa::directory::{name_hash, parse, VERSION_TES3};
use bevy_beth::bsa::{Bsa, BsaError};
use bevy_beth::latin1::decode_bytes;

const HEADER_LEN: usize = 12;

/// Assemble an archive from `(name, data)` pairs, hash-sorted like the real tool.
fn build_archive(files: &[(&str, &[u8])]) -> Vec<u8> {
    let mut entries: Vec<_> = files.iter().map(|&(n, d)| (n, d, name_hash(n))).collect();
    entries.sort_by_key(|&(_, _, hash)| hash);

    let mut names = Vec::new();
    let mut name_offsets = Vec::new();
    for (name, _, _) in &entries {
        name_offsets.push(names.len() as u32);
        names.extend_from_slice(name.as_bytes());
        names.push(0);
    }

    let count = entries.len();
    let hash_offset = count * 12 + names.len();
    let mut out = Vec::new();
    out.extend_from_slice(&VERSION_TES3.to_le_bytes());
    out.extend_from_slice(&(hash_offset as u32).to_le_bytes());
    out.extend_from_slice(&(count as u32).to_le_bytes());
    let mut data = Vec::new();
    for (_, bytes, _) in &entries {
        out.extend_from_slice(&(bytes.len() as u32).to_le_bytes());
        out.extend_from_slice(&(data.len() as u32).to_le_bytes());
        data.extend_from_slice(bytes);
    }
    for offset in &name_offsets {
        out.extend_from_slice(&offset.to_le_bytes());
    }
    out.extend_from_slice(&names);
    for (_, _, hash) in &entries {
        out.extend_from_slice(&((hash >> 32) as u32).to_le_bytes());
        out.extend_from_slice(&(*hash as u32).to_le_bytes());
    }
    out.extend_from_slice(&data);
    out
}

const FILES: &[(&str, &[u8])] = &[
    (r"Meshes\B\Thing.NIF", b"NIF-DATA"),
    (r"textures\wood.dds", b"DDS"),
];

fn parse_message(archive: &[u8]) -> String {
    match parse(archive) {
        Ok(_) => panic!("archive should be refused"),
        Err(e) => e.to_text(),
    }
}

#[test]
fn parses_and_serves_records() {
    let archive = build_archive(FILES);
    let dir = parse(&archive).expect("valid archive");
    assert_eq!(dir.version(), VERSION_TES3);
    assert_eq!(dir.len(), 2);
    assert_eq!(dir.data().len(), FILES.iter().map(|(_, d)| d.len()).sum::<usize>());

    for &(name, data, ..) in FILES {
        let i = dir
            .find(name_hash(name))
            .unwrap_or_else(|| panic!("{name} should be found"));
        let record = dir.record(i);
        assert_eq!(record.name, name.as_bytes());
        assert_eq!(record.hash, name_hash(name));
        assert_eq!(dir.bytes(record), data);
    }
    assert_eq!(dir.find(name_hash("nowhere.nif")), None);
}

#[test]
fn hash_normalizes_case_and_separators() {
    assert_eq!(name_hash("Meshes/B/Thing.NIF"), name_hash(r"meshes\b\thing.nif"));
    assert_ne!(name_hash(r"meshes\b\thing.nif"), name_hash(r"meshes\b\thing.nif2"));
}

#[test]
fn hash_of_known_names() {
    // The empty name hashes to zero; a one-byte name only fills the low word, rotated
    // right by its own low five bits.
    assert_eq!(name_hash(""), 0);
    assert_eq!(name_hash("a"), 0x61u32.rotate_right(1) as u64);
    // "ab": 'a' folds into the high word; 'b' is xored in, then rotated right by 0x62 & 31.
    assert_eq!(name_hash("ab"), (0x61u64 << 32) | (0x62u32.rotate_right(0x62 & 0x1f)) as u64);
}

#[test]
fn rejects_truncated_header() {
    let err = parse_message(&[0; 8]);
    assert!(err.contains("header"), "{err}");
}

#[test]
fn directory_rejects_wrong_version() {
    let mut archive = build_archive(FILES);
    archive[..4].copy_from_slice(&0x101u32.to_le_bytes());
    let err = parse_message(&archive);
    assert!(err.contains("version"), "{err}");
}

#[test]
fn rejects_hash_offset_smaller_than_the_tables() {
    let mut archive = build_archive(FILES);
    archive[4..8].copy_from_slice(&23u32.to_le_bytes()); // < count × 12
    let err = parse_message(&archive);
    assert!(err.contains("no room"), "{err}");
}

#[test]
fn rejects_truncated_directory() {
    let archive = build_archive(FILES);
    let err = parse_message(&archive[..HEADER_LEN + 4]);
    assert!(err.contains("truncated"), "{err}");
}

#[test]
fn rejects_name_offset_outside_the_blob() {
    let mut archive = build_archive(FILES);
    let name_offsets = HEADER_LEN + 2 * 8;
    archive[name_offsets..name_offsets + 4].copy_from_slice(&999u32.to_le_bytes());
    let err = parse_message(&archive);
    assert!(err.contains("name offset"), "{err}");
}

#[test]
fn rejects_unsorted_hash_table() {
    let mut archive = build_archive(FILES);
    let hashes = archive.len() - FILES.iter().map(|(_, d)| d.len()).sum::<usize>() - 2 * 8;
    archive[hashes..hashes + 4].copy_from_slice(&u32::MAX.to_le_bytes());
    let err = parse_message(&archive);
    assert!(err.contains("not sorted"), "{err}");
}

#[test]
fn rejects_data_extending_past_the_archive() {
    let mut archive = build_archive(FILES);
    archive[HEADER_LEN..HEADER_LEN + 4].copy_from_slice(&u32::MAX.to_le_bytes());
    let err = parse_message(&archive);
    assert!(err.contains("past the end"), "{err}");
}

#[test]
fn archive_serves_files_by_any_case_or_separator() {
    let bsa = Bsa::from_bytes(build_archive(FILES)).expect("valid archive");
    assert_eq!(bsa.version(), VERSION_TES3);
    assert_eq!(bsa.len(), 2);
    assert!(!bsa.is_empty());
    assert_eq!(bsa.get("meshes/b/thing.nif"), Some(&b"NIF-DATA"[..]));
    assert_eq!(bsa.get(r"TEXTURES\WOOD.DDS"), Some(&b"DDS"[..]));
    assert_eq!(bsa.get(r"textures\wood.tga"), None);
    let files = bsa.files();
    assert_eq!(files.len(), 2);
    for (name, data) in files {
        let text = String::from_utf8(name.as_bytes().to_vec()).unwrap();
        assert_eq!(bsa.get(&text), Some(data));
    }
}

#[test]
fn later_duplicate_name_wins() {
    let bsa = Bsa::from_bytes(build_archive(&[("a.nif", b"first"), ("A.NIF", b"second")])).unwrap();
    assert_eq!(bsa.get("a.nif"), Some(&b"second"[..]));
    // The listing names the path once, with the bytes a lookup serves.
    assert_eq!(bsa.len(), 1);
    let files = bsa.files();
    assert_eq!(files.len(), 1);
    assert_eq!(files[0].0.as_bytes(), b"A.NIF");
    assert_eq!(files[0].1, b"second");
    assert_eq!(bsa.records().len(), 1);
}

#[test]
fn entries_no_lookup_reaches_are_not_listed() {
    // A single entry whose stored hash is not its name's hash.
    let mut archive = build_archive(&[("a.nif", b"data")]);
    let hashes = archive.len() - 4 - 8;
    archive[hashes..hashes + 4].copy_from_slice(&7u32.to_le_bytes());
    let bsa = Bsa::from_bytes(archive).unwrap();
    assert_eq!(bsa.get("a.nif"), None);
    assert!(bsa.is_empty());
    assert!(bsa.files().is_empty());
}

#[test]
fn empty_archive_has_no_files() {
    let bsa = Bsa::from_bytes(build_archive(&[])).unwrap();
    assert!(bsa.is_empty());
    assert_eq!(bsa.len(), 0);
    assert_eq!(bsa.get("anything"), None);
}

#[test]
fn archive_errors_render_their_message() {
    let err = Bsa::from_bytes(vec![0; 4]).err().expect("too short");
    assert!(matches!(err, BsaError::Parse(_)));
    assert_eq!(err.to_text(), "parse error: truncated BSA header");
    let version = parse_message(&{
        let mut a = build_archive(FILES);
        a[..4].copy_from_slice(&0x101u32.to_le_bytes());
        a
    });
    assert_eq!(version, "parse error: unsupported BSA version 0x101 (expected 0x100)");
}

#[test]
fn computed_hashes_match_and_every_name_resolves_to_its_record() {
    let bsa = Bsa::from_bytes(build_archive(FILES)).unwrap();
    let records = bsa.records();
    assert_eq!(records.len(), bsa.len());
    let mut total = 0;
    for r in records {
        let name = decode_bytes(r.name);
        assert!(!name.is_empty());
        assert_eq!(name_hash(&name), r.hash);
        let data = bsa.get(&name).expect("every name resolves");
        assert!(std::ptr::eq(data, bsa.bytes(r)));
        total += bsa.bytes(r).len();
    }
    assert_eq!(total, 8 + 3);
}

#[test]
fn every_listed_file_is_found_by_its_decoded_name() {
    let bsa = Bsa::from_bytes(build_archive(FILES)).unwrap();
    let files = bsa.files();
    assert_eq!(files.len(), bsa.len());
    for (path, data) in &files {
        let name = decode_bytes(path.as_bytes());
        let found = bsa.get(&name).expect("a listed name resolves");
        assert!(std::ptr::eq(found, *data));
        assert_eq!(bsa.get(&name.to_uppercase()).map(|b| b.as_ptr()), Some(data.as_ptr()));
    }
}
