use bevy_beth::bsa::directory::{name_hash, VERSION_TES3};
use bevy_beth::bsa::Bsa;
use bevy_beth::vfs::{Source, TesVfs};

/// Assemble an archive from `(name, data)` pairs, hash-sorted like the real tool.
fn build_archive(files: &[(&str, &[u8])]) -> Vec<u8> {
    let mut entries: Vec<_> = files.iter().map(|&(n, d)| (n, d, name_hash(n))).collect();
    entries.sort_by_key(|&(_, _, hash)| hash);
    let mut names = Vec::new();
    let mut name_offsets = Vec::new();
    for (name, _, _) in &entries {
        name_offsets.push(names.len() as u32);
        names.extend_from_slice(name.as_bytes());
        names.push(0);
    }
    let count = entries.len();
    let hash_offset = count * 12 + names.len();
    let mut out = Vec::new();
    out.extend_from_slice(&VERSION_TES3.to_le_bytes());
    out.extend_from_slice(&(hash_offset as u32).to_le_bytes());
    out.extend_from_slice(&(count as u32).to_le_bytes());
    let mut data = Vec::new();
    for (_, bytes, _) in &entries {
        out.extend_from_slice(&(bytes.len() as u32).to_le_bytes());
        out.extend_from_slice(&(data.len() as u32).to_le_bytes());
        data.extend_from_slice(bytes);
    }
    for offset in &name_offsets {
        out.extend_from_slice(&offset.to_le_bytes());
    }
    out.extend_from_slice(&names);
    for (_, _, hash) in &entries {
        out.extend_from_slice(&((hash >> 32) as u32).to_le_bytes());
        out.extend_from_slice(&(*hash as u32).to_le_bytes());
    }
    out.extend_from_slice(&data);
    out
}

fn archive(files: &[(&str, &[u8])]) -> Bsa {
    Bsa::from_bytes(build_archive(files)).expect("valid archive")
}

/// A data root with the lowercase loose tree the engine ships.
fn lowercase(archives: Vec<Bsa>) -> TesVfs {
    TesVfs::new(
        "data".to_string(),
        archives,
        vec![b"textures/tx_wood.dds".to_vec(), b"meshes/x/thing.nif".to_vec()],
    )
}

fn loose_path(vfs: &TesVfs, path: &str) -> Option<Vec<u8>> {
    match vfs.lookup(path) {
        Some(Source::Loose(p)) => Some(p.to_vec()),
        _ => None,
    }
}

fn archived(vfs: &TesVfs, path: &str) -> Option<Vec<u8>> {
    match vfs.lookup(path) {
        Some(Source::Archived(b)) => Some(b.to_vec()),
        _ => None,
    }
}

#[test]
fn loose_lookups_on_a_lowercase_tree_ignore_case_and_separator() {
    let vfs = lowercase(Vec::new());
    for path in [
        r"Textures\TX_Wood.dds",
        r"TEXTURES\tx_wood.DDS",
        "textures/tx_wood.dds",
        r"MESHES/x\thing.nif",
    ] {
        assert!(vfs.contains(path), "should resolve {path:?}");
    }
    assert_eq!(loose_path(&vfs, "TEXTURES/TX_WOOD.DDS").unwrap(), b"textures/tx_wood.dds");
    assert!(!vfs.contains(r"textures\missing.dds"));
    assert!(vfs.lookup(r"textures\missing.dds").is_none());
    assert_eq!(vfs.root(), Some("data"));
}

#[test]
fn mixed_case_trees_resolve_by_exact_case_everywhere() {
    let vfs = TesVfs::new("data".to_string(), Vec::new(), vec![b"Textures/TX_Wood.dds".to_vec()]);
    assert!(vfs.contains(r"Textures\TX_Wood.dds"));
    assert!(vfs.contains("Textures/TX_Wood.dds"));
    assert!(!vfs.contains(r"Textures\Missing.dds"));
    // The loose path is reported as it was listed, case preserved.
    assert_eq!(loose_path(&vfs, r"TEXTURES\tx_wood.DDS").unwrap(), b"Textures/TX_Wood.dds");
}

#[test]
fn unsafe_paths_and_the_empty_vfs_miss() {
    let vfs = lowercase(Vec::new());
    assert!(!vfs.contains(r"..\..\etc\passwd"));
    assert!(vfs.lookup("../textures/tx_wood.dds").is_none());
    let empty = TesVfs::empty();
    assert!(!empty.contains("textures/tx_wood.dds"));
    assert_eq!(empty.root(), None);
}

#[test]
fn vfs_resolve_texture_swaps_extensions() {
    let vfs = lowercase(Vec::new());
    assert_eq!(vfs.resolve_texture("TX_Wood.dds").as_deref(), Some("textures/tx_wood.dds"));
    assert_eq!(vfs.resolve_texture("tx_wood.tga").as_deref(), Some("textures/tx_wood.dds"));
    assert_eq!(
        vfs.resolve_texture(r"textures\tx_wood.dds").as_deref(),
        Some("textures/tx_wood.dds")
    );
    assert_eq!(vfs.resolve_texture("tx_nowhere.tga"), None);
}

#[test]
fn resolve_texture_tries_the_tga_last_and_keeps_dotted_stems() {
    let vfs = TesVfs::new(
        "data".to_string(),
        Vec::new(),
        vec![b"textures/a.b.tga".to_vec(), b"textures/noext.dds".to_vec()],
    );
    assert_eq!(vfs.resolve_texture("A.B.dds").as_deref(), Some("textures/a.b.tga"));
    assert_eq!(vfs.resolve_texture("noext").as_deref(), Some("textures/noext.dds"));
    // A trailing separator leaves an empty file name: nothing resolves.
    assert_eq!(vfs.resolve_texture("textures/"), None);
}

#[test]
fn vfs_resolve_model_prepends_meshes() {
    let vfs = lowercase(Vec::new());
    assert_eq!(vfs.resolve_model(r"x\Thing.NIF").as_deref(), Some("meshes/x/thing.nif"));
    assert_eq!(vfs.resolve_model(r"meshes\x\thing.nif").as_deref(), Some("meshes/x/thing.nif"));
    assert_eq!(vfs.resolve_model(r"x\nowhere.nif"), None);
}

const PROBE: &str = r"meshes\m\probe_journeyman_01.nif";

#[test]
fn vfs_reads_out_of_archives() {
    let probe = vec![7u8; 6276];
    let vfs = TesVfs::new("data".to_string(), vec![archive(&[(PROBE, &probe)])], Vec::new());
    let bytes = archived(&vfs, PROBE).expect("archive-backed read");
    assert_eq!(bytes.len(), 6276);
    assert!(vfs.contains("MESHES/M/PROBE_JOURNEYMAN_01.NIF"));
}

#[test]
fn vfs_loose_files_override_archives() {
    let vfs = TesVfs::new(
        "data".to_string(),
        vec![archive(&[(PROBE, b"ARCHIVED")])],
        vec![b"meshes/m/probe_journeyman_01.nif".to_vec()],
    );
    assert_eq!(
        loose_path(&vfs, PROBE).expect("the loose file must win over the archive copy"),
        b"meshes/m/probe_journeyman_01.nif"
    );
}

#[test]
fn later_archives_override_earlier_ones() {
    let path = r"meshes\x\ex_dae_wall_256_04.nif";
    let morrowind = vec![1u8; 32298];
    let bloodmoon = vec![2u8; 34747];
    let forward = TesVfs::new(
        "data".to_string(),
        vec![archive(&[(path, &morrowind)]), archive(&[(path, &bloodmoon)])],
        Vec::new(),
    );
    assert_eq!(archived(&forward, path).expect("present in both").len(), 34747);
    let reverse = TesVfs::new(
        "data".to_string(),
        vec![archive(&[(path, &bloodmoon)]), archive(&[(path, &morrowind)])],
        Vec::new(),
    );
    assert_eq!(archived(&reverse, path).expect("present in both").len(), 32298);
}

#[test]
fn archives_without_the_path_do_not_shadow_earlier_ones() {
    let vfs = TesVfs::new(
        "data".to_string(),
        vec![archive(&[("a.nif", b"A")]), archive(&[("b.nif", b"B")])],
        Vec::new(),
    );
    assert_eq!(archived(&vfs, "A.NIF").unwrap(), b"A");
    assert_eq!(archived(&vfs, "b.nif").unwrap(), b"B");
    assert_eq!(vfs.resolve_model("a.nif").as_deref(), Some("a.nif"));
}

#[test]
fn the_last_listed_loose_file_wins_among_same_paths() {
    let loose: Vec<Vec<u8>> = vec![
        b"meshes/a.nif".to_vec(),
        b"textures/b.dds".to_vec(),
        b"MESHES/A.NIF".to_vec(),
        b"meshes/c.nif".to_vec(),
    ];
    let vfs = TesVfs::new("data".to_string(), Vec::new(), loose);
    assert_eq!(loose_path(&vfs, r"meshes\a.nif").unwrap(), b"MESHES/A.NIF");
    assert_eq!(loose_path(&vfs, "Meshes/C.nif").unwrap(), b"meshes/c.nif");
    assert_eq!(loose_path(&vfs, "textures/b.dds").unwrap(), b"textures/b.dds");
    assert!(vfs.lookup("meshes/d.nif").is_none());
}

#[test]
fn many_loose_files_resolve_by_index() {
    let loose: Vec<Vec<u8>> = (0..500).map(|i| format!("meshes/x/thing_{i}.nif").into_bytes()).collect();
    let vfs = TesVfs::new("data".to_string(), Vec::new(), loose);
    for i in (0..500).step_by(37) {
        let want = format!("meshes/x/thing_{i}.nif");
        assert_eq!(loose_path(&vfs, &want.to_uppercase()).unwrap(), want.as_bytes());
    }
    assert!(!vfs.contains("meshes/x/thing_500.nif"));
}
