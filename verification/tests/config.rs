use bevy_beth::cell::{reference_decision, CellId, CellReference, CellSpawned, ObjectKind, ReferenceDecision};
use bevy_beth::vfs::TesVfs;
use bevy_beth::plugin::{BethPlugin, TesPlugin, TES_SOURCE};

#[test]
fn cell_ids_compare_by_name_or_grid() {
    assert_eq!(CellId::interior("Balmora, Guild of Mages"), CellId::Interior("Balmora, Guild of Mages".to_string()));
    assert_eq!(CellId::exterior(-3, 7), CellId::Exterior { x: -3, y: 7 });
    assert_ne!(CellId::exterior(-3, 7), CellId::exterior(7, -3));
    assert_ne!(CellId::interior("0"), CellId::exterior(0, 0));
    assert_ne!(CellId::interior("Vivec"), CellId::interior("vivec"));
}

#[test]
fn object_kinds_are_plain_values() {
    assert_eq!(ObjectKind::Static, ObjectKind::Static);
    assert_ne!(ObjectKind::Npc, ObjectKind::Creature);
}

#[test]
fn cell_components_hold_their_fields() {
    let spawned = CellSpawned { spawned: 3, skipped: 1 };
    assert_eq!(spawned.spawned + spawned.skipped, 4);
    let r = CellReference { id: 42, object: "furn_de_table_02".to_string() };
    assert_eq!(r.id, 42);
    assert_eq!(r.object, "furn_de_table_02");
}

#[test]
fn plugins_start_from_a_data_root() {
    let p = BethPlugin::new("Data Files");
    assert_eq!(p.data_root, "Data Files");
    assert!(p.archives.is_none());
    assert_eq!(BethPlugin::default().data_root, "data");

    let t = TesPlugin::new("Data Files")
        .with_plugins(vec!["Morrowind.esm".to_string(), "Tribunal.esm".to_string()]);
    assert_eq!(t.data_root, "Data Files");
    assert!(t.archives.is_none());
    assert_eq!(t.plugins, vec!["Morrowind.esm".to_string(), "Tribunal.esm".to_string()]);
    assert!(TesPlugin::default().plugins.is_empty());
    assert_eq!(TES_SOURCE, "tes");
}

#[test]
fn references_are_placed_skipped_or_unknown() {
    let vfs = TesVfs::new("data".to_string(), Vec::new(), vec![b"meshes/f/table.nif".to_vec()]);
    assert!(matches!(reference_decision(&vfs, None, false, None), ReferenceDecision::UnknownObject));
    assert!(matches!(
        reference_decision(&vfs, Some(ObjectKind::Npc), false, Some("n.nif")),
        ReferenceDecision::Skipped
    ));
    assert!(matches!(
        reference_decision(&vfs, Some(ObjectKind::Static), true, Some(r"f	able.nif")),
        ReferenceDecision::Skipped
    ));
    match reference_decision(&vfs, Some(ObjectKind::Static), false, Some(r"F\Table.NIF")) {
        ReferenceDecision::Placed { model_path, unresolved_model } => {
            assert_eq!(model_path.as_deref(), Some("meshes/f/table.nif"));
            assert!(!unresolved_model);
        }
        other => panic!("should be placed: {other:?}"),
    }
    match reference_decision(&vfs, Some(ObjectKind::Light), false, Some(r"f\lamp.nif")) {
        ReferenceDecision::Placed { model_path, unresolved_model } => {
            assert!(model_path.is_none() && unresolved_model);
        }
        other => panic!("should be placed: {other:?}"),
    }
    assert!(ObjectKind::Container.is_spawnable());
    assert!(!ObjectKind::LeveledItem.is_spawnable());
}
