use bevy_beth::terrain::{splat_layers, MAX_TERRAIN_LAYERS};

#[test]
fn layers_follow_first_appearance() {
    let s = splat_layers(&[5, 0, 5, 9, 0]);
    assert_eq!(s.values, vec![5, 0, 9]);
    assert_eq!(s.indices, vec![0, 1, 0, 2, 1]);
    assert!(!s.overflow);
}

#[test]
fn values_past_the_layer_limit_fall_back_to_slot_zero() {
    let grid: Vec<u16> = (0..20u16).chain([3, 18]).collect();
    let s = splat_layers(&grid);
    assert_eq!(s.values.len(), MAX_TERRAIN_LAYERS);
    assert_eq!(s.values, (0..16u16).collect::<Vec<_>>());
    assert!(s.overflow);
    assert_eq!(s.indices[..16], (0..16u32).collect::<Vec<_>>()[..]);
    assert_eq!(s.indices[16..], [0, 0, 0, 0, 3, 0]);
    for (k, &v) in grid.iter().enumerate() {
        let slot = s.indices[k] as usize;
        assert!(slot < MAX_TERRAIN_LAYERS);
        if s.values.contains(&v) {
            assert_eq!(s.values[slot], v);
        }
    }
}

#[test]
fn an_empty_grid_has_no_layers() {
    let s = splat_layers(&[]);
    assert!(s.values.is_empty() && s.indices.is_empty() && !s.overflow);
}
