use figby::light_panel::LightPanel;
use figby::lighting::{mirror_idx, LightKind, LightingLut, LutEntry, Normal3, NormalMap, ENTRIES_PER_SWATCH};

#[test]
fn normal_map_new() {
    let nm = NormalMap::new(5, 3);
    assert_eq!(nm.width(), 5);
    assert_eq!(nm.height(), 3);
    assert_eq!(nm.cells.len(), 3);
    assert_eq!(nm.cells[0].len(), 5);
    for row in &nm.cells {
        for cell in row {
            assert_eq!(*cell, Normal3(0, 0, 127));
        }
    }
}

#[test]
fn normal_map_bounds() {
    let nm = NormalMap::new(1, 1);
    assert!(nm.get(0, 0).is_some());
    assert!(nm.get(1, 0).is_none());
    assert!(nm.get(0, 1).is_none());
    assert!(nm.get(2, 0).is_none());
}

#[test]
fn normal_map_set_get() {
    let mut nm = NormalMap::new(2, 2);
    nm.set(1, 1, Normal3(100, 50, 30));
    assert_eq!(nm.get(1, 1), Some(&Normal3(100, 50, 30)));
    assert_eq!(nm.get(0, 0), Some(&Normal3(0, 0, 127)));
}

#[test]
fn test_light_panel_empty() {
    let panel = LightPanel::new();
    assert_eq!(panel.selected_index(), 0);
}

#[test]
fn test_light_panel_selection() {
    let mut panel = LightPanel::new();
    assert_eq!(panel.selected_index(), 0);
    panel.set_selected(1, 2);
    assert_eq!(panel.selected_index(), 1);
    panel.set_selected(5, 2);
    assert_eq!(panel.selected_index(), 1);
}

#[test]
fn test_light_panel_multiple() {
    let kinds = [LightKind::Ambient, LightKind::Directional, LightKind::Point];
    assert_eq!(LightPanel::light_type_str(&kinds, 0), Some("Ambient"));
    assert_eq!(LightPanel::light_type_str(&kinds, 1), Some("Directional"));
    assert_eq!(LightPanel::light_type_str(&kinds, 2), Some("Point"));
}

// Further cases.

#[test]
fn light_panel_empty_scene_and_out_of_range() {
    let mut panel = LightPanel::new();
    panel.set_selected(3, 0);
    assert_eq!(panel.selected_index(), 0);
    assert_eq!(LightPanel::light_type_str(&[LightKind::Point], 1), None);
}

#[test]
fn normal_map_set_outside_keeps_map() {
    let mut nm = NormalMap::new(2, 1);
    nm.set(5, 0, Normal3(1, 2, 3));
    assert_eq!(nm.get(0, 0), Some(&Normal3(0, 0, 127)));
    assert_eq!(nm.get(1, 0), Some(&Normal3(0, 0, 127)));
    let lut = LightingLut {
        entries: vec![LutEntry { fg_color: (1, 2, 3), bg_color: None, ch: '#' }],
        swatch_count: 1,
    };
    assert_eq!(lut.swatch_count(), 1);
}

#[test]
fn normal_map_get_mut_writes_through() {
    let mut map = NormalMap::new(3, 2);
    if let Some(n) = map.get_mut(2, 1) {
        *n = Normal3(10, -20, 30);
    }
    assert_eq!(map.get(2, 1), Some(&Normal3(10, -20, 30)));
    assert_eq!(map.get(1, 1), Some(&Normal3(0, 0, 127)));
    assert!(map.get_mut(3, 0).is_none());
    assert!(map.get_mut(0, 2).is_none());
}

#[test]
fn lut_entry_at_clamps_swatch_and_level() {
    let mut entries = Vec::new();
    for s in 0..2u8 {
        for i in 0..ENTRIES_PER_SWATCH {
            entries.push(LutEntry { fg_color: (s, (i % 256) as u8, 0), bg_color: None, ch: '#' });
        }
    }
    let lut = LightingLut { entries, swatch_count: 2 };
    assert_eq!(lut.entry_at(0, 0).fg_color, (0, 0, 0));
    assert_eq!(lut.entry_at(1, 17).fg_color, (1, 17, 0));
    assert_eq!(lut.entry_at(9, 300).fg_color, (1, 255, 0));
}

#[test]
fn mirror_idx_reflects_at_both_ends() {
    assert_eq!(mirror_idx(-1, 5), 0);
    assert_eq!(mirror_idx(-2, 5), 1);
    assert_eq!(mirror_idx(3, 5), 3);
    assert_eq!(mirror_idx(5, 5), 4);
    assert_eq!(mirror_idx(6, 5), 3);
}
