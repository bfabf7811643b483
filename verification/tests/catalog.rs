use cmrt_tui::keyboard_catalog::{sync_list_offset, KeyboardPatchCatalog, PatchCategory};

fn categories() -> Vec<PatchCategory> {
    vec![
        PatchCategory { name: "Lead".to_string(), patches: vec!["Lead 1".to_string(), "Lead 2".to_string()] },
        PatchCategory { name: "Pad".to_string(), patches: (0..12).map(|index| format!("Pad {index}")).collect() },
    ]
}

#[test]
fn load_selects_the_current_patch_without_changing_unknown_patch() {
    let mut catalog = KeyboardPatchCatalog::default();
    catalog.load(categories(), Some("Lead 2"));
    assert_eq!(catalog.selected_category_index(), Some(0));
    assert_eq!(catalog.selected_patch_index(), Some(1));

    catalog.load(categories(), Some("Unknown"));
    assert_eq!(catalog.selected_category_index(), None);
    assert_eq!(catalog.selected_patch_index(), None);
}

#[test]
fn patch_navigation_clamps_and_moves_by_ten() {
    let mut catalog = KeyboardPatchCatalog::default();
    catalog.load(categories(), Some("Pad 0"));

    assert_eq!(catalog.move_patch_by(10).as_deref(), Some("Pad 10"));
    assert_eq!(catalog.move_patch_by(10).as_deref(), Some("Pad 11"));
    assert_eq!(catalog.move_patch_by(1), None);
    assert_eq!(catalog.move_patch_by(-10).as_deref(), Some("Pad 1"));
}

#[test]
fn category_navigation_selects_the_first_patch_and_clamps() {
    let mut catalog = KeyboardPatchCatalog::default();
    catalog.load(categories(), Some("Lead 2"));

    assert_eq!(catalog.move_category_by(1).as_deref(), Some("Pad 0"));
    assert_eq!(catalog.move_category_by(1), None);
    assert_eq!(catalog.move_category_by(-1).as_deref(), Some("Lead 1"));
    assert_eq!(catalog.move_category_by(-1), None);
}

#[test]
fn first_navigation_from_an_unknown_patch_selects_the_first_patch() {
    let mut catalog = KeyboardPatchCatalog::default();
    catalog.load(categories(), Some("Unknown"));

    assert_eq!(catalog.move_patch_by(-1).as_deref(), Some("Lead 1"));
    assert_eq!(catalog.selected_category_index(), Some(0));
    assert_eq!(catalog.selected_patch_index(), Some(0));
}

#[test]
fn list_offset_scrolls_just_enough_to_show_the_cursor() {
    assert_eq!(sync_list_offset(0, Some(7), 12, 5), 3);
    assert_eq!(sync_list_offset(3, Some(5), 12, 5), 3);
    assert_eq!(sync_list_offset(6, Some(2), 12, 5), 2);
    assert_eq!(sync_list_offset(9, Some(11), 12, 5), 7);
    assert_eq!(sync_list_offset(4, None, 12, 5), 0);
    assert_eq!(sync_list_offset(4, Some(0), 1, 0), 0);
}
