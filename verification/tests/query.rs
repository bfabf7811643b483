use cmrt_tui::query::{filter_items, filter_patches, split_whitespace};

#[test]
fn split_whitespace_yields_the_words() {
    assert_eq!(split_whitespace("  key=C \t 4/4\n"), vec!["key=C".to_string(), "4/4".to_string()]);
    assert!(split_whitespace(" \u{3000} ").is_empty());
}

#[test]
fn filter_items_matches_every_term_without_case() {
    let items = vec!["Warm PAD".to_string(), "Saw Lead".to_string(), "Pad Saw".to_string()];
    assert_eq!(filter_items(&items, "pad SAW"), vec!["Pad Saw".to_string()]);
    assert_eq!(filter_items(&items, "PAD"), vec!["Warm PAD".to_string(), "Pad Saw".to_string()]);
    assert_eq!(filter_items(&items, "   "), items);
    assert!(filter_items(&items, "bass").is_empty());
}

#[test]
fn filter_patches_uses_the_precomputed_lowercase_names() {
    let all = vec![
        ("Keys/Piano".to_string(), "keys/piano".to_string()),
        ("Leads/Saw".to_string(), "leads/saw".to_string()),
    ];
    assert_eq!(filter_patches(&all, "SAW"), vec!["Leads/Saw".to_string()]);
    assert_eq!(filter_patches(&all, ""), vec!["Keys/Piano".to_string(), "Leads/Saw".to_string()]);
}

#[test]
fn a_joined_query_filters_like_its_parts_in_turn() {
    let items = vec!["Warm PAD".to_string(), "Saw Lead".to_string(), "Pad Saw".to_string(), "pad".to_string()];
    let joined = filter_items(&items, "pad saw");
    assert_eq!(joined, filter_items(&filter_items(&items, "pad"), "saw"));
    assert_eq!(joined, vec!["Pad Saw".to_string()]);
}
