use cmrt_tui::patch_select::{
    build_patch_json, line_parts, line_with_patch, resolve_bass_patch, BassPatchResolution, CurrentLine,
    PatchLoadState, PatchSelectAction, PatchSelectKey, PatchSelectPane,
};

fn no_line() -> CurrentLine {
    CurrentLine::empty()
}
use cmrt_tui::tui_app::{AppEffect, Mode, PlayState, TuiApp};

fn make_patches(items: &[&str]) -> Vec<(String, String)> {
    items.iter().map(|item| ((*item).to_string(), item.to_lowercase())).collect()
}

fn app_with(items: &[&str]) -> TuiApp {
    let mut app = TuiApp::new(vec!["c".to_string()], 10, true);
    app.patch_load_state = PatchLoadState::Ready(make_patches(items));
    app
}

#[test]
fn saved_bass_patch_wins_without_waiting_for_the_catalog() {
    let mut app = TuiApp::new(vec![String::new()], 10, true);
    app.chord_chart_patch = Some("Chord/Piano.fxp".to_string());
    app.chord_chart_bass_patch = Some("Bass/Saved Bass.fxp".to_string());
    app.patch_load_state = PatchLoadState::Loading;

    assert_eq!(
        app.resolve_chord_chart_bass_patch(),
        BassPatchResolution::Ready("Bass/Saved Bass.fxp".to_string())
    );
}

#[test]
fn first_bass_role_candidate_is_selected_deterministically() {
    let mut app = TuiApp::new(vec![String::new()], 10, true);
    app.patch_load_state =
        PatchLoadState::Ready(make_patches(&["Keys/Piano.fxp", "Bass/First Bass.fxp", "Bass/Second Bass.fxp"]));
    app.bass_candidates = vec!["Bass/First Bass.fxp".to_string(), "Bass/Second Bass.fxp".to_string()];

    assert_eq!(
        app.resolve_chord_chart_bass_patch(),
        BassPatchResolution::Ready("Bass/First Bass.fxp".to_string())
    );
}

#[test]
fn unavailable_catalog_states_fall_back_without_copying_the_chord_patch() {
    let mut app = TuiApp::new(vec![String::new()], 10, true);
    app.chord_chart_patch = Some("Chord/Piano.fxp".to_string());

    for (state, expected) in [
        (PatchLoadState::Loading, BassPatchResolution::Loading),
        (
            PatchLoadState::Failed("catalog failed".to_string()),
            BassPatchResolution::CatalogError("catalog failed".to_string()),
        ),
        (PatchLoadState::Ready(make_patches(&["Chord/Piano.fxp"])), BassPatchResolution::NoCandidate),
    ] {
        app.patch_load_state = state;
        assert_eq!(app.resolve_chord_chart_bass_patch(), expected);
    }
}

#[test]
fn resolve_prefers_the_saved_patch_over_a_failed_scan() {
    assert_eq!(
        resolve_bass_patch(Some("Bass/Mine.fxp"), &PatchLoadState::Failed("x".to_string()), &[]),
        BassPatchResolution::Ready("Bass/Mine.fxp".to_string())
    );
}

#[test]
fn opening_the_list_explains_why_it_cannot_open() {
    let mut app = TuiApp::new(vec!["c".to_string()], 10, false);
    app.open_patch_select_overlay(None, None);
    assert_eq!(app.play_state, PlayState::Error("patches_dirs が設定されていません".to_string()));

    let mut app = TuiApp::new(vec!["c".to_string()], 10, true);
    app.open_patch_select_overlay(None, None);
    assert_eq!(app.play_state, PlayState::Error("パッチを読み込み中です...".to_string()));

    app.patch_load_state = PatchLoadState::Failed("disk".to_string());
    app.open_patch_select_overlay(None, None);
    assert_eq!(app.play_state, PlayState::Error("パッチの読み込みに失敗: disk".to_string()));

    app.patch_load_state = PatchLoadState::Ready(Vec::new());
    app.open_patch_select_overlay(None, None);
    assert_eq!(app.play_state, PlayState::Error("patches_dirs にパッチが見つかりません".to_string()));
    assert_eq!(app.mode, Mode::Normal);
}

#[test]
fn opening_the_list_selects_the_initial_patch() {
    let mut app = app_with(&["Keys/Piano.fxp", "Leads/Saw.fxp", "Pads/Warm.fxp"]);
    app.open_patch_select_overlay(Some("Leads/Saw.fxp".to_string()), None);
    assert_eq!(app.mode, Mode::PatchSelect);
    assert_eq!(app.patch_select.filtered.len(), 3);
    assert_eq!(app.patch_select.cursor, 1);
    assert_eq!(app.patch_select_selected_patch_name().as_deref(), Some("Leads/Saw.fxp"));

    app.open_patch_select_overlay(Some("Unknown.fxp".to_string()), None);
    assert_eq!(app.patch_select.cursor, 0);
}

#[test]
fn the_filter_keeps_patches_matching_every_term_and_previews_the_first() {
    let mut app = app_with(&["Keys/Piano.fxp", "Leads/Saw Lead.fxp", "Pads/Saw Pad.fxp"]);
    app.start_patch_select(None);
    app.patch_select.query = "  SAW  pad ".to_string();
    app.update_patch_filter();
    assert_eq!(app.patch_select.filtered, vec!["Pads/Saw Pad.fxp".to_string()]);
    assert_eq!(app.effects.last(), Some(&AppEffect::PreviewPatch("Pads/Saw Pad.fxp".to_string())));
}

#[test]
fn cursor_moves_clamp_and_preview_the_reached_patch() {
    let mut app = app_with(&["A.fxp", "B.fxp", "C.fxp"]);
    app.start_patch_select(None);
    app.move_patch_select_selection_by(10);
    assert_eq!(app.patch_select.cursor, 2);
    assert_eq!(app.effects.last(), Some(&AppEffect::PreviewPatch("C.fxp".to_string())));
    let before = app.effects.len();
    app.move_patch_select_selection_by(1);
    assert_eq!(app.effects.len(), before);
    app.move_patch_cursor_by(-1);
    assert_eq!(app.patch_select.cursor, 1);
}

#[test]
fn favorites_keep_their_order_once_each() {
    let mut app = app_with(&["A.fxp", "B.fxp"]);
    app.patch_select.favorite_patches =
        vec!["B.fxp".to_string(), "A.fxp".to_string(), "B.fxp".to_string(), "Gone.fxp".to_string()];
    app.patch_select.patches_with_favorites = vec!["A.fxp".to_string(), "B.fxp".to_string()];
    app.refresh_patch_select_favorites();
    assert_eq!(app.patch_select_favorite_items(), &["B.fxp".to_string(), "A.fxp".to_string()][..]);

    app.set_patch_select_focus(PatchSelectPane::Favorites);
    app.move_patch_favorites_cursor_by(1);
    assert_eq!(app.patch_select_selected_patch_name().as_deref(), Some("A.fxp"));
}

#[test]
fn patch_list_keys_move_switch_panes_and_close() {
    let mut app = app_with(&["A.fxp", "B.fxp", "C.fxp"]);
    app.start_patch_select(None);
    assert_eq!(app.handle_patch_select(PatchSelectKey::Char('j'), 10, &no_line()), PatchSelectAction::Continue);
    assert_eq!(app.patch_select.cursor, 1);
    app.handle_patch_select(PatchSelectKey::PageDown, 10, &no_line());
    assert_eq!(app.patch_select.cursor, 2);
    app.handle_patch_select(PatchSelectKey::Ctrl('P'), 10, &no_line());
    assert_eq!(app.patch_select.cursor, 1);
    app.handle_patch_select(PatchSelectKey::Char('l'), 10, &no_line());
    assert_eq!(app.patch_select.focus, PatchSelectPane::Favorites);
    app.handle_patch_select(PatchSelectKey::Left, 10, &no_line());
    assert_eq!(app.patch_select.focus, PatchSelectPane::Patches);
    assert_eq!(app.handle_patch_select(PatchSelectKey::Enter, 10, &no_line()), PatchSelectAction::Continue);
    assert_eq!(app.mode, Mode::Normal);
    assert_eq!(app.editor.lines[0], "{\"Surge XT patch\": \"B.fxp\"} c");
}

#[test]
fn patch_list_keys_leave_favorites_sorting_and_history_to_the_app() {
    let mut app = app_with(&["A.fxp"]);
    app.start_patch_select(None);
    assert_eq!(app.handle_patch_select(PatchSelectKey::Char('f'), 10, &no_line()), PatchSelectAction::AddPhraseFavorite);
    assert_eq!(app.handle_patch_select(PatchSelectKey::Ctrl('s'), 10, &no_line()), PatchSelectAction::ToggleSortOrder);
    assert_eq!(app.handle_patch_select(PatchSelectKey::Char('n'), 10, &no_line()), PatchSelectAction::StartNotepadHistory);
    app.handle_patch_select(PatchSelectKey::Char('p'), 10, &no_line());
    assert_eq!(app.effects.last(), Some(&AppEffect::StartPatchPhrase("A.fxp".to_string())));
    app.handle_patch_select(PatchSelectKey::Char('?'), 10, &no_line());
    assert_eq!(app.mode, Mode::Help);
}

#[test]
fn the_filter_line_takes_keys_until_enter_or_an_empty_backspace() {
    let mut app = app_with(&["Keys/Piano.fxp", "Leads/Saw.fxp"]);
    app.start_patch_select(None);
    assert_eq!(app.handle_patch_select(PatchSelectKey::Char('/'), 10, &no_line()), PatchSelectAction::FocusFilter);
    assert!(app.patch_select.filter_active);
    assert_eq!(app.handle_patch_select(PatchSelectKey::Char('s'), 10, &no_line()), PatchSelectAction::EditQuery);
    app.apply_patch_query_edit("saw".to_string());
    assert_eq!(app.patch_select.filtered, vec!["Leads/Saw.fxp".to_string()]);
    let effects = app.effects.len();
    app.apply_patch_query_edit("saw".to_string());
    assert_eq!(app.effects.len(), effects);
    assert_eq!(app.handle_patch_select(PatchSelectKey::Enter, 10, &no_line()), PatchSelectAction::Continue);
    assert!(!app.patch_select.filter_active);

    app.handle_patch_select(PatchSelectKey::Char('/'), 10, &no_line());
    app.apply_patch_query_edit(String::new());
    assert_eq!(app.handle_patch_select(PatchSelectKey::Backspace, 10, &no_line()), PatchSelectAction::Continue);
    assert!(!app.patch_select.filter_active);
}

#[test]
fn new_favorites_rebuild_the_favorites_pane() {
    let mut app = app_with(&["A.fxp", "B.fxp"]);
    app.start_patch_select(None);
    app.set_patch_favorites(vec!["B.fxp".to_string()], vec!["B.fxp".to_string()]);
    assert_eq!(app.patch_select_favorite_items(), &["B.fxp".to_string()][..]);
    assert_eq!(app.patch_select.favorites_selected, Some(0));
}

#[test]
fn sort_order_toggles_between_category_and_scan_order_keeping_the_cursor_patch() {
    let mut app = app_with(&["Pads/Warm.fxp", "Bass/Deep.fxp", "Keys/Piano.fxp"]);
    app.patch_select.category_sorted = make_patches(&["Bass/Deep.fxp", "Keys/Piano.fxp", "Pads/Warm.fxp"]);
    app.start_patch_select(None);
    app.move_patch_select_selection_by(1);
    assert_eq!(app.patch_select_selected_patch_name().as_deref(), Some("Bass/Deep.fxp"));

    app.toggle_patch_select_sort_order();
    assert!(app.patch_select.category_order);
    assert_eq!(
        app.patch_select.filtered,
        vec!["Bass/Deep.fxp".to_string(), "Keys/Piano.fxp".to_string(), "Pads/Warm.fxp".to_string()]
    );
    assert_eq!(app.patch_select.cursor, 0);
    assert_eq!(app.effects.last(), Some(&AppEffect::PreviewPatch("Bass/Deep.fxp".to_string())));

    app.toggle_patch_select_sort_order();
    assert!(!app.patch_select.category_order);
    assert_eq!(app.patch_select.filtered[0], "Pads/Warm.fxp");
    assert_eq!(app.patch_select.cursor, 1);

    app.toggle_patch_select_sort_order();
    app.start_patch_select(None);
    assert_eq!(app.patch_select.filtered[0], "Bass/Deep.fxp");
}

#[test]
fn enter_rewrites_each_part_of_the_line_with_the_patch_and_records_it() {
    let mut app = app_with(&["A.fxp", "Pads/Warm \"Wide\".fxp"]);
    app.editor.lines = vec!["{\"Surge XT patch\": \"A.fxp\"} cde; ;efg".to_string()];
    app.start_patch_select(None);
    app.handle_patch_select(PatchSelectKey::Char('j'), 10, &no_line());
    let line = CurrentLine {
        patch_name: Some("A.fxp".to_string()),
        part_mml: vec![" cde".to_string(), String::new(), "efg ".to_string()],
    };
    app.handle_patch_select(PatchSelectKey::Enter, 10, &line);
    let expected = "{\"Surge XT patch\": \"Pads/Warm \\\"Wide\\\".fxp\"} cde;;{\"Surge XT patch\": \"Pads/Warm \\\"Wide\\\".fxp\"} efg";
    assert_eq!(app.editor.lines[0], expected);
    assert_eq!(app.effects.last(), Some(&AppEffect::RecordNotepadHistory(expected.to_string())));
    assert_eq!(app.mode, Mode::Normal);
}

#[test]
fn a_line_without_mml_gets_the_patch_and_a_c() {
    let json = build_patch_json("A.fxp");
    assert_eq!(json, "{\"Surge XT patch\": \"A.fxp\"}");
    assert_eq!(line_with_patch(&json, &[String::new(), "  ".to_string()]), format!("{json} c"));
    assert_eq!(line_with_patch(&json, &[]), format!("{json} c"));
}

#[test]
fn line_parts_split_on_semicolons_and_drop_leading_space() {
    assert_eq!(line_parts("a; b ;;  c"), vec!["a".to_string(), "b ".to_string(), String::new(), "c".to_string()]);
    assert_eq!(line_parts(""), vec![String::new()]);
}

#[test]
fn the_list_opens_on_the_current_lines_patch_when_none_is_asked_for() {
    let mut app = app_with(&["Keys/Piano.fxp", "Leads/Saw.fxp", "Pads/Warm.fxp"]);
    app.open_patch_select_overlay(None, Some("Leads/Saw.fxp".to_string()));
    assert_eq!(app.patch_select.cursor, 1);
    app.open_patch_select_overlay(Some("Pads/Warm.fxp".to_string()), Some("Leads/Saw.fxp".to_string()));
    assert_eq!(app.patch_select.cursor, 2);
    app.start_patch_select(Some("Leads/Saw.fxp".to_string()));
    assert_eq!(app.patch_select.cursor, 1);
}

#[test]
fn patch_json_escapes_quotes_backslashes_and_controls() {
    assert_eq!(
        build_patch_json("a\"b\\c\td\u{1}é"),
        "{\"Surge XT patch\": \"a\\\"b\\\\c\\td\\u0001é\"}"
    );
}

#[test]
fn random_picks_draw_from_the_matching_patches() {
    let app = app_with(&["Bass/Warm.fxp", "Keys/Piano.fxp", "Bass/Sub.fxp"]);
    assert_eq!(
        app.random_patch_candidates(Some("  bass  ")),
        Ok((Some("bass".to_string()), vec!["Bass/Warm.fxp".to_string(), "Bass/Sub.fxp".to_string()]))
    );
    assert_eq!(
        app.random_patch_candidates(Some("   ")),
        Ok((None, vec!["Bass/Warm.fxp".to_string(), "Keys/Piano.fxp".to_string(), "Bass/Sub.fxp".to_string()]))
    );
    assert_eq!(app.random_patch_candidates(Some("organ")), Ok((Some("organ".to_string()), Vec::new())));
}

#[test]
fn random_picks_say_why_none_can_be_made() {
    let mut app = TuiApp::new(vec!["c".to_string()], 10, false);
    assert_eq!(app.random_patch_candidates(None), Err("patches_dirs が設定されていません".to_string()));
    app.patch_dirs_configured = true;
    app.patch_load_state = PatchLoadState::Loading;
    assert_eq!(app.random_patch_candidates(None), Err("パッチを読み込み中です...".to_string()));
    app.patch_load_state = PatchLoadState::Failed("disk".to_string());
    assert_eq!(app.random_patch_candidates(None), Err("パッチの読み込みに失敗: disk".to_string()));
    app.patch_load_state = PatchLoadState::Ready(Vec::new());
    assert_eq!(app.random_patch_candidates(None), Err("patches_dirs にパッチが見つかりません".to_string()));
}
