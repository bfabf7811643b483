use cmrt_tui::tui_app::{AppEffect, InsertKey, Mode, NormalAction, NormalKey, PlayState, TuiApp};

fn app(lines: &[&str]) -> TuiApp {
    TuiApp::new(lines.iter().map(|line| line.to_string()).collect(), 10, true)
}

#[test]
fn an_empty_notepad_starts_with_one_blank_line() {
    let app = TuiApp::new(Vec::new(), 10, true);
    assert_eq!(app.editor.lines, vec![String::new()]);
    assert_eq!(app.editor.cursor, 0);
    assert_eq!(app.mode, Mode::Normal);
}

#[test]
fn help_returns_to_the_mode_it_was_opened_from() {
    let mut app = app(&["c"]);
    app.mode = Mode::Insert;
    app.enter_help();
    assert_eq!(app.mode, Mode::Help);
    app.handle_help_escape();
    assert_eq!(app.mode, Mode::Insert);
}

#[test]
fn moving_plays_the_trimmed_line_and_clamps_at_the_ends() {
    let mut app = app(&["c", "  d e  ", "f"]);
    app.move_normal_cursor_by(1);
    assert_eq!(app.editor.cursor, 1);
    assert_eq!(app.play_state, PlayState::Running("d e".to_string()));
    assert_eq!(
        app.effects,
        vec![
            AppEffect::RecordNotepadHistory("d e".to_string()),
            AppEffect::RecordPatchPhraseHistory("d e".to_string()),
            AppEffect::Play("d e".to_string()),
            AppEffect::PrefetchNavigation(Some(1)),
        ]
    );
    app.move_normal_cursor_by(isize::MAX);
    assert_eq!(app.editor.cursor, 2);
    app.move_normal_cursor_by(isize::MIN);
    assert_eq!(app.editor.cursor, 0);
}

#[test]
fn a_blank_line_is_not_played() {
    let mut app = app(&["c", "   "]);
    app.set_normal_cursor(1);
    assert_eq!(app.editor.cursor, 1);
    assert_eq!(app.play_state, PlayState::Idle);
    assert!(app.effects.is_empty());
}

#[test]
fn dd_deletes_into_the_yank_buffer_and_p_pastes_it_back() {
    let mut app = app(&["a", "b", "c"]);
    app.set_normal_cursor(1);
    assert_eq!(app.handle_normal(NormalKey::Char('d')), NormalAction::Continue);
    assert!(app.editor.pending_delete);
    app.handle_normal(NormalKey::Char('d'));
    assert_eq!(app.editor.lines, vec!["a".to_string(), "c".to_string()]);
    assert_eq!(app.editor.yank_buffer.as_deref(), Some("b"));
    app.handle_normal(NormalKey::Char('P'));
    assert_eq!(app.editor.lines, vec!["a".to_string(), "b".to_string(), "c".to_string()]);
    assert_eq!(app.editor.cursor, 1);
}

#[test]
fn deleting_the_only_line_leaves_a_blank_line() {
    let mut app = app(&["c d e"]);
    app.delete_current_line();
    assert_eq!(app.editor.lines, vec![String::new()]);
    assert_eq!(app.editor.cursor, 0);
    assert_eq!(app.editor.yank_buffer.as_deref(), Some("c d e"));
}

#[test]
fn paste_without_yank_reports_an_error() {
    let mut app = app(&["c"]);
    app.handle_normal(NormalKey::Char('p'));
    assert_eq!(app.play_state, PlayState::Error("yank バッファが空です".to_string()));
    assert_eq!(app.editor.lines.len(), 1);
}

#[test]
fn o_opens_a_blank_line_below_in_insert_mode() {
    let mut app = app(&["c", "d"]);
    app.handle_normal(NormalKey::Char('o'));
    assert_eq!(app.editor.lines, vec!["c".to_string(), String::new(), "d".to_string()]);
    assert_eq!(app.editor.cursor, 1);
    assert_eq!(app.mode, Mode::Insert);
    assert_eq!(app.editor.insert_text, "");
}

#[test]
fn normal_keys_hand_their_actions_to_the_app() {
    let mut app = app(&["c"]);
    assert_eq!(app.handle_normal(NormalKey::Char('q')), NormalAction::Quit);
    assert_eq!(app.handle_normal(NormalKey::Char('v')), NormalAction::LaunchKeyboard);
    assert_eq!(app.handle_normal(NormalKey::Char('b')), NormalAction::LaunchLoopBrowser);
    assert_eq!(app.handle_normal(NormalKey::Char('t')), NormalAction::OpenPatchSelect);
    assert_eq!(app.handle_normal(NormalKey::Char('?')), NormalAction::Continue);
    assert_eq!(app.mode, Mode::Help);
}

#[test]
fn a_missing_patch_name_is_reported() {
    let mut app = app(&["c"]);
    app.start_patch_phrase_for_patch_name(None);
    assert_eq!(app.play_state, PlayState::Error("patch name JSON が見つかりません".to_string()));
    app.start_patch_phrase_for_patch_name(Some("Leads/Mono.fxp".to_string()));
    assert_eq!(app.effects, vec![AppEffect::StartPatchPhrase("Leads/Mono.fxp".to_string())]);
}

#[test]
fn insert_mode_commits_the_line_and_plays_it() {
    let mut app = TuiApp::new(vec!["c".to_string()], 10, true);
    app.start_insert();
    app.editor.insert_text = "  cde  ".to_string();
    app.handle_insert(InsertKey::Enter);
    assert_eq!(app.editor.lines, vec!["  cde  ".to_string(), String::new()]);
    assert_eq!(app.editor.cursor, 1);
    assert_eq!(app.editor.insert_text, "");
    assert_eq!(app.play_state, PlayState::Running("cde".to_string()));
    assert_eq!(app.effects.last(), Some(&AppEffect::Play("cde".to_string())));

    let effects = app.effects.len();
    app.editor.insert_text = "   ".to_string();
    app.handle_insert(InsertKey::Esc);
    assert_eq!(app.mode, Mode::Normal);
    assert_eq!(app.editor.lines[1], "   ");
    assert_eq!(app.effects.len(), effects);
}
