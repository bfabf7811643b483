use cmrt_tui::chord_preview::{key_token, note_number_range, patch_name, preview_command_sounding, preview_line};

#[test]
fn the_preview_sounds_only_for_the_last_command() {
    assert!(preview_command_sounding(Some(7), Some((7, true))));
    assert!(!preview_command_sounding(Some(7), Some((7, false))));
    assert!(!preview_command_sounding(Some(7), Some((8, true))));
    assert!(!preview_command_sounding(None, Some((7, true))));
    assert!(!preview_command_sounding(Some(7), None));
}

#[test]
fn the_key_token_is_found_in_any_case() {
    assert_eq!(key_token("tempo=120 KEY=Eb 4/4").as_deref(), Some("KEY=Eb"));
    assert_eq!(key_token("tempo=120"), None);
    assert_eq!(preview_line("bpm=90 key=C", "I IV V"), "key=C I IV V");
    assert_eq!(preview_line("bpm=90", "I IV V"), "I IV V");
}

#[test]
fn note_ranges_are_logged_with_their_span() {
    assert_eq!(note_number_range(&[64, 48, 72, 60]), "48..=72(span=24)");
    assert_eq!(note_number_range(&[5]), "5..=5(span=0)");
    assert_eq!(note_number_range(&[]), "none");
}

#[test]
fn the_layer_patch_falls_back() {
    assert_eq!(patch_name(Some("Bass.fxp"), "Chord.fxp"), "Bass.fxp");
    assert_eq!(patch_name(None, "Chord.fxp"), "Chord.fxp");
}
