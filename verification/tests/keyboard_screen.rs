use cmrt_tui::keyboard_catalog::PatchCategory;
use cmrt_tui::keyboard_connection::{KeyboardConnectionPhase, KeyboardTransport, KeyboardVoicingStatus, PatchVoicing, VoicingReport};
use cmrt_tui::keyboard_screen::{KeyPhase, KeyboardAction, KeyboardKeyCode, KeyboardKeyEvent, SenderCommand};
use cmrt_tui::midi_message::{control_change, note_off, note_on};
use cmrt_tui::patch_select::PatchLoadState;
use cmrt_tui::tui_app::{Mode, TuiApp};

fn key(code: KeyboardKeyCode) -> KeyboardKeyEvent {
    KeyboardKeyEvent { code, shift: false, control: false, other_modifiers: false, kind: KeyPhase::Press }
}

fn ch(c: char) -> KeyboardKeyEvent {
    key(KeyboardKeyCode::Char(c))
}

fn ready_app() -> TuiApp {
    let mut app = TuiApp::new(vec!["c".to_string()], 10, true);
    app.patch_load_state = PatchLoadState::Ready(vec![("Pad 0".to_string(), "pad 0".to_string())]);
    app.keyboard.grouped_patches = vec![PatchCategory {
        name: "Pad".to_string(),
        patches: (0..12).map(|index| format!("Pad {index}")).collect(),
    }];
    app.keyboard.has_sender = true;
    app.start_keyboard(Some("Pad 0".to_string()));
    app.keyboard.connection.phase = KeyboardConnectionPhase::Ready;
    app.keyboard.commands.clear();
    app
}

#[test]
fn starting_the_keyboard_prepares_the_connection() {
    let mut app = TuiApp::new(vec!["c".to_string()], 10, true);
    app.keyboard.has_sender = true;
    app.keyboard.voicing_cache = vec![("Lead".to_string(), PatchVoicing::Mono)];
    app.start_keyboard(Some("Lead".to_string()));
    assert_eq!(app.mode, Mode::Keyboard);
    assert_eq!(
        app.keyboard.commands,
        vec![SenderCommand::Prepare {
            transport: KeyboardTransport::SharedMemory,
            buffer_multiplier: 4,
            patch: Some("Lead".to_string()),
            known_voicing: Some(PatchVoicing::Mono),
        }]
    );
}

#[test]
fn a_count_moves_the_patch_by_that_many() {
    let mut app = ready_app();
    assert_eq!(app.handle_keyboard_key_event(ch('3'), 0), KeyboardAction::Continue);
    assert_eq!(app.handle_keyboard_key_event(ch('j'), 0), KeyboardAction::Continue);
    assert_eq!(app.keyboard.state.patch(), Some("Pad 3"));
    assert_eq!(
        app.keyboard.commands,
        vec![SenderCommand::SetPatch {
            note_offs: Vec::new(),
            previous: Some("Pad 0".to_string()),
            patch: Some("Pad 3".to_string()),
        }]
    );
    assert_eq!(app.keyboard.state.navigation_count(), None);
}

#[test]
fn note_keys_send_only_when_the_connection_is_ready() {
    let mut app = ready_app();
    app.handle_keyboard_key_event(ch('c'), 0);
    assert_eq!(
        app.keyboard.commands,
        vec![SenderCommand::Send { messages: vec![note_on(60, 100)], patch: Some("Pad 0".to_string()) }]
    );
    let mut release = ch('c');
    release.kind = KeyPhase::Release;
    app.handle_keyboard_key_event(release, 0);
    assert_eq!(
        app.keyboard.commands.last(),
        Some(&SenderCommand::Send { messages: vec![note_off(60)], patch: Some("Pad 0".to_string()) })
    );
    app.keyboard.connection.phase = KeyboardConnectionPhase::Connecting;
    let sent = app.keyboard.commands.len();
    app.handle_keyboard_key_event(ch('d'), 0);
    assert_eq!(app.keyboard.commands.len(), sent);
    assert!(app.keyboard.state.held().is_empty());
}

#[test]
fn typed_controller_values_are_sent_on_enter() {
    let mut app = ready_app();
    app.handle_keyboard_key_event(ch('z'), 0);
    app.handle_keyboard_key_event(ch('6'), 0);
    app.handle_keyboard_key_event(ch('4'), 0);
    app.handle_keyboard_key_event(key(KeyboardKeyCode::Enter), 0);
    assert_eq!(
        app.keyboard.commands,
        vec![SenderCommand::Send { messages: vec![control_change(1, 64)], patch: Some("Pad 0".to_string()) }]
    );
}

#[test]
fn quitting_stops_the_sender_and_keeps_the_session() {
    let mut app = ready_app();
    app.handle_keyboard_key_event(ch('c'), 0);
    app.keyboard.commands.clear();
    assert_eq!(app.handle_keyboard_key_event(ch('q'), 0), KeyboardAction::Quit);
    assert_eq!(
        app.keyboard.commands,
        vec![
            SenderCommand::Send { messages: vec![note_off(60)], patch: Some("Pad 0".to_string()) },
            SenderCommand::Stop,
        ]
    );
    assert!(app.keyboard.persist_on_exit);
}

#[test]
fn returning_to_the_notepad_leaves_keyboard_mode() {
    let mut app = ready_app();
    assert_eq!(app.handle_keyboard_key_event(ch('n'), 0), KeyboardAction::ReturnToNotepad);
    assert_eq!(app.mode, Mode::Normal);
    assert_eq!(app.keyboard.commands, vec![SenderCommand::Stop]);
}

#[test]
fn switching_transport_resets_and_tells_the_sender() {
    let mut app = ready_app();
    app.handle_keyboard_key_event(ch('s'), 0);
    assert_eq!(app.keyboard.state.transport(), KeyboardTransport::Http);
    assert_eq!(
        app.keyboard.commands,
        vec![SenderCommand::Switch {
            transport: KeyboardTransport::Http,
            note_offs: Vec::new(),
            patch: Some("Pad 0".to_string()),
            known_voicing: None,
        }]
    );
}

#[test]
fn a_detected_voicing_is_remembered_once() {
    let mut app = ready_app();
    app.keyboard.connection.voicing = KeyboardVoicingStatus::Detected(VoicingReport { decision: PatchVoicing::Poly });
    app.keyboard.connection.voicing_patch = Some("Pad 0".to_string());
    app.sync_keyboard_voicing_detection();
    assert_eq!(app.keyboard.voicing_cache, vec![("Pad 0".to_string(), PatchVoicing::Poly)]);
    assert!(app.keyboard.voicing_cache_dirty);
    assert_eq!(app.cached_voicing(Some("Pad 0")), Some(PatchVoicing::Poly));
    assert_eq!(app.cached_voicing(None), None);
}

#[test]
fn repeats_are_ignored_and_r_asks_for_a_random_patch() {
    let mut app = ready_app();
    let mut repeat = ch('c');
    repeat.kind = KeyPhase::Repeat;
    assert_eq!(app.handle_keyboard_key_event(repeat, 0), KeyboardAction::Continue);
    assert!(app.keyboard.commands.is_empty());
    assert_eq!(app.handle_keyboard_key_event(ch('r'), 0), KeyboardAction::RandomPatch);
}

#[test]
fn the_periodic_tick_sends_only_while_the_connection_takes_notes() {
    let mut app = ready_app();
    let shift_z = KeyboardKeyEvent { code: KeyboardKeyCode::Char('Z'), shift: true, control: false, other_modifiers: false, kind: KeyPhase::Press };
    app.handle_keyboard_key_event(shift_z, 0);
    app.keyboard.commands.clear();

    app.pump_keyboard_periodic(100);
    assert!(app.keyboard.commands.is_empty());
    app.pump_keyboard_periodic(1_000);
    assert!(matches!(app.keyboard.commands.last(), Some(SenderCommand::Send { .. })));

    app.keyboard.commands.clear();
    app.keyboard.connection.phase = KeyboardConnectionPhase::Idle;
    app.pump_keyboard_periodic(5_000);
    assert!(app.keyboard.commands.is_empty());
}

#[test]
fn a_typed_progression_restarts_note_repeat_only_while_ready() {
    let mut app = ready_app();
    let mut release = ch('c');
    app.handle_keyboard_key_event(ch('c'), 0);
    release.kind = KeyPhase::Release;
    app.handle_keyboard_key_event(release, 0);
    let _ = app.keyboard.state.cycle_note_playback(0);
    app.keyboard.commands.clear();

    app.apply_keyboard_mml_progression(vec![vec![64, 67]], 0);
    assert_eq!(
        app.keyboard.commands,
        vec![SenderCommand::Send {
            messages: vec![note_off(60), note_on(64, 100), note_on(67, 100)],
            patch: Some("Pad 0".to_string()),
        }]
    );

    app.keyboard.commands.clear();
    app.keyboard.connection.phase = KeyboardConnectionPhase::Connecting;
    app.apply_keyboard_mml_progression(vec![vec![62]], 0);
    assert!(app.keyboard.commands.is_empty());
    assert_eq!(app.keyboard.state.current_repeat_chord(), vec![62]);
}
