use cmrt_tui::keyboard_connection::{KeyboardTransport, PatchVoicing};
use cmrt_tui::keyboard_model::{KeyboardNote, ModulationMode, NotePlaybackMode, PitchBendMode, VelocityMode};
use cmrt_tui::keyboard_state::{keyboard_notes, KeyboardState};
use cmrt_tui::numeric_input::{NumericInput, NumericInputTarget};

const NOW: u64 = 1_000_000;

fn press_and_release(state: &mut KeyboardState, notes: &[KeyboardNote]) {
    for note in notes {
        assert!(state.press(*note).is_some());
    }
    for note in notes {
        assert!(state.release(*note).is_some());
    }
}

fn enter_arp(state: &mut KeyboardState, now: u64) -> Vec<[u8; 3]> {
    let _ = state.cycle_note_playback(now);
    state.cycle_note_playback(now)
}

#[test]
fn duplicate_press_and_unknown_release_send_nothing() {
    let notes = keyboard_notes();
    let mut state = KeyboardState::default();
    assert!(state.press(notes[0]).is_some());
    assert_eq!(state.press(notes[0]), None);
    assert_eq!(state.release(notes[1]), None);
    assert_eq!(state.held(), &notes[..1]);
}

#[test]
fn press_tracks_last_chord_and_restarts_after_full_release() {
    let notes = keyboard_notes();
    let mut state = KeyboardState::default();
    assert!(state.press(notes[0]).is_some());
    assert!(state.press(notes[2]).is_some());
    assert!(state.press(notes[4]).is_some());
    assert_eq!(state.repeat_chords()[0].iter().map(|note| note.midi_note).collect::<Vec<_>>(), vec![60, 64, 67]);
    assert!(state.release(notes[0]).is_some());
    assert!(state.release(notes[2]).is_some());
    assert!(state.release(notes[4]).is_some());
    assert_eq!(state.repeat_chords()[0].len(), 3);
    assert!(state.press(notes[1]).is_some());
    assert_eq!(state.repeat_chords()[0].iter().map(|note| note.midi_note).collect::<Vec<_>>(), vec![62]);
}

#[test]
fn take_reset_messages_stops_every_held_note_and_clears_state() {
    let notes = keyboard_notes();
    let mut state = KeyboardState::default();
    assert!(state.press(notes[0]).is_some());
    assert!(state.press(notes[2]).is_some());
    assert!(state.press(notes[4]).is_some());

    assert_eq!(state.take_reset_messages(), vec![[0x80, 60, 0], [0x80, 64, 0], [0x80, 67, 0]]);
    assert!(state.held().is_empty());
}

#[test]
fn take_reset_messages_appends_modulation_reset_when_modulation_is_on() {
    let notes = keyboard_notes();
    let mut state = KeyboardState::default();
    let now = NOW;
    assert!(state.press(notes[0]).is_some());
    assert_eq!(state.cycle_modulation(now), [0xB0, 1, 127]);

    assert_eq!(state.take_reset_messages(), vec![[0x80, 60, 0], [0xB0, 1, 0]]);
    assert_eq!(state.modulation_mode(), ModulationMode::Off);
    assert!(state.take_reset_messages().is_empty());
}

#[test]
fn take_reset_messages_resets_pitch_bend_periodic_cc_and_note_repeat() {
    let notes = keyboard_notes();
    let mut state = KeyboardState::default();
    let now = NOW;
    state.begin_numeric_input(NumericInputTarget::CcNumber);
    state.numeric_input_push('7');
    state.numeric_input_push('4');
    assert_eq!(state.confirm_numeric_input(), None);

    state.cycle_velocity(now);
    state.cycle_velocity(now);
    state.cycle_modulation(now);
    state.cycle_modulation(now);
    state.cycle_pitch_bend(now);
    state.cycle_pitch_bend(now);
    state.cycle_pitch_bend(now);
    state.toggle_cc_periodic(now);
    assert!(state.press(notes[0]).is_some());
    let _ = state.cycle_note_playback(now);

    assert_eq!(
        state.take_reset_messages(),
        vec![[0x80, 60, 0], [0x80, 60, 0], [0xB0, 1, 0], [0xE0, 0x00, 0x40], [0xB0, 74, 0]]
    );
    assert_eq!(state.velocity_mode(), VelocityMode::Normal);
    assert_eq!(state.velocity(), 100);
    assert_eq!(state.modulation_mode(), ModulationMode::Off);
    assert_eq!(state.pitch_bend_mode(), PitchBendMode::Idle);
    assert!(!state.cc_periodic_on());
    assert_eq!(state.note_playback_mode(), NotePlaybackMode::Off);
    assert!(state.take_reset_messages().is_empty());
    assert!(state.poll_periodic(now + 60_000).is_empty());
}

#[test]
fn cc_value_input_sends_to_current_cc_number_and_defaults_to_cc1() {
    let mut state = KeyboardState::default();
    state.begin_numeric_input(NumericInputTarget::CcValue);
    state.numeric_input_push('9');
    state.numeric_input_push('9');
    assert_eq!(state.confirm_numeric_input(), Some([0xB0, 1, 99]));

    state.begin_numeric_input(NumericInputTarget::CcNumber);
    state.numeric_input_push('7');
    state.numeric_input_push('4');
    assert_eq!(state.confirm_numeric_input(), None);

    state.begin_numeric_input(NumericInputTarget::CcValue);
    state.numeric_input_push('0');
    assert_eq!(state.confirm_numeric_input(), Some([0xB0, 74, 0]));
}

#[test]
fn numeric_input_clamps_to_127_and_limits_to_three_digits() {
    let mut state = KeyboardState::default();
    state.begin_numeric_input(NumericInputTarget::CcNumber);
    state.numeric_input_push('9');
    state.numeric_input_push('9');
    state.numeric_input_push('9');
    state.numeric_input_push('9');
    assert_eq!(state.numeric_input().map(NumericInput::buffer), Some("999"));

    assert_eq!(state.confirm_numeric_input(), None);
    assert_eq!(state.cc_number(), 127);
}

#[test]
fn numeric_input_supports_backspace_cancel_and_empty_confirm() {
    let mut state = KeyboardState::default();
    state.begin_numeric_input(NumericInputTarget::CcNumber);
    state.numeric_input_push('7');
    state.numeric_input_backspace();
    assert_eq!(state.numeric_input().map(NumericInput::buffer), Some(""));

    assert_eq!(state.confirm_numeric_input(), None);
    assert_eq!(state.cc_number(), 1);
    assert!(state.numeric_input().is_none());

    state.begin_numeric_input(NumericInputTarget::CcValue);
    state.numeric_input_push('5');
    state.cancel_numeric_input();
    assert!(state.numeric_input().is_none());
}

#[test]
fn keyboard_state_keeps_non_blank_patch() {
    let state = KeyboardState::new(Some("patches_factory/Keys/Piano.fxp".to_string()));

    assert_eq!(state.patch(), Some("patches_factory/Keys/Piano.fxp"));
    assert_eq!(KeyboardState::new(Some("  ".to_string())).patch(), None);
}

#[test]
fn buffer_multiplier_defaults_to_x4_and_cycles_x8_x1_x2_x4() {
    let mut state = KeyboardState::default();
    assert_eq!(state.buffer_multiplier(), 4);
    assert_eq!(state.cycle_buffer_multiplier(), 8);
    assert_eq!(state.cycle_buffer_multiplier(), 1);
    assert_eq!(state.cycle_buffer_multiplier(), 2);
    assert_eq!(state.cycle_buffer_multiplier(), 4);
}

#[test]
fn keyboard_state_defaults_to_shared_memory() {
    assert_eq!(KeyboardState::default().transport(), KeyboardTransport::SharedMemory);
}

#[test]
fn note_playback_cycles_off_repeat_arp_auto_off_with_unknown_fallback() {
    let notes = keyboard_notes();
    let mut state = KeyboardState::default();
    let now = NOW;
    press_and_release(&mut state, &[notes[0], notes[2]]);

    assert_eq!(state.note_playback_mode(), NotePlaybackMode::Off);
    assert_eq!(state.cycle_note_playback(now), vec![[0x90, 60, 100], [0x90, 64, 100]]);
    assert_eq!(state.note_playback_mode(), NotePlaybackMode::Repeat);
    assert_eq!(state.cycle_note_playback(now), vec![[0x80, 60, 0], [0x80, 64, 0], [0x90, 60, 100]]);
    assert_eq!(state.note_playback_mode(), NotePlaybackMode::Arp);
    assert_eq!(state.cycle_note_playback(now), vec![[0x80, 60, 0], [0x90, 60, 100], [0x90, 64, 100]]);
    assert_eq!(state.note_playback_mode(), NotePlaybackMode::Auto);
    assert_eq!(state.cycle_note_playback(now), vec![[0x80, 60, 0], [0x80, 64, 0]]);
    assert_eq!(state.note_playback_mode(), NotePlaybackMode::Off);
}

#[test]
fn auto_uses_arp_for_a_mono_detection() {
    let notes = keyboard_notes();
    let mut state = KeyboardState::default();
    let now = NOW;
    state.set_detected_voicing(PatchVoicing::Mono);
    press_and_release(&mut state, &[notes[0], notes[2]]);
    let _ = enter_arp(&mut state, now);

    assert!(state.cycle_note_playback(now).is_empty());
    assert_eq!(state.note_playback_mode(), NotePlaybackMode::Auto);
    assert!(state.note_playback_uses_arp());
    assert_eq!(state.poll_periodic(now + 250), vec![[0x80, 60, 0], [0x90, 64, 100]]);
}

#[test]
fn auto_uses_repeat_for_a_poly_detection() {
    let notes = keyboard_notes();
    let mut state = KeyboardState::default();
    let now = NOW;
    state.set_detected_voicing(PatchVoicing::Poly);
    press_and_release(&mut state, &[notes[0], notes[2]]);
    let _ = enter_arp(&mut state, now);

    assert_eq!(state.cycle_note_playback(now), vec![[0x80, 60, 0], [0x90, 60, 100], [0x90, 64, 100]]);
    assert!(!state.note_playback_uses_arp());
}

#[test]
fn note_playback_stays_off_without_a_chord() {
    let mut state = KeyboardState::default();
    assert!(state.cycle_note_playback(NOW).is_empty());
    assert_eq!(state.note_playback_mode(), NotePlaybackMode::Off);
}

#[test]
fn arp_sorts_notes_and_plays_two_octaves_every_250ms() {
    let notes = keyboard_notes();
    let mut state = KeyboardState::default();
    let now = NOW;
    press_and_release(&mut state, &[notes[4], notes[0], notes[6], notes[2]]);

    assert_eq!(
        enter_arp(&mut state, now),
        vec![[0x80, 67, 0], [0x80, 60, 0], [0x80, 71, 0], [0x80, 64, 0], [0x90, 60, 100]]
    );
    assert!(state.poll_periodic(now + 249).is_empty());

    let expected_notes = [64, 67, 71, 72, 76, 79, 83, 60];
    let mut previous = 60;
    for (step, note) in expected_notes.into_iter().enumerate() {
        assert_eq!(
            state.poll_periodic(now + 250 * (step as u64 + 1)),
            vec![[0x80, previous, 0], [0x90, note, 100]]
        );
        previous = note;
    }
}

#[test]
fn arp_uses_current_velocity_for_each_attack() {
    let notes = keyboard_notes();
    let mut state = KeyboardState::default();
    let now = NOW;
    press_and_release(&mut state, &[notes[0]]);
    let _ = enter_arp(&mut state, now);
    state.cycle_velocity(now);

    assert_eq!(state.poll_periodic(now + 250), vec![[0x80, 60, 0], [0x90, 72, 127]]);
}

#[test]
fn arp_skips_missed_steps_after_a_long_stall() {
    let notes = keyboard_notes();
    let mut state = KeyboardState::default();
    let now = NOW;
    press_and_release(&mut state, &[notes[0], notes[2]]);
    let _ = enter_arp(&mut state, now);

    assert_eq!(state.poll_periodic(now + 10_000), vec![[0x80, 60, 0], [0x90, 64, 100]]);
    assert!(state.poll_periodic(now + 10_249).is_empty());
    assert_eq!(state.poll_periodic(now + 10_250), vec![[0x80, 64, 0], [0x90, 72, 100]]);
}

#[test]
fn new_chord_restarts_arp_from_its_lowest_note_on_next_tick() {
    let notes = keyboard_notes();
    let mut state = KeyboardState::default();
    let now = NOW;
    press_and_release(&mut state, &[notes[0], notes[2]]);
    let _ = enter_arp(&mut state, now);
    press_and_release(&mut state, &[notes[4], notes[1]]);

    assert_eq!(state.poll_periodic(now + 250), vec![[0x80, 60, 0], [0x90, 62, 100]]);
}

#[test]
fn arp_and_periodic_controller_share_each_250ms_tick() {
    let notes = keyboard_notes();
    let mut state = KeyboardState::default();
    let now = NOW;
    press_and_release(&mut state, &[notes[0]]);
    state.cycle_modulation(now);
    state.cycle_modulation(now);
    let _ = enter_arp(&mut state, now);

    let messages = state.poll_periodic(now + 250);
    assert_eq!(messages.len(), 3);
    assert_eq!(&messages[0][..2], &[0xB0, 1]);
    assert_eq!(messages[1], [0x80, 60, 0]);
    assert_eq!(messages[2], [0x90, 72, 100]);
}

#[test]
fn arp_refresh_restarts_from_first_note_with_a_fresh_deadline() {
    let notes = keyboard_notes();
    let mut state = KeyboardState::default();
    let now = NOW;
    press_and_release(&mut state, &[notes[0], notes[2]]);
    let _ = enter_arp(&mut state, now);
    assert_eq!(state.take_note_off_messages(), vec![[0x80, 60, 0]]);

    let ready_at = now + 2_000;
    assert_eq!(state.take_pending_refresh_messages(ready_at), vec![[0x90, 60, 100]]);
    assert!(state.poll_periodic(ready_at).is_empty());
    assert_eq!(state.poll_periodic(ready_at + 250), vec![[0x80, 60, 0], [0x90, 64, 100]]);
}

#[test]
fn reset_stops_arp_and_clears_its_deadline() {
    let notes = keyboard_notes();
    let mut state = KeyboardState::default();
    let now = NOW;
    press_and_release(&mut state, &[notes[0]]);
    let _ = enter_arp(&mut state, now);

    assert_eq!(state.take_reset_messages(), vec![[0x80, 60, 0]]);
    assert_eq!(state.note_playback_mode(), NotePlaybackMode::Off);
    assert!(state.poll_periodic(now + 60_000).is_empty());
}
