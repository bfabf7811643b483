use std::collections::HashSet;

use cmrt_tui::keyboard_model::{ModulationMode, NotePlaybackMode, PitchBendMode, VelocityMode};
use cmrt_tui::keyboard_state::{keyboard_notes, KeyboardState};
use cmrt_tui::numeric_input::NumericInputTarget;

const NOW: u64 = 1_000_000;

fn set_cc_number_74(state: &mut KeyboardState) {
    state.begin_numeric_input(NumericInputTarget::CcNumber);
    state.numeric_input_push('7');
    state.numeric_input_push('4');
    assert_eq!(state.confirm_numeric_input(), None);
}

fn at_tick(now: u64, tick: u64) -> u64 {
    now + 250 * tick
}

#[test]
fn tests_velocity_cycles_normal_accent_periodic_and_applies_to_note_on() {
    let notes = keyboard_notes();
    let mut state = KeyboardState::default();
    let now = NOW;
    assert_eq!(state.velocity(), 100);
    assert_eq!(state.cycle_velocity(now), VelocityMode::Accent);
    assert_eq!(state.press(notes[0]), Some(vec![[0x90, 60, 127]]));
    assert_eq!(state.cycle_velocity(now), VelocityMode::Periodic);
    assert_eq!(state.velocity(), 100);
    assert!(state.poll_periodic(now + 249).is_empty());
    let mut seen = HashSet::new();
    for tick in 1..=2 {
        assert!(state.poll_periodic(at_tick(now, tick)).is_empty());
        seen.insert(state.velocity());
    }
    assert_eq!(seen, HashSet::from([100, 127]));
    assert_eq!(state.cycle_velocity(now), VelocityMode::Normal);
    assert_eq!(state.velocity(), 100);
    assert!(state.poll_periodic(now + 10_000).is_empty());
    assert_eq!(state.velocity(), 100);
}

#[test]
fn tests_modulation_cycles_off_on_periodic() {
    let mut state = KeyboardState::default();
    let now = NOW;
    assert_eq!(state.modulation_mode(), ModulationMode::Off);
    assert_eq!(state.cycle_modulation(now), [0xB0, 1, 127]);
    assert_eq!(state.modulation_mode(), ModulationMode::On);
    assert_eq!(state.cycle_modulation(now), [0xB0, 1, 0]);
    assert_eq!(state.modulation_mode(), ModulationMode::Periodic);
    assert_eq!(state.cycle_modulation(now), [0xB0, 1, 0]);
    assert_eq!(state.modulation_mode(), ModulationMode::Off);
}

#[test]
fn modulation_periodic_covers_both_values_in_each_bag() {
    let mut state = KeyboardState::default();
    let now = NOW;
    state.cycle_modulation(now);
    assert_eq!(state.cycle_modulation(now), [0xB0, 1, 0]);
    assert!(state.poll_periodic(now + 249).is_empty());
    for bag in 0..2u64 {
        let mut values = Vec::new();
        for tick in 1..=2 {
            let messages = state.poll_periodic(at_tick(now, bag * 2 + tick));
            assert_eq!(messages.len(), 1);
            assert_eq!(&messages[0][..2], &[0xB0, 1]);
            values.push(messages[0][2]);
        }
        values.sort_unstable();
        assert_eq!(values, vec![0, 127]);
    }
}

#[test]
fn tests_pitch_bend_cycles_six_steps_with_center_between_extremes() {
    let mut state = KeyboardState::default();
    let now = NOW;
    assert_eq!(state.pitch_bend_mode(), PitchBendMode::Idle);
    assert_eq!(state.cycle_pitch_bend(now), [0xE0, 0x7F, 0x7F]);
    assert_eq!(state.pitch_bend_mode(), PitchBendMode::Max);
    assert_eq!(state.cycle_pitch_bend(now), [0xE0, 0x00, 0x40]);
    assert_eq!(state.pitch_bend_mode(), PitchBendMode::CenterAfterMax);
    assert_eq!(state.cycle_pitch_bend(now), [0xE0, 0x00, 0x00]);
    assert_eq!(state.pitch_bend_mode(), PitchBendMode::Min);
    assert_eq!(state.cycle_pitch_bend(now), [0xE0, 0x00, 0x40]);
    assert_eq!(state.pitch_bend_mode(), PitchBendMode::CenterAfterMin);
    assert_eq!(state.cycle_pitch_bend(now), [0xE0, 0x7F, 0x7F]);
    assert_eq!(state.pitch_bend_mode(), PitchBendMode::Periodic);
    assert_eq!(state.cycle_pitch_bend(now), [0xE0, 0x00, 0x40]);
    assert_eq!(state.pitch_bend_mode(), PitchBendMode::CenterAfterCycle);
    assert_eq!(state.cycle_pitch_bend(now), [0xE0, 0x7F, 0x7F]);
    assert_eq!(state.pitch_bend_mode(), PitchBendMode::Max);
    assert!(state.poll_periodic(now + 10_000).is_empty());
}

#[test]
fn pitch_bend_periodic_covers_cycle_values_in_each_bag() {
    let mut state = KeyboardState::default();
    let now = NOW;
    for _ in 0..5 {
        state.cycle_pitch_bend(now);
    }
    assert_eq!(state.pitch_bend_mode(), PitchBendMode::Periodic);
    let mut values = Vec::new();
    for tick in 1..=4 {
        let messages = state.poll_periodic(at_tick(now, tick));
        assert_eq!(messages.len(), 1);
        values.push(messages[0]);
    }
    values.sort_unstable();
    let mut expected = vec![[0xE0, 0x7F, 0x7F], [0xE0, 0x00, 0x40], [0xE0, 0x00, 0x00], [0xE0, 0x00, 0x40]];
    expected.sort_unstable();
    assert_eq!(values, expected);
}

#[test]
fn tests_cc_periodic_toggle_sends_to_configured_cc_number() {
    let mut state = KeyboardState::default();
    let now = NOW;
    set_cc_number_74(&mut state);
    assert_eq!(state.toggle_cc_periodic(now), [0xB0, 74, 127]);
    assert!(state.cc_periodic_on());
    let mut values = Vec::new();
    for tick in 1..=2 {
        let messages = state.poll_periodic(at_tick(now, tick));
        assert_eq!(messages.len(), 1);
        assert_eq!(&messages[0][..2], &[0xB0, 74]);
        values.push(messages[0][2]);
    }
    values.sort_unstable();
    assert_eq!(values, vec![0, 127]);
    assert_eq!(state.toggle_cc_periodic(now), [0xB0, 74, 0]);
    assert!(!state.cc_periodic_on());
    assert!(state.poll_periodic(now + 10_000).is_empty());
}

#[test]
fn tests_poll_periodic_is_empty_without_periodic_modes() {
    let mut state = KeyboardState::default();
    assert!(state.poll_periodic(NOW + 60_000).is_empty());
}

#[test]
fn tests_poll_periodic_combines_channels_in_fixed_order() {
    let mut state = KeyboardState::default();
    let now = NOW;
    set_cc_number_74(&mut state);
    state.cycle_modulation(now);
    state.cycle_modulation(now);
    for _ in 0..5 {
        state.cycle_pitch_bend(now);
    }
    state.toggle_cc_periodic(now);
    let messages = state.poll_periodic(at_tick(now, 1));
    assert_eq!(messages.len(), 3);
    assert_eq!(&messages[0][..2], &[0xB0, 1]);
    assert_eq!(messages[1][0], 0xE0);
    assert_eq!(&messages[2][..2], &[0xB0, 74]);
}

#[test]
fn bag_covers_all_combinations_without_repeat() {
    let mut state = KeyboardState::default();
    let now = NOW;
    set_cc_number_74(&mut state);
    state.cycle_velocity(now);
    state.cycle_velocity(now);
    state.cycle_modulation(now);
    state.cycle_modulation(now);
    state.toggle_cc_periodic(now);
    for bag in 0..2u64 {
        let mut seen = HashSet::new();
        for tick in 1..=8 {
            let messages = state.poll_periodic(at_tick(now, bag * 8 + tick));
            assert_eq!(messages.len(), 2);
            assert_eq!(&messages[0][..2], &[0xB0, 1]);
            assert_eq!(&messages[1][..2], &[0xB0, 74]);
            seen.insert((state.velocity(), messages[0][2], messages[1][2]));
        }
        assert_eq!(seen.len(), 8, "each of the eight combinations appears once per bag");
    }
}

#[test]
fn master_clock_restarts_from_latest_digit_toggle() {
    let mut state = KeyboardState::default();
    let now = NOW;
    state.cycle_modulation(now);
    state.cycle_modulation(now);
    state.toggle_cc_periodic(now + 300);
    assert!(state.poll_periodic(now + 549).is_empty());
    let messages = state.poll_periodic(now + 550);
    assert_eq!(messages.len(), 2);
    assert_eq!(&messages[0][..2], &[0xB0, 1]);
}

#[test]
fn digit_toggle_resets_bag_and_clock() {
    let mut state = KeyboardState::default();
    let now = NOW;
    for _ in 0..5 {
        state.cycle_pitch_bend(now);
    }
    assert_eq!(state.combo_progress(), Some((0, 4)));
    assert!(!state.poll_periodic(at_tick(now, 1)).is_empty());
    assert!(!state.poll_periodic(at_tick(now, 2)).is_empty());
    assert_eq!(state.combo_progress(), Some((2, 4)));
    state.toggle_cc_periodic(now + 700);
    assert_eq!(state.combo_progress(), Some((0, 8)));
    assert!(state.poll_periodic(now + 949).is_empty());
    assert_eq!(state.poll_periodic(now + 950).len(), 2);
    assert_eq!(state.combo_progress(), Some((1, 8)));
}

#[test]
fn combo_progress_wraps_after_bag_is_exhausted() {
    let mut state = KeyboardState::default();
    let now = NOW;
    assert_eq!(state.combo_progress(), None);
    for _ in 0..5 {
        state.cycle_pitch_bend(now);
    }
    for tick in 1..=4u64 {
        let _ = state.poll_periodic(at_tick(now, tick));
        assert_eq!(state.combo_progress(), Some((tick as usize, 4)));
    }
    let _ = state.poll_periodic(at_tick(now, 5));
    assert_eq!(state.combo_progress(), Some((1, 4)));
}

#[test]
fn combo_progress_is_none_with_note_repeat_only() {
    let notes = keyboard_notes();
    let mut state = KeyboardState::default();
    let now = NOW;
    assert!(state.press(notes[0]).is_some());
    assert!(state.release(notes[0]).is_some());
    let _ = state.cycle_note_playback(now);
    assert!(state.poll_periodic(at_tick(now, 1)).is_empty());
    assert_eq!(state.combo_progress(), None);
}

#[test]
fn tests_poll_periodic_skips_missed_cycles_after_long_stall() {
    let mut state = KeyboardState::default();
    let now = NOW;
    state.cycle_modulation(now);
    state.cycle_modulation(now);
    assert_eq!(state.poll_periodic(now + 10_000).len(), 1);
    assert!(state.poll_periodic(now + 10_249).is_empty());
    assert_eq!(state.poll_periodic(now + 10_250).len(), 1);
}

#[test]
fn tests_take_note_off_messages_keeps_auto_send_modes_and_schedules_refresh() {
    let notes = keyboard_notes();
    let mut state = KeyboardState::default();
    let now = NOW;
    set_cc_number_74(&mut state);
    state.cycle_modulation(now);
    state.cycle_pitch_bend(now);
    state.toggle_cc_periodic(now);
    assert!(state.press(notes[0]).is_some());
    let _ = state.cycle_note_playback(now);
    assert_eq!(state.take_note_off_messages(), vec![[0x80, 60, 0], [0x80, 60, 0]]);
    assert_eq!(state.modulation_mode(), ModulationMode::On);
    assert_eq!(state.pitch_bend_mode(), PitchBendMode::Max);
    assert!(state.cc_periodic_on());
    assert_eq!(state.note_playback_mode(), NotePlaybackMode::Repeat);
    assert_eq!(
        state.take_pending_refresh_messages(now),
        vec![[0xB0, 1, 127], [0xE0, 0x7F, 0x7F], [0xB0, 74, 127], [0x90, 60, 100]]
    );
    assert!(state.take_pending_refresh_messages(now).is_empty());
}

#[test]
fn tests_refresh_resends_current_periodic_values() {
    let mut state = KeyboardState::default();
    let now = NOW;
    state.cycle_modulation(now);
    state.cycle_modulation(now);
    let messages = state.poll_periodic(at_tick(now, 1));
    assert_eq!(messages.len(), 1);
    let _ = state.take_note_off_messages();
    assert_eq!(state.take_pending_refresh_messages(now), messages);
}

#[test]
fn tests_take_reset_messages_clears_pending_refresh() {
    let mut state = KeyboardState::default();
    let now = NOW;
    state.cycle_modulation(now);
    let _ = state.take_note_off_messages();
    let _ = state.take_reset_messages();
    assert!(state.take_pending_refresh_messages(now).is_empty());
}

#[test]
fn periodic_tests_modulation_cycles_off_on_periodic() {
    let mut state = KeyboardState::default();
    let now = NOW;
    assert_eq!(state.modulation_mode(), ModulationMode::Off);
    assert_eq!(state.cycle_modulation(now), [0xB0, 1, 127]);
    assert_eq!(state.modulation_mode(), ModulationMode::On);
    assert_eq!(state.cycle_modulation(now), [0xB0, 1, 0]);
    assert_eq!(state.modulation_mode(), ModulationMode::Periodic);
    assert_eq!(state.cycle_modulation(now), [0xB0, 1, 0]);
    assert_eq!(state.modulation_mode(), ModulationMode::Off);
}

#[test]
fn periodic_tests_pitch_bend_cycles_six_steps_with_center_between_extremes() {
    let mut state = KeyboardState::default();
    let now = NOW;
    let expected = [
        ([0xE0, 0x7F, 0x7F], PitchBendMode::Max),
        ([0xE0, 0x00, 0x40], PitchBendMode::CenterAfterMax),
        ([0xE0, 0x00, 0x00], PitchBendMode::Min),
        ([0xE0, 0x00, 0x40], PitchBendMode::CenterAfterMin),
        ([0xE0, 0x7F, 0x7F], PitchBendMode::Periodic),
        ([0xE0, 0x00, 0x40], PitchBendMode::CenterAfterCycle),
        ([0xE0, 0x7F, 0x7F], PitchBendMode::Max),
    ];
    assert_eq!(state.pitch_bend_mode(), PitchBendMode::Idle);
    for (message, mode) in expected {
        assert_eq!(state.cycle_pitch_bend(now), message);
        assert_eq!(state.pitch_bend_mode(), mode);
    }
    assert!(state.poll_periodic(now + 10_000).is_empty());
}

#[test]
fn periodic_tests_poll_periodic_is_empty_without_periodic_modes() {
    let mut state = KeyboardState::default();
    assert!(state.poll_periodic(NOW + 60_000).is_empty());
}

#[test]
fn periodic_tests_take_note_off_messages_keeps_auto_send_modes_and_schedules_refresh() {
    let notes = keyboard_notes();
    let mut state = KeyboardState::default();
    let now = NOW;
    set_cc_number_74(&mut state);
    state.cycle_modulation(now);
    state.cycle_pitch_bend(now);
    state.toggle_cc_periodic(now);
    assert!(state.press(notes[0]).is_some());
    let _ = state.cycle_note_playback(now);
    assert_eq!(state.take_note_off_messages(), vec![[0x80, 60, 0], [0x80, 60, 0]]);
    assert_eq!(state.modulation_mode(), ModulationMode::On);
    assert_eq!(state.pitch_bend_mode(), PitchBendMode::Max);
    assert!(state.cc_periodic_on());
    assert_eq!(state.note_playback_mode(), NotePlaybackMode::Repeat);
    assert_eq!(
        state.take_pending_refresh_messages(now),
        vec![[0xB0, 1, 127], [0xE0, 0x7F, 0x7F], [0xB0, 74, 127], [0x90, 60, 100]]
    );
    assert!(state.take_pending_refresh_messages(now).is_empty());
}

#[test]
fn periodic_tests_take_reset_messages_clears_pending_refresh() {
    let mut state = KeyboardState::default();
    let now = NOW;
    state.cycle_modulation(now);
    let _ = state.take_note_off_messages();
    let _ = state.take_reset_messages();
    assert!(state.take_pending_refresh_messages(now).is_empty());
}

#[test]
fn note_repeat_does_nothing_without_chord() {
    let mut state = KeyboardState::default();
    assert!(state.cycle_note_playback(NOW).is_empty());
    assert_eq!(state.note_playback_mode(), NotePlaybackMode::Off);
}
