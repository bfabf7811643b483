use cmrt_tui::keyboard_state::{deadline_elapsed, keyboard_notes, note_for_key, KeyboardState};
use cmrt_tui::midi_message::{control_change, note_off, note_on, pitch_bend};
use cmrt_tui::numeric_input::NumericInputTarget;

#[test]
fn note_mapping_is_c4_through_b4() {
    assert_eq!(
        keyboard_notes().iter().map(|note| (note.key, note.midi_note)).collect::<Vec<_>>(),
        vec![('c', 60), ('d', 62), ('e', 64), ('f', 65), ('g', 67), ('a', 69), ('b', 71)]
    );
}

#[test]
fn pitch_bend_message_encodes_14bit_value() {
    assert_eq!(pitch_bend(16383), [0xE0, 0x7F, 0x7F]);
    assert_eq!(pitch_bend(8192), [0xE0, 0x00, 0x40]);
    assert_eq!(pitch_bend(0), [0xE0, 0x00, 0x00]);
}

#[test]
fn notes_remain_active_until_each_key_is_released() {
    let notes = keyboard_notes();
    let mut state = KeyboardState::default();
    assert_eq!(state.press(notes[0]), Some(vec![[0x90, 60, 100]]));
    assert_eq!(state.press(notes[1]), Some(vec![[0x90, 62, 100]]));
    assert_eq!(state.held(), &notes[..2]);
    assert_eq!(state.release(notes[0]), Some(vec![[0x80, 60, 0]]));
    assert_eq!(state.held(), &notes[1..2]);
    assert_eq!(state.release(notes[1]), Some(vec![[0x80, 62, 0]]));
    assert!(state.held().is_empty());
}

#[test]
fn pressing_a_held_key_again_sends_nothing() {
    let notes = keyboard_notes();
    let mut state = KeyboardState::default();
    assert!(state.press(notes[2]).is_some());
    assert_eq!(state.press(notes[2]), None);
    assert_eq!(state.release(notes[3]), None);
}

#[test]
fn release_after_press_gives_back_the_held_keys() {
    let notes = keyboard_notes();
    let mut state = KeyboardState::default();
    state.press(notes[0]);
    let before = state.held().to_vec();
    assert_eq!(state.press(notes[4]), Some(vec![note_on(67, 100)]));
    assert_eq!(state.release(notes[4]), Some(vec![note_off(67)]));
    assert_eq!(state.held(), before.as_slice());
}

#[test]
fn a_second_reset_has_nothing_to_send() {
    let notes = keyboard_notes();
    let mut state = KeyboardState::default();
    state.press(notes[0]);
    let first = state.take_reset_messages();
    assert_eq!(first, vec![note_off(60)]);
    assert!(state.held().is_empty());
    assert!(state.take_reset_messages().is_empty());
}

#[test]
fn keys_map_to_their_notes() {
    assert_eq!(note_for_key('g').map(|n| n.midi_note), Some(67));
    assert_eq!(note_for_key('h'), None);
}

#[test]
fn cc_number_input_updates_number_without_sending() {
    let mut state = KeyboardState::default();
    assert_eq!(state.cc_number(), 1);

    state.begin_numeric_input(NumericInputTarget::CcNumber);
    state.numeric_input_push('7');
    state.numeric_input_push('4');
    assert_eq!(state.numeric_input().map(|input| input.buffer()), Some("74"));
    assert_eq!(state.confirm_numeric_input(), None);
    assert_eq!(state.cc_number(), 74);
    assert!(state.numeric_input().is_none());
}

#[test]
fn cc_value_input_sends_on_the_current_number_and_clamps() {
    let mut state = KeyboardState::default();
    state.begin_numeric_input(NumericInputTarget::CcValue);
    for digit in ['9', '9', '9'] {
        state.numeric_input_push(digit);
    }
    state.numeric_input_backspace();
    state.numeric_input_push('9');
    assert_eq!(state.confirm_numeric_input(), Some(control_change(1, 127)));
}

#[test]
fn buffer_multiplier_cycles_through_powers_of_two() {
    let mut state = KeyboardState::default();
    assert_eq!(state.buffer_multiplier(), 4);
    assert_eq!(state.cycle_buffer_multiplier(), 8);
    assert_eq!(state.cycle_buffer_multiplier(), 1);
    assert_eq!(state.cycle_buffer_multiplier(), 2);
    assert_eq!(state.cycle_buffer_multiplier(), 4);
}

#[test]
fn a_new_deadline_lies_within_one_interval_after_now() {
    let mut next = Some(1_000u64);
    assert!(!deadline_elapsed(&mut next, 999));
    assert_eq!(next, Some(1_000));
    assert!(deadline_elapsed(&mut next, 1_100));
    assert_eq!(next, Some(1_250));
    assert!(deadline_elapsed(&mut next, 9_000));
    assert_eq!(next, Some(9_250));
    let mut none: Option<u64> = None;
    assert!(!deadline_elapsed(&mut none, 5));
    assert_eq!(none, None);
}
