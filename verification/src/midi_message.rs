use vstd::prelude::*;

verus! {

/// Status byte of a channel-1 note-on message.
pub const NOTE_ON: u8 = 0x90;
/// Status byte of a channel-1 note-off message.
pub const NOTE_OFF: u8 = 0x80;
/// Status byte of a channel-1 control change.
pub const CONTROL_CHANGE: u8 = 0xB0;
/// Controller number of the modulation wheel.
pub const MODULATION_CC: u8 = 1;
/// Status byte of a channel-1 pitch bend.
pub const PITCH_BEND: u8 = 0xE0;
/// Pitch bend at rest (14-bit value 8192).
pub const PITCH_BEND_CENTER: u16 = 8192;
/// Largest 14-bit pitch bend value (+8191 from center).
pub const PITCH_BEND_MAX: u16 = 16383;
/// Smallest 14-bit pitch bend value (-8192 from center).
pub const PITCH_BEND_MIN: u16 = 0;

/// A three-byte MIDI channel message.
pub type MidiMessage = [u8; 3];

pub open spec fn spec_note_on(midi_note: u8, velocity: u8) -> MidiMessage {
    [NOTE_ON, midi_note, velocity]
}

pub open spec fn spec_note_off(midi_note: u8) -> MidiMessage {
    [NOTE_OFF, midi_note, 0]
}

pub open spec fn spec_control_change(controller: u8, value: u8) -> MidiMessage {
    [CONTROL_CHANGE, controller, value]
}

/// A pitch bend message: the low and the high 7 bits of the 14-bit value.
pub open spec fn spec_pitch_bend(value: u16) -> MidiMessage {
    [PITCH_BEND, (value % 128) as u8, ((value / 128) % 128) as u8]
}

/// Note-on for `midi_note` at `velocity`.
pub fn note_on(midi_note: u8, velocity: u8) -> (message: MidiMessage)
    ensures
        message == spec_note_on(midi_note, velocity),
{
    [NOTE_ON, midi_note, velocity]
}

/// Note-off for `midi_note` (release velocity 0).
pub fn note_off(midi_note: u8) -> (message: MidiMessage)
    ensures
        message == spec_note_off(midi_note),
{
    [NOTE_OFF, midi_note, 0]
}

/// Control change of `controller` to `value`.
pub fn control_change(controller: u8, value: u8) -> (message: MidiMessage)
    ensures
        message == spec_control_change(controller, value),
{
    [CONTROL_CHANGE, controller, value]
}

/// Pitch bend message for a 14-bit `value` (bits above the 14th are dropped).
pub fn pitch_bend(value: u16) -> (message: MidiMessage)
    ensures
        message == spec_pitch_bend(value),
{
    let low: u16 = value & 0x7F;
    let high: u16 = (value >> 7) & 0x7F;
    assert(low == value % 128 && high == (value / 128) % 128) by (bit_vector)
        requires
            low == value & 0x7F,
            high == (value >> 7) & 0x7F,
    ;
    [PITCH_BEND, low as u8, high as u8]
}

/// Every 14-bit pitch bend value is sent exactly: the two data bytes are 7-bit
/// values and `low + 128 * high` gives the value back.
pub proof fn pitch_bend_round_trips(value: u16)
    requires
        value <= PITCH_BEND_MAX,
    ensures
        spec_pitch_bend(value)[0] == PITCH_BEND,
        spec_pitch_bend(value)[1] < 128,
        spec_pitch_bend(value)[2] < 128,
        spec_pitch_bend(value)[1] + 128 * spec_pitch_bend(value)[2] == value,
{
}

/// Note-offs for `notes`, in order.
pub open spec fn spec_note_offs(notes: Seq<u8>) -> Seq<MidiMessage> {
    notes.map_values(|n: u8| spec_note_off(n))
}

/// Note-ons for `notes` at `velocity`, in order.
pub open spec fn spec_note_ons(notes: Seq<u8>, velocity: u8) -> Seq<MidiMessage> {
    notes.map_values(|n: u8| spec_note_on(n, velocity))
}

} // verus!
