//! The realtime keyboard as a state machine over plain values: what every key
//! and every clock tick does to the state and which MIDI messages it sends.
use vstd::prelude::*;
use crate::keyboard_connection::{KeyboardTransport, PatchVoicing};
use crate::midi_message::{
    spec_control_change, spec_note_off, spec_note_offs, spec_note_on, spec_note_ons, spec_pitch_bend,
    MidiMessage, MODULATION_CC, PITCH_BEND_CENTER, PITCH_BEND_MAX, PITCH_BEND_MIN,
};
use crate::numeric_input::{spec_confirmed_value, NumericInputTarget, NUMERIC_INPUT_MAX_DIGITS};
use crate::random_deck::DeckView;
use crate::text::is_ascii_digit;

verus! {

/// Velocity of a normal note-on.
pub const DEFAULT_VELOCITY: u8 = 100;
/// Velocity of an accented note-on.
pub const ACCENT_VELOCITY: u8 = 127;
/// Controller that the generic CC starts on (modulation).
pub const DEFAULT_CC_NUMBER: u8 = 1;
/// Modulation value while modulation is on.
pub const MODULATION_MAX: u8 = 127;
/// Upper value of the generic CC cycle.
pub const CC_MAX: u8 = 127;
/// Period of the master clock shared by every periodic sender, in milliseconds.
pub const PERIODIC_INTERVAL_MS: u64 = 250;
/// Master clock ticks between two note-repeat attacks.
pub const REPEAT_TICKS: u8 = 8;
/// The arpeggio's second octave is this many semitones up.
pub const OCTAVE: u8 = 12;
/// Latest time, in milliseconds, that the clock can be read at (one period before
/// the end of `u64`).
pub const TIME_LIMIT_MS: u64 = 0xFFFF_FFFF_FFFF_FF05;

/// Velocity of the keyboard's note-ons.
#[derive(Clone, Copy, Debug, PartialEq, Eq, Structural)]
pub enum VelocityMode {
    Normal,
    Accent,
    Periodic,
}

/// Modulation wheel state.
#[derive(Clone, Copy, Debug, PartialEq, Eq, Structural)]
pub enum ModulationMode {
    Off,
    On,
    Periodic,
}

/// Pitch bend state. `Idle` is the state before the first bend; the cycle then
/// runs Max, center, Min, center, periodic, center, and back to Max.
#[derive(Clone, Copy, Debug, PartialEq, Eq, Structural)]
pub enum PitchBendMode {
    Idle,
    Max,
    CenterAfterMax,
    Min,
    CenterAfterMin,
    Periodic,
    CenterAfterCycle,
}

/// Automatic playback of the remembered chords.
#[derive(Clone, Copy, Debug, PartialEq, Eq, Structural)]
pub enum NotePlaybackMode {
    Off,
    Repeat,
    Arp,
    /// Arpeggio for a mono patch, repeat for any other.
    Auto,
}

/// A computer key that plays a note.
#[derive(Clone, Copy, Debug, PartialEq, Eq)]
pub struct KeyboardNote {
    pub key: char,
    pub name: &'static str,
    pub midi_note: u8,
}

/// A note of a remembered chord.
#[derive(Clone, Copy, Debug, PartialEq, Eq)]
pub struct PlaybackNote {
    pub midi_note: u8,
}

/// The keyboard's state, abstractly.
pub ghost struct KeyboardView {
    pub held: Seq<KeyboardNote>,
    pub patch: Option<Seq<char>>,
    pub transport: KeyboardTransport,
    pub buffer_multiplier: u8,
    pub velocity: u8,
    pub velocity_mode: VelocityMode,
    pub modulation_mode: ModulationMode,
    pub pitch_bend_mode: PitchBendMode,
    pub cc_number: u8,
    pub cc_periodic_on: bool,
    pub note_playback_mode: NotePlaybackMode,
    pub detected_voicing: PatchVoicing,
    /// The chord progression that repeat and arpeggio play (the last manual chord
    /// is a progression of one).
    pub repeat_chords: Seq<Seq<u8>>,
    pub repeat_chord_index: usize,
    pub repeat_sounding: Seq<u8>,
    pub arp_sounding: Option<u8>,
    pub arp_next_index: usize,
    /// Next tick of the master clock, in milliseconds.
    pub periodic_next_at: Option<u64>,
    pub repeat_elapsed_ticks: u8,
    /// The shuffled bag of controller combinations.
    pub combo_bag: Option<DeckView>,
    pub current_combo: usize,
    pub refresh_pending: bool,
    pub numeric_input: Option<(NumericInputTarget, Seq<char>)>,
    /// The vim-style count typed before a patch move.
    pub navigation_count: Option<usize>,
}

/// A chord that repeat and arpeggio can play: non-empty, distinct notes below 128.
pub open spec fn chord_wf(chord: Seq<u8>) -> bool {
    &&& chord.len() > 0
    &&& chord.no_duplicates()
    &&& forall|i: int| 0 <= i < chord.len() ==> #[trigger] chord[i] < 128
}

pub open spec fn keyboard_wf(s: KeyboardView) -> bool {
    &&& forall|i: int| 0 <= i < s.repeat_chords.len() ==> chord_wf(#[trigger] s.repeat_chords[i])
    &&& s.repeat_elapsed_ticks < REPEAT_TICKS
    &&& match s.combo_bag {
        Some(bag) => bag.wf(),
        None => true,
    }
    &&& match s.numeric_input {
        Some((_, buffer)) => buffer.len() <= NUMERIC_INPUT_MAX_DIGITS && forall|i: int|
            0 <= i < buffer.len() ==> is_ascii_digit(#[trigger] buffer[i]),
        None => true,
    }
}

pub open spec fn velocity_step(i: nat) -> u8 {
    if i == 0 { DEFAULT_VELOCITY } else { ACCENT_VELOCITY }
}

pub open spec fn modulation_step(i: nat) -> u8 {
    if i == 0 { 0 } else { MODULATION_MAX }
}

pub open spec fn cc_step(i: nat) -> u8 {
    if i == 0 { CC_MAX } else { 0 }
}

/// The periodic pitch bend cycle: max, center, min, center.
pub open spec fn pitch_bend_step(i: nat) -> u16 {
    if i == 0 {
        PITCH_BEND_MAX
    } else if i == 2 {
        PITCH_BEND_MIN
    } else {
        PITCH_BEND_CENTER
    }
}

pub open spec fn periodic_digits_active(s: KeyboardView) -> bool {
    s.velocity_mode == VelocityMode::Periodic || s.modulation_mode == ModulationMode::Periodic
        || s.pitch_bend_mode == PitchBendMode::Periodic || s.cc_periodic_on
}

pub open spec fn periodic_active(s: KeyboardView) -> bool {
    periodic_digits_active(s) || s.note_playback_mode != NotePlaybackMode::Off
}

/// How many controller combinations the periodic senders cycle through: each
/// periodic sender is one digit of a mixed-radix number.
pub open spec fn combo_total(s: KeyboardView) -> nat {
    (if s.pitch_bend_mode == PitchBendMode::Periodic { 4nat } else { 1nat })
        * (if s.modulation_mode == ModulationMode::Periodic { 2nat } else { 1nat })
        * (if s.cc_periodic_on { 2nat } else { 1nat })
        * (if s.velocity_mode == VelocityMode::Periodic { 2nat } else { 1nat })
}

/// The digit of each periodic sender in the current combination, least
/// significant first: pitch bend, modulation, CC, velocity.
pub ghost struct ComboDigits {
    pub pitch_bend: nat,
    pub modulation: nat,
    pub cc: nat,
    pub velocity: nat,
}

pub open spec fn combo_digits(s: KeyboardView) -> ComboDigits {
    let r0 = s.current_combo as nat;
    let pb = s.pitch_bend_mode == PitchBendMode::Periodic;
    let md = s.modulation_mode == ModulationMode::Periodic;
    let cc = s.cc_periodic_on;
    let r1 = if pb { r0 / 4 } else { r0 };
    let r2 = if md { r1 / 2 } else { r1 };
    let r3 = if cc { r2 / 2 } else { r2 };
    ComboDigits {
        pitch_bend: if pb { r0 % 4 } else { 0 },
        modulation: if md { r1 % 2 } else { 0 },
        cc: if cc { r2 % 2 } else { 0 },
        velocity: if s.velocity_mode == VelocityMode::Periodic { r3 % 2 } else { 0 },
    }
}

/// Drops the bag and restarts the master clock one period after `now` (or stops
/// it when nothing is periodic); a periodic velocity restarts from 100.
pub open spec fn reset_combo_clock(s: KeyboardView, now: u64) -> KeyboardView {
    KeyboardView {
        combo_bag: None,
        current_combo: 0,
        velocity: if s.velocity_mode == VelocityMode::Periodic { DEFAULT_VELOCITY } else { s.velocity },
        periodic_next_at: if periodic_active(s) { Some((now + PERIODIC_INTERVAL_MS) as u64) } else { None },
        ..s
    }
}

/// The chord being played; empty when the position is past the progression.
pub open spec fn current_chord(s: KeyboardView) -> Seq<u8> {
    if s.repeat_chord_index < s.repeat_chords.len() {
        s.repeat_chords[s.repeat_chord_index as int]
    } else {
        Seq::empty()
    }
}

pub open spec fn advance_chord(s: KeyboardView) -> KeyboardView {
    if s.repeat_chords.len() > 0 {
        KeyboardView { repeat_chord_index: ((s.repeat_chord_index + 1) % (s.repeat_chords.len() as int)) as usize, ..s }
    } else {
        s
    }
}

pub open spec fn reset_progression(s: KeyboardView) -> KeyboardView {
    KeyboardView { repeat_chord_index: 0, arp_next_index: 0, ..s }
}

/// The notes of `chord` below `bound`, by increasing pitch.
pub open spec fn ascending_notes(chord: Seq<u8>, bound: nat) -> Seq<u8>
    decreases bound,
{
    if bound == 0 {
        Seq::empty()
    } else if chord.contains((bound - 1) as u8) && bound <= 256 {
        ascending_notes(chord, (bound - 1) as nat).push((bound - 1) as u8)
    } else {
        ascending_notes(chord, (bound - 1) as nat)
    }
}

/// The arpeggio of a chord: its notes by increasing pitch, then the same an octave up.
pub open spec fn arp_sequence(chord: Seq<u8>) -> Seq<u8> {
    let base = ascending_notes(chord, 128);
    base + base.map_values(|n: u8| (n + OCTAVE) as u8)
}

pub open spec fn uses_arp(s: KeyboardView) -> bool {
    s.note_playback_mode == NotePlaybackMode::Arp || (s.note_playback_mode == NotePlaybackMode::Auto
        && s.detected_voicing == PatchVoicing::Mono)
}

/// Attacks the current chord at the current velocity.
pub open spec fn attack_repeat_chord(s: KeyboardView) -> (KeyboardView, Seq<MidiMessage>) {
    (KeyboardView { repeat_sounding: current_chord(s), ..s }, spec_note_ons(current_chord(s), s.velocity))
}

/// Attacks the next note of the arpeggio, moving to the next chord after the
/// last note of this one.
pub open spec fn attack_next_arp(s: KeyboardView) -> (KeyboardView, Option<MidiMessage>) {
    if arp_sequence(current_chord(s)).len() == 0 {
        (s, None)
    } else {
        let s1 = if s.arp_next_index >= arp_sequence(current_chord(s)).len() {
            KeyboardView { arp_next_index: 0, ..advance_chord(s) }
        } else {
            s
        };
        let note = arp_sequence(current_chord(s1))[s1.arp_next_index as int];
        (
            KeyboardView { arp_next_index: (s1.arp_next_index + 1) as usize, arp_sounding: Some(note), ..s1 },
            Some(spec_note_on(note, s.velocity)),
        )
    }
}

pub open spec fn opt_note_off(note: Option<u8>) -> Seq<MidiMessage> {
    match note {
        Some(n) => seq![spec_note_off(n)],
        None => Seq::empty(),
    }
}

/// Releases the sounding arpeggio note and attacks the next one; with nothing to
/// play, playback turns off.
pub open spec fn advance_arp(s: KeyboardView) -> (KeyboardView, Seq<MidiMessage>) {
    let offs = opt_note_off(s.arp_sounding);
    let (s1, attack) = attack_next_arp(KeyboardView { arp_sounding: None, ..s });
    match attack {
        Some(m) => (s1, offs.push(m)),
        None => (KeyboardView { note_playback_mode: NotePlaybackMode::Off, repeat_elapsed_ticks: 0, ..s1 }, offs),
    }
}

/// Starts the arpeggio over from the first note of the first chord, with a full
/// period for that note.
pub open spec fn restart_arp(s: KeyboardView, now: u64) -> (KeyboardView, Seq<MidiMessage>) {
    let s1 = KeyboardView {
        repeat_elapsed_ticks: 0,
        periodic_next_at: Some((now + PERIODIC_INTERVAL_MS) as u64),
        ..reset_progression(s)
    };
    let (s2, attack) = attack_next_arp(s1);
    (s2, match attack { Some(m) => seq![m], None => Seq::empty() })
}

/// One master clock tick of note repeat: every `REPEAT_TICKS` ticks the sounding
/// chord is released and the next chord of the progression is attacked.
pub open spec fn repeat_tick(s: KeyboardView) -> (KeyboardView, Seq<MidiMessage>) {
    if s.repeat_elapsed_ticks + 1 >= REPEAT_TICKS {
        let offs = spec_note_offs(s.repeat_sounding);
        let s1 = advance_chord(KeyboardView { repeat_elapsed_ticks: 0, repeat_sounding: Seq::empty(), ..s });
        let (s2, ons) = attack_repeat_chord(s1);
        (s2, offs + ons)
    } else {
        (KeyboardView { repeat_elapsed_ticks: (s.repeat_elapsed_ticks + 1) as u8, ..s }, Seq::empty())
    }
}

/// The note playback part of a clock tick.
pub open spec fn playback_tick(s: KeyboardView) -> (KeyboardView, Seq<MidiMessage>) {
    match s.note_playback_mode {
        NotePlaybackMode::Off => (s, Seq::empty()),
        _ => if uses_arp(s) { advance_arp(s) } else { repeat_tick(s) },
    }
}

/// The bag the next combination is dealt from: the current one while it fits the
/// periodic senders and is not used up, else a fresh one.
pub open spec fn combo_source(s: KeyboardView) -> DeckView {
    match s.combo_bag {
        Some(bag) => if bag.total == combo_total(s) && !bag.exhausted() {
            bag
        } else {
            DeckView::fresh(combo_total(s))
        },
        None => DeckView::fresh(combo_total(s)),
    }
}

/// `combo` is a combination that the next tick may deal.
pub open spec fn combo_deal_ok(s: KeyboardView, combo: usize) -> bool {
    combo_total(s) <= 1 || combo_source(s).remaining.contains(combo)
}

/// The state once `combo` was dealt (a single combination needs no bag).
pub open spec fn deal_combo(s: KeyboardView, combo: usize) -> KeyboardView {
    if combo_total(s) <= 1 {
        KeyboardView { combo_bag: None, current_combo: 0, ..s }
    } else {
        let source = combo_source(s);
        KeyboardView {
            combo_bag: Some(DeckView {
                total: source.total,
                remaining: source.remaining.remove(combo),
                dealt: source.dealt.push(combo),
            }),
            current_combo: combo,
            ..s
        }
    }
}

/// The controller messages of the current combination, in the order modulation,
/// pitch bend, generic CC.
pub open spec fn controller_messages(s: KeyboardView) -> Seq<MidiMessage> {
    let d = combo_digits(s);
    (if s.modulation_mode == ModulationMode::Periodic {
        seq![spec_control_change(MODULATION_CC, modulation_step(d.modulation))]
    } else {
        Seq::empty()
    }) + (if s.pitch_bend_mode == PitchBendMode::Periodic {
        seq![spec_pitch_bend(pitch_bend_step(d.pitch_bend))]
    } else {
        Seq::empty()
    }) + (if s.cc_periodic_on {
        seq![spec_control_change(s.cc_number, cc_step(d.cc))]
    } else {
        Seq::empty()
    })
}

/// The next tick after a deadline that was reached at `now`: one period after the
/// deadline, or one period after `now` when ticks were missed.
pub open spec fn next_deadline(deadline: u64, now: u64) -> u64 {
    if deadline + PERIODIC_INTERVAL_MS <= now {
        (now + PERIODIC_INTERVAL_MS) as u64
    } else {
        (deadline + PERIODIC_INTERVAL_MS) as u64
    }
}

/// Reads the master clock at `now`: nothing happens before the deadline; at it,
/// the next combination `combo` is dealt, the periodic velocity is updated, the
/// periodic controllers are sent and then the note playback advances.
pub open spec fn poll(s: KeyboardView, now: u64, combo: usize) -> (KeyboardView, Seq<MidiMessage>) {
    match s.periodic_next_at {
        Some(deadline) if now >= deadline => {
            let s1 = deal_combo(KeyboardView { periodic_next_at: Some(next_deadline(deadline, now)), ..s }, combo);
            let s2 = if s1.velocity_mode == VelocityMode::Periodic {
                KeyboardView { velocity: velocity_step(combo_digits(s1).velocity), ..s1 }
            } else {
                s1
            };
            let (s3, notes) = playback_tick(s2);
            (s3, controller_messages(s2) + notes)
        },
        _ => (s, Seq::empty()),
    }
}

/// Whether `poll` deals a combination at `now`, and that `combo` is one it may deal.
pub open spec fn poll_deal_ok(s: KeyboardView, now: u64, combo: usize) -> bool {
    match s.periodic_next_at {
        Some(deadline) if now >= deadline => combo_deal_ok(
            KeyboardView { periodic_next_at: Some(next_deadline(deadline, now)), ..s },
            combo,
        ),
        _ => true,
    }
}

/// After a patch change becomes ready: the current controller values are sent
/// again and the note playback restarts (only when a refresh is pending).
pub open spec fn refresh(s: KeyboardView, now: u64) -> (KeyboardView, Seq<MidiMessage>) {
    if !s.refresh_pending {
        (s, Seq::empty())
    } else {
        let s0 = KeyboardView { refresh_pending: false, ..s };
        let d = combo_digits(s0);
        let modulation = match s0.modulation_mode {
            ModulationMode::Off => Seq::<MidiMessage>::empty(),
            ModulationMode::On => seq![spec_control_change(MODULATION_CC, MODULATION_MAX)],
            ModulationMode::Periodic => seq![spec_control_change(MODULATION_CC, modulation_step(d.modulation))],
        };
        let bend = match s0.pitch_bend_mode {
            PitchBendMode::Idle => Seq::<MidiMessage>::empty(),
            PitchBendMode::Max => seq![spec_pitch_bend(PITCH_BEND_MAX)],
            PitchBendMode::Min => seq![spec_pitch_bend(PITCH_BEND_MIN)],
            PitchBendMode::Periodic => seq![spec_pitch_bend(pitch_bend_step(d.pitch_bend))],
            _ => seq![spec_pitch_bend(PITCH_BEND_CENTER)],
        };
        let cc = if s0.cc_periodic_on {
            seq![spec_control_change(s0.cc_number, cc_step(d.cc))]
        } else {
            Seq::<MidiMessage>::empty()
        };
        let controllers = modulation + bend + cc;
        match s0.note_playback_mode {
            NotePlaybackMode::Off => (s0, controllers),
            _ => if uses_arp(s0) {
                let (s1, notes) = restart_arp(s0, now);
                (s1, controllers + notes)
            } else {
                let (s1, notes) = attack_repeat_chord(
                    KeyboardView { periodic_next_at: Some((now + PERIODIC_INTERVAL_MS) as u64), ..s0 },
                );
                (s1, controllers + notes)
            },
        }
    }
}

/// The notes of `chord` with later repeats of a note dropped.
pub open spec fn distinct_notes(chord: Seq<u8>) -> Seq<u8>
    decreases chord.len(),
{
    if chord.len() == 0 {
        chord
    } else {
        let prefix = distinct_notes(chord.drop_last());
        if prefix.contains(chord.last()) { prefix } else { prefix.push(chord.last()) }
    }
}

/// A typed progression as the keyboard keeps it: repeated notes of a chord are
/// dropped, and so are chords left empty.
pub open spec fn normalized_progression(progression: Seq<Seq<u8>>) -> Seq<Seq<u8>>
    decreases progression.len(),
{
    if progression.len() == 0 {
        Seq::empty()
    } else {
        let prefix = normalized_progression(progression.drop_last());
        let chord = distinct_notes(progression.last());
        if chord.len() == 0 { prefix } else { prefix.push(chord) }
    }
}

/// Replaces the progression; sounding notes are released, and a running playback
/// restarts from its first chord now (or at the next refresh when not ready).
pub open spec fn replace_chords(s: KeyboardView, progression: Seq<Seq<u8>>, now: u64, restart_now: bool)
    -> (KeyboardView, Seq<MidiMessage>)
{
    let s1 = KeyboardView {
        repeat_chords: normalized_progression(progression),
        repeat_elapsed_ticks: 0,
        repeat_sounding: Seq::empty(),
        arp_sounding: None,
        ..reset_progression(s)
    };
    let offs = spec_note_offs(s.repeat_sounding) + opt_note_off(s.arp_sounding);
    if s1.note_playback_mode == NotePlaybackMode::Off {
        (s1, offs)
    } else if !restart_now {
        (KeyboardView { refresh_pending: true, ..s1 }, offs)
    } else if uses_arp(s1) {
        let (s2, notes) = restart_arp(s1, now);
        (s2, offs + notes)
    } else {
        let (s2, notes) = attack_repeat_chord(
            KeyboardView { periodic_next_at: Some((now + PERIODIC_INTERVAL_MS) as u64), ..s1 },
        );
        (s2, offs + notes)
    }
}

/// The `t` key: Off → Repeat → Arp → Auto → Off. Playback stays off while no chord
/// was played.
pub open spec fn cycle_note_playback(s: KeyboardView, now: u64) -> (KeyboardView, Seq<MidiMessage>) {
    match s.note_playback_mode {
        NotePlaybackMode::Off => if s.repeat_chords.len() == 0 {
            (s, Seq::empty())
        } else {
            attack_repeat_chord(KeyboardView {
                note_playback_mode: NotePlaybackMode::Repeat,
                repeat_elapsed_ticks: 0,
                periodic_next_at: Some((now + PERIODIC_INTERVAL_MS) as u64),
                ..reset_progression(s)
            })
        },
        NotePlaybackMode::Repeat => {
            let offs = spec_note_offs(s.repeat_sounding);
            let (s1, notes) = restart_arp(KeyboardView {
                note_playback_mode: NotePlaybackMode::Arp,
                repeat_elapsed_ticks: 0,
                repeat_sounding: Seq::empty(),
                ..s
            }, now);
            (s1, offs + notes)
        },
        NotePlaybackMode::Arp => {
            let s1 = KeyboardView { note_playback_mode: NotePlaybackMode::Auto, repeat_elapsed_ticks: 0, ..s };
            if uses_arp(s1) {
                (s1, Seq::empty())
            } else {
                let offs = opt_note_off(s.arp_sounding);
                let (s2, ons) = attack_repeat_chord(KeyboardView { arp_sounding: None, ..s1 });
                (s2, offs + ons)
            }
        },
        NotePlaybackMode::Auto => {
            let s1 = KeyboardView {
                note_playback_mode: NotePlaybackMode::Off,
                repeat_elapsed_ticks: 0,
                repeat_sounding: Seq::empty(),
                arp_sounding: None,
                ..reset_progression(s)
            };
            (
                KeyboardView {
                    periodic_next_at: if periodic_digits_active(s1) {
                        Some((now + PERIODIC_INTERVAL_MS) as u64)
                    } else {
                        None
                    },
                    ..s1
                },
                spec_note_offs(s.repeat_sounding) + opt_note_off(s.arp_sounding),
            )
        },
    }
}

pub open spec fn held_note_offs(held: Seq<KeyboardNote>) -> Seq<MidiMessage> {
    held.map_values(|n: KeyboardNote| spec_note_off(n.midi_note))
}

/// Releases every sounding note but keeps every mode (for a patch change); the
/// controller values are sent again at the next refresh.
pub open spec fn take_note_offs(s: KeyboardView) -> (KeyboardView, Seq<MidiMessage>) {
    (
        KeyboardView {
            held: Seq::empty(),
            repeat_sounding: Seq::empty(),
            arp_sounding: None,
            refresh_pending: true,
            ..s
        },
        held_note_offs(s.held) + spec_note_offs(s.repeat_sounding) + opt_note_off(s.arp_sounding),
    )
}

/// Stops everything: every sounding note is released, playback turns off, the
/// controllers that were moved are set back to rest and the clock stops.
pub open spec fn take_reset(s: KeyboardView) -> (KeyboardView, Seq<MidiMessage>) {
    let offs = held_note_offs(s.held) + spec_note_offs(s.repeat_sounding) + opt_note_off(s.arp_sounding);
    let modulation = if s.modulation_mode != ModulationMode::Off {
        seq![spec_control_change(MODULATION_CC, 0)]
    } else {
        Seq::empty()
    };
    let bend = if s.pitch_bend_mode != PitchBendMode::Idle {
        seq![spec_pitch_bend(PITCH_BEND_CENTER)]
    } else {
        Seq::empty()
    };
    let cc = if s.cc_periodic_on { seq![spec_control_change(s.cc_number, 0)] } else { Seq::empty() };
    (
        KeyboardView {
            held: Seq::empty(),
            note_playback_mode: NotePlaybackMode::Off,
            repeat_sounding: Seq::empty(),
            arp_sounding: None,
            repeat_chord_index: 0,
            arp_next_index: 0,
            velocity_mode: if s.velocity_mode == VelocityMode::Periodic {
                if s.velocity == ACCENT_VELOCITY { VelocityMode::Accent } else { VelocityMode::Normal }
            } else {
                s.velocity_mode
            },
            modulation_mode: ModulationMode::Off,
            pitch_bend_mode: PitchBendMode::Idle,
            cc_periodic_on: false,
            periodic_next_at: None,
            repeat_elapsed_ticks: 0,
            combo_bag: None,
            current_combo: 0,
            refresh_pending: false,
            ..s
        },
        offs + modulation + bend + cc,
    )
}

pub open spec fn held_key(held: Seq<KeyboardNote>, key: char) -> bool {
    exists|i: int| 0 <= i < held.len() && #[trigger] held[i].key == key
}

/// Pressing a key: a key already held does nothing; a first key starts a new chord,
/// a further key joins the chord; a note-on is sent at the current velocity.
pub open spec fn press(s: KeyboardView, note: KeyboardNote) -> (KeyboardView, Option<Seq<MidiMessage>>) {
    if held_key(s.held, note.key) {
        (s, None)
    } else {
        let s1 = if s.held.len() == 0 {
            KeyboardView { repeat_chords: seq![seq![note.midi_note]], repeat_chord_index: 0, arp_next_index: 0, ..s }
        } else if s.repeat_chords.last().contains(note.midi_note) {
            s
        } else {
            KeyboardView {
                repeat_chords: s.repeat_chords.update(
                    s.repeat_chords.len() - 1,
                    s.repeat_chords.last().push(note.midi_note),
                ),
                arp_next_index: 0,
                ..s
            }
        };
        (KeyboardView { held: s.held.push(note), ..s1 }, Some(seq![spec_note_on(note.midi_note, s.velocity)]))
    }
}

/// `i` is the first position of `held` whose key is `key`.
pub open spec fn is_first_key(held: Seq<KeyboardNote>, key: char, i: int) -> bool {
    &&& 0 <= i < held.len()
    &&& held[i].key == key
    &&& forall|k: int| 0 <= k < i ==> #[trigger] held[k].key != key
}

/// The first position of `key` among the held notes, or -1 when it is not held.
pub open spec fn first_held_index(held: Seq<KeyboardNote>, key: char) -> int {
    if exists|i: int| is_first_key(held, key, i) {
        choose|i: int| is_first_key(held, key, i)
    } else {
        -1
    }
}

pub proof fn lemma_first_held_index(held: Seq<KeyboardNote>, key: char, i: int)
    requires
        is_first_key(held, key, i),
    ensures
        first_held_index(held, key) == i,
{
    let j = choose|j: int| is_first_key(held, key, j);
    assert(is_first_key(held, key, j));
    if j < i {
        assert(held[j].key != key);
    } else if i < j {
        assert(held[i].key != key);
    }
}

pub proof fn lemma_no_held_index(held: Seq<KeyboardNote>, key: char)
    requires
        forall|k: int| 0 <= k < held.len() ==> #[trigger] held[k].key != key,
    ensures
        first_held_index(held, key) == -1,
{
    if exists|i: int| is_first_key(held, key, i) {
        let j = choose|j: int| is_first_key(held, key, j);
        assert(held[j].key != key);
    }
}

/// Releasing a key: a key that is not held does nothing; else it stops being held
/// and a note-off is sent.
pub open spec fn release(s: KeyboardView, note: KeyboardNote) -> (KeyboardView, Option<Seq<MidiMessage>>) {
    let i = first_held_index(s.held, note.key);
    if i < 0 {
        (s, None)
    } else {
        (KeyboardView { held: s.held.remove(i), ..s }, Some(seq![spec_note_off(note.midi_note)]))
    }
}

/// The `v` key: Normal → Accent → Periodic → Normal.
pub open spec fn cycle_velocity(s: KeyboardView, now: u64) -> KeyboardView {
    match s.velocity_mode {
        VelocityMode::Normal => KeyboardView {
            velocity: ACCENT_VELOCITY,
            velocity_mode: VelocityMode::Accent,
            ..s
        },
        VelocityMode::Accent => reset_combo_clock(
            KeyboardView { velocity: DEFAULT_VELOCITY, velocity_mode: VelocityMode::Periodic, ..s },
            now,
        ),
        VelocityMode::Periodic => reset_combo_clock(
            KeyboardView { velocity: DEFAULT_VELOCITY, velocity_mode: VelocityMode::Normal, ..s },
            now,
        ),
    }
}

/// The `m` key: Off → On (127) → Periodic (starting from 0) → Off (0).
pub open spec fn cycle_modulation(s: KeyboardView, now: u64) -> (KeyboardView, MidiMessage) {
    match s.modulation_mode {
        ModulationMode::Off => (
            KeyboardView { modulation_mode: ModulationMode::On, ..s },
            spec_control_change(MODULATION_CC, MODULATION_MAX),
        ),
        ModulationMode::On => (
            reset_combo_clock(KeyboardView { modulation_mode: ModulationMode::Periodic, ..s }, now),
            spec_control_change(MODULATION_CC, 0),
        ),
        ModulationMode::Periodic => (
            reset_combo_clock(KeyboardView { modulation_mode: ModulationMode::Off, ..s }, now),
            spec_control_change(MODULATION_CC, 0),
        ),
    }
}

/// The `p` key: max, center, min, center, periodic (starting from max), center, max, ...
pub open spec fn cycle_pitch_bend(s: KeyboardView, now: u64) -> (KeyboardView, MidiMessage) {
    match s.pitch_bend_mode {
        PitchBendMode::Idle | PitchBendMode::CenterAfterCycle => (
            KeyboardView { pitch_bend_mode: PitchBendMode::Max, ..s },
            spec_pitch_bend(PITCH_BEND_MAX),
        ),
        PitchBendMode::Max => (
            KeyboardView { pitch_bend_mode: PitchBendMode::CenterAfterMax, ..s },
            spec_pitch_bend(PITCH_BEND_CENTER),
        ),
        PitchBendMode::CenterAfterMax => (
            KeyboardView { pitch_bend_mode: PitchBendMode::Min, ..s },
            spec_pitch_bend(PITCH_BEND_MIN),
        ),
        PitchBendMode::Min => (
            KeyboardView { pitch_bend_mode: PitchBendMode::CenterAfterMin, ..s },
            spec_pitch_bend(PITCH_BEND_CENTER),
        ),
        PitchBendMode::CenterAfterMin => (
            reset_combo_clock(KeyboardView { pitch_bend_mode: PitchBendMode::Periodic, ..s }, now),
            spec_pitch_bend(PITCH_BEND_MAX),
        ),
        PitchBendMode::Periodic => (
            reset_combo_clock(KeyboardView { pitch_bend_mode: PitchBendMode::CenterAfterCycle, ..s }, now),
            spec_pitch_bend(PITCH_BEND_CENTER),
        ),
    }
}

/// `Shift+Z`: toggles the periodic generic CC; it starts from 127 and stops at 0.
pub open spec fn toggle_cc_periodic(s: KeyboardView, now: u64) -> (KeyboardView, MidiMessage) {
    let s1 = reset_combo_clock(KeyboardView { cc_periodic_on: !s.cc_periodic_on, ..s }, now);
    (s1, spec_control_change(s.cc_number, if !s.cc_periodic_on { CC_MAX } else { 0 }))
}

/// Enter in numeric entry: the entry closes; a typed controller number is stored,
/// a typed controller value is sent to the stored controller number.
pub open spec fn confirm_numeric(s: KeyboardView) -> (KeyboardView, Option<MidiMessage>) {
    match s.numeric_input {
        None => (s, None),
        Some((target, buffer)) => {
            let s1 = KeyboardView { numeric_input: None, ..s };
            match spec_confirmed_value(buffer) {
                None => (s1, None),
                Some(value) => match target {
                    NumericInputTarget::CcNumber => (KeyboardView { cc_number: value, ..s1 }, None),
                    NumericInputTarget::CcValue => (s1, Some(spec_control_change(s1.cc_number, value))),
                },
            }
        },
    }
}

/// A typed character in the numeric entry: a digit is appended while there is
/// room for it; anything else is ignored.
pub open spec fn numeric_push(s: KeyboardView, digit: char) -> KeyboardView {
    match s.numeric_input {
        Some((target, buffer)) => KeyboardView {
            numeric_input: Some((target, if is_ascii_digit(digit) && buffer.len() < NUMERIC_INPUT_MAX_DIGITS {
                buffer.push(digit)
            } else {
                buffer
            })),
            ..s
        },
        None => s,
    }
}

/// Backspace in the numeric entry.
pub open spec fn numeric_backspace(s: KeyboardView) -> KeyboardView {
    match s.numeric_input {
        Some((target, buffer)) => KeyboardView {
            numeric_input: Some((target, if buffer.len() == 0 { buffer } else { buffer.drop_last() })),
            ..s
        },
        None => s,
    }
}

/// `Shift+H`: buffer ×1 → ×2 → ×4 → ×8 → ×1 (anything else goes to ×1).
pub open spec fn next_buffer_multiplier(current: u8) -> u8 {
    if current == 1 {
        2
    } else if current == 2 {
        4
    } else if current == 4 {
        8
    } else {
        1
    }
}


/// After a reset nothing is held or sounding, playback is off and every
/// controller is at rest, so a second reset has nothing to send.
pub proof fn reset_silences_everything(s: KeyboardView)
    ensures
        take_reset(s).0.held.len() == 0,
        take_reset(s).0.repeat_sounding.len() == 0,
        take_reset(s).0.arp_sounding is None,
        take_reset(s).0.note_playback_mode == NotePlaybackMode::Off,
        take_reset(take_reset(s).0).1.len() == 0,
{
    let r = take_reset(s).0;
    assert(held_note_offs(r.held) =~= Seq::<MidiMessage>::empty());
    assert(spec_note_offs(r.repeat_sounding) =~= Seq::<MidiMessage>::empty());
}

/// Releasing a key right after pressing it (when it was not held) gives the
/// held keys back as they were and sends its note-off.
pub proof fn release_undoes_press(s: KeyboardView, note: KeyboardNote)
    requires
        !held_key(s.held, note.key),
    ensures
        release(press(s, note).0, note).0.held == s.held,
        release(press(s, note).0, note).1 == Some(seq![spec_note_off(note.midi_note)]),
        press(s, note).1 == Some(seq![spec_note_on(note.midi_note, s.velocity)]),
{
    let pressed = press(s, note).0;
    let held = pressed.held;
    assert(held == s.held.push(note));
    let i = s.held.len() as int;
    assert forall|k: int| 0 <= k < i implies #[trigger] held[k].key != note.key by {
        assert(held[k] == s.held[k]);
        if held[k].key == note.key {
            assert(0 <= k < s.held.len() && s.held[k].key == note.key);
        }
    }
    assert(is_first_key(held, note.key, i));
    lemma_first_held_index(held, note.key, i);
    assert(held.remove(i) =~= s.held);
}

} // verus!
