//! The realtime keyboard's state and its transitions; each one is proved to do
//! exactly what `keyboard_model` says.
use vstd::prelude::*;
use crate::keyboard_connection::{opt_string_view, KeyboardTransport, PatchVoicing};
use crate::keyboard_model::{
    advance_arp, advance_chord, arp_sequence, ascending_notes, attack_next_arp, attack_repeat_chord,
    chord_wf, combo_deal_ok, combo_digits, combo_source, combo_total, confirm_numeric, current_chord,
    cycle_modulation, cycle_note_playback, cycle_pitch_bend, cycle_velocity, deal_combo, distinct_notes,
    first_held_index, held_key, held_note_offs, keyboard_wf, modulation_step, cc_step, next_buffer_multiplier,
    next_deadline, normalized_progression, opt_note_off, periodic_active, periodic_digits_active,
    pitch_bend_step, playback_tick, poll, poll_deal_ok, press, refresh, release, repeat_tick, replace_chords,
    reset_combo_clock, restart_arp, take_note_offs, take_reset, toggle_cc_periodic, uses_arp, velocity_step,
    KeyboardNote, KeyboardView, ModulationMode, NotePlaybackMode, PitchBendMode, PlaybackNote, VelocityMode,
    ACCENT_VELOCITY, CC_MAX, DEFAULT_CC_NUMBER, DEFAULT_VELOCITY, MODULATION_MAX, OCTAVE,
    PERIODIC_INTERVAL_MS, REPEAT_TICKS, TIME_LIMIT_MS,
};
use crate::midi_message::{
    control_change, note_off, note_on, pitch_bend, spec_control_change, spec_note_off, spec_note_offs,
    spec_note_on, spec_note_ons, spec_pitch_bend, MidiMessage, MODULATION_CC, PITCH_BEND_CENTER,
    PITCH_BEND_MAX, PITCH_BEND_MIN,
};
use crate::navigation::NavigationCount;
use crate::numeric_input::{NumericInput, NumericInputTarget};
use crate::random_deck::{DeckView, RandomIndexDeck};

verus! {

/// The seven note keys: c d e f g a b play C4 to B4.
pub fn keyboard_notes() -> (notes: [KeyboardNote; 7])
    ensures
        notes@ == keyboard_note_table(),
{
    [
        KeyboardNote::new('c', "C4", 60),
        KeyboardNote::new('d', "D4", 62),
        KeyboardNote::new('e', "E4", 64),
        KeyboardNote::new('f', "F4", 65),
        KeyboardNote::new('g', "G4", 67),
        KeyboardNote::new('a', "A4", 69),
        KeyboardNote::new('b', "B4", 71),
    ]
}

/// The note keys with their MIDI notes (the names are for display only).
pub open spec fn keyboard_note_table() -> Seq<KeyboardNote> {
    seq![
        KeyboardNote { key: 'c', name: "C4", midi_note: 60 },
        KeyboardNote { key: 'd', name: "D4", midi_note: 62 },
        KeyboardNote { key: 'e', name: "E4", midi_note: 64 },
        KeyboardNote { key: 'f', name: "F4", midi_note: 65 },
        KeyboardNote { key: 'g', name: "G4", midi_note: 67 },
        KeyboardNote { key: 'a', name: "A4", midi_note: 69 },
        KeyboardNote { key: 'b', name: "B4", midi_note: 71 },
    ]
}

impl KeyboardNote {
    pub fn new(key: char, name: &'static str, midi_note: u8) -> (note: Self)
        ensures
            note == (KeyboardNote { key, name, midi_note }),
    {
        KeyboardNote { key, name, midi_note }
    }
}

/// The note that the character key `key` plays, if any.
pub open spec fn spec_note_for_key(key: char) -> Option<KeyboardNote> {
    if key == 'c' {
        Some(KeyboardNote { key: 'c', name: "C4", midi_note: 60 })
    } else if key == 'd' {
        Some(KeyboardNote { key: 'd', name: "D4", midi_note: 62 })
    } else if key == 'e' {
        Some(KeyboardNote { key: 'e', name: "E4", midi_note: 64 })
    } else if key == 'f' {
        Some(KeyboardNote { key: 'f', name: "F4", midi_note: 65 })
    } else if key == 'g' {
        Some(KeyboardNote { key: 'g', name: "G4", midi_note: 67 })
    } else if key == 'a' {
        Some(KeyboardNote { key: 'a', name: "A4", midi_note: 69 })
    } else if key == 'b' {
        Some(KeyboardNote { key: 'b', name: "B4", midi_note: 71 })
    } else {
        None
    }
}

/// The note that the character key `key` plays, if any.
pub fn note_for_key(key: char) -> (note: Option<KeyboardNote>)
    ensures
        note == spec_note_for_key(key),
        match note {
            Some(n) => n.key == key && keyboard_note_table().contains(n) && n.midi_note < 128,
            None => forall|i: int| 0 <= i < 7 ==> #[trigger] keyboard_note_table()[i].key != key,
        },
{
    let note = if key == 'c' {
        Some(KeyboardNote::new('c', "C4", 60))
    } else if key == 'd' {
        Some(KeyboardNote::new('d', "D4", 62))
    } else if key == 'e' {
        Some(KeyboardNote::new('e', "E4", 64))
    } else if key == 'f' {
        Some(KeyboardNote::new('f', "F4", 65))
    } else if key == 'g' {
        Some(KeyboardNote::new('g', "G4", 67))
    } else if key == 'a' {
        Some(KeyboardNote::new('a', "A4", 69))
    } else if key == 'b' {
        Some(KeyboardNote::new('b', "B4", 71))
    } else {
        None
    };
    proof {
        let t = keyboard_note_table();
        match note {
            Some(n) => {
                let i: int = if key == 'c' { 0 } else if key == 'd' { 1 } else if key == 'e' { 2 } else if key == 'f' {
                    3
                } else if key == 'g' { 4 } else if key == 'a' { 5 } else { 6 };
                assert(t[i] == n);
            },
            None => {},
        }
    }
    note
}

/// What a keyboard session saves: the patch, the transport and the buffer size.
pub struct KeyboardSessionState {
    pub patch: Option<String>,
    pub transport: KeyboardTransport,
    pub buffer_multiplier: u8,
}

impl KeyboardSessionState {
    /// No patch, shared memory, buffer ×4.
    pub fn default() -> (session: Self)
        ensures
            session.patch is None,
            session.transport == KeyboardTransport::SharedMemory,
            session.buffer_multiplier == 4,
    {
        KeyboardSessionState { patch: None, transport: KeyboardTransport::SharedMemory, buffer_multiplier: 4 }
    }
}

/// Whether `c` is white space in the sense of Unicode's `White_Space` property.
pub open spec fn spec_is_whitespace(c: char) -> bool {
    ('\u{9}' <= c && c <= '\u{d}') || c == ' ' || c == '\u{85}' || c == '\u{a0}' || c == '\u{1680}'
        || ('\u{2000}' <= c && c <= '\u{200a}') || c == '\u{2028}' || c == '\u{2029}' || c == '\u{202f}'
        || c == '\u{205f}' || c == '\u{3000}'
}

/// Whether `c` is white space (Unicode `White_Space`).
pub fn is_whitespace(c: char) -> (space: bool)
    ensures
        space == spec_is_whitespace(c),
{
    ('\u{9}' <= c && c <= '\u{d}') || c == ' ' || c == '\u{85}' || c == '\u{a0}' || c == '\u{1680}'
        || ('\u{2000}' <= c && c <= '\u{200a}') || c == '\u{2028}' || c == '\u{2029}' || c == '\u{202f}'
        || c == '\u{205f}' || c == '\u{3000}'
}

/// A string made of white space only (the empty string too).
pub open spec fn spec_is_blank(s: Seq<char>) -> bool {
    forall|i: int| 0 <= i < s.len() ==> spec_is_whitespace(#[trigger] s[i])
}

/// Whether `s` holds nothing but white space.
pub fn is_blank(s: &str) -> (blank: bool)
    ensures
        blank == spec_is_blank(s@),
{
    let len = s.unicode_len();
    let mut i: usize = 0;
    while i < len
        invariant
            len == s@.len(),
            i <= len,
            forall|k: int| 0 <= k < i ==> spec_is_whitespace(#[trigger] s@[k]),
        decreases len - i,
    {
        if !is_whitespace(s.get_char(i)) {
            return false;
        }
        i = i + 1;
    }
    true
}

/// The keyboard state that a saved session starts with.
pub open spec fn initial_view(patch: Option<Seq<char>>, transport: KeyboardTransport, buffer_multiplier: u8)
    -> KeyboardView
{
    KeyboardView {
        held: Seq::empty(),
        patch: match patch {
            Some(p) => if spec_is_blank(p) { None } else { Some(p) },
            None => None,
        },
        transport,
        buffer_multiplier,
        velocity: DEFAULT_VELOCITY,
        velocity_mode: VelocityMode::Normal,
        modulation_mode: ModulationMode::Off,
        pitch_bend_mode: PitchBendMode::Idle,
        cc_number: DEFAULT_CC_NUMBER,
        cc_periodic_on: false,
        note_playback_mode: NotePlaybackMode::Off,
        detected_voicing: PatchVoicing::Unknown,
        repeat_chords: Seq::empty(),
        repeat_chord_index: 0,
        repeat_sounding: Seq::empty(),
        arp_sounding: None,
        arp_next_index: 0,
        periodic_next_at: None,
        repeat_elapsed_ticks: 0,
        combo_bag: None,
        current_combo: 0,
        refresh_pending: false,
        numeric_input: None,
        navigation_count: None,
    }
}

/// The realtime keyboard: held keys, controller modes, the remembered chords and
/// the note playback that repeats or arpeggiates them, on one master clock.
pub struct KeyboardState {
    held: Vec<KeyboardNote>,
    patch: Option<String>,
    transport: KeyboardTransport,
    buffer_multiplier: u8,
    velocity: u8,
    velocity_mode: VelocityMode,
    modulation_mode: ModulationMode,
    pitch_bend_mode: PitchBendMode,
    cc_number: u8,
    cc_periodic_on: bool,
    note_playback_mode: NotePlaybackMode,
    detected_voicing: PatchVoicing,
    repeat_chords: Vec<Vec<u8>>,
    repeat_chord_index: usize,
    repeat_sounding: Vec<u8>,
    arp_sounding: Option<u8>,
    arp_next_index: usize,
    periodic_next_at: Option<u64>,
    repeat_elapsed_ticks: u8,
    combo_bag: Option<RandomIndexDeck>,
    current_combo: usize,
    refresh_pending: bool,
    numeric_input: Option<NumericInput>,
    deck_seed: u64,
    navigation_count: NavigationCount,
}

pub open spec fn chords_view(chords: Seq<Vec<u8>>) -> Seq<Seq<u8>> {
    chords.map_values(|c: Vec<u8>| c@)
}

impl View for KeyboardState {
    type V = KeyboardView;

    closed spec fn view(&self) -> KeyboardView {
        KeyboardView {
            held: self.held@,
            patch: opt_string_view(self.patch),
            transport: self.transport,
            buffer_multiplier: self.buffer_multiplier,
            velocity: self.velocity,
            velocity_mode: self.velocity_mode,
            modulation_mode: self.modulation_mode,
            pitch_bend_mode: self.pitch_bend_mode,
            cc_number: self.cc_number,
            cc_periodic_on: self.cc_periodic_on,
            note_playback_mode: self.note_playback_mode,
            detected_voicing: self.detected_voicing,
            repeat_chords: chords_view(self.repeat_chords@),
            repeat_chord_index: self.repeat_chord_index,
            repeat_sounding: self.repeat_sounding@,
            arp_sounding: self.arp_sounding,
            arp_next_index: self.arp_next_index,
            periodic_next_at: self.periodic_next_at,
            repeat_elapsed_ticks: self.repeat_elapsed_ticks,
            combo_bag: match self.combo_bag {
                Some(bag) => Some(bag@),
                None => None,
            },
            current_combo: self.current_combo,
            refresh_pending: self.refresh_pending,
            numeric_input: match self.numeric_input {
                Some(input) => Some((input.spec_target(), input.spec_buffer())),
                None => None,
            },
            navigation_count: self.navigation_count.value,
        }
    }
}

/// Copies of `notes`.
fn copy_notes(notes: &Vec<u8>) -> (copy: Vec<u8>)
    ensures
        copy@ == notes@,
{
    let mut copy: Vec<u8> = Vec::new();
    let mut i: usize = 0;
    while i < notes.len()
        invariant
            i <= notes@.len(),
            copy@ == notes@.subrange(0, i as int),
        decreases notes@.len() - i,
    {
        copy.push(notes[i]);
        i = i + 1;
        assert(copy@ =~= notes@.subrange(0, i as int));
    }
    assert(copy@ =~= notes@);
    copy
}

/// Whether `notes` holds `note`.
fn contains_note(notes: &Vec<u8>, note: u8) -> (found: bool)
    ensures
        found == notes@.contains(note),
{
    let mut i: usize = 0;
    while i < notes.len()
        invariant
            i <= notes@.len(),
            forall|k: int| 0 <= k < i ==> notes@[k] != note,
        decreases notes@.len() - i,
    {
        if notes[i] == note {
            assert(notes@[i as int] == note);
            return true;
        }
        i = i + 1;
    }
    false
}

/// Note-offs for `notes`, appended to `messages`.
fn push_note_offs(messages: &mut Vec<MidiMessage>, notes: &Vec<u8>)
    ensures
        final(messages)@ == old(messages)@ + spec_note_offs(notes@),
{
    let mut i: usize = 0;
    while i < notes.len()
        invariant
            i <= notes@.len(),
            messages@ == old(messages)@ + spec_note_offs(notes@.subrange(0, i as int)),
        decreases notes@.len() - i,
    {
        messages.push(note_off(notes[i]));
        i = i + 1;
        assert(spec_note_offs(notes@.subrange(0, i as int)) =~= spec_note_offs(
            notes@.subrange(0, i - 1),
        ).push(spec_note_off(notes@[i - 1])));
    }
    assert(notes@.subrange(0, notes@.len() as int) =~= notes@);
}

/// Note-ons for `notes` at `velocity`, appended to `messages`.
fn push_note_ons(messages: &mut Vec<MidiMessage>, notes: &Vec<u8>, velocity: u8)
    ensures
        final(messages)@ == old(messages)@ + spec_note_ons(notes@, velocity),
{
    let mut i: usize = 0;
    while i < notes.len()
        invariant
            i <= notes@.len(),
            messages@ == old(messages)@ + spec_note_ons(notes@.subrange(0, i as int), velocity),
        decreases notes@.len() - i,
    {
        messages.push(note_on(notes[i], velocity));
        i = i + 1;
        assert(spec_note_ons(notes@.subrange(0, i as int), velocity) =~= spec_note_ons(
            notes@.subrange(0, i - 1),
            velocity,
        ).push(spec_note_on(notes@[i - 1], velocity)));
    }
    assert(notes@.subrange(0, notes@.len() as int) =~= notes@);
}

/// Every note of `ascending_notes(chord, bound)` is below `bound` and belongs to `chord`;
/// the list is strictly increasing; a chord note below `bound` is in it.
pub proof fn lemma_ascending_notes(chord: Seq<u8>, bound: nat)
    requires
        bound <= 256,
    ensures
        forall|i: int| 0 <= i < ascending_notes(chord, bound).len() ==> #[trigger] ascending_notes(chord, bound)[i]
            < bound && chord.contains(ascending_notes(chord, bound)[i]),
        forall|i: int, j: int| 0 <= i < j < ascending_notes(chord, bound).len() ==> ascending_notes(chord, bound)[i]
            < ascending_notes(chord, bound)[j],
        forall|x: u8| x < bound && chord.contains(x) ==> #[trigger] ascending_notes(chord, bound).contains(x),
    decreases bound,
{
    if bound > 0 {
        lemma_ascending_notes(chord, (bound - 1) as nat);
        let prev = ascending_notes(chord, (bound - 1) as nat);
        let cur = ascending_notes(chord, bound);
        assert forall|x: u8| x < bound && chord.contains(x) implies #[trigger] cur.contains(x) by {
            if x < bound - 1 {
                assert(prev.contains(x));
                let k = choose|k: int| 0 <= k < prev.len() && prev[k] == x;
                assert(cur[k] == x);
            } else {
                assert(cur[cur.len() - 1] == x);
            }
        }
    }
}

/// The arpeggio of a playable chord is not empty.
proof fn lemma_arp_nonempty(chord: Seq<u8>)
    requires
        chord_wf(chord),
    ensures
        arp_sequence(chord).len() > 0,
{
    lemma_ascending_notes(chord, 128);
    assert(chord[0] < 128);
    assert(chord.contains(chord[0]));
    assert(ascending_notes(chord, 128).contains(chord[0]));
}

/// The notes of a chord by increasing pitch, then an octave up.
fn arp_sequence_of(chord: &Vec<u8>) -> (sequence: Vec<u8>)
    requires
        forall|i: int| 0 <= i < chord@.len() ==> #[trigger] chord@[i] < 128,
    ensures
        sequence@ == arp_sequence(chord@),
{
    let mut base: Vec<u8> = Vec::new();
    let mut m: u8 = 0;
    while m < 128
        invariant
            m <= 128,
            base@ == ascending_notes(chord@, m as nat),
        decreases 128 - m,
    {
        if contains_note(chord, m) {
            base.push(m);
        }
        m = m + 1;
        assert(((m as nat) - 1) as u8 == (m - 1) as u8);
    }
    proof {
        lemma_ascending_notes(chord@, 128);
    }
    let mut sequence: Vec<u8> = copy_notes(&base);
    let mut i: usize = 0;
    while i < base.len()
        invariant
            i <= base@.len(),
            base@ == ascending_notes(chord@, 128),
            forall|k: int| 0 <= k < base@.len() ==> #[trigger] base@[k] < 128,
            sequence@ == base@ + base@.subrange(0, i as int).map_values(|n: u8| (n + OCTAVE) as u8),
        decreases base@.len() - i,
    {
        assert(base@[i as int] < 128);
        sequence.push(base[i] + OCTAVE);
        i = i + 1;
        assert(base@.subrange(0, i as int).map_values(|n: u8| (n + OCTAVE) as u8) =~= base@.subrange(
            0,
            i - 1,
        ).map_values(|n: u8| (n + OCTAVE) as u8).push((base@[i - 1] + OCTAVE) as u8));
    }
    assert(base@.subrange(0, base@.len() as int) =~= base@);
    sequence
}

/// Whether `messages` has a note-off for `note` appended when `note` is present.
fn push_opt_note_off(messages: &mut Vec<MidiMessage>, note: Option<u8>)
    ensures
        final(messages)@ == old(messages)@ + opt_note_off(note),
{
    match note {
        Some(n) => {
            messages.push(note_off(n));
        },
        None => {},
    }
    assert(messages@ =~= old(messages)@ + opt_note_off(note));
}

/// `true` when `deadline` is set and reached at `now`; the deadline then moves one
/// period on, or one period past `now` when ticks were missed.
pub fn deadline_elapsed(next_at: &mut Option<u64>, now: u64) -> (elapsed: bool)
    requires
        now <= TIME_LIMIT_MS,
    ensures
        elapsed == (match *old(next_at) {
            Some(deadline) => now >= deadline,
            None => false,
        }),
        elapsed ==> *final(next_at) == Some(next_deadline(old(next_at).unwrap(), now)),
        elapsed ==> now < final(next_at).unwrap() <= now + PERIODIC_INTERVAL_MS,
        !elapsed ==> *final(next_at) == *old(next_at),
{
    let deadline = match *next_at {
        Some(d) => d,
        None => return false,
    };
    if now < deadline {
        return false;
    }
    let scheduled = deadline + PERIODIC_INTERVAL_MS;
    *next_at = Some(if scheduled <= now { now + PERIODIC_INTERVAL_MS } else { scheduled });
    true
}

/// Well-formedness only looks at the chords, the tick counter, the bag and the
/// numeric entry.
proof fn lemma_wf_frame(a: &KeyboardState, b: &KeyboardState)
    requires
        a.wf(),
        b@.repeat_chords == a@.repeat_chords,
        b.repeat_elapsed_ticks < REPEAT_TICKS,
        match b.combo_bag {
            Some(bag) => bag.wf(),
            None => true,
        },
        match b.numeric_input {
            Some(input) => input.wf(),
            None => true,
        },
    ensures
        b.wf(),
{
    match b.combo_bag {
        Some(bag) => bag.lemma_view_wf(),
        None => {},
    }
}

impl KeyboardState {
    /// The state keeps its chords playable and its bag and numeric entry consistent.
    pub closed spec fn wf(&self) -> bool {
        &&& keyboard_wf(self@)
        &&& match self.combo_bag {
            Some(bag) => bag.wf(),
            None => true,
        }
        &&& match self.numeric_input {
            Some(input) => input.wf(),
            None => true,
        }
    }

    /// A fresh keyboard on `patch` (a blank patch name counts as none), shared
    /// memory, buffer ×4.
    pub fn new(patch: Option<String>) -> (state: Self)
        ensures
            state.wf(),
            state@ == initial_view(opt_string_view(patch), KeyboardTransport::SharedMemory, 4),
    {
        let session = KeyboardSessionState { patch, transport: KeyboardTransport::SharedMemory, buffer_multiplier: 4 };
        Self::from_session(session)
    }

    /// `KeyboardState::new(None)`.
    pub fn default() -> (state: Self)
        ensures
            state.wf(),
            state@ == initial_view(None, KeyboardTransport::SharedMemory, 4),
    {
        Self::new(None)
    }

    /// A keyboard restored from a saved session; modes and chords start afresh.
    pub fn from_session(session: KeyboardSessionState) -> (state: Self)
        ensures
            state.wf(),
            state@ == initial_view(opt_string_view(session.patch), session.transport, session.buffer_multiplier),
    {
        let patch = match session.patch {
            Some(p) => if is_blank(p.as_str()) { None } else { Some(p) },
            None => None,
        };
        let state = KeyboardState {
            held: Vec::new(),
            patch,
            transport: session.transport,
            buffer_multiplier: session.buffer_multiplier,
            velocity: DEFAULT_VELOCITY,
            velocity_mode: VelocityMode::Normal,
            modulation_mode: ModulationMode::Off,
            pitch_bend_mode: PitchBendMode::Idle,
            cc_number: DEFAULT_CC_NUMBER,
            cc_periodic_on: false,
            note_playback_mode: NotePlaybackMode::Off,
            detected_voicing: PatchVoicing::Unknown,
            repeat_chords: Vec::new(),
            repeat_chord_index: 0,
            repeat_sounding: Vec::new(),
            arp_sounding: None,
            arp_next_index: 0,
            periodic_next_at: None,
            repeat_elapsed_ticks: 0,
            combo_bag: None,
            current_combo: 0,
            refresh_pending: false,
            numeric_input: None,
            deck_seed: 0x2545_F491_4F6C_DD1D,
            navigation_count: NavigationCount::default(),
        };
        assert(state@.repeat_chords =~= Seq::<Seq<u8>>::empty());
        state
    }

    /// What a session saves of this keyboard.
    pub fn session_state(&self) -> (session: KeyboardSessionState)
        ensures
            opt_string_view(session.patch) == self@.patch,
            session.transport == self@.transport,
            session.buffer_multiplier == self@.buffer_multiplier,
    {
        let patch = match &self.patch {
            Some(p) => Some(p.clone()),
            None => None,
        };
        KeyboardSessionState { patch, transport: self.transport, buffer_multiplier: self.buffer_multiplier }
    }

    /// The keys held down, in the order they were pressed.
    pub fn held(&self) -> (held: &[KeyboardNote])
        ensures
            held@ == self@.held,
    {
        self.held.as_slice()
    }

    pub fn patch(&self) -> (patch: Option<&str>)
        ensures
            match patch {
                Some(p) => self@.patch == Some(p@),
                None => self@.patch is None,
            },
    {
        match &self.patch {
            Some(p) => Some(p.as_str()),
            None => None,
        }
    }

    /// Sets the patch that notes are sent for.
    pub fn set_patch(&mut self, patch: Option<String>)
        requires
            old(self).wf(),
        ensures
            final(self).wf(),
            final(self)@ == (KeyboardView { patch: opt_string_view(patch), ..old(self)@ }),
    {
        self.patch = patch;
    }

    pub fn buffer_multiplier(&self) -> (multiplier: u8)
        ensures
            multiplier == self@.buffer_multiplier,
    {
        self.buffer_multiplier
    }

    pub fn transport(&self) -> (transport: KeyboardTransport)
        ensures
            transport == self@.transport,
    {
        self.transport
    }

    pub fn velocity(&self) -> (velocity: u8)
        ensures
            velocity == self@.velocity,
    {
        self.velocity
    }

    pub fn velocity_mode(&self) -> (mode: VelocityMode)
        ensures
            mode == self@.velocity_mode,
    {
        self.velocity_mode
    }

    pub fn modulation_mode(&self) -> (mode: ModulationMode)
        ensures
            mode == self@.modulation_mode,
    {
        self.modulation_mode
    }

    pub fn pitch_bend_mode(&self) -> (mode: PitchBendMode)
        ensures
            mode == self@.pitch_bend_mode,
    {
        self.pitch_bend_mode
    }

    pub fn cc_periodic_on(&self) -> (on: bool)
        ensures
            on == self@.cc_periodic_on,
    {
        self.cc_periodic_on
    }

    pub fn note_playback_mode(&self) -> (mode: NotePlaybackMode)
        ensures
            mode == self@.note_playback_mode,
    {
        self.note_playback_mode
    }

    pub fn cc_number(&self) -> (number: u8)
        ensures
            number == self@.cc_number,
    {
        self.cc_number
    }

    /// Records the voicing detected for the current patch.
    pub fn set_detected_voicing(&mut self, voicing: PatchVoicing)
        requires
            old(self).wf(),
        ensures
            final(self).wf(),
            final(self)@ == (KeyboardView { detected_voicing: voicing, ..old(self)@ }),
    {
        self.detected_voicing = voicing;
    }

    /// Whether note playback arpeggiates now (always in Arp, in Auto for a mono patch).
    pub fn note_playback_uses_arp(&self) -> (arp: bool)
        ensures
            arp == uses_arp(self@),
    {
        self.note_playback_mode == NotePlaybackMode::Arp || (self.note_playback_mode == NotePlaybackMode::Auto
            && self.detected_voicing == PatchVoicing::Mono)
    }

    /// The remembered chord progression.
    pub fn repeat_chords(&self) -> (chords: Vec<Vec<PlaybackNote>>)
        ensures
            chords@.len() == self@.repeat_chords.len(),
            forall|i: int| 0 <= i < chords@.len() ==> #[trigger] chords@[i]@.len() == self@.repeat_chords[i].len()
                && forall|j: int| 0 <= j < chords@[i]@.len() ==> #[trigger] chords@[i]@[j].midi_note
                    == self@.repeat_chords[i][j],
    {
        let mut chords: Vec<Vec<PlaybackNote>> = Vec::new();
        let mut i: usize = 0;
        while i < self.repeat_chords.len()
            invariant
                i <= self.repeat_chords@.len(),
                chords@.len() == i,
                forall|a: int| 0 <= a < i ==> #[trigger] chords@[a]@.len() == self.repeat_chords@[a]@.len()
                    && forall|j: int| 0 <= j < chords@[a]@.len() ==> #[trigger] chords@[a]@[j].midi_note
                        == self.repeat_chords@[a]@[j],
            decreases self.repeat_chords@.len() - i,
        {
            let source = &self.repeat_chords[i];
            let mut chord: Vec<PlaybackNote> = Vec::new();
            let mut j: usize = 0;
            while j < source.len()
                invariant
                    j <= source@.len(),
                    chord@.len() == j,
                    forall|k: int| 0 <= k < j ==> #[trigger] chord@[k].midi_note == source@[k],
                decreases source@.len() - j,
            {
                chord.push(PlaybackNote { midi_note: source[j] });
                j = j + 1;
            }
            chords.push(chord);
            i = i + 1;
        }
        chords
    }

    pub fn numeric_input(&self) -> (input: Option<&NumericInput>)
        ensures
            match input {
                Some(n) => self@.numeric_input == Some((n.spec_target(), n.spec_buffer())),
                None => self@.numeric_input is None,
            },
    {
        self.numeric_input.as_ref()
    }

    /// The vim-style count typed before a patch move.
    pub fn navigation_count(&self) -> (count: Option<usize>)
        ensures
            count == self.spec_navigation_count(),
    {
        self.navigation_count.value
    }

    pub open spec fn spec_navigation_count(&self) -> Option<usize> {
        self@.navigation_count
    }

    /// Types a digit of the count; see `NavigationCount::push_digit`.
    pub fn push_navigation_digit(&mut self, digit: char) -> (accepted: bool)
        requires
            old(self).wf(),
        ensures
            final(self).wf(),
            final(self)@ == (KeyboardView { navigation_count: final(self)@.navigation_count, ..old(self)@ }),
            accepted <==> (crate::navigation::spec_decimal_digit(digit) is Some && !(old(
                self,
            ).spec_navigation_count() is None && crate::navigation::spec_decimal_digit(digit) == Some(0nat))),
            accepted ==> final(self).spec_navigation_count() == Some(crate::navigation::spec_append_digit(
                match old(self).spec_navigation_count() {
                    Some(v) => v as nat,
                    None => 0nat,
                },
                crate::navigation::spec_decimal_digit(digit).unwrap(),
            ) as usize),
            !accepted ==> final(self).spec_navigation_count() == old(self).spec_navigation_count(),
    {
        let accepted = self.navigation_count.push_digit(digit);
        proof {
            lemma_wf_frame(&*old(self), &*self);
        }
        accepted
    }

    /// Uses up the count as a move of `unit` steps per count.
    pub fn take_navigation_delta(&mut self, unit: isize) -> (delta: isize)
        requires
            old(self).wf(),
        ensures
            final(self).wf(),
            final(self)@ == (KeyboardView { navigation_count: None, ..old(self)@ }),
            delta == crate::navigation::spec_clamp_isize(unit * match old(self).spec_navigation_count() {
                Some(count) => if count > isize::MAX { isize::MAX as int } else { count as int },
                None => 1int,
            }),
    {
        let delta: isize = self.navigation_count.take_delta(unit);
        proof {
            lemma_wf_frame(&*old(self), &*self);
        }
        delta
    }

    /// Forgets a typed count.
    pub fn clear_navigation_count(&mut self)
        requires
            old(self).wf(),
        ensures
            final(self).wf(),
            final(self)@ == (KeyboardView { navigation_count: None, ..old(self)@ }),
    {
        self.navigation_count.clear();
        proof {
            lemma_wf_frame(&*old(self), &*self);
        }
    }

    /// Opens an empty numeric entry for `target`.
    pub fn begin_numeric_input(&mut self, target: NumericInputTarget)
        requires
            old(self).wf(),
        ensures
            final(self).wf(),
            final(self)@ == (KeyboardView { numeric_input: Some((target, Seq::empty())), ..old(self)@ }),
    {
        self.numeric_input = Some(NumericInput::new(target));
    }

    /// Types a digit into the open numeric entry (nothing happens without one).
    pub fn numeric_input_push(&mut self, digit: char)
        requires
            old(self).wf(),
        ensures
            final(self).wf(),
            final(self)@ == crate::keyboard_model::numeric_push(old(self)@, digit),
    {
        match &mut self.numeric_input {
            Some(input) => input.push(digit),
            None => {},
        }
    }

    /// Erases the last digit of the open numeric entry.
    pub fn numeric_input_backspace(&mut self)
        requires
            old(self).wf(),
        ensures
            final(self).wf(),
            final(self)@ == crate::keyboard_model::numeric_backspace(old(self)@),
    {
        match &mut self.numeric_input {
            Some(input) => input.backspace(),
            None => {},
        }
    }

    /// Closes the numeric entry without using it.
    pub fn cancel_numeric_input(&mut self)
        requires
            old(self).wf(),
        ensures
            final(self).wf(),
            final(self)@ == (KeyboardView { numeric_input: None, ..old(self)@ }),
    {
        self.numeric_input = None;
    }

    /// Enter in numeric entry: see `keyboard_model::confirm_numeric`.
    pub fn confirm_numeric_input(&mut self) -> (message: Option<MidiMessage>)
        requires
            old(self).wf(),
        ensures
            final(self).wf(),
            (final(self)@, message) == confirm_numeric(old(self)@),
    {
        let input = match self.numeric_input.take() {
            Some(input) => input,
            None => return None,
        };
        let value = match input.confirmed_value() {
            Some(v) => v,
            None => {
                proof {
                    lemma_wf_frame(&*old(self), &*self);
                }
                return None;
            },
        };
        match input.target() {
            NumericInputTarget::CcNumber => {
                self.cc_number = value;
                None
            },
            NumericInputTarget::CcValue => Some(control_change(self.cc_number, value)),
        }
    }

    /// `s`: switches between HTTP and shared memory.
    pub fn toggle_transport(&mut self) -> (transport: KeyboardTransport)
        requires
            old(self).wf(),
        ensures
            final(self).wf(),
            transport == old(self)@.transport.spec_toggled(),
            final(self)@ == (KeyboardView { transport, ..old(self)@ }),
    {
        self.transport = self.transport.toggled();
        self.transport
    }

    /// `Shift+H`: ×1 → ×2 → ×4 → ×8 → ×1.
    pub fn cycle_buffer_multiplier(&mut self) -> (multiplier: u8)
        requires
            old(self).wf(),
        ensures
            final(self).wf(),
            multiplier == next_buffer_multiplier(old(self)@.buffer_multiplier),
            final(self)@ == (KeyboardView { buffer_multiplier: multiplier, ..old(self)@ }),
    {
        self.buffer_multiplier = if self.buffer_multiplier == 1 {
            2
        } else if self.buffer_multiplier == 2 {
            4
        } else if self.buffer_multiplier == 4 {
            8
        } else {
            1
        };
        self.buffer_multiplier
    }

    fn has_held_key(&self, key: char) -> (found: bool)
        ensures
            found == held_key(self@.held, key),
    {
        let mut i: usize = 0;
        while i < self.held.len()
            invariant
                i <= self.held@.len(),
                forall|k: int| 0 <= k < i ==> #[trigger] self.held@[k].key != key,
            decreases self.held@.len() - i,
        {
            if self.held[i].key == key {
                assert(self.held@[i as int].key == key);
                return true;
            }
            i = i + 1;
        }
        false
    }

    /// A key goes down: see `keyboard_model::press`. Only keyboard notes (below 128)
    /// are played, and a chord must be remembered while keys are held.
    pub fn press(&mut self, note: KeyboardNote) -> (messages: Option<Vec<MidiMessage>>)
        requires
            old(self).wf(),
            note.midi_note < 128,
            old(self)@.held.len() > 0 ==> old(self)@.repeat_chords.len() > 0,
        ensures
            final(self).wf(),
            (final(self)@, match messages {
                Some(m) => Some(m@),
                None => None,
            }) == press(old(self)@, note),
    {
        if self.has_held_key(note.key) {
            return None;
        }
        let ghost before = self@;
        if self.held.len() == 0 {
            let first: Vec<u8> = vec![note.midi_note];
            let mut chords: Vec<Vec<u8>> = Vec::new();
            chords.push(first);
            self.repeat_chords = chords;
            self.repeat_chord_index = 0;
            self.arp_next_index = 0;
            proof {
                assert(self.repeat_chords@[0]@ =~= seq![note.midi_note]);
                assert(self@.repeat_chords =~= seq![seq![note.midi_note]]);
                assert(chord_wf(seq![note.midi_note]));
            }
        } else {
            let last = self.repeat_chords.len() - 1;
            if !contains_note(&self.repeat_chords[last], note.midi_note) {
                let mut chord = self.repeat_chords.pop().unwrap();
                proof {
                    assert(chord@ == before.repeat_chords[last as int]);
                }
                chord.push(note.midi_note);
                self.repeat_chords.push(chord);
                self.arp_next_index = 0;
                proof {
                    let updated = before.repeat_chords.update(
                        last as int,
                        before.repeat_chords.last().push(note.midi_note),
                    );
                    assert(self@.repeat_chords =~= updated);
                    let c = before.repeat_chords.last();
                    assert(chord_wf(c));
                    assert(chord_wf(c.push(note.midi_note))) by {
                        assert forall|a: int, b: int| 0 <= a < b < c.len() + 1 implies c.push(note.midi_note)[a]
                            != c.push(note.midi_note)[b] by {
                            if b == c.len() {
                                assert(c.contains(c[a]));
                            }
                        }
                    }
                    assert forall|i: int| 0 <= i < updated.len() implies chord_wf(#[trigger] updated[i]) by {
                        if i != last as int {
                            assert(updated[i] == before.repeat_chords[i]);
                        }
                    }
                }
            } else {
                proof {
                    assert(self@.repeat_chords == before.repeat_chords);
                }
            }
        }
        self.held.push(note);
        let messages = vec![note_on(note.midi_note, self.velocity)];
        proof {
            assert(messages@ =~= seq![spec_note_on(note.midi_note, before.velocity)]);
        }
        Some(messages)
    }

    /// A key goes up: see `keyboard_model::release`.
    pub fn release(&mut self, note: KeyboardNote) -> (messages: Option<Vec<MidiMessage>>)
        requires
            old(self).wf(),
        ensures
            final(self).wf(),
            (final(self)@, match messages {
                Some(m) => Some(m@),
                None => None,
            }) == release(old(self)@, note),
    {
        let mut i: usize = 0;
        while i < self.held.len()
            invariant
                self.wf(),
                self@ == old(self)@,
                i <= self.held@.len(),
                forall|k: int| 0 <= k < i ==> #[trigger] self.held@[k].key != note.key,
            decreases self.held@.len() - i,
        {
            if self.held[i].key == note.key {
                proof {
                    let held = self.held@;
                    assert(crate::keyboard_model::is_first_key(held, note.key, i as int));
                    crate::keyboard_model::lemma_first_held_index(held, note.key, i as int);
                }
                let ghost before = *self;
                self.held.remove(i);
                proof {
                    lemma_wf_frame(&before, &*self);
                }
                let messages = vec![note_off(note.midi_note)];
                assert(messages@ =~= seq![spec_note_off(note.midi_note)]);
                return Some(messages);
            }
            i = i + 1;
        }
        proof {
            crate::keyboard_model::lemma_no_held_index(self.held@, note.key);
        }
        None
    }

    /// Releases every sounding note for a patch change; see `keyboard_model::take_note_offs`.
    pub fn take_note_off_messages(&mut self) -> (messages: Vec<MidiMessage>)
        requires
            old(self).wf(),
        ensures
            final(self).wf(),
            (final(self)@, messages@) == take_note_offs(old(self)@),
    {
        let mut messages = self.held_note_off_messages();
        self.held = Vec::new();
        push_note_offs(&mut messages, &self.repeat_sounding);
        self.repeat_sounding = Vec::new();
        push_opt_note_off(&mut messages, self.arp_sounding);
        self.arp_sounding = None;
        self.refresh_pending = true;
        proof {
            lemma_wf_frame(&*old(self), &*self);
            assert(self@.held =~= Seq::<KeyboardNote>::empty());
            assert(self@.repeat_sounding =~= Seq::<u8>::empty());
        }
        messages
    }

    fn held_note_off_messages(&self) -> (messages: Vec<MidiMessage>)
        ensures
            messages@ == held_note_offs(self@.held),
    {
        let mut messages: Vec<MidiMessage> = Vec::new();
        let mut i: usize = 0;
        while i < self.held.len()
            invariant
                i <= self.held@.len(),
                messages@ == held_note_offs(self.held@.subrange(0, i as int)),
            decreases self.held@.len() - i,
        {
            messages.push(note_off(self.held[i].midi_note));
            i = i + 1;
            assert(held_note_offs(self.held@.subrange(0, i as int)) =~= held_note_offs(
                self.held@.subrange(0, i - 1),
            ).push(spec_note_off(self.held@[i - 1].midi_note)));
        }
        assert(self.held@.subrange(0, self.held@.len() as int) =~= self.held@);
        messages
    }

    /// Stops everything; see `keyboard_model::take_reset`.
    pub fn take_reset_messages(&mut self) -> (messages: Vec<MidiMessage>)
        requires
            old(self).wf(),
        ensures
            final(self).wf(),
            (final(self)@, messages@) == take_reset(old(self)@),
    {
        let ghost s = self@;
        let mut messages = self.held_note_off_messages();
        self.held = Vec::new();
        self.note_playback_mode = NotePlaybackMode::Off;
        push_note_offs(&mut messages, &self.repeat_sounding);
        self.repeat_sounding = Vec::new();
        push_opt_note_off(&mut messages, self.arp_sounding);
        self.arp_sounding = None;
        proof {
            lemma_wf_frame(&*old(self), &*self);
        }
        self.reset_progression_position();
        if self.velocity_mode == VelocityMode::Periodic {
            self.velocity_mode = if self.velocity == ACCENT_VELOCITY {
                VelocityMode::Accent
            } else {
                VelocityMode::Normal
            };
        }
        let ghost offs = messages@;
        if self.modulation_mode != ModulationMode::Off {
            self.modulation_mode = ModulationMode::Off;
            messages.push(control_change(MODULATION_CC, 0));
        }
        let ghost after_modulation = messages@;
        if self.pitch_bend_mode != PitchBendMode::Idle {
            self.pitch_bend_mode = PitchBendMode::Idle;
            messages.push(pitch_bend(PITCH_BEND_CENTER));
        }
        let ghost after_bend = messages@;
        if self.cc_periodic_on {
            self.cc_periodic_on = false;
            messages.push(control_change(self.cc_number, 0));
        }
        self.periodic_next_at = None;
        self.repeat_elapsed_ticks = 0;
        self.combo_bag = None;
        self.current_combo = 0;
        self.refresh_pending = false;
        proof {
            let (t, tm) = take_reset(s);
            assert(self@.held =~= t.held);
            assert(self@.repeat_sounding =~= t.repeat_sounding);
            assert(self@ == t);
            assert(messages@ =~= tm);
        }
        messages
    }

    /// Moves to the first chord and the first arpeggio note.
    pub fn reset_progression_position(&mut self)
        requires
            old(self).wf(),
        ensures
            final(self).wf(),
            final(self)@ == crate::keyboard_model::reset_progression(old(self)@),
    {
        self.repeat_chord_index = 0;
        self.arp_next_index = 0;
    }

    /// Moves to the next chord of the progression, wrapping around.
    pub fn advance_repeat_chord(&mut self)
        requires
            old(self).wf(),
        ensures
            final(self).wf(),
            final(self)@ == advance_chord(old(self)@),
    {
        if self.repeat_chords.len() > 0 {
            self.repeat_chord_index = ((self.repeat_chord_index as u128 + 1) % (self.repeat_chords.len() as u128))
                as usize;
        }
    }

    /// The notes of the chord being played (none past the end of the progression).
    pub fn current_repeat_chord(&self) -> (chord: Vec<u8>)
        requires
            self.wf(),
        ensures
            chord@ == current_chord(self@),
            chord@.len() > 0 ==> chord_wf(chord@),
            forall|i: int| 0 <= i < chord@.len() ==> #[trigger] chord@[i] < 128,
    {
        if self.repeat_chord_index < self.repeat_chords.len() {
            let chord = copy_notes(&self.repeat_chords[self.repeat_chord_index]);
            proof {
                assert(chord_wf(self@.repeat_chords[self.repeat_chord_index as int]));
            }
            chord
        } else {
            Vec::new()
        }
    }

    /// The arpeggio of the chord being played.
    pub fn arp_sequence(&self) -> (sequence: Vec<u8>)
        requires
            self.wf(),
        ensures
            sequence@ == arp_sequence(current_chord(self@)),
    {
        let chord = self.current_repeat_chord();
        arp_sequence_of(&chord)
    }

    /// Attacks the chord being played; see `keyboard_model::attack_repeat_chord`.
    pub fn attack_repeat_chord(&mut self) -> (messages: Vec<MidiMessage>)
        requires
            old(self).wf(),
        ensures
            final(self).wf(),
            (final(self)@, messages@) == attack_repeat_chord(old(self)@),
    {
        let chord = self.current_repeat_chord();
        let mut messages: Vec<MidiMessage> = Vec::new();
        push_note_ons(&mut messages, &chord, self.velocity);
        self.repeat_sounding = chord;
        assert(messages@ =~= spec_note_ons(current_chord(old(self)@), old(self)@.velocity));
        messages
    }

    /// Attacks the next arpeggio note; see `keyboard_model::attack_next_arp`.
    pub fn attack_next_arp(&mut self) -> (attack: Option<MidiMessage>)
        requires
            old(self).wf(),
        ensures
            final(self).wf(),
            (final(self)@, attack) == attack_next_arp(old(self)@),
    {
        let mut sequence = self.arp_sequence();
        if sequence.len() == 0 {
            return None;
        }
        let ghost s = self@;
        if self.arp_next_index >= sequence.len() {
            proof {
                assert(current_chord(s).len() > 0) by {
                    if current_chord(s).len() == 0 {
                        assert(ascending_notes(current_chord(s), 128) =~= Seq::<u8>::empty()) by {
                            lemma_ascending_notes(current_chord(s), 128);
                            if ascending_notes(current_chord(s), 128).len() > 0 {
                                assert(current_chord(s).contains(ascending_notes(current_chord(s), 128)[0]));
                            }
                        }
                    }
                }
            }
            self.advance_repeat_chord();
            self.arp_next_index = 0;
            sequence = self.arp_sequence();
            proof {
                let c = current_chord(self@);
                assert(self@.repeat_chord_index < self@.repeat_chords.len());
                assert(chord_wf(c));
                lemma_arp_nonempty(c);
            }
        }
        let note = sequence[self.arp_next_index];
        self.arp_next_index = self.arp_next_index + 1;
        self.arp_sounding = Some(note);
        Some(note_on(note, self.velocity))
    }

    /// Releases the sounding arpeggio note and attacks the next one; see
    /// `keyboard_model::advance_arp`.
    pub fn advance_arp(&mut self) -> (messages: Vec<MidiMessage>)
        requires
            old(self).wf(),
        ensures
            final(self).wf(),
            (final(self)@, messages@) == advance_arp(old(self)@),
    {
        let mut messages: Vec<MidiMessage> = Vec::new();
        push_opt_note_off(&mut messages, self.arp_sounding);
        self.arp_sounding = None;
        match self.attack_next_arp() {
            Some(attack) => {
                messages.push(attack);
            },
            None => {
                self.note_playback_mode = NotePlaybackMode::Off;
                self.repeat_elapsed_ticks = 0;
            },
        }
        messages
    }

    /// Restarts the arpeggio; see `keyboard_model::restart_arp`.
    pub fn restart_arp(&mut self, now: u64) -> (messages: Vec<MidiMessage>)
        requires
            old(self).wf(),
            now <= TIME_LIMIT_MS,
        ensures
            final(self).wf(),
            (final(self)@, messages@) == restart_arp(old(self)@, now),
    {
        self.reset_progression_position();
        self.repeat_elapsed_ticks = 0;
        self.periodic_next_at = Some(now + PERIODIC_INTERVAL_MS);
        match self.attack_next_arp() {
            Some(attack) => {
                let messages = vec![attack];
                assert(messages@ =~= seq![attack]);
                messages
            },
            None => Vec::new(),
        }
    }

    /// One tick of note repeat; see `keyboard_model::repeat_tick`.
    pub fn repeat_tick(&mut self) -> (messages: Vec<MidiMessage>)
        requires
            old(self).wf(),
        ensures
            final(self).wf(),
            (final(self)@, messages@) == repeat_tick(old(self)@),
    {
        if self.repeat_elapsed_ticks + 1 >= REPEAT_TICKS {
            let mut messages: Vec<MidiMessage> = Vec::new();
            push_note_offs(&mut messages, &self.repeat_sounding);
            self.repeat_elapsed_ticks = 0;
            self.repeat_sounding = Vec::new();
            proof {
                lemma_wf_frame(&*old(self), &*self);
            }
            self.advance_repeat_chord();
            let mut ons = self.attack_repeat_chord();
            messages.append(&mut ons);
            proof {
                assert(old(self)@.repeat_sounding == old(self).repeat_sounding@);
            }
            messages
        } else {
            self.repeat_elapsed_ticks = self.repeat_elapsed_ticks + 1;
            proof {
                lemma_wf_frame(&*old(self), &*self);
            }
            Vec::new()
        }
    }

    /// The note playback part of a tick; see `keyboard_model::playback_tick`.
    pub fn playback_tick(&mut self) -> (messages: Vec<MidiMessage>)
        requires
            old(self).wf(),
        ensures
            final(self).wf(),
            (final(self)@, messages@) == playback_tick(old(self)@),
            final(self)@.current_combo == old(self)@.current_combo,
            final(self)@.velocity_mode == old(self)@.velocity_mode,
    {
        if self.note_playback_mode == NotePlaybackMode::Off {
            return Vec::new();
        }
        if self.note_playback_uses_arp() {
            self.advance_arp()
        } else {
            self.repeat_tick()
        }
    }

    /// Number of controller combinations the periodic senders cycle through.
    pub fn combo_total(&self) -> (total: usize)
        ensures
            total == combo_total(self@),
            1 <= total <= 32,
    {
        let mut total: usize = 1;
        if self.pitch_bend_mode == PitchBendMode::Periodic {
            total = total * 4;
        }
        if self.modulation_mode == ModulationMode::Periodic {
            total = total * 2;
        }
        if self.cc_periodic_on {
            total = total * 2;
        }
        if self.velocity_mode == VelocityMode::Periodic {
            total = total * 2;
        }
        total
    }

    /// The digits of the current combination: (pitch bend, modulation, CC, velocity).
    pub fn combo_digits(&self) -> (digits: (usize, usize, usize, usize))
        ensures
            digits.0 == combo_digits(self@).pitch_bend,
            digits.1 == combo_digits(self@).modulation,
            digits.2 == combo_digits(self@).cc,
            digits.3 == combo_digits(self@).velocity,
            digits.0 < 4 && digits.1 < 2 && digits.2 < 2 && digits.3 < 2,
    {
        let mut rest = self.current_combo;
        let mut pb: usize = 0;
        let mut md: usize = 0;
        let mut cc: usize = 0;
        let mut vel: usize = 0;
        if self.pitch_bend_mode == PitchBendMode::Periodic {
            pb = rest % 4;
            rest = rest / 4;
        }
        if self.modulation_mode == ModulationMode::Periodic {
            md = rest % 2;
            rest = rest / 2;
        }
        if self.cc_periodic_on {
            cc = rest % 2;
            rest = rest / 2;
        }
        if self.velocity_mode == VelocityMode::Periodic {
            vel = rest % 2;
        }
        (pb, md, cc, vel)
    }

    /// Deals the next controller combination; see `keyboard_model::deal_combo`.
    pub fn draw_next_combo(&mut self)
        requires
            old(self).wf(),
        ensures
            final(self).wf(),
            combo_deal_ok(old(self)@, final(self)@.current_combo),
            final(self)@ == deal_combo(old(self)@, final(self)@.current_combo),
    {
        let total = self.combo_total();
        if total <= 1 {
            self.combo_bag = None;
            self.current_combo = 0;
            proof {
                lemma_wf_frame(&*old(self), &*self);
            }
            return;
        }
        let needs_rebuild = match &self.combo_bag {
            Some(bag) => bag.total() != total || bag.is_exhausted(),
            None => true,
        };
        let ghost s = self@;
        if needs_rebuild {
            self.combo_bag = Some(RandomIndexDeck::new(total, self.deck_seed));
            self.deck_seed = self.deck_seed.wrapping_add(0x9E37_79B9_7F4A_7C15);
            proof {
                assert(DeckView::fresh(total as nat).remaining.contains(0usize));
            }
        }
        proof {
            assert(self.combo_bag is Some);
            assert(self@.combo_bag == Some(combo_source(s)));
        }
        let mut bag = self.combo_bag.take().unwrap();
        let combo = bag.next_index();
        self.combo_bag = Some(bag);
        self.current_combo = combo;
        proof {
            lemma_wf_frame(&*old(self), &*self);
        }
    }

    /// Drops the bag and restarts the master clock; see `keyboard_model::reset_combo_clock`.
    pub fn reset_combo_clock(&mut self, now: u64)
        requires
            old(self).wf(),
            now <= TIME_LIMIT_MS,
        ensures
            final(self).wf(),
            final(self)@ == reset_combo_clock(old(self)@, now),
    {
        self.combo_bag = None;
        self.current_combo = 0;
        if self.velocity_mode == VelocityMode::Periodic {
            self.velocity = DEFAULT_VELOCITY;
        }
        let active = self.velocity_mode == VelocityMode::Periodic || self.modulation_mode == ModulationMode::Periodic
            || self.pitch_bend_mode == PitchBendMode::Periodic || self.cc_periodic_on || self.note_playback_mode
            != NotePlaybackMode::Off;
        self.periodic_next_at = if active { Some(now + PERIODIC_INTERVAL_MS) } else { None };
    }

    /// `v`: see `keyboard_model::cycle_velocity`.
    pub fn cycle_velocity(&mut self, now: u64) -> (mode: VelocityMode)
        requires
            old(self).wf(),
            now <= TIME_LIMIT_MS,
        ensures
            final(self).wf(),
            final(self)@ == cycle_velocity(old(self)@, now),
            mode == final(self)@.velocity_mode,
    {
        match self.velocity_mode {
            VelocityMode::Normal => {
                self.velocity = ACCENT_VELOCITY;
                self.velocity_mode = VelocityMode::Accent;
            },
            VelocityMode::Accent => {
                self.velocity = DEFAULT_VELOCITY;
                self.velocity_mode = VelocityMode::Periodic;
                self.reset_combo_clock(now);
            },
            VelocityMode::Periodic => {
                self.velocity = DEFAULT_VELOCITY;
                self.velocity_mode = VelocityMode::Normal;
                self.reset_combo_clock(now);
            },
        }
        self.velocity_mode
    }

    /// `m`: see `keyboard_model::cycle_modulation`.
    pub fn cycle_modulation(&mut self, now: u64) -> (message: MidiMessage)
        requires
            old(self).wf(),
            now <= TIME_LIMIT_MS,
        ensures
            final(self).wf(),
            (final(self)@, message) == cycle_modulation(old(self)@, now),
    {
        let value = match self.modulation_mode {
            ModulationMode::Off => {
                self.modulation_mode = ModulationMode::On;
                proof {
                    lemma_wf_frame(&*old(self), &*self);
                }
                MODULATION_MAX
            },
            ModulationMode::On => {
                self.modulation_mode = ModulationMode::Periodic;
                self.reset_combo_clock(now);
                0
            },
            ModulationMode::Periodic => {
                self.modulation_mode = ModulationMode::Off;
                self.reset_combo_clock(now);
                0
            },
        };
        control_change(MODULATION_CC, value)
    }

    /// `p`: see `keyboard_model::cycle_pitch_bend`.
    pub fn cycle_pitch_bend(&mut self, now: u64) -> (message: MidiMessage)
        requires
            old(self).wf(),
            now <= TIME_LIMIT_MS,
        ensures
            final(self).wf(),
            (final(self)@, message) == cycle_pitch_bend(old(self)@, now),
    {
        let value = match self.pitch_bend_mode {
            PitchBendMode::Idle | PitchBendMode::CenterAfterCycle => {
                self.pitch_bend_mode = PitchBendMode::Max;
                proof {
                    lemma_wf_frame(&*old(self), &*self);
                }
                PITCH_BEND_MAX
            },
            PitchBendMode::Max => {
                self.pitch_bend_mode = PitchBendMode::CenterAfterMax;
                proof {
                    lemma_wf_frame(&*old(self), &*self);
                }
                PITCH_BEND_CENTER
            },
            PitchBendMode::CenterAfterMax => {
                self.pitch_bend_mode = PitchBendMode::Min;
                proof {
                    lemma_wf_frame(&*old(self), &*self);
                }
                PITCH_BEND_MIN
            },
            PitchBendMode::Min => {
                self.pitch_bend_mode = PitchBendMode::CenterAfterMin;
                proof {
                    lemma_wf_frame(&*old(self), &*self);
                }
                PITCH_BEND_CENTER
            },
            PitchBendMode::CenterAfterMin => {
                self.pitch_bend_mode = PitchBendMode::Periodic;
                self.reset_combo_clock(now);
                PITCH_BEND_MAX
            },
            PitchBendMode::Periodic => {
                self.pitch_bend_mode = PitchBendMode::CenterAfterCycle;
                self.reset_combo_clock(now);
                PITCH_BEND_CENTER
            },
        };
        pitch_bend(value)
    }

    /// `Shift+Z`: see `keyboard_model::toggle_cc_periodic`.
    pub fn toggle_cc_periodic(&mut self, now: u64) -> (message: MidiMessage)
        requires
            old(self).wf(),
            now <= TIME_LIMIT_MS,
        ensures
            final(self).wf(),
            (final(self)@, message) == toggle_cc_periodic(old(self)@, now),
    {
        self.cc_periodic_on = !self.cc_periodic_on;
        let value = if self.cc_periodic_on { CC_MAX } else { 0 };
        self.reset_combo_clock(now);
        control_change(self.cc_number, value)
    }

    /// Once a combination is dealt: a periodic velocity takes its digit, and the
    /// controller messages of the combination are built.
    fn apply_combo(&mut self) -> (messages: Vec<MidiMessage>)
        requires
            old(self).wf(),
        ensures
            final(self).wf(),
            final(self)@ == (if old(self)@.velocity_mode == VelocityMode::Periodic {
                KeyboardView { velocity: velocity_step(combo_digits(old(self)@).velocity), ..old(self)@ }
            } else {
                old(self)@
            }),
            messages@ == crate::keyboard_model::controller_messages(final(self)@),
    {
        let ghost s1 = self@;
        let (pb, md, cc, vel) = self.combo_digits();
        if self.velocity_mode == VelocityMode::Periodic {
            self.velocity = if vel == 0 { DEFAULT_VELOCITY } else { ACCENT_VELOCITY };
        }
        proof {
            lemma_wf_frame(&*old(self), &*self);
        }
        let ghost s2 = self@;
        let mut messages: Vec<MidiMessage> = Vec::new();
        if self.modulation_mode == ModulationMode::Periodic {
            messages.push(control_change(MODULATION_CC, if md == 0 { 0 } else { MODULATION_MAX }));
        }
        if self.pitch_bend_mode == PitchBendMode::Periodic {
            let value: u16 = if pb == 0 {
                PITCH_BEND_MAX
            } else if pb == 2 {
                PITCH_BEND_MIN
            } else {
                PITCH_BEND_CENTER
            };
            messages.push(pitch_bend(value));
        }
        if self.cc_periodic_on {
            messages.push(control_change(self.cc_number, if cc == 0 { CC_MAX } else { 0 }));
        }
        proof {
            assert(combo_digits(s2) == combo_digits(s1));
            assert(messages@ =~= crate::keyboard_model::controller_messages(s2));
        }
        messages
    }

    /// Reads the master clock at `now`; see `keyboard_model::poll`. Which
    /// combination is dealt is pseudo-random; it is one the bag still holds.
    #[verifier::rlimit(60)]
    pub fn poll_periodic(&mut self, now: u64) -> (messages: Vec<MidiMessage>)
        requires
            old(self).wf(),
            now <= TIME_LIMIT_MS,
        ensures
            final(self).wf(),
            poll_deal_ok(old(self)@, now, final(self)@.current_combo),
            (final(self)@, messages@) == poll(old(self)@, now, final(self)@.current_combo),
    {
        let ghost s = self@;
        if !deadline_elapsed(&mut self.periodic_next_at, now) {
            return Vec::new();
        }
        let ghost s0 = self@;
        proof {
            lemma_wf_frame(&*old(self), &*self);
        }
        self.draw_next_combo();
        let ghost s1 = self@;
        let mut messages = self.apply_combo();
        let ghost s2 = self@;
        let mut notes = self.playback_tick();
        proof {
            let combo = self@.current_combo;
            assert(s0 == KeyboardView { periodic_next_at: Some(next_deadline(s.periodic_next_at.unwrap(), now)), ..s });
            assert(s1 == deal_combo(s0, combo));
            assert(combo_deal_ok(s0, combo));
            assert((self@, notes@) == playback_tick(s2));
        }
        messages.append(&mut notes);
        messages
    }

    /// Sends the current values again after a patch change; see `keyboard_model::refresh`.
    #[verifier::rlimit(60)]
    pub fn take_pending_refresh_messages(&mut self, now: u64) -> (messages: Vec<MidiMessage>)
        requires
            old(self).wf(),
            now <= TIME_LIMIT_MS,
        ensures
            final(self).wf(),
            (final(self)@, messages@) == refresh(old(self)@, now),
    {
        if !self.refresh_pending {
            return Vec::new();
        }
        self.refresh_pending = false;
        let (pb, md, cc, _vel) = self.combo_digits();
        let mut messages: Vec<MidiMessage> = Vec::new();
        match self.modulation_mode {
            ModulationMode::Off => {},
            ModulationMode::On => {
                messages.push(control_change(MODULATION_CC, MODULATION_MAX));
            },
            ModulationMode::Periodic => {
                messages.push(control_change(MODULATION_CC, if md == 0 { 0 } else { MODULATION_MAX }));
            },
        }
        let ghost after_modulation = messages@;
        let bend: Option<u16> = match self.pitch_bend_mode {
            PitchBendMode::Idle => None,
            PitchBendMode::Max => Some(PITCH_BEND_MAX),
            PitchBendMode::Min => Some(PITCH_BEND_MIN),
            PitchBendMode::Periodic => Some(
                if pb == 0 {
                    PITCH_BEND_MAX
                } else if pb == 2 {
                    PITCH_BEND_MIN
                } else {
                    PITCH_BEND_CENTER
                },
            ),
            _ => Some(PITCH_BEND_CENTER),
        };
        match bend {
            Some(value) => {
                messages.push(pitch_bend(value));
            },
            None => {},
        }
        let ghost after_bend = messages@;
        if self.cc_periodic_on {
            messages.push(control_change(self.cc_number, if cc == 0 { CC_MAX } else { 0 }));
        }
        let ghost controllers = messages@;
        match self.note_playback_mode {
            NotePlaybackMode::Off => {},
            _ => {
                if self.note_playback_uses_arp() {
                    let mut notes = self.restart_arp(now);
                    messages.append(&mut notes);
                } else {
                    self.periodic_next_at = Some(now + PERIODIC_INTERVAL_MS);
                    let mut notes = self.attack_repeat_chord();
                    messages.append(&mut notes);
                }
            },
        }
        proof {
            let s0 = KeyboardView { refresh_pending: false, ..old(self)@ };
            assert(combo_digits(s0) == combo_digits(old(self)@));
        }
        messages
    }

    /// Bag progress for display: (combinations dealt, combinations in all), while
    /// any controller is periodic.
    pub fn combo_progress(&self) -> (progress: Option<(usize, usize)>)
        requires
            self.wf(),
        ensures
            match progress {
                Some((dealt, total)) => periodic_digits_active(self@) && total == combo_total(self@)
                    && dealt == match self@.combo_bag {
                        Some(bag) => bag.dealt.len(),
                        None => 0,
                    },
                None => !periodic_digits_active(self@),
            },
    {
        if !(self.velocity_mode == VelocityMode::Periodic || self.modulation_mode == ModulationMode::Periodic
            || self.pitch_bend_mode == PitchBendMode::Periodic || self.cc_periodic_on) {
            return None;
        }
        let dealt = match &self.combo_bag {
            Some(bag) => bag.drawn_count(),
            None => 0,
        };
        Some((dealt, self.combo_total()))
    }

    /// Replaces the progression with a typed one; see `keyboard_model::replace_chords`.
    /// Typed notes are MIDI notes (below 128).
    pub fn replace_repeat_chords(&mut self, progression: Vec<Vec<u8>>, now: u64, restart_now: bool) -> (messages:
        Vec<MidiMessage>)
        requires
            old(self).wf(),
            now <= TIME_LIMIT_MS,
            forall|i: int, j: int| 0 <= i < progression@.len() && 0 <= j < progression@[i]@.len()
                ==> #[trigger] progression@[i]@[j] < 128,
        ensures
            final(self).wf(),
            (final(self)@, messages@) == replace_chords(old(self)@, chords_view(progression@), now, restart_now),
    {
        let ghost s = self@;
        let chords = normalize_progression(&progression);
        self.repeat_chords = chords;
        self.reset_progression_position();
        self.repeat_elapsed_ticks = 0;
        let mut messages: Vec<MidiMessage> = Vec::new();
        push_note_offs(&mut messages, &self.repeat_sounding);
        self.repeat_sounding = Vec::new();
        push_opt_note_off(&mut messages, self.arp_sounding);
        self.arp_sounding = None;
        proof {
            assert(self@.repeat_sounding =~= Seq::<u8>::empty());
        }
        if self.note_playback_mode == NotePlaybackMode::Off {
            return messages;
        }
        if !restart_now {
            self.refresh_pending = true;
            return messages;
        }
        if self.note_playback_uses_arp() {
            let mut notes = self.restart_arp(now);
            messages.append(&mut notes);
        } else {
            self.periodic_next_at = Some(now + PERIODIC_INTERVAL_MS);
            let mut notes = self.attack_repeat_chord();
            messages.append(&mut notes);
        }
        messages
    }

    /// `t`: see `keyboard_model::cycle_note_playback`.
    pub fn cycle_note_playback(&mut self, now: u64) -> (messages: Vec<MidiMessage>)
        requires
            old(self).wf(),
            now <= TIME_LIMIT_MS,
        ensures
            final(self).wf(),
            (final(self)@, messages@) == cycle_note_playback(old(self)@, now),
    {
        match self.note_playback_mode {
            NotePlaybackMode::Off => {
                if self.repeat_chords.len() == 0 {
                    return Vec::new();
                }
                self.note_playback_mode = NotePlaybackMode::Repeat;
                self.reset_progression_position();
                self.repeat_elapsed_ticks = 0;
                self.periodic_next_at = Some(now + PERIODIC_INTERVAL_MS);
                self.attack_repeat_chord()
            },
            NotePlaybackMode::Repeat => {
                self.note_playback_mode = NotePlaybackMode::Arp;
                self.repeat_elapsed_ticks = 0;
                let mut messages: Vec<MidiMessage> = Vec::new();
                push_note_offs(&mut messages, &self.repeat_sounding);
                self.repeat_sounding = Vec::new();
                proof {
                    assert(self@.repeat_sounding =~= Seq::<u8>::empty());
                }
                let mut notes = self.restart_arp(now);
                messages.append(&mut notes);
                messages
            },
            NotePlaybackMode::Arp => {
                self.note_playback_mode = NotePlaybackMode::Auto;
                self.repeat_elapsed_ticks = 0;
                if self.note_playback_uses_arp() {
                    Vec::new()
                } else {
                    let mut messages: Vec<MidiMessage> = Vec::new();
                    push_opt_note_off(&mut messages, self.arp_sounding);
                    self.arp_sounding = None;
                    let mut ons = self.attack_repeat_chord();
                    messages.append(&mut ons);
                    messages
                }
            },
            NotePlaybackMode::Auto => {
                self.note_playback_mode = NotePlaybackMode::Off;
                self.reset_progression_position();
                self.repeat_elapsed_ticks = 0;
                let mut messages: Vec<MidiMessage> = Vec::new();
                push_note_offs(&mut messages, &self.repeat_sounding);
                self.repeat_sounding = Vec::new();
                push_opt_note_off(&mut messages, self.arp_sounding);
                self.arp_sounding = None;
                let digits_active = self.velocity_mode == VelocityMode::Periodic || self.modulation_mode
                    == ModulationMode::Periodic || self.pitch_bend_mode == PitchBendMode::Periodic
                    || self.cc_periodic_on;
                self.periodic_next_at = if digits_active { Some(now + PERIODIC_INTERVAL_MS) } else { None };
                proof {
                    assert(self@.repeat_sounding =~= Seq::<u8>::empty());
                }
                messages
            },
        }
    }
}

/// `chord` with later repeats of a note dropped.
fn distinct_chord(chord: &Vec<u8>) -> (result: Vec<u8>)
    ensures
        result@ == distinct_notes(chord@),
        result@.no_duplicates(),
        forall|i: int| 0 <= i < result@.len() ==> #[trigger] chord@.contains(result@[i]),
        chord@.len() > 0 ==> result@.len() > 0,
{
    let mut result: Vec<u8> = Vec::new();
    let mut j: usize = 0;
    while j < chord.len()
        invariant
            j <= chord@.len(),
            result@ == distinct_notes(chord@.subrange(0, j as int)),
            result@.no_duplicates(),
            forall|i: int| 0 <= i < result@.len() ==> #[trigger] chord@.contains(result@[i]),
            j > 0 ==> result@.len() > 0,
        decreases chord@.len() - j,
    {
        let x = chord[j];
        let ghost prefix = chord@.subrange(0, j as int);
        assert(chord@.subrange(0, j + 1).drop_last() =~= prefix);
        if !contains_note(&result, x) {
            let ghost before = result@;
            result.push(x);
            proof {
                assert forall|a: int, b: int| 0 <= a < b < result@.len() implies result@[a] != result@[b] by {
                    if b == result@.len() - 1 {
                        assert(result@[a] == before[a]);
                        assert(before.contains(before[a]));
                    }
                }
                assert(chord@.contains(x)) by {
                    assert(chord@[j as int] == x);
                }
            }
        }
        j = j + 1;
    }
    assert(chord@.subrange(0, chord@.len() as int) =~= chord@);
    result
}

/// A typed progression as the keyboard keeps it; see
/// `keyboard_model::normalized_progression`.
fn normalize_progression(progression: &Vec<Vec<u8>>) -> (chords: Vec<Vec<u8>>)
    requires
        forall|i: int, j: int| 0 <= i < progression@.len() && 0 <= j < progression@[i]@.len()
            ==> #[trigger] progression@[i]@[j] < 128,
    ensures
        chords_view(chords@) == normalized_progression(chords_view(progression@)),
        forall|i: int| 0 <= i < chords@.len() ==> chord_wf(#[trigger] chords@[i]@),
{
    let mut chords: Vec<Vec<u8>> = Vec::new();
    let mut i: usize = 0;
    while i < progression.len()
        invariant
            i <= progression@.len(),
            forall|a: int, b: int| 0 <= a < progression@.len() && 0 <= b < progression@[a]@.len()
                ==> #[trigger] progression@[a]@[b] < 128,
            chords_view(chords@) == normalized_progression(chords_view(progression@.subrange(0, i as int))),
            forall|k: int| 0 <= k < chords@.len() ==> chord_wf(#[trigger] chords@[k]@),
        decreases progression@.len() - i,
    {
        let chord = distinct_chord(&progression[i]);
        let ghost prefix = progression@.subrange(0, i as int);
        proof {
            assert(chords_view(progression@.subrange(0, i + 1)).drop_last() =~= chords_view(prefix));
            assert(chords_view(progression@.subrange(0, i + 1)).last() == progression@[i as int]@);
        }
        if chord.len() > 0 {
            proof {
                assert forall|k: int| 0 <= k < chord@.len() implies #[trigger] chord@[k] < 128 by {
                    assert(progression@[i as int]@.contains(chord@[k]));
                    let m = choose|m: int| 0 <= m < progression@[i as int]@.len() && progression@[i as int]@[m]
                        == chord@[k];
                    assert(progression@[i as int]@[m] < 128);
                }
            }
            let ghost before = chords@;
            chords.push(chord);
            proof {
                assert(chords_view(chords@) =~= chords_view(before).push(chord@));
            }
        }
        i = i + 1;
    }
    assert(progression@.subrange(0, progression@.len() as int) =~= progression@);
    chords
}

} // verus!
