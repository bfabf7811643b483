//! The keyboard screen of the app: what each key does to the keyboard state and
//! the patch browser, and the commands handed to the MIDI sender.
use vstd::prelude::*;
use crate::keyboard_catalog::{
    categories_view, spec_cleared, CatalogStatusView, spec_load, spec_move_category, spec_move_patch, CatalogView,
    KeyboardPatchCatalog, KeyboardPatchCatalogStatus, PatchCategory,
};
use crate::keyboard_connection::{
    opt_str_view, opt_string_view, owned_opt, KeyboardConnectionPhase, KeyboardConnectionStatus,
    KeyboardTransport, KeyboardVoicingStatus, PatchVoicing,
};
use crate::keyboard_model::{
    confirm_numeric, cycle_modulation, cycle_note_playback, cycle_pitch_bend, cycle_velocity,
    next_buffer_multiplier, poll, poll_deal_ok, press, refresh, release, replace_chords, take_reset,
    toggle_cc_periodic, KeyboardView, TIME_LIMIT_MS,
};
use crate::keyboard_state::{chords_view, note_for_key, spec_note_for_key, KeyboardState};
use crate::midi_message::MidiMessage;
use crate::navigation::{spec_append_digit, spec_clamp_isize, spec_decimal_digit};
use crate::numeric_input::NumericInputTarget;
use crate::patch_select::{PatchLoadState, PatchLoadView};
use crate::query::strings_view;
use crate::text::{copy_string, same_text};
use crate::tui_app::{Mode, PlayState, PlayStateView, TuiApp, TuiView};

verus! {

/// A command for the MIDI sender thread.
#[derive(Clone, Debug, PartialEq, Eq)]
pub enum SenderCommand {
    Send { messages: Vec<MidiMessage>, patch: Option<String> },
    SetBufferMultiplier(u8),
    Switch {
        transport: KeyboardTransport,
        note_offs: Vec<MidiMessage>,
        patch: Option<String>,
        known_voicing: Option<PatchVoicing>,
    },
    Prepare {
        transport: KeyboardTransport,
        buffer_multiplier: u8,
        patch: Option<String>,
        known_voicing: Option<PatchVoicing>,
    },
    SetPatch { note_offs: Vec<MidiMessage>, previous: Option<String>, patch: Option<String> },
    Stop,
}

pub ghost enum CommandView {
    Send { messages: Seq<MidiMessage>, patch: Option<Seq<char>> },
    SetBufferMultiplier(u8),
    Switch {
        transport: KeyboardTransport,
        note_offs: Seq<MidiMessage>,
        patch: Option<Seq<char>>,
        known_voicing: Option<PatchVoicing>,
    },
    Prepare {
        transport: KeyboardTransport,
        buffer_multiplier: u8,
        patch: Option<Seq<char>>,
        known_voicing: Option<PatchVoicing>,
    },
    SetPatch { note_offs: Seq<MidiMessage>, previous: Option<Seq<char>>, patch: Option<Seq<char>> },
    Stop,
}

impl View for SenderCommand {
    type V = CommandView;

    open spec fn view(&self) -> CommandView {
        match self {
            SenderCommand::Send { messages, patch } => CommandView::Send {
                messages: messages@,
                patch: opt_string_view(*patch),
            },
            SenderCommand::SetBufferMultiplier(m) => CommandView::SetBufferMultiplier(*m),
            SenderCommand::Switch { transport, note_offs, patch, known_voicing } => CommandView::Switch {
                transport: *transport,
                note_offs: note_offs@,
                patch: opt_string_view(*patch),
                known_voicing: *known_voicing,
            },
            SenderCommand::Prepare { transport, buffer_multiplier, patch, known_voicing } => CommandView::Prepare {
                transport: *transport,
                buffer_multiplier: *buffer_multiplier,
                patch: opt_string_view(*patch),
                known_voicing: *known_voicing,
            },
            SenderCommand::SetPatch { note_offs, previous, patch } => CommandView::SetPatch {
                note_offs: note_offs@,
                previous: opt_string_view(*previous),
                patch: opt_string_view(*patch),
            },
            SenderCommand::Stop => CommandView::Stop,
        }
    }
}

pub open spec fn commands_view(commands: Seq<SenderCommand>) -> Seq<CommandView> {
    commands.map_values(|c: SenderCommand| c@)
}

pub open spec fn voicing_cache_view(cache: Seq<(String, PatchVoicing)>) -> Seq<(Seq<char>, PatchVoicing)> {
    cache.map_values(|e: (String, PatchVoicing)| (e.0@, e.1))
}

/// The keyboard screen's state.
pub struct KeyboardScreen {
    pub state: KeyboardState,
    pub catalog: KeyboardPatchCatalog,
    /// Whether a MIDI sender runs.
    pub has_sender: bool,
    /// The sender's status as last reported (the idle default without a sender).
    pub connection: KeyboardConnectionStatus,
    /// Commands waiting for the sender.
    pub commands: Vec<SenderCommand>,
    /// Mono or poly decisions remembered per patch.
    pub voicing_cache: Vec<(String, PatchVoicing)>,
    /// The cache changed and should be saved.
    pub voicing_cache_dirty: bool,
    /// The patches of the scan, grouped by category.
    pub grouped_patches: Vec<PatchCategory>,
    pub mml_input_active: bool,
    pub note_guide_completed: bool,
    pub persist_on_exit: bool,
}

pub ghost struct ScreenView {
    pub state: KeyboardView,
    pub catalog: CatalogView,
    pub has_sender: bool,
    pub connection: KeyboardConnectionStatus,
    pub commands: Seq<CommandView>,
    pub voicing_cache: Seq<(Seq<char>, PatchVoicing)>,
    pub voicing_cache_dirty: bool,
    pub grouped_patches: Seq<(Seq<char>, Seq<Seq<char>>)>,
    pub mml_input_active: bool,
    pub note_guide_completed: bool,
    pub persist_on_exit: bool,
}

impl View for KeyboardScreen {
    type V = ScreenView;

    open spec fn view(&self) -> ScreenView {
        ScreenView {
            state: self.state@,
            catalog: self.catalog@,
            has_sender: self.has_sender,
            connection: self.connection,
            commands: commands_view(self.commands@),
            voicing_cache: voicing_cache_view(self.voicing_cache@),
            voicing_cache_dirty: self.voicing_cache_dirty,
            grouped_patches: categories_view(self.grouped_patches@),
            mml_input_active: self.mml_input_active,
            note_guide_completed: self.note_guide_completed,
            persist_on_exit: self.persist_on_exit,
        }
    }
}

impl KeyboardScreen {
    pub open spec fn wf(&self) -> bool {
        self.state.wf() && self.catalog.wf()
    }

    /// A fresh screen without a sender.
    pub fn new() -> (screen: Self)
        ensures
            screen.wf(),
            screen@ == (ScreenView {
                state: crate::keyboard_state::initial_view(None, KeyboardTransport::SharedMemory, 4),
                catalog: CatalogView {
                    status: CatalogStatusView::Loading,
                    categories: Seq::empty(),
                    category_cursor: None,
                    patch_cursor: None,
                    category_offset: 0,
                    patch_offset: 0,
                },
                has_sender: false,
                connection: spec_default_status(),
                commands: Seq::empty(),
                voicing_cache: Seq::empty(),
                voicing_cache_dirty: false,
                grouped_patches: Seq::empty(),
                mml_input_active: false,
                note_guide_completed: false,
                persist_on_exit: false,
            }),
    {
        let screen = KeyboardScreen {
            state: KeyboardState::new(None),
            catalog: KeyboardPatchCatalog::default(),
            has_sender: false,
            connection: KeyboardConnectionStatus::default(),
            commands: Vec::new(),
            voicing_cache: Vec::new(),
            voicing_cache_dirty: false,
            grouped_patches: Vec::new(),
            mml_input_active: false,
            note_guide_completed: false,
            persist_on_exit: false,
        };
        assert(commands_view(screen.commands@) =~= Seq::empty());
        assert(voicing_cache_view(screen.voicing_cache@) =~= Seq::empty());
        assert(categories_view(screen.grouped_patches@) =~= Seq::empty());
        screen
    }
}

/// The status shown without a sender.
pub open spec fn spec_default_status() -> KeyboardConnectionStatus {
    KeyboardConnectionStatus {
        transport: KeyboardTransport::SharedMemory,
        phase: KeyboardConnectionPhase::Idle,
        last_send: None,
        buffer_multiplier: 4,
        voicing: KeyboardVoicingStatus::Unavailable,
        voicing_patch: None,
    }
}

/// The connection status the screen shows.
pub open spec fn spec_connection_status(k: ScreenView) -> KeyboardConnectionStatus {
    k.connection
}

pub open spec fn accepts_notes(k: ScreenView) -> bool {
    spec_connection_status(k).phase is Ready
}

/// A command goes to the sender, when there is one.
pub open spec fn spec_command(k: ScreenView, command: CommandView) -> ScreenView {
    if k.has_sender {
        ScreenView { commands: k.commands.push(command), ..k }
    } else {
        k
    }
}

#[verifier::opaque]
pub open spec fn spec_send(k: ScreenView, messages: Seq<MidiMessage>) -> ScreenView {
    spec_command(k, CommandView::Send { messages, patch: k.state.patch })
}

/// The remembered voicing of `patch`.
pub open spec fn spec_cached_voicing(k: ScreenView, patch: Option<Seq<char>>) -> Option<PatchVoicing> {
    match patch {
        None => None,
        Some(p) => {
            let i = spec_cache_index(k.voicing_cache, p);
            if i >= 0 { Some(k.voicing_cache[i].1) } else { None }
        },
    }
}

pub open spec fn is_cache_entry(cache: Seq<(Seq<char>, PatchVoicing)>, patch: Seq<char>, i: int) -> bool {
    &&& 0 <= i < cache.len()
    &&& cache[i].0 == patch
    &&& forall|k: int| 0 <= k < i ==> (#[trigger] cache[k]).0 != patch
}

pub open spec fn spec_cache_index(cache: Seq<(Seq<char>, PatchVoicing)>, patch: Seq<char>) -> int {
    if exists|i: int| is_cache_entry(cache, patch, i) {
        choose|i: int| is_cache_entry(cache, patch, i)
    } else {
        -1
    }
}

proof fn lemma_cache_index(cache: Seq<(Seq<char>, PatchVoicing)>, patch: Seq<char>, i: int)
    requires
        is_cache_entry(cache, patch, i),
    ensures
        spec_cache_index(cache, patch) == i,
{
    let j = choose|j: int| is_cache_entry(cache, patch, j);
    assert(is_cache_entry(cache, patch, j));
    if j < i {
        assert(cache[j].0 != patch);
    } else if i < j {
        assert(cache[i].0 != patch);
    }
}

proof fn lemma_no_cache_index(cache: Seq<(Seq<char>, PatchVoicing)>, patch: Seq<char>)
    requires
        forall|k: int| 0 <= k < cache.len() ==> (#[trigger] cache[k]).0 != patch,
    ensures
        spec_cache_index(cache, patch) == -1,
{
    if exists|i: int| is_cache_entry(cache, patch, i) {
        let j = choose|j: int| is_cache_entry(cache, patch, j);
        assert(cache[j].0 != patch);
    }
}

/// A probe's new result is remembered; the cache is marked for saving when it
/// changed.
#[verifier::opaque]
pub open spec fn spec_store_probed_voicing(k: ScreenView, status: KeyboardConnectionStatus) -> ScreenView {
    match (status.voicing, status.voicing_patch) {
        (KeyboardVoicingStatus::Detected(report), Some(patch)) => {
            let i = spec_cache_index(k.voicing_cache, patch@);
            if i >= 0 {
                if k.voicing_cache[i].1 == report.decision {
                    k
                } else {
                    ScreenView {
                        voicing_cache: k.voicing_cache.update(i, (patch@, report.decision)),
                        voicing_cache_dirty: true,
                        ..k
                    }
                }
            } else {
                ScreenView {
                    voicing_cache: k.voicing_cache.push((patch@, report.decision)),
                    voicing_cache_dirty: true,
                    ..k
                }
            }
        },
        _ => k,
    }
}

/// Before a key is handled the state learns the voicing the sender found.
#[verifier::opaque]
pub open spec fn spec_sync_voicing(k: ScreenView) -> ScreenView {
    let status = spec_connection_status(k);
    let k1 = ScreenView {
        state: KeyboardView { detected_voicing: status.voicing.spec_effective_decision(), ..k.state },
        ..k
    };
    spec_store_probed_voicing(k1, status)
}

/// The sender prepares the connection for the current patch.
#[verifier::opaque]
pub open spec fn spec_prepare(k: ScreenView) -> ScreenView {
    spec_command(
        k,
        CommandView::Prepare {
            transport: k.state.transport,
            buffer_multiplier: k.state.buffer_multiplier,
            patch: k.state.patch,
            known_voicing: spec_cached_voicing(k, k.state.patch),
        },
    )
}

/// A patch picked in the browser becomes the keyboard's patch; the sounding
/// notes stop and the sender switches patch.
#[verifier::opaque]
pub open spec fn spec_apply_patch_selection(k: ScreenView, selected: Option<Seq<char>>) -> ScreenView {
    match selected {
        None => k,
        Some(patch) => if k.state.patch == Some(patch) {
            k
        } else {
            let (state, note_offs) = take_reset(k.state);
            let k1 = ScreenView { state: KeyboardView { patch: Some(patch), ..state }, ..k };
            spec_command(k1, CommandView::SetPatch { note_offs, previous: k.state.patch, patch: Some(patch) })
        },
    }
}

/// The browser follows the patch scan.
#[verifier::opaque]
pub open spec fn spec_sync_catalog(s: TuiView, k: ScreenView) -> ScreenView {
    if !s.patch_dirs_configured {
        ScreenView { catalog: spec_cleared(k.catalog, CatalogStatusView::NotConfigured), ..k }
    } else if k.catalog.status is Ready {
        k
    } else {
        match s.patch_load {
            PatchLoadView::Loading => ScreenView {
                catalog: CatalogView { status: CatalogStatusView::Loading, ..k.catalog },
                ..k
            },
            PatchLoadView::Failed(e) => ScreenView {
                catalog: spec_cleared(k.catalog, CatalogStatusView::Error(e)),
                ..k
            },
            PatchLoadView::Ready(_) => ScreenView {
                catalog: spec_load(k.catalog, k.grouped_patches, k.state.patch),
                ..k
            },
        }
    }
}

#[verifier::opaque]
pub open spec fn spec_move_keyboard_patch(s: TuiView, k: ScreenView, delta: isize) -> ScreenView {
    let k1 = spec_sync_catalog(s, k);
    let (catalog, selected) = spec_move_patch(k1.catalog, delta);
    spec_apply_patch_selection(ScreenView { catalog, ..k1 }, selected)
}

#[verifier::opaque]
pub open spec fn spec_move_keyboard_category(s: TuiView, k: ScreenView, delta: isize) -> ScreenView {
    let k1 = spec_sync_catalog(s, k);
    let (catalog, selected) = spec_move_category(k1.catalog, delta);
    spec_apply_patch_selection(ScreenView { catalog, ..k1 }, selected)
}

/// Leaving the keyboard: everything sounding stops and the sender stops.
#[verifier::opaque]
pub open spec fn spec_finish(k: ScreenView) -> ScreenView {
    let (state, note_offs) = take_reset(k.state);
    let k1 = ScreenView { state, ..k };
    let k2 = if note_offs.len() > 0 {
        spec_command(k1, CommandView::Send { messages: note_offs, patch: state.patch })
    } else {
        k1
    };
    spec_command(k2, CommandView::Stop)
}

/// A key code of the keyboard screen.
#[derive(Clone, Copy, Debug, PartialEq, Eq, Structural)]
pub enum KeyboardKeyCode {
    Char(char),
    Backspace,
    Esc,
    Enter,
    Down,
    Up,
    PageDown,
    PageUp,
    End,
    Home,
    Other,
}

/// Whether a key went down, came up, or repeats while held.
#[derive(Clone, Copy, Debug, PartialEq, Eq, Structural)]
pub enum KeyPhase {
    Press,
    Release,
    Repeat,
}

/// A key event: the code, the modifiers held, and its phase.
#[derive(Clone, Copy, Debug, PartialEq, Eq, Structural)]
pub struct KeyboardKeyEvent {
    pub code: KeyboardKeyCode,
    pub shift: bool,
    pub control: bool,
    /// Alt, super and the like.
    pub other_modifiers: bool,
    pub kind: KeyPhase,
}

pub open spec fn no_modifiers(e: KeyboardKeyEvent) -> bool {
    !e.shift && !e.control && !e.other_modifiers
}

pub open spec fn only_control(e: KeyboardKeyEvent) -> bool {
    !e.shift && e.control && !e.other_modifiers
}

pub open spec fn only_shift(e: KeyboardKeyEvent) -> bool {
    e.shift && !e.control && !e.other_modifiers
}

/// What a key on the keyboard screen leaves for the app to do.
#[derive(Clone, Copy, Debug, PartialEq, Eq, Structural)]
pub enum KeyboardAction {
    Continue,
    ReturnToNotepad,
    LaunchDaw,
    Quit,
    /// `r`: pick a random patch.
    RandomPatch,
    /// A key for the open MML entry field.
    MmlInputKey,
}

/// The keyboard state may take a key press (a chord is remembered while keys are held).
pub open spec fn press_ready(state: KeyboardView) -> bool {
    state.held.len() > 0 ==> state.repeat_chords.len() > 0
}

/// A press of one of the note keys.
pub open spec fn is_note_press(e: KeyboardKeyEvent) -> bool {
    e.kind == KeyPhase::Press && match e.code {
        KeyboardKeyCode::Char(c) => spec_note_for_key(c) is Some,
        _ => false,
    }
}

/// A note key going down or up, once the connection takes notes.
#[verifier::opaque]
pub open spec fn spec_note_key(k: ScreenView, e: KeyboardKeyEvent) -> ScreenView {
    match e.code {
        KeyboardKeyCode::Char(c) => match spec_note_for_key(c) {
            None => k,
            Some(note) => if !accepts_notes(k) {
                ScreenView { state: take_reset(k.state).0, ..k }
            } else {
                let (state, messages) = match e.kind {
                    KeyPhase::Press => press(k.state, note),
                    KeyPhase::Release => release(k.state, note),
                    KeyPhase::Repeat => (k.state, None),
                };
                let k1 = ScreenView { state, ..k };
                match messages {
                    Some(m) => if k.has_sender {
                        ScreenView {
                            commands: k1.commands.push(CommandView::Send { messages: m, patch: state.patch }),
                            note_guide_completed: k1.note_guide_completed || e.kind == KeyPhase::Press,
                            ..k1
                        }
                    } else {
                        k1
                    },
                    None => k1,
                }
            },
        },
        _ => k,
    }
}

/// A key while a number is typed: digits, Backspace, Esc and Enter edit it;
/// Enter sends the controller value when the connection takes notes.
#[verifier::opaque]
pub open spec fn spec_numeric_key(k: ScreenView, code: KeyboardKeyCode) -> ScreenView {
    match code {
        KeyboardKeyCode::Char(c) => if '0' <= c && c <= '9' {
            ScreenView { state: crate::keyboard_model::numeric_push(k.state, c), ..k }
        } else {
            k
        },
        KeyboardKeyCode::Backspace => ScreenView { state: crate::keyboard_model::numeric_backspace(k.state), ..k },
        KeyboardKeyCode::Esc => ScreenView {
            state: KeyboardView { numeric_input: None, ..k.state },
            ..k
        },
        KeyboardKeyCode::Enter => {
            let (state, message) = confirm_numeric(k.state);
            let k1 = ScreenView { state, ..k };
            match message {
                Some(m) => if accepts_notes(k1) { spec_send(k1, seq![m]) } else { k1 },
                None => k1,
            }
        },
        _ => k,
    }
}


/// The count typed so far, after a digit: see `NavigationCount::push_digit`.
pub open spec fn spec_push_count(count: Option<usize>, c: char) -> (Option<usize>, bool) {
    if spec_decimal_digit(c) is Some && !(count is None && spec_decimal_digit(c) == Some(0nat)) {
        (
            Some(spec_append_digit(
                match count {
                    Some(v) => v as nat,
                    None => 0nat,
                },
                spec_decimal_digit(c).unwrap(),
            ) as usize),
            true,
        )
    } else {
        (count, false)
    }
}

/// The move a count gives: `unit` steps per count (one count by default).
pub open spec fn spec_count_delta(count: Option<usize>, unit: isize) -> isize {
    spec_clamp_isize(unit * match count {
        Some(c) => if c > isize::MAX { isize::MAX as int } else { c as int },
        None => 1int,
    }) as isize
}

/// The count keys: digits build a count; `j` `k` move by patches and `h` `l`
/// by categories, `Ctrl+d` `Ctrl+u` by ten patches, each times the count.
/// Any other press forgets the count; `None` says the key was not used here.
pub open spec fn spec_count_key(s: TuiView, k: ScreenView, e: KeyboardKeyEvent) -> (ScreenView, bool) {
    let cleared = ScreenView { state: KeyboardView { navigation_count: None, ..k.state }, ..k };
    let count = k.state.navigation_count;
    match e.code {
        KeyboardKeyCode::Char(c) => if no_modifiers(e) && spec_push_count(count, c).1 {
            (ScreenView { state: KeyboardView { navigation_count: spec_push_count(count, c).0, ..k.state }, ..k }, true)
        } else if no_modifiers(e) && c == 'j' {
            (spec_move_keyboard_patch(s, cleared, spec_count_delta(count, 1isize)), true)
        } else if no_modifiers(e) && c == 'k' {
            (spec_move_keyboard_patch(s, cleared, spec_count_delta(count, -1isize)), true)
        } else if no_modifiers(e) && c == 'l' {
            (spec_move_keyboard_category(s, cleared, spec_count_delta(count, 1isize)), true)
        } else if no_modifiers(e) && c == 'h' {
            (spec_move_keyboard_category(s, cleared, spec_count_delta(count, -1isize)), true)
        } else if only_control(e) && c == 'd' {
            (spec_move_keyboard_patch(s, cleared, spec_count_delta(count, 10isize)), true)
        } else if only_control(e) && c == 'u' {
            (spec_move_keyboard_patch(s, cleared, spec_count_delta(count, -10isize)), true)
        } else {
            (cleared, false)
        },
        _ => (cleared, false),
    }
}

/// A key that sends the current controller value, only while the connection
/// takes notes.
#[verifier::opaque]
pub open spec fn spec_controller_key(k: ScreenView, state: KeyboardView, message: MidiMessage) -> ScreenView {
    if accepts_notes(k) {
        spec_send(ScreenView { state, ..k }, seq![message])
    } else {
        k
    }
}

/// `m` `p` `t`: modulation, pitch bend and note playback cycle while the
/// connection takes notes, and what they produce is sent.
#[verifier::opaque]
pub open spec fn spec_cycle_key(k: ScreenView, c: char, now: u64) -> ScreenView {
    if c == 'm' {
        let (state, message) = cycle_modulation(k.state, now);
        spec_controller_key(k, state, message)
    } else if c == 'p' {
        let (state, message) = cycle_pitch_bend(k.state, now);
        spec_controller_key(k, state, message)
    } else {
        let (state, messages) = cycle_note_playback(k.state, now);
        if accepts_notes(k) {
            let k2 = ScreenView { state, ..k };
            if messages.len() > 0 { spec_send(k2, messages) } else { k2 }
        } else {
            k
        }
    }
}

/// `s`: the other transport; everything sounding stops and the sender
/// switches, reusing the patch's remembered voicing.
#[verifier::opaque]
pub open spec fn spec_switch_transport(k: ScreenView) -> ScreenView {
    let transport = k.state.transport.spec_toggled();
    let (state, note_offs) = take_reset(KeyboardView { transport, ..k.state });
    spec_command(
        ScreenView { state, ..k },
        CommandView::Switch {
            transport,
            note_offs,
            patch: k.state.patch,
            known_voicing: spec_cached_voicing(k, k.state.patch),
        },
    )
}

/// The unmodified command keys: arrows and pages move in the patch browser;
/// `v` `m` `p` `t` cycle velocity, modulation, pitch bend and note playback;
/// `i` opens MML entry, `x` `z` a controller number or value; `s` switches
/// transport; `r` reconnects after an error (else picks a random patch); `n`
/// `w` `q` leave.
pub open spec fn spec_plain_key(s: TuiView, k: ScreenView, code: KeyboardKeyCode, now: u64) -> (
    TuiView,
    ScreenView,
    Option<KeyboardAction>,
) {
    match code {
        KeyboardKeyCode::Down => (s, spec_move_keyboard_patch(s, k, 1isize), Some(KeyboardAction::Continue)),
        KeyboardKeyCode::Up => (s, spec_move_keyboard_patch(s, k, -1isize), Some(KeyboardAction::Continue)),
        KeyboardKeyCode::PageDown => (s, spec_move_keyboard_patch(s, k, 10isize), Some(KeyboardAction::Continue)),
        KeyboardKeyCode::PageUp => (s, spec_move_keyboard_patch(s, k, -10isize), Some(KeyboardAction::Continue)),
        KeyboardKeyCode::End => (s, spec_move_keyboard_category(s, k, 1isize), Some(KeyboardAction::Continue)),
        KeyboardKeyCode::Home => (s, spec_move_keyboard_category(s, k, -1isize), Some(KeyboardAction::Continue)),
        KeyboardKeyCode::Char(c) => if is_setting_key(c) {
            (s, spec_setting_key(k, c, now), Some(KeyboardAction::Continue))
        } else if is_session_key(c) {
            let (s2, k2, action) = spec_session_key(s, k, c);
            (s2, k2, Some(action))
        } else {
            (s, k, None)
        },
        _ => (s, k, None),
    }
}

pub open spec fn is_setting_key(c: char) -> bool {
    c == 'v' || c == 'm' || c == 'p' || c == 't' || c == 'i' || c == 'x' || c == 'z' || c == 's'
}

pub open spec fn is_session_key(c: char) -> bool {
    c == 'r' || c == 'n' || c == 'w' || c == 'q'
}

/// `v` `m` `p` `t` cycle velocity, modulation, pitch bend and note playback;
/// `i` opens MML entry; `x` `z` start typing a controller number or value;
/// `s` switches transport.
#[verifier::opaque]
pub open spec fn spec_setting_key(k: ScreenView, c: char, now: u64) -> ScreenView {
    if c == 'v' {
        ScreenView { state: cycle_velocity(k.state, now), ..k }
    } else if c == 'm' || c == 'p' || c == 't' {
        spec_cycle_key(k, c, now)
    } else if c == 'i' {
        ScreenView { mml_input_active: true, ..k }
    } else if c == 'x' {
        ScreenView {
            state: KeyboardView { numeric_input: Some((NumericInputTarget::CcNumber, Seq::empty())), ..k.state },
            ..k
        }
    } else if c == 'z' {
        ScreenView {
            state: KeyboardView { numeric_input: Some((NumericInputTarget::CcValue, Seq::empty())), ..k.state },
            ..k
        }
    } else {
        spec_switch_transport(k)
    }
}

/// `r` reconnects after a connection error (else asks for a random patch);
/// `n` returns to the notepad, `w` opens the DAW, `q` quits (the session is
/// then kept for next time); leaving stops the keyboard.
#[verifier::opaque]
pub open spec fn spec_session_key(s: TuiView, k: ScreenView, c: char) -> (TuiView, ScreenView, KeyboardAction) {
    if c == 'r' {
        if spec_connection_status(k).phase is Error {
            (s, spec_prepare(ScreenView { state: take_reset(k.state).0, ..k }), KeyboardAction::Continue)
        } else {
            (s, k, KeyboardAction::RandomPatch)
        }
    } else if c == 'n' {
        (TuiView { mode: Mode::Normal, ..s }, ScreenView { persist_on_exit: false, ..spec_finish(k) }, KeyboardAction::ReturnToNotepad)
    } else if c == 'w' {
        (TuiView { mode: Mode::Normal, ..s }, ScreenView { persist_on_exit: false, ..spec_finish(k) }, KeyboardAction::LaunchDaw)
    } else {
        (s, ScreenView { persist_on_exit: true, ..spec_finish(k) }, KeyboardAction::Quit)
    }
}

/// The command keys of the keyboard screen (after the count keys).
pub open spec fn spec_command_key(s: TuiView, k: ScreenView, e: KeyboardKeyEvent, now: u64) -> (
    TuiView,
    ScreenView,
    Option<KeyboardAction>,
) {
    let press_key = e.kind == KeyPhase::Press;
    if press_key && only_shift(e) && (e.code == KeyboardKeyCode::Char('h') || e.code == KeyboardKeyCode::Char('H')) {
        let m = next_buffer_multiplier(k.state.buffer_multiplier);
        let k1 = ScreenView { state: KeyboardView { buffer_multiplier: m, ..k.state }, ..k };
        (s, spec_command(k1, CommandView::SetBufferMultiplier(m)), Some(KeyboardAction::Continue))
    } else if press_key && only_shift(e) && (e.code == KeyboardKeyCode::Char('z') || e.code == KeyboardKeyCode::Char(
        'Z',
    )) {
        let (state, message) = toggle_cc_periodic(k.state, now);
        (s, spec_controller_key(k, state, message), Some(KeyboardAction::Continue))
    } else if press_key && no_modifiers(e) {
        spec_plain_key(s, k, e.code, now)
    } else {
        (s, k, None)
    }
}

/// A key on the keyboard screen. The sender's voicing result is taken in
/// first. The MML entry field gets every key but releases; repeats are
/// ignored; a number being typed gets the presses; then come the count keys,
/// the command keys, and last the note keys.
pub open spec fn spec_handle_keyboard_key(s: TuiView, k: ScreenView, e: KeyboardKeyEvent, now: u64) -> (
    TuiView,
    ScreenView,
    KeyboardAction,
) {
    let k0 = spec_sync_voicing(k);
    if k0.mml_input_active {
        if e.kind == KeyPhase::Release && no_modifiers(e) {
            (s, spec_note_key(k0, e), KeyboardAction::Continue)
        } else if e.kind == KeyPhase::Release {
            (s, k0, KeyboardAction::Continue)
        } else {
            (s, k0, KeyboardAction::MmlInputKey)
        }
    } else if e.kind == KeyPhase::Repeat {
        (s, k0, KeyboardAction::Continue)
    } else if k0.state.numeric_input is Some && e.kind == KeyPhase::Press {
        (s, spec_numeric_key(k0, e.code), KeyboardAction::Continue)
    } else {
        let (k1, used) = if e.kind == KeyPhase::Press { spec_count_key(s, k0, e) } else { (k0, false) };
        if used {
            (s, k1, KeyboardAction::Continue)
        } else {
            let (s2, k2, action) = spec_command_key(s, k1, e, now);
            match action {
                Some(a) => (s2, k2, a),
                None => if !no_modifiers(e) {
                    (s2, k2, KeyboardAction::Continue)
                } else {
                    (s2, spec_note_key(k2, e), KeyboardAction::Continue)
                },
            }
        }
    }
}

/// Copies of the messages.
fn copy_messages(messages: &Vec<MidiMessage>) -> (copy: Vec<MidiMessage>)
    ensures
        copy@ == messages@,
{
    let mut copy: Vec<MidiMessage> = Vec::new();
    let mut i: usize = 0;
    while i < messages.len()
        invariant
            i <= messages@.len(),
            copy@ == messages@.subrange(0, i as int),
        decreases messages@.len() - i,
    {
        copy.push(messages[i]);
        i = i + 1;
        assert(copy@ =~= messages@.subrange(0, i as int));
    }
    assert(messages@.subrange(0, messages@.len() as int) =~= messages@);
    copy
}

impl TuiApp {
    /// Whether patch folders are configured.
    pub fn patch_dirs_configured(&self) -> (configured: bool)
        ensures
            configured == self@.patch_dirs_configured,
    {
        self.patch_dirs_configured
    }

    /// The keyboard connection status as the sender last reported it.
    pub fn keyboard_connection_status(&self) -> (status: &KeyboardConnectionStatus)
        ensures
            *status == spec_connection_status(self.keyboard@),
    {
        &self.keyboard.connection
    }

    fn push_command(&mut self, command: SenderCommand)
        ensures
            final(self)@ == old(self)@,
            final(self).keyboard.state == old(self).keyboard.state,
            final(self).keyboard.catalog == old(self).keyboard.catalog,
            final(self).keyboard@ == spec_command(old(self).keyboard@, command@),
    {
        if self.keyboard.has_sender {
            let ghost before = self.keyboard.commands@;
            self.keyboard.commands.push(command);
            assert(commands_view(self.keyboard.commands@) =~= commands_view(before).push(command@));
        }
    }

    fn send_messages(&mut self, messages: Vec<MidiMessage>)
        ensures
            final(self)@ == old(self)@,
            final(self).keyboard.state == old(self).keyboard.state,
            final(self).keyboard.catalog == old(self).keyboard.catalog,
            final(self).keyboard@ == spec_send(old(self).keyboard@, messages@),
    {
        proof {
            reveal(spec_send);
        }
        let patch = owned_opt(self.keyboard.state.patch());
        self.push_command(SenderCommand::Send { messages, patch });
    }

    /// The remembered voicing of `patch`, which lets the sender skip its probe.
    pub fn cached_voicing(&self, patch: Option<&str>) -> (voicing: Option<PatchVoicing>)
        ensures
            voicing == spec_cached_voicing(self.keyboard@, opt_str_view(patch)),
    {
        let name = match patch {
            Some(p) => p,
            None => return None,
        };
        let cache = &self.keyboard.voicing_cache;
        let ghost v = voicing_cache_view(cache@);
        let mut i: usize = 0;
        while i < cache.len()
            invariant
                opt_str_view(patch) == Some(name@),
                v == self.keyboard@.voicing_cache,
                v == voicing_cache_view(cache@),
                i <= cache@.len(),
                forall|k: int| 0 <= k < i ==> (#[trigger] v[k]).0 != name@,
            decreases cache@.len() - i,
        {
            assert(v[i as int] == (cache@[i as int].0@, cache@[i as int].1));
            if same_text(cache[i].0.as_str(), name) {
                proof {
                    lemma_cache_index(v, name@, i as int);
                }
                return Some(cache[i].1);
            }
            i = i + 1;
        }
        proof {
            lemma_no_cache_index(v, name@);
        }
        None
    }

    /// A new probe result goes into the voicing cache.
    pub fn store_probed_voicing(&mut self, status: &KeyboardConnectionStatus)
        requires
            old(self).keyboard.wf(),
        ensures
            final(self)@ == old(self)@,
            final(self).keyboard.wf(),
            final(self).keyboard@ == spec_store_probed_voicing(old(self).keyboard@, *status),
    {
        proof {
            reveal(spec_store_probed_voicing);
        }
        let report = match &status.voicing {
            KeyboardVoicingStatus::Detected(report) => *report,
            _ => return,
        };
        let patch = match &status.voicing_patch {
            Some(p) => p,
            None => return,
        };
        let ghost v = voicing_cache_view(self.keyboard.voicing_cache@);
        let mut i: usize = 0;
        while i < self.keyboard.voicing_cache.len()
            invariant
                *self == *old(self),
                self.keyboard.wf(),
                status.voicing == KeyboardVoicingStatus::Detected(report),
                status.voicing_patch matches Some(p) && p@ == patch@,
                v == voicing_cache_view(self.keyboard.voicing_cache@),
                i <= v.len(),
                forall|k: int| 0 <= k < i ==> (#[trigger] v[k]).0 != patch@,
            decreases v.len() - i,
        {
            assert(v[i as int] == (self.keyboard.voicing_cache@[i as int].0@, self.keyboard.voicing_cache@[i as int].1));
            if same_text(self.keyboard.voicing_cache[i].0.as_str(), patch.as_str()) {
                proof {
                    lemma_cache_index(v, patch@, i as int);
                }
                if self.keyboard.voicing_cache[i].1 == report.decision {
                    proof {
                        reveal(spec_store_probed_voicing);
                    }
                    return;
                }
                let entry = (copy_string(patch), report.decision);
                self.keyboard.voicing_cache.set(i, entry);
                self.keyboard.voicing_cache_dirty = true;
                proof {
                    reveal(spec_store_probed_voicing);
                    assert(voicing_cache_view(self.keyboard.voicing_cache@) =~= v.update(i as int, (patch@, report.decision)));
                }
                return;
            }
            i = i + 1;
        }
        proof {
            lemma_no_cache_index(v, patch@);
        }
        self.keyboard.voicing_cache.push((copy_string(patch), report.decision));
        self.keyboard.voicing_cache_dirty = true;
        proof {
            assert(voicing_cache_view(self.keyboard.voicing_cache@) =~= v.push((patch@, report.decision)));
        }
    }

    /// The keyboard state learns the voicing the sender found, and a fresh probe
    /// result is remembered.
    pub fn sync_keyboard_voicing_detection(&mut self)
        requires
            old(self).keyboard.wf(),
        ensures
            final(self)@ == old(self)@,
            final(self).keyboard.wf(),
            final(self).keyboard@ == spec_sync_voicing(old(self).keyboard@),
            final(self).keyboard@.state.held == old(self).keyboard@.state.held,
            final(self).keyboard@.state.repeat_chords == old(self).keyboard@.state.repeat_chords,
            final(self).keyboard@.state.numeric_input == old(self).keyboard@.state.numeric_input,
            final(self).keyboard@.mml_input_active == old(self).keyboard@.mml_input_active,
            final(self).keyboard@.connection == old(self).keyboard@.connection,
    {
        proof {
            reveal(spec_sync_voicing);
            reveal(spec_store_probed_voicing);
        }
        let decision = self.keyboard.connection.voicing.effective_decision();
        self.keyboard.state.set_detected_voicing(decision);
        let status = KeyboardConnectionStatus {
            transport: self.keyboard.connection.transport,
            phase: KeyboardConnectionPhase::Idle,
            last_send: None,
            buffer_multiplier: 0,
            voicing: match &self.keyboard.connection.voicing {
                KeyboardVoicingStatus::Detected(report) => KeyboardVoicingStatus::Detected(*report),
                _ => KeyboardVoicingStatus::Unavailable,
            },
            voicing_patch: match &self.keyboard.connection.voicing_patch {
                Some(p) => Some(copy_string(p)),
                None => None,
            },
        };
        self.store_probed_voicing(&status);
    }

    /// The sender connects for the current patch (with its remembered voicing).
    pub fn prepare_keyboard_connection(&mut self)
        requires
            old(self).keyboard.wf(),
        ensures
            final(self)@ == old(self)@,
            final(self).keyboard.wf(),
            final(self).keyboard@ == spec_prepare(old(self).keyboard@),
    {
        proof {
            reveal(spec_prepare);
        }
        let known_voicing = self.cached_voicing(self.keyboard.state.patch());
        let patch = owned_opt(self.keyboard.state.patch());
        let command = SenderCommand::Prepare {
            transport: self.keyboard.state.transport(),
            buffer_multiplier: self.keyboard.state.buffer_multiplier(),
            patch,
            known_voicing,
        };
        self.push_command(command);
    }

    /// Back on a restored keyboard screen, an idle connection is prepared.
    pub fn prepare_restored_keyboard_connection(&mut self)
        requires
            old(self).keyboard.wf(),
        ensures
            final(self)@ == old(self)@,
            final(self).keyboard.wf(),
            final(self).keyboard@ == (if old(self)@.mode == Mode::Keyboard && spec_connection_status(
                old(self).keyboard@,
            ).phase is Idle {
                spec_prepare(old(self).keyboard@)
            } else {
                old(self).keyboard@
            }),
    {
        let idle = match self.keyboard.connection.phase {
            KeyboardConnectionPhase::Idle => true,
            _ => false,
        };
        if self.mode == Mode::Keyboard && idle {
            self.prepare_keyboard_connection();
        }
    }

    /// The patch browser follows the patch scan.
    pub fn sync_keyboard_patch_catalog(&mut self)
        requires
            old(self).keyboard.wf(),
        ensures
            final(self)@ == old(self)@,
            final(self).keyboard.wf(),
            final(self).keyboard@ == spec_sync_catalog(old(self)@, old(self).keyboard@),
    {
        proof {
            reveal(spec_sync_catalog);
        }
        if !self.patch_dirs_configured {
            self.keyboard.catalog.set_not_configured();
            return;
        }
        if self.keyboard.catalog.is_ready() {
            return;
        }
        match &self.patch_load_state {
            PatchLoadState::Loading => self.keyboard.catalog.set_loading(),
            PatchLoadState::Failed(error) => {
                let error = copy_string(error);
                self.keyboard.catalog.set_error(error);
            },
            PatchLoadState::Ready(_) => {
                let categories = copy_categories(&self.keyboard.grouped_patches);
                let current = owned_opt(self.keyboard.state.patch());
                match &current {
                    Some(c) => self.keyboard.catalog.load(categories, Some(c.as_str())),
                    None => self.keyboard.catalog.load(categories, None),
                }
            },
        }
    }

    /// A patch picked in the browser becomes the keyboard's patch.
    pub fn apply_keyboard_patch_selection(&mut self, selected: Option<String>)
        requires
            old(self).keyboard.wf(),
        ensures
            final(self)@ == old(self)@,
            final(self).keyboard.wf(),
            final(self).keyboard@ == spec_apply_patch_selection(old(self).keyboard@, opt_string_view(selected)),
    {
        proof {
            reveal(spec_apply_patch_selection);
        }
        let patch = match selected {
            Some(p) => p,
            None => return,
        };
        let previous = owned_opt(self.keyboard.state.patch());
        let same = match &previous {
            Some(p) => same_text(p.as_str(), patch.as_str()),
            None => false,
        };
        if same {
            return;
        }
        let note_offs = self.keyboard.state.take_reset_messages();
        let patch_copy = copy_string(&patch);
        self.keyboard.state.set_patch(Some(patch));
        self.push_command(SenderCommand::SetPatch { note_offs, previous, patch: Some(patch_copy) });
    }

    /// `j` / `k` / arrows / pages: moves in the patch browser by `delta` patches.
    pub fn move_keyboard_patch_by(&mut self, delta: isize)
        requires
            old(self).keyboard.wf(),
        ensures
            final(self)@ == old(self)@,
            final(self).keyboard.wf(),
            final(self).keyboard@ == spec_move_keyboard_patch(old(self)@, old(self).keyboard@, delta),
    {
        proof {
            reveal(spec_move_keyboard_patch);
        }
        self.sync_keyboard_patch_catalog();
        let selected = self.keyboard.catalog.move_patch_by(delta);
        self.apply_keyboard_patch_selection(selected);
    }

    /// `h` / `l` / Home / End: moves in the patch browser by `delta` categories.
    pub fn move_keyboard_patch_category_by(&mut self, delta: isize)
        requires
            old(self).keyboard.wf(),
        ensures
            final(self)@ == old(self)@,
            final(self).keyboard.wf(),
            final(self).keyboard@ == spec_move_keyboard_category(old(self)@, old(self).keyboard@, delta),
    {
        proof {
            reveal(spec_move_keyboard_category);
        }
        self.sync_keyboard_patch_catalog();
        let selected = self.keyboard.catalog.move_category_by(delta);
        self.apply_keyboard_patch_selection(selected);
    }

    /// Leaves the keyboard: sounding notes stop and the sender stops.
    pub fn finish_keyboard(&mut self)
        requires
            old(self).keyboard.wf(),
        ensures
            final(self)@ == old(self)@,
            final(self).keyboard.wf(),
            final(self).keyboard@ == spec_finish(old(self).keyboard@),
    {
        proof {
            reveal(spec_finish);
            reveal(spec_send);
        }
        let note_offs = self.keyboard.state.take_reset_messages();
        if note_offs.len() > 0 {
            self.send_messages(note_offs);
        }
        self.push_command(SenderCommand::Stop);
    }
}

impl TuiApp {
    /// Opens the keyboard on `patch`: a fresh keyboard state, the sender prepares
    /// its connection, playback shows idle.
    pub fn start_keyboard(&mut self, patch: Option<String>)
        requires
            old(self).keyboard.wf(),
        ensures
            final(self).keyboard.wf(),
            final(self)@ == (TuiView { mode: Mode::Keyboard, play_state: PlayStateView::Idle, ..old(self)@ }),
            final(self).keyboard@ == (ScreenView {
                persist_on_exit: false,
                ..spec_prepare(
                    ScreenView {
                        state: crate::keyboard_state::initial_view(
                            opt_string_view(patch),
                            KeyboardTransport::SharedMemory,
                            4,
                        ),
                        mml_input_active: false,
                        note_guide_completed: false,
                        ..old(self).keyboard@
                    },
                )
            }),
    {
        self.keyboard.mml_input_active = false;
        self.keyboard.note_guide_completed = false;
        self.play_state = PlayState::Idle;
        self.keyboard.state = KeyboardState::new(patch);
        self.prepare_keyboard_connection();
        self.keyboard.persist_on_exit = false;
        self.mode = Mode::Keyboard;
    }

    fn handle_keyboard_note_key(&mut self, event: KeyboardKeyEvent)
        requires
            old(self).keyboard.wf(),
            is_note_press(event) && accepts_notes(old(self).keyboard@) ==> press_ready(old(self).keyboard@.state),
        ensures
            final(self)@ == old(self)@,
            final(self).keyboard.wf(),
            final(self).keyboard@ == spec_note_key(old(self).keyboard@, event),
    {
        proof {
            reveal(spec_note_key);
            reveal(spec_send);
        }
        let c = match event.code {
            KeyboardKeyCode::Char(c) => c,
            _ => return,
        };
        let note = match note_for_key(c) {
            Some(n) => n,
            None => return,
        };
        if !self.keyboard.connection.phase.accepts_notes() {
            self.keyboard.state.take_reset_messages();
            return;
        }
        let messages = match event.kind {
            KeyPhase::Press => self.keyboard.state.press(note),
            KeyPhase::Release => self.keyboard.state.release(note),
            KeyPhase::Repeat => None,
        };
        match messages {
            Some(m) => {
                if self.keyboard.has_sender {
                    self.send_messages(m);
                    if event.kind == KeyPhase::Press {
                        self.keyboard.note_guide_completed = true;
                    }
                }
            },
            None => {},
        }
    }

    fn handle_keyboard_numeric_key(&mut self, code: KeyboardKeyCode)
        requires
            old(self).keyboard.wf(),
        ensures
            final(self)@ == old(self)@,
            final(self).keyboard.wf(),
            final(self).keyboard@ == spec_numeric_key(old(self).keyboard@, code),
    {
        proof {
            reveal(spec_numeric_key);
            reveal(spec_send);
        }
        match code {
            KeyboardKeyCode::Char(c) => {
                if '0' <= c && c <= '9' {
                    self.keyboard.state.numeric_input_push(c);
                }
            },
            KeyboardKeyCode::Backspace => self.keyboard.state.numeric_input_backspace(),
            KeyboardKeyCode::Esc => self.keyboard.state.cancel_numeric_input(),
            KeyboardKeyCode::Enter => {
                let message = self.keyboard.state.confirm_numeric_input();
                match message {
                    Some(m) => {
                        if self.keyboard.connection.phase.accepts_notes() {
                            let mut messages: Vec<MidiMessage> = Vec::new();
                            messages.push(m);
                            self.send_messages(messages);
                        }
                    },
                    None => {},
                }
            },
            _ => {},
        }
    }

    /// Moves by `unit` patches (or categories) times the count, which is
    /// then forgotten.
    fn count_move(&mut self, unit: isize, by_category: bool)
        requires
            old(self).keyboard.wf(),
        ensures
            final(self)@ == old(self)@,
            final(self).keyboard.wf(),
            final(self).keyboard@ == ({
                let k = old(self).keyboard@;
                let cleared = ScreenView { state: KeyboardView { navigation_count: None, ..k.state }, ..k };
                let delta = spec_count_delta(k.state.navigation_count, unit);
                if by_category {
                    spec_move_keyboard_category(old(self)@, cleared, delta)
                } else {
                    spec_move_keyboard_patch(old(self)@, cleared, delta)
                }
            }),
    {
        let delta: isize = self.keyboard.state.take_navigation_delta(unit);
        if by_category {
            self.move_keyboard_patch_category_by(delta);
        } else {
            self.move_keyboard_patch_by(delta);
        }
    }

    #[verifier::rlimit(100)]
    fn handle_plain_count_char(&mut self, event: KeyboardKeyEvent, c: char) -> (used: bool)
        requires
            old(self).keyboard.wf(),
            event.code == KeyboardKeyCode::Char(c),
            !event.shift && !event.control && !event.other_modifiers,
        ensures
            final(self)@ == old(self)@,
            final(self).keyboard.wf(),
            (final(self).keyboard@, used) == spec_count_key(old(self)@, old(self).keyboard@, event),
    {
        if self.keyboard.state.push_navigation_digit(c) {
            return true;
        }
        if c == 'j' || c == 'k' || c == 'l' || c == 'h' {
            let unit: isize = if c == 'j' || c == 'l' { 1 } else { -1 };
            self.count_move(unit, c == 'l' || c == 'h');
            return true;
        }
        self.keyboard.state.clear_navigation_count();
        false
    }

    #[verifier::rlimit(100)]
    fn handle_control_count_char(&mut self, event: KeyboardKeyEvent, c: char) -> (used: bool)
        requires
            old(self).keyboard.wf(),
            event.code == KeyboardKeyCode::Char(c),
            !event.shift && event.control && !event.other_modifiers,
        ensures
            final(self)@ == old(self)@,
            final(self).keyboard.wf(),
            (final(self).keyboard@, used) == spec_count_key(old(self)@, old(self).keyboard@, event),
    {
        if c == 'd' || c == 'u' {
            self.count_move(if c == 'd' { 10 } else { -10 }, false);
            return true;
        }
        self.keyboard.state.clear_navigation_count();
        false
    }

    #[verifier::rlimit(100)]
    fn handle_keyboard_count_key(&mut self, event: KeyboardKeyEvent) -> (used: bool)
        requires
            old(self).keyboard.wf(),
        ensures
            final(self)@ == old(self)@,
            final(self).keyboard.wf(),
            (final(self).keyboard@, used) == spec_count_key(old(self)@, old(self).keyboard@, event),
    {
        let no_modifiers = !event.shift && !event.control && !event.other_modifiers;
        let only_control = !event.shift && event.control && !event.other_modifiers;
        if no_modifiers {
            if let KeyboardKeyCode::Char(c) = event.code {
                return self.handle_plain_count_char(event, c);
            }
        } else if only_control {
            if let KeyboardKeyCode::Char(c) = event.code {
                return self.handle_control_count_char(event, c);
            }
        }
        self.keyboard.state.clear_navigation_count();
        false
    }

    fn handle_keyboard_controller(&mut self, message: MidiMessage)
        ensures
            final(self)@ == old(self)@,
            final(self).keyboard.state == old(self).keyboard.state,
            final(self).keyboard.catalog == old(self).keyboard.catalog,
            final(self).keyboard@ == spec_send(old(self).keyboard@, seq![message]),
    {
        proof {
            reveal(spec_send);
        }
        let mut messages: Vec<MidiMessage> = Vec::new();
        messages.push(message);
        self.send_messages(messages);
    }

    fn handle_keyboard_command_key(&mut self, event: KeyboardKeyEvent, now: u64) -> (action: Option<KeyboardAction>)
        requires
            old(self).keyboard.wf(),
            now <= TIME_LIMIT_MS,
        ensures
            final(self).keyboard.wf(),
            (final(self)@, final(self).keyboard@, action) == spec_command_key(
                old(self)@,
                old(self).keyboard@,
                event,
                now,
            ),
    {
        proof {
            reveal(spec_controller_key);
        }
        let press_key = event.kind == KeyPhase::Press;
        let no_modifiers = !event.shift && !event.control && !event.other_modifiers;
        let only_shift = event.shift && !event.control && !event.other_modifiers;
        let accepts = self.keyboard.connection.phase.accepts_notes();
        if press_key && only_shift && (event.code == KeyboardKeyCode::Char('h') || event.code == KeyboardKeyCode::Char(
            'H',
        )) {
            let multiplier = self.keyboard.state.cycle_buffer_multiplier();
            self.push_command(SenderCommand::SetBufferMultiplier(multiplier));
            return Some(KeyboardAction::Continue);
        }
        if press_key && only_shift && (event.code == KeyboardKeyCode::Char('z') || event.code == KeyboardKeyCode::Char(
            'Z',
        )) {
            if accepts {
                let message = self.keyboard.state.toggle_cc_periodic(now);
                self.handle_keyboard_controller(message);
            }
            return Some(KeyboardAction::Continue);
        }
        if !(press_key && no_modifiers) {
            return None;
        }
        self.handle_keyboard_plain_key(event.code, now)
    }

    fn cycle_keyboard_key(&mut self, c: char, now: u64)
        requires
            old(self).keyboard.wf(),
            now <= TIME_LIMIT_MS,
        ensures
            final(self)@ == old(self)@,
            final(self).keyboard.wf(),
            final(self).keyboard@ == spec_cycle_key(old(self).keyboard@, c, now),
    {
        proof {
            reveal(spec_cycle_key);
            reveal(spec_controller_key);
            reveal(spec_send);
        }
        let accepts = self.keyboard.connection.phase.accepts_notes();
        if c == 'm' {
            if accepts {
                let message = self.keyboard.state.cycle_modulation(now);
                self.handle_keyboard_controller(message);
            }
        } else if c == 'p' {
            if accepts {
                let message = self.keyboard.state.cycle_pitch_bend(now);
                self.handle_keyboard_controller(message);
            }
        } else if accepts {
            let messages = self.keyboard.state.cycle_note_playback(now);
            if messages.len() > 0 {
                self.send_messages(messages);
            }
        }
    }

    fn switch_keyboard_transport(&mut self)
        requires
            old(self).keyboard.wf(),
        ensures
            final(self)@ == old(self)@,
            final(self).keyboard.wf(),
            final(self).keyboard@ == spec_switch_transport(old(self).keyboard@),
    {
        proof {
            reveal(spec_switch_transport);
        }
        let transport = self.keyboard.state.toggle_transport();
        let patch = owned_opt(self.keyboard.state.patch());
        let note_offs = self.keyboard.state.take_reset_messages();
        let known_voicing = match &patch {
            Some(p) => self.cached_voicing(Some(p.as_str())),
            None => self.cached_voicing(None),
        };
        self.push_command(SenderCommand::Switch { transport, note_offs, patch, known_voicing });
    }

    fn handle_keyboard_plain_key(&mut self, code: KeyboardKeyCode, now: u64) -> (action: Option<KeyboardAction>)
        requires
            old(self).keyboard.wf(),
            now <= TIME_LIMIT_MS,
        ensures
            final(self).keyboard.wf(),
            (final(self)@, final(self).keyboard@, action) == spec_plain_key(old(self)@, old(self).keyboard@, code, now),
    {
        match code {
            KeyboardKeyCode::Down => {
                self.move_keyboard_patch_by(1);
                Some(KeyboardAction::Continue)
            },
            KeyboardKeyCode::Up => {
                self.move_keyboard_patch_by(-1);
                Some(KeyboardAction::Continue)
            },
            KeyboardKeyCode::PageDown => {
                self.move_keyboard_patch_by(10);
                Some(KeyboardAction::Continue)
            },
            KeyboardKeyCode::PageUp => {
                self.move_keyboard_patch_by(-10);
                Some(KeyboardAction::Continue)
            },
            KeyboardKeyCode::End => {
                self.move_keyboard_patch_category_by(1);
                Some(KeyboardAction::Continue)
            },
            KeyboardKeyCode::Home => {
                self.move_keyboard_patch_category_by(-1);
                Some(KeyboardAction::Continue)
            },
            KeyboardKeyCode::Char(c) => {
                if c == 'v' || c == 'm' || c == 'p' || c == 't' || c == 'i' || c == 'x' || c == 'z' || c == 's' {
                    self.handle_keyboard_setting_key(c, now);
                    Some(KeyboardAction::Continue)
                } else if c == 'r' || c == 'n' || c == 'w' || c == 'q' {
                    Some(self.handle_keyboard_session_key(c))
                } else {
                    None
                }
            },
            _ => None,
        }
    }

    fn handle_keyboard_setting_key(&mut self, c: char, now: u64)
        requires
            old(self).keyboard.wf(),
            now <= TIME_LIMIT_MS,
            is_setting_key(c),
        ensures
            final(self)@ == old(self)@,
            final(self).keyboard.wf(),
            final(self).keyboard@ == spec_setting_key(old(self).keyboard@, c, now),
    {
        proof {
            reveal(spec_setting_key);
        }
        if c == 'v' {
            self.keyboard.state.cycle_velocity(now);
        } else if c == 'm' || c == 'p' || c == 't' {
            self.cycle_keyboard_key(c, now);
        } else if c == 'i' {
            self.keyboard.mml_input_active = true;
        } else if c == 'x' {
            self.keyboard.state.begin_numeric_input(NumericInputTarget::CcNumber);
        } else if c == 'z' {
            self.keyboard.state.begin_numeric_input(NumericInputTarget::CcValue);
        } else {
            self.switch_keyboard_transport();
        }
    }

    fn handle_keyboard_session_key(&mut self, c: char) -> (action: KeyboardAction)
        requires
            old(self).keyboard.wf(),
            is_session_key(c),
        ensures
            final(self).keyboard.wf(),
            (final(self)@, final(self).keyboard@, action) == spec_session_key(old(self)@, old(self).keyboard@, c),
    {
        proof {
            reveal(spec_session_key);
        }
        if c == 'r' {
            let failed = match self.keyboard.connection.phase {
                KeyboardConnectionPhase::Error(_) => true,
                _ => false,
            };
            if failed {
                self.keyboard.state.take_reset_messages();
                self.prepare_keyboard_connection();
                KeyboardAction::Continue
            } else {
                KeyboardAction::RandomPatch
            }
        } else if c == 'n' {
            self.finish_keyboard();
            self.keyboard.persist_on_exit = false;
            self.mode = Mode::Normal;
            KeyboardAction::ReturnToNotepad
        } else if c == 'w' {
            self.finish_keyboard();
            self.keyboard.persist_on_exit = false;
            self.mode = Mode::Normal;
            KeyboardAction::LaunchDaw
        } else {
            self.finish_keyboard();
            self.keyboard.persist_on_exit = true;
            KeyboardAction::Quit
        }
    }

    /// A key on the keyboard screen; see `spec_handle_keyboard_key`.
    pub fn handle_keyboard_key_event(&mut self, event: KeyboardKeyEvent, now: u64) -> (action: KeyboardAction)
        requires
            old(self).keyboard.wf(),
            now <= TIME_LIMIT_MS,
            is_note_press(event) && accepts_notes(old(self).keyboard@) ==> press_ready(old(self).keyboard@.state),
        ensures
            final(self).keyboard.wf(),
            (final(self)@, final(self).keyboard@, action) == spec_handle_keyboard_key(
                old(self)@,
                old(self).keyboard@,
                event,
                now,
            ),
    {
        self.sync_keyboard_voicing_detection();
        let no_modifiers = !event.shift && !event.control && !event.other_modifiers;
        if self.keyboard.mml_input_active {
            if event.kind == KeyPhase::Release {
                if no_modifiers {
                    self.handle_keyboard_note_key(event);
                }
                return KeyboardAction::Continue;
            }
            return KeyboardAction::MmlInputKey;
        }
        if event.kind == KeyPhase::Repeat {
            return KeyboardAction::Continue;
        }
        if self.keyboard.state.numeric_input().is_some() && event.kind == KeyPhase::Press {
            self.handle_keyboard_numeric_key(event.code);
            return KeyboardAction::Continue;
        }
        if event.kind == KeyPhase::Press {
            if self.handle_keyboard_count_key(event) {
                return KeyboardAction::Continue;
            }
        }
        match self.handle_keyboard_command_key(event, now) {
            Some(action) => return action,
            None => {},
        }
        if !no_modifiers {
            return KeyboardAction::Continue;
        }
        self.handle_keyboard_note_key(event);
        KeyboardAction::Continue
    }
}

/// Copies of the categories.
fn copy_categories(categories: &Vec<PatchCategory>) -> (copy: Vec<PatchCategory>)
    ensures
        categories_view(copy@) == categories_view(categories@),
{
    let mut copy: Vec<PatchCategory> = Vec::new();
    let mut i: usize = 0;
    while i < categories.len()
        invariant
            i <= categories@.len(),
            categories_view(copy@) == categories_view(categories@.subrange(0, i as int)),
        decreases categories@.len() - i,
    {
        let name = copy_string(&categories[i].name);
        let patches = copy_strings(&categories[i].patches);
        let ghost before = copy@;
        copy.push(PatchCategory { name, patches });
        proof {
            assert(categories_view(copy@) =~= categories_view(before).push(crate::keyboard_catalog::category_view(categories@[i as int])));
            assert(categories_view(categories@.subrange(0, i + 1)) =~= categories_view(categories@.subrange(0, i as int)).push(
                crate::keyboard_catalog::category_view(categories@[i as int]),
            ));
        }
        i = i + 1;
    }
    assert(categories@.subrange(0, categories@.len() as int) =~= categories@);
    copy
}

/// Copies of the strings.
pub fn copy_strings(items: &Vec<String>) -> (copy: Vec<String>)
    ensures
        strings_view(copy@) == strings_view(items@),
{
    let mut copy: Vec<String> = Vec::new();
    let mut i: usize = 0;
    while i < items.len()
        invariant
            i <= items@.len(),
            strings_view(copy@) == strings_view(items@.subrange(0, i as int)),
        decreases items@.len() - i,
    {
        let ghost before = copy@;
        copy.push(copy_string(&items[i]));
        proof {
            assert(strings_view(copy@) =~= strings_view(before).push(items@[i as int]@));
            assert(strings_view(items@.subrange(0, i + 1)) =~= strings_view(items@.subrange(0, i as int)).push(
                items@[i as int]@,
            ));
        }
        i = i + 1;
    }
    assert(items@.subrange(0, items@.len() as int) =~= items@);
    copy
}

/// The keyboard's periodic tick: the sender's voicing result is taken in;
/// while the connection takes notes, the current controller values owed after
/// a patch change and then the periodic sends due at `now` go out together.
/// `combo` is the random controller combination the tick draws, if it draws.
pub open spec fn spec_pump_periodic(k: ScreenView, now: u64, combo: usize) -> ScreenView {
    let k0 = spec_sync_voicing(k);
    if !accepts_notes(k0) {
        k0
    } else {
        let (s1, m1) = refresh(k0.state, now);
        let (s2, m2) = poll(s1, now, combo);
        let k2 = ScreenView { state: s2, ..k0 };
        if (m1 + m2).len() > 0 { spec_send(k2, m1 + m2) } else { k2 }
    }
}

impl TuiApp {
    /// The periodic tick of the keyboard screen (see `spec_pump_periodic`).
    pub fn pump_keyboard_periodic(&mut self, now: u64)
        requires
            old(self).keyboard.wf(),
            now <= TIME_LIMIT_MS,
        ensures
            final(self)@ == old(self)@,
            final(self).keyboard.wf(),
            final(self).keyboard@ == spec_pump_periodic(
                old(self).keyboard@,
                now,
                final(self).keyboard@.state.current_combo,
            ),
            accepts_notes(spec_sync_voicing(old(self).keyboard@)) ==> poll_deal_ok(
                refresh(spec_sync_voicing(old(self).keyboard@).state, now).0,
                now,
                final(self).keyboard@.state.current_combo,
            ),
    {
        self.sync_keyboard_voicing_detection();
        let ready = self.keyboard_connection_status().phase.accepts_notes();
        if !ready {
            return;
        }
        let mut messages = self.keyboard.state.take_pending_refresh_messages(now);
        let mut periodic = self.keyboard.state.poll_periodic(now);
        let ghost m1 = messages@;
        let ghost m2 = periodic@;
        messages.append(&mut periodic);
        assert(messages@ =~= m1 + m2);
        if messages.len() > 0 {
            self.send_messages(messages);
        }
    }
}

/// `Enter` on the keyboard's MML field once its notes were read: the typed
/// progression replaces the remembered chords. While the connection takes
/// notes, note repeat or the arpeggio restarts at once and what that sends
/// goes to the sender; otherwise the restart waits for the next refresh.
pub open spec fn spec_apply_mml_progression(k: ScreenView, progression: Seq<Seq<u8>>, now: u64) -> ScreenView {
    let ready = accepts_notes(k);
    let (state, messages) = replace_chords(k.state, progression, now, ready);
    let k1 = ScreenView { state, ..k };
    if ready && messages.len() > 0 && k.has_sender {
        spec_send(k1, messages)
    } else {
        k1
    }
}

impl TuiApp {
    /// Applies a progression typed on the MML field (see `spec_apply_mml_progression`).
    /// Its notes are MIDI notes (below 128).
    pub fn apply_keyboard_mml_progression(&mut self, progression: Vec<Vec<u8>>, now: u64)
        requires
            old(self).keyboard.wf(),
            now <= TIME_LIMIT_MS,
            forall|i: int, j: int| 0 <= i < progression@.len() && 0 <= j < progression@[i]@.len()
                ==> #[trigger] progression@[i]@[j] < 128,
        ensures
            final(self)@ == old(self)@,
            final(self).keyboard.wf(),
            final(self).keyboard@ == spec_apply_mml_progression(old(self).keyboard@, chords_view(progression@), now),
    {
        let ready = self.keyboard_connection_status().phase.accepts_notes();
        let messages = self.keyboard.state.replace_repeat_chords(progression, now, ready);
        if ready && messages.len() > 0 && self.keyboard.has_sender {
            self.send_messages(messages);
        }
    }
}

} // verus!
