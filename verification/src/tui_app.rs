//! The notepad side of the terminal app: the line editor, its normal-mode keys,
//! help, and what it asks the app to do (play a line, record history, ...).
//!
//! The app keeps a list of requests (`effects`) that its runtime carries out
//! after each call: starting playback, writing history, prefetching audio.
use vstd::prelude::*;
use crate::query::strings_view;
use crate::text::{copy_string, trim, trimmed};
use crate::patch_select::{PatchSelectState, PatchSelectView, PatchLoadState, PatchLoadView};
use crate::keyboard_screen::KeyboardScreen;

verus! {

/// The screen or overlay that has the keys.
#[derive(Clone, Copy, Debug, PartialEq, Eq, Structural)]
pub enum Mode {
    Normal,
    Insert,
    Help,
    NotepadHistoryGuide,
    NotepadHistory,
    PatchSelect,
    PatchPhrase,
    Keyboard,
    LoopBrowser,
}

/// What the status line shows about playback.
#[derive(Clone, Debug, PartialEq, Eq)]
pub enum PlayState {
    Idle,
    Running(String),
    Error(String),
}

pub ghost enum PlayStateView {
    Idle,
    Running(Seq<char>),
    Error(Seq<char>),
}

impl View for PlayState {
    type V = PlayStateView;

    open spec fn view(&self) -> PlayStateView {
        match self {
            PlayState::Idle => PlayStateView::Idle,
            PlayState::Running(m) => PlayStateView::Running(m@),
            PlayState::Error(e) => PlayStateView::Error(e@),
        }
    }
}

/// A request to the app's runtime.
#[derive(Clone, Debug, PartialEq, Eq)]
pub enum AppEffect {
    /// Render and play this MML.
    Play(String),
    /// Remember this MML in the notepad history.
    RecordNotepadHistory(String),
    /// Remember the patch and phrase of this MML.
    RecordPatchPhraseHistory(String),
    /// Warm the audio cache around the cursor; the move that led there, if any.
    PrefetchNavigation(Option<isize>),
    /// Open the phrase list of this patch.
    StartPatchPhrase(String),
    /// Play this patch with the current line's phrase.
    PreviewPatch(String),
}

pub ghost enum EffectView {
    Play(Seq<char>),
    RecordNotepadHistory(Seq<char>),
    RecordPatchPhraseHistory(Seq<char>),
    PrefetchNavigation(Option<isize>),
    StartPatchPhrase(Seq<char>),
    PreviewPatch(Seq<char>),
}

impl View for AppEffect {
    type V = EffectView;

    open spec fn view(&self) -> EffectView {
        match self {
            AppEffect::Play(m) => EffectView::Play(m@),
            AppEffect::RecordNotepadHistory(m) => EffectView::RecordNotepadHistory(m@),
            AppEffect::RecordPatchPhraseHistory(m) => EffectView::RecordPatchPhraseHistory(m@),
            AppEffect::PrefetchNavigation(d) => EffectView::PrefetchNavigation(*d),
            AppEffect::StartPatchPhrase(p) => EffectView::StartPatchPhrase(p@),
            AppEffect::PreviewPatch(p) => EffectView::PreviewPatch(p@),
        }
    }
}

pub open spec fn effects_view(effects: Seq<AppEffect>) -> Seq<EffectView> {
    effects.map_values(|e: AppEffect| e@)
}

/// The notepad's lines and cursor, the yanked line, and the line being edited.
pub struct NotepadEditor {
    pub lines: Vec<String>,
    pub cursor: usize,
    /// The row the list highlights.
    pub selected: Option<usize>,
    pub yank_buffer: Option<String>,
    /// `d` was pressed once; a second `d` deletes the line.
    pub pending_delete: bool,
    /// The text in the insert-mode field.
    pub insert_text: String,
    pub page_size: usize,
}

pub ghost struct EditorView {
    pub lines: Seq<Seq<char>>,
    pub cursor: nat,
    pub selected: Option<nat>,
    pub yank_buffer: Option<Seq<char>>,
    pub pending_delete: bool,
    pub insert_text: Seq<char>,
    pub page_size: nat,
}

impl View for NotepadEditor {
    type V = EditorView;

    open spec fn view(&self) -> EditorView {
        EditorView {
            lines: strings_view(self.lines@),
            cursor: self.cursor as nat,
            selected: match self.selected {
                Some(i) => Some(i as nat),
                None => None,
            },
            yank_buffer: match self.yank_buffer {
                Some(y) => Some(y@),
                None => None,
            },
            pending_delete: self.pending_delete,
            insert_text: self.insert_text@,
            page_size: self.page_size as nat,
        }
    }
}

/// The app's state as far as its decisions go.
pub struct TuiApp {
    pub mode: Mode,
    /// The mode that `Esc` returns to from help.
    pub help_origin: Mode,
    pub editor: NotepadEditor,
    pub play_state: PlayState,
    pub effects: Vec<AppEffect>,
    pub patch_dirs_configured: bool,
    pub patch_load_state: PatchLoadState,
    pub patch_select: PatchSelectState,
    pub keyboard: KeyboardScreen,
    /// The chord chart's patch and its saved bass patch.
    pub chord_chart_patch: Option<String>,
    pub chord_chart_bass_patch: Option<String>,
    /// The scanned patches in the bass role, in catalog order.
    pub bass_candidates: Vec<String>,
}

pub ghost struct TuiView {
    pub mode: Mode,
    pub help_origin: Mode,
    pub editor: EditorView,
    pub play_state: PlayStateView,
    pub effects: Seq<EffectView>,
    pub patch_dirs_configured: bool,
    pub patch_load: PatchLoadView,
    pub patches: PatchSelectView,
    pub chord_chart_patch: Option<Seq<char>>,
    pub chord_chart_bass_patch: Option<Seq<char>>,
    pub bass_candidates: Seq<Seq<char>>,
}

impl View for TuiApp {
    type V = TuiView;

    open spec fn view(&self) -> TuiView {
        TuiView {
            mode: self.mode,
            help_origin: self.help_origin,
            editor: self.editor@,
            play_state: self.play_state@,
            effects: effects_view(self.effects@),
            patch_dirs_configured: self.patch_dirs_configured,
            patch_load: self.patch_load_state@,
            patches: self.patch_select@,
            chord_chart_patch: match self.chord_chart_patch {
                Some(p) => Some(p@),
                None => None,
            },
            chord_chart_bass_patch: match self.chord_chart_bass_patch {
                Some(p) => Some(p@),
                None => None,
            },
            bass_candidates: strings_view(self.bass_candidates@),
        }
    }
}

/// The notepad always has a line under its cursor.
pub open spec fn tui_wf(s: TuiView) -> bool {
    &&& s.editor.cursor < s.editor.lines.len()
    &&& s.editor.page_size <= isize::MAX
}

/// `Esc` in help goes back to where help was opened.
pub open spec fn spec_enter_help(s: TuiView) -> TuiView {
    TuiView { help_origin: s.mode, mode: Mode::Help, ..s }
}

pub open spec fn spec_play_mml(s: TuiView, mml: Seq<char>) -> TuiView {
    TuiView {
        play_state: PlayStateView::Running(mml),
        effects: s.effects.push(EffectView::Play(mml)),
        ..s
    }
}

/// Plays the current line (trimmed) unless it is blank: it goes to both
/// histories, plays, and the audio around the cursor is prefetched.
pub open spec fn spec_play_current_line(s: TuiView, delta: Option<isize>) -> TuiView {
    let mml = trimmed(s.editor.lines[s.editor.cursor as int]);
    if mml.len() == 0 {
        s
    } else {
        TuiView {
            play_state: PlayStateView::Running(mml),
            effects: s.effects + seq![
                EffectView::RecordNotepadHistory(mml),
                EffectView::RecordPatchPhraseHistory(mml),
                EffectView::Play(mml),
                EffectView::PrefetchNavigation(delta),
            ],
            ..s
        }
    }
}

/// Moving the cursor to another line plays that line.
pub open spec fn spec_set_normal_cursor(s: TuiView, next: nat, delta: Option<isize>) -> TuiView {
    if next == s.editor.cursor {
        s
    } else {
        spec_play_current_line(
            TuiView { editor: EditorView { cursor: next, selected: Some(next), ..s.editor }, ..s },
            delta,
        )
    }
}

pub open spec fn clamp(x: int, lo: int, hi: int) -> int {
    if x < lo {
        lo
    } else if x > hi {
        hi
    } else {
        x
    }
}

pub open spec fn spec_move_normal_cursor(s: TuiView, delta: isize) -> TuiView {
    spec_set_normal_cursor(
        s,
        clamp(s.editor.cursor + delta, 0, s.editor.lines.len() - 1) as nat,
        Some(delta),
    )
}

/// `dd`: the line goes to the yank buffer; an emptied notepad keeps one blank line.
pub open spec fn spec_delete_current_line(s: TuiView) -> TuiView {
    let e = s.editor;
    let lines = e.lines.remove(e.cursor as int);
    let (lines, cursor) = if lines.len() == 0 {
        (seq![Seq::<char>::empty()], 0nat)
    } else if e.cursor >= lines.len() {
        (lines, (lines.len() - 1) as nat)
    } else {
        (lines, e.cursor)
    };
    TuiView {
        editor: EditorView {
            lines,
            cursor,
            selected: Some(cursor),
            yank_buffer: Some(e.lines[e.cursor as int]),
            ..e
        },
        ..s
    }
}

/// `p` / `P`: the yanked line goes below / above the cursor, which moves onto it.
/// With nothing yanked nothing happens and `false` comes back.
pub open spec fn spec_paste_yanked_line(s: TuiView, insert_above: bool) -> (TuiView, bool) {
    match s.editor.yank_buffer {
        None => (s, false),
        Some(yanked) => {
            let at = if insert_above { s.editor.cursor } else { s.editor.cursor + 1 };
            (
                TuiView {
                    editor: EditorView {
                        lines: s.editor.lines.insert(at as int, yanked),
                        cursor: at as nat,
                        selected: Some(at as nat),
                        ..s.editor
                    },
                    ..s
                },
                true,
            )
        },
    }
}

/// `p` puts the yanked line just below the cursor line and `P` just above it;
/// either way the cursor lands on the pasted line and every other line keeps
/// its order around it.
pub proof fn paste_puts_the_yanked_line_below_or_above(s: TuiView, insert_above: bool)
    requires
        s.editor.yank_buffer is Some,
        s.editor.cursor < s.editor.lines.len(),
    ensures
        ({
            let (r, pasted) = spec_paste_yanked_line(s, insert_above);
            let at: int = if insert_above { s.editor.cursor as int } else { s.editor.cursor as int + 1 };
            &&& pasted
            &&& r.editor.cursor == at
            &&& r.editor.selected == Some(at as nat)
            &&& r.editor.yank_buffer == s.editor.yank_buffer
            &&& r.mode == s.mode
            &&& r.editor.lines.len() == s.editor.lines.len() + 1
            &&& r.editor.lines[at] == s.editor.yank_buffer->0
            &&& forall|i: int| 0 <= i < at ==> r.editor.lines[i] == s.editor.lines[i]
            &&& forall|i: int| at <= i < s.editor.lines.len() ==> r.editor.lines[i + 1] == s.editor.lines[i]
            &&& !insert_above ==> r.editor.lines[s.editor.cursor as int] == s.editor.lines[s.editor.cursor as int]
            &&& insert_above ==> r.editor.lines[s.editor.cursor as int + 1] == s.editor.lines[s.editor.cursor as int]
        }),
{
}

/// With nothing yanked, `p` and `P` change nothing and report that nothing
/// was pasted.
pub proof fn paste_with_nothing_yanked_does_nothing(s: TuiView, insert_above: bool)
    requires
        s.editor.yank_buffer is None,
    ensures
        spec_paste_yanked_line(s, insert_above) == (s, false),
{
}

/// Insert mode on the current line.
pub open spec fn spec_start_insert(s: TuiView) -> TuiView {
    TuiView {
        mode: Mode::Insert,
        editor: EditorView { insert_text: s.editor.lines[s.editor.cursor as int], ..s.editor },
        ..s
    }
}

/// `o` / `O`: a blank line at `index`, edited at once.
pub open spec fn spec_insert_empty_line(s: TuiView, index: nat) -> TuiView {
    spec_start_insert(
        TuiView {
            editor: EditorView {
                lines: s.editor.lines.insert(index as int, Seq::empty()),
                cursor: index,
                selected: Some(index),
                ..s.editor
            },
            ..s
        },
    )
}

pub open spec fn spec_set_play_error(s: TuiView, message: Seq<char>) -> TuiView {
    TuiView { play_state: PlayStateView::Error(message), ..s }
}

/// The phrase list opens for a patch; without one the status line says so.
pub open spec fn spec_start_patch_phrase(s: TuiView, patch: Option<Seq<char>>) -> TuiView {
    match patch {
        Some(p) => TuiView { effects: s.effects.push(EffectView::StartPatchPhrase(p)), ..s },
        None => spec_set_play_error(s, no_patch_json_message()),
    }
}

pub open spec fn empty_yank_message() -> Seq<char> {
    "yank バッファが空です"@
}

pub open spec fn no_patch_json_message() -> Seq<char> {
    "patch name JSON が見つかりません"@
}

/// A key of the notepad's normal mode.
#[derive(Clone, Copy, Debug, PartialEq, Eq, Structural)]
pub enum NormalKey {
    Char(char),
    Delete,
    Down,
    Up,
    PageDown,
    PageUp,
    Home,
    Enter,
    Other,
}

/// What a normal-mode key leaves for the app to do.
#[derive(Clone, Copy, Debug, PartialEq, Eq, Structural)]
pub enum NormalAction {
    Continue,
    Quit,
    LaunchDaw,
    LaunchKeyboard,
    EditConfig,
    LaunchLoopBrowser,
    /// `g`: put a generated line above the cursor.
    GenerateLine,
    /// `r`: give the current line a random patch.
    RandomPatch,
    /// `t`: open the patch list at the current line's patch.
    OpenPatchSelect,
    /// `f`: open the phrase list of the current line's patch.
    PatchPhraseForCurrentLine,
}

/// The notepad's normal mode: `dd` deletes, any other key cancels a pending `d`.
pub open spec fn spec_handle_normal(s: TuiView, key: NormalKey) -> (TuiView, NormalAction) {
    if key == NormalKey::Char('d') {
        if s.editor.pending_delete {
            (
                spec_delete_current_line(
                    TuiView { editor: EditorView { pending_delete: false, ..s.editor }, ..s },
                ),
                NormalAction::Continue,
            )
        } else {
            (TuiView { editor: EditorView { pending_delete: true, ..s.editor }, ..s }, NormalAction::Continue)
        }
    } else {
        let s = TuiView { editor: EditorView { pending_delete: false, ..s.editor }, ..s };
        match key {
            NormalKey::Char(c) => if c == 'q' {
                (s, NormalAction::Quit)
            } else if c == 'w' {
                (s, NormalAction::LaunchDaw)
            } else if c == 'v' {
                (s, NormalAction::LaunchKeyboard)
            } else if c == 'e' {
                (s, NormalAction::EditConfig)
            } else if c == 'b' {
                (s, NormalAction::LaunchLoopBrowser)
            } else if c == 'i' {
                (spec_start_insert(s), NormalAction::Continue)
            } else if c == 'g' {
                (s, NormalAction::GenerateLine)
            } else if c == 'r' {
                (s, NormalAction::RandomPatch)
            } else if c == 't' {
                (s, NormalAction::OpenPatchSelect)
            } else if c == 'p' || c == 'P' {
                let (s1, pasted) = spec_paste_yanked_line(s, c == 'P');
                (if pasted { s1 } else { spec_set_play_error(s, empty_yank_message()) }, NormalAction::Continue)
            } else if c == 'f' {
                (s, NormalAction::PatchPhraseForCurrentLine)
            } else if c == 'o' {
                (spec_insert_empty_line(s, s.editor.cursor + 1), NormalAction::Continue)
            } else if c == 'O' {
                (spec_insert_empty_line(s, s.editor.cursor), NormalAction::Continue)
            } else if c == 'j' {
                (spec_move_normal_cursor(s, 1isize), NormalAction::Continue)
            } else if c == 'k' {
                (spec_move_normal_cursor(s, -1isize), NormalAction::Continue)
            } else if c == 'M' {
                (spec_set_normal_cursor(s, s.editor.lines.len() / 2, None), NormalAction::Continue)
            } else if c == 'K' || c == '?' {
                (spec_enter_help(s), NormalAction::Continue)
            } else if c == ' ' {
                (spec_play_current_line(s, None), NormalAction::Continue)
            } else {
                (s, NormalAction::Continue)
            },
            NormalKey::Delete => (spec_delete_current_line(s), NormalAction::Continue),
            NormalKey::Down => (spec_move_normal_cursor(s, 1isize), NormalAction::Continue),
            NormalKey::Up => (spec_move_normal_cursor(s, -1isize), NormalAction::Continue),
            NormalKey::PageDown => (spec_move_normal_cursor(s, s.editor.page_size as isize), NormalAction::Continue),
            NormalKey::PageUp => (
                spec_move_normal_cursor(s, -(s.editor.page_size as isize) as isize),
                NormalAction::Continue,
            ),
            NormalKey::Home => (spec_set_normal_cursor(s, 0, None), NormalAction::Continue),
            NormalKey::Enter => (spec_play_current_line(s, None), NormalAction::Continue),
            NormalKey::Other => (s, NormalAction::Continue),
        }
    }
}

impl TuiApp {
    /// A notepad on `lines` (one blank line when there are none), in normal
    /// mode, with patches still loading.
    pub fn new(lines: Vec<String>, page_size: usize, patch_dirs_configured: bool) -> (app: Self)
        requires
            page_size <= isize::MAX,
        ensures
            tui_wf(app@),
            app@.mode == Mode::Normal,
            app@.editor.lines == (if lines@.len() == 0 {
                seq![Seq::<char>::empty()]
            } else {
                strings_view(lines@)
            }),
            app@.editor.cursor == 0,
            app@.editor.yank_buffer is None,
            !app@.editor.pending_delete,
            app@.editor.page_size == page_size,
            app@.play_state == PlayStateView::Idle,
            app@.effects.len() == 0,
            app@.patch_dirs_configured == patch_dirs_configured,
            app@.patch_load == PatchLoadView::Loading,
            app@.patches == PatchSelectView::empty(),
            app.keyboard.wf(),
            !app.keyboard@.has_sender,
    {
        let mut lines = lines;
        if lines.len() == 0 {
            lines.push(String::new());
            assert(strings_view(lines@) =~= seq![Seq::<char>::empty()]);
        }
        let app = TuiApp {
            mode: Mode::Normal,
            help_origin: Mode::Normal,
            editor: NotepadEditor {
                lines,
                cursor: 0,
                selected: Some(0),
                yank_buffer: None,
                pending_delete: false,
                insert_text: String::new(),
                page_size,
            },
            play_state: PlayState::Idle,
            effects: Vec::new(),
            patch_dirs_configured,
            patch_load_state: PatchLoadState::Loading,
            patch_select: PatchSelectState::new(),
            keyboard: KeyboardScreen::new(),
            chord_chart_patch: None,
            chord_chart_bass_patch: None,
            bass_candidates: Vec::new(),
        };
        assert(effects_view(app.effects@) =~= Seq::<EffectView>::empty());
        app
    }

    /// `K` / `?`: help, remembering where it was opened.
    pub fn enter_help(&mut self)
        ensures
            final(self).keyboard == old(self).keyboard,
            final(self)@ == spec_enter_help(old(self)@),
    {
        self.help_origin = self.mode;
        self.mode = Mode::Help;
    }

    /// `Esc` in help returns to the mode it was opened from.
    pub fn handle_help_escape(&mut self)
        ensures
            final(self).keyboard == old(self).keyboard,
            final(self)@ == (TuiView { mode: old(self)@.help_origin, ..old(self)@ }),
    {
        self.mode = self.help_origin;
    }

    /// `Shift+H` on a line without a patch: the notepad history guide opens.
    pub fn start_notepad_history_guide(&mut self)
        ensures
            final(self).keyboard == old(self).keyboard,
            final(self)@ == (TuiView { mode: Mode::NotepadHistoryGuide, ..old(self)@ }),
    {
        self.mode = Mode::NotepadHistoryGuide;
    }

    pub(crate) fn push_effect(&mut self, effect: AppEffect)
        ensures
            final(self).keyboard == old(self).keyboard,
            final(self)@ == (TuiView { effects: old(self)@.effects.push(effect@), ..old(self)@ }),
    {
        let ghost before = self.effects@;
        self.effects.push(effect);
        assert(effects_view(self.effects@) =~= effects_view(before).push(effect@));
    }

    /// Plays `mml`; the runtime starts the rendering.
    pub fn play_mml(&mut self, mml: String)
        ensures
            final(self).keyboard == old(self).keyboard,
            final(self)@ == spec_play_mml(old(self)@, mml@),
    {
        let ghost m = mml@;
        self.play_state = PlayState::Running(copy_string(&mml));
        self.push_effect(AppEffect::Play(mml));
    }

    /// Shows `message` as the playback error.
    pub fn set_play_error(&mut self, message: String)
        ensures
            final(self).keyboard == old(self).keyboard,
            final(self)@ == spec_set_play_error(old(self)@, message@),
    {
        self.play_state = PlayState::Error(message);
    }

    /// `p` with nothing yanked.
    pub fn set_empty_yank_error(&mut self)
        ensures
            final(self).keyboard == old(self).keyboard,
            final(self)@ == spec_set_play_error(old(self)@, empty_yank_message()),
    {
        self.set_play_error("yank バッファが空です".to_owned());
    }

    pub fn play_current_line(&mut self)
        requires
            tui_wf(old(self)@),
        ensures
            final(self).keyboard == old(self).keyboard,
            final(self)@ == spec_play_current_line(old(self)@, None),
    {
        self.play_current_line_with_navigation_hint(None);
    }

    /// Plays the current line, telling the prefetcher which way the cursor moved.
    pub fn play_current_line_with_navigation_hint(&mut self, preferred_delta: Option<isize>)
        requires
            tui_wf(old(self)@),
        ensures
            final(self).keyboard == old(self).keyboard,
            final(self)@ == spec_play_current_line(old(self)@, preferred_delta),
    {
        let ghost s = self@;
        let mml = trim(self.editor.lines[self.editor.cursor].as_str());
        proof {
            assert(strings_view(self.editor.lines@)[self.editor.cursor as int] == self.editor.lines@[self.editor.cursor as int]@);
        }
        if mml.unicode_len() > 0 {
            self.push_effect(AppEffect::RecordNotepadHistory(copy_string(&mml)));
            self.push_effect(AppEffect::RecordPatchPhraseHistory(copy_string(&mml)));
            self.play_mml(mml);
            self.push_effect(AppEffect::PrefetchNavigation(preferred_delta));
            proof {
                let m = trimmed(s.editor.lines[s.editor.cursor as int]);
                assert(self@.effects =~= s.effects + seq![
                    EffectView::RecordNotepadHistory(m),
                    EffectView::RecordPatchPhraseHistory(m),
                    EffectView::Play(m),
                    EffectView::PrefetchNavigation(preferred_delta),
                ]);
            }
        }
    }

    pub fn set_normal_cursor(&mut self, next_cursor: usize)
        requires
            tui_wf(old(self)@),
            next_cursor < old(self)@.editor.lines.len(),
        ensures
            final(self).keyboard == old(self).keyboard,
            tui_wf(final(self)@),
            final(self)@ == spec_set_normal_cursor(old(self)@, next_cursor as nat, None),
    {
        self.set_normal_cursor_with_navigation_hint(next_cursor, None);
    }

    pub fn set_normal_cursor_with_navigation_hint(&mut self, next_cursor: usize, preferred_delta: Option<isize>)
        requires
            tui_wf(old(self)@),
            next_cursor < old(self)@.editor.lines.len(),
        ensures
            final(self).keyboard == old(self).keyboard,
            tui_wf(final(self)@),
            final(self)@ == spec_set_normal_cursor(old(self)@, next_cursor as nat, preferred_delta),
    {
        if next_cursor != self.editor.cursor {
            self.editor.cursor = next_cursor;
            self.editor.selected = Some(next_cursor);
            self.play_current_line_with_navigation_hint(preferred_delta);
        }
    }

    /// `j` / `k` / page keys: moves by `delta` lines, stopping at the ends.
    pub fn move_normal_cursor_by(&mut self, delta: isize)
        requires
            tui_wf(old(self)@),
        ensures
            final(self).keyboard == old(self).keyboard,
            tui_wf(final(self)@),
            final(self)@ == spec_move_normal_cursor(old(self)@, delta),
    {
        let max_cursor = (self.editor.lines.len() - 1) as i128;
        let target = self.editor.cursor as i128 + delta as i128;
        let next: usize = if target < 0 {
            0
        } else if target > max_cursor {
            max_cursor as usize
        } else {
            target as usize
        };
        self.set_normal_cursor_with_navigation_hint(next, Some(delta));
    }

    /// `dd` / `Delete`.
    pub fn delete_current_line(&mut self)
        requires
            tui_wf(old(self)@),
        ensures
            final(self).keyboard == old(self).keyboard,
            tui_wf(final(self)@),
            final(self)@ == spec_delete_current_line(old(self)@),
    {
        let ghost s = self@;
        let ghost before = self.editor.lines@;
        let removed = self.editor.lines.remove(self.editor.cursor);
        proof {
            assert(strings_view(self.editor.lines@) =~= strings_view(before).remove(s.editor.cursor as int));
            assert(strings_view(before)[s.editor.cursor as int] == removed@);
        }
        self.editor.yank_buffer = Some(removed);
        if self.editor.lines.len() == 0 {
            self.editor.lines.push(String::new());
            self.editor.cursor = 0;
            assert(strings_view(self.editor.lines@) =~= seq![Seq::<char>::empty()]);
        } else if self.editor.cursor >= self.editor.lines.len() {
            self.editor.cursor = self.editor.lines.len() - 1;
        }
        self.editor.selected = Some(self.editor.cursor);
    }

    /// `p` / `P`; `false` when nothing was yanked.
    pub fn paste_yanked_line(&mut self, insert_above: bool) -> (pasted: bool)
        requires
            tui_wf(old(self)@),
        ensures
            final(self).keyboard == old(self).keyboard,
            tui_wf(final(self)@),
            (final(self)@, pasted) == spec_paste_yanked_line(old(self)@, insert_above),
    {
        let yanked = match &self.editor.yank_buffer {
            Some(y) => copy_string(y),
            None => return false,
        };
        let count = self.editor.lines.len();
        let insert_at = if insert_above { self.editor.cursor } else { self.editor.cursor + 1 };
        let ghost before = self.editor.lines@;
        self.editor.lines.insert(insert_at, yanked);
        proof {
            assert(strings_view(self.editor.lines@) =~= strings_view(before).insert(insert_at as int, yanked@));
        }
        self.editor.cursor = insert_at;
        self.editor.selected = Some(insert_at);
        true
    }

    /// `i`: edits the current line.
    pub fn start_insert(&mut self)
        requires
            tui_wf(old(self)@),
        ensures
            final(self).keyboard == old(self).keyboard,
            tui_wf(final(self)@),
            final(self)@ == spec_start_insert(old(self)@),
    {
        self.editor.insert_text = copy_string(&self.editor.lines[self.editor.cursor]);
        self.mode = Mode::Insert;
    }

    /// `o` / `O`: a blank line at `index`, in insert mode.
    pub fn insert_empty_line_and_start_insert(&mut self, index: usize)
        requires
            tui_wf(old(self)@),
            index <= old(self)@.editor.lines.len(),
        ensures
            final(self).keyboard == old(self).keyboard,
            tui_wf(final(self)@),
            final(self)@ == spec_insert_empty_line(old(self)@, index as nat),
    {
        let ghost before = self.editor.lines@;
        self.editor.lines.insert(index, String::new());
        proof {
            assert(strings_view(self.editor.lines@) =~= strings_view(before).insert(index as int, Seq::empty()));
        }
        self.editor.cursor = index;
        self.editor.selected = Some(index);
        self.start_insert();
    }

    /// Opens the phrase list of `patch_name`, or reports that the line names no patch.
    pub fn start_patch_phrase_for_patch_name(&mut self, patch_name: Option<String>)
        ensures
            final(self).keyboard == old(self).keyboard,
            final(self)@ == spec_start_patch_phrase(
                old(self)@,
                match patch_name {
                    Some(p) => Some(p@),
                    None => None,
                },
            ),
    {
        match patch_name {
            Some(patch_name) => self.push_effect(AppEffect::StartPatchPhrase(patch_name)),
            None => {
                self.set_play_error("patch name JSON が見つかりません".to_owned());
            },
        }
    }

    /// A key in the notepad's normal mode.
    pub fn handle_normal(&mut self, key: NormalKey) -> (action: NormalAction)
        requires
            tui_wf(old(self)@),
        ensures
            final(self).keyboard == old(self).keyboard,
            tui_wf(final(self)@),
            (final(self)@, action) == spec_handle_normal(old(self)@, key),
    {
        if key == NormalKey::Char('d') {
            if self.editor.pending_delete {
                self.editor.pending_delete = false;
                self.delete_current_line();
            } else {
                self.editor.pending_delete = true;
            }
            return NormalAction::Continue;
        }
        self.editor.pending_delete = false;
        match key {
            NormalKey::Char(c) => {
                if c == 'q' {
                    return NormalAction::Quit;
                } else if c == 'w' {
                    return NormalAction::LaunchDaw;
                } else if c == 'v' {
                    return NormalAction::LaunchKeyboard;
                } else if c == 'e' {
                    return NormalAction::EditConfig;
                } else if c == 'b' {
                    return NormalAction::LaunchLoopBrowser;
                } else if c == 'i' {
                    self.start_insert();
                } else if c == 'g' {
                    return NormalAction::GenerateLine;
                } else if c == 'r' {
                    return NormalAction::RandomPatch;
                } else if c == 't' {
                    return NormalAction::OpenPatchSelect;
                } else if c == 'p' || c == 'P' {
                    if !self.paste_yanked_line(c == 'P') {
                        self.set_empty_yank_error();
                    }
                } else if c == 'f' {
                    return NormalAction::PatchPhraseForCurrentLine;
                } else if c == 'o' {
                    let count = self.editor.lines.len();
                    self.insert_empty_line_and_start_insert(self.editor.cursor + 1);
                } else if c == 'O' {
                    self.insert_empty_line_and_start_insert(self.editor.cursor);
                } else if c == 'j' {
                    self.move_normal_cursor_by(1);
                } else if c == 'k' {
                    self.move_normal_cursor_by(-1);
                } else if c == 'M' {
                    self.set_normal_cursor(self.editor.lines.len() / 2);
                } else if c == 'K' || c == '?' {
                    self.enter_help();
                } else if c == ' ' {
                    self.play_current_line();
                }
            },
            NormalKey::Delete => self.delete_current_line(),
            NormalKey::Down => self.move_normal_cursor_by(1),
            NormalKey::Up => self.move_normal_cursor_by(-1),
            NormalKey::PageDown => self.move_normal_cursor_by(self.editor.page_size as isize),
            NormalKey::PageUp => self.move_normal_cursor_by(-(self.editor.page_size as isize)),
            NormalKey::Home => self.set_normal_cursor(0),
            NormalKey::Enter => self.play_current_line(),
            NormalKey::Other => {},
        }
        NormalAction::Continue
    }
}


/// `dd` then `P` puts the deleted line back where it was, with the cursor on
/// it, unless it was the last line (the cursor then moves up to the new last
/// line, and `P` pastes above that one).
pub proof fn delete_then_paste_above_restores_the_line(s: TuiView)
    requires
        tui_wf(s),
        s.editor.cursor + 1 < s.editor.lines.len(),
    ensures
        spec_paste_yanked_line(spec_delete_current_line(s), true).1,
        spec_paste_yanked_line(spec_delete_current_line(s), true).0.editor.lines == s.editor.lines,
        spec_paste_yanked_line(spec_delete_current_line(s), true).0.editor.cursor == s.editor.cursor,
{
    let d = spec_delete_current_line(s);
    let c = s.editor.cursor as int;
    assert(d.editor.cursor == s.editor.cursor);
    assert(d.editor.lines.insert(c, s.editor.lines[c]) =~= s.editor.lines);
}

/// A key of insert mode that the notepad acts on (others edit the field).
#[derive(Clone, Copy, Debug, PartialEq, Eq, Structural)]
pub enum InsertKey {
    /// Commit the line and leave insert mode.
    Esc,
    /// Commit the line and go on editing a new line below.
    Enter,
    Other,
}

/// The edited text becomes the current line; unless it is blank (trimmed) it
/// goes to both histories and plays.
pub open spec fn spec_commit_insert(s: TuiView) -> TuiView {
    let text = s.editor.insert_text;
    let committed = TuiView {
        editor: EditorView { lines: s.editor.lines.update(s.editor.cursor as int, text), ..s.editor },
        ..s
    };
    let mml = trimmed(text);
    if mml.len() == 0 {
        committed
    } else {
        TuiView {
            play_state: PlayStateView::Running(mml),
            effects: s.effects + seq![
                EffectView::RecordNotepadHistory(mml),
                EffectView::RecordPatchPhraseHistory(mml),
                EffectView::Play(mml),
            ],
            ..committed
        }
    }
}

/// Insert mode: `Esc` commits and returns to normal mode; `Enter` commits and
/// opens a blank line below for editing.
pub open spec fn spec_handle_insert(s: TuiView, key: InsertKey) -> TuiView {
    match key {
        InsertKey::Esc => TuiView { mode: Mode::Normal, ..spec_commit_insert(s) },
        InsertKey::Enter => {
            let c = spec_commit_insert(s);
            let next = s.editor.cursor + 1;
            TuiView {
                editor: EditorView {
                    lines: c.editor.lines.insert(next as int, Seq::empty()),
                    cursor: next as nat,
                    selected: Some(next as nat),
                    insert_text: Seq::empty(),
                    ..c.editor
                },
                ..c
            }
        },
        InsertKey::Other => s,
    }
}

impl TuiApp {
    fn commit_insert(&mut self)
        requires
            tui_wf(old(self)@),
        ensures
            final(self).keyboard == old(self).keyboard,
            tui_wf(final(self)@),
            final(self)@ == spec_commit_insert(old(self)@),
    {
        let ghost s = self@;
        let text = copy_string(&self.editor.insert_text);
        let ghost before = self.editor.lines@;
        self.editor.lines.set(self.editor.cursor, text);
        proof {
            assert(strings_view(self.editor.lines@) =~= strings_view(before).update(
                self.editor.cursor as int,
                s.editor.insert_text,
            ));
        }
        let mml = trim(self.editor.insert_text.as_str());
        if mml.unicode_len() > 0 {
            self.push_effect(AppEffect::RecordNotepadHistory(copy_string(&mml)));
            self.push_effect(AppEffect::RecordPatchPhraseHistory(copy_string(&mml)));
            self.play_mml(mml);
            proof {
                let m = trimmed(s.editor.insert_text);
                assert(self@.effects =~= s.effects + seq![
                    EffectView::RecordNotepadHistory(m),
                    EffectView::RecordPatchPhraseHistory(m),
                    EffectView::Play(m),
                ]);
            }
        }
    }

    /// A key in insert mode (the field's own editing is done outside, which
    /// keeps `editor.insert_text` up to date).
    pub fn handle_insert(&mut self, key: InsertKey)
        requires
            tui_wf(old(self)@),
        ensures
            final(self).keyboard == old(self).keyboard,
            tui_wf(final(self)@),
            final(self)@ == spec_handle_insert(old(self)@, key),
    {
        match key {
            InsertKey::Esc => {
                self.commit_insert();
                self.mode = Mode::Normal;
            },
            InsertKey::Enter => {
                self.commit_insert();
                assert(self.editor.cursor < strings_view(self.editor.lines@).len());
                assert(self.editor.cursor < self.editor.lines.len());
                let next = self.editor.cursor + 1;
                let ghost before = self.editor.lines@;
                self.editor.lines.insert(next, String::new());
                proof {
                    assert(strings_view(self.editor.lines@) =~= strings_view(before).insert(
                        next as int,
                        Seq::empty(),
                    ));
                }
                self.editor.cursor = next;
                self.editor.selected = Some(next);
                self.editor.insert_text = String::new();
            },
            InsertKey::Other => {},
        }
    }
}

} // verus!
