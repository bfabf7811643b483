//! The loop browser's track grid: which WAV loop plays on each track at each
//! measure, how clips span measures, the track cursor, solo and mix levels.
//!
//! Saving the grid is the app's work: an edit that must be saved records a
//! save request and a snapshot, and a failed save restores the snapshot.
use vstd::prelude::*;
use crate::text::{concat, copy_string, same_text};
use crate::loop_tree::{
    built_from, forest_wf, from_tree_action, is_pad_key, outcome_of, outcome_view, spec_handle_tree_key,
    spec_move_cursor, spec_repeat_collapse, spec_reveal_wav, LoopTree, OutcomeView, TreeKey, TreeKeyCode,
    TreeKeyOutcome, TreeView,
};
use crate::navigation::{spec_append_digit, spec_clamp_isize, spec_decimal_digit, NavigationCount};

verus! {

/// A WAV file under a loop root.
#[derive(Clone, Debug, PartialEq, Eq)]
pub struct LoopWavId {
    pub root: String,
    pub relative: String,
}

pub open spec fn wav_view(w: LoopWavId) -> (Seq<char>, Seq<char>) {
    (w.root@, w.relative@)
}

impl LoopWavId {
    pub fn new(root: &str, relative: &str) -> (wav: Self)
        ensures
            wav_view(wav) == (root@, relative@),
    {
        LoopWavId { root: root.to_owned(), relative: relative.to_owned() }
    }

    /// Whether both name the same file.
    pub fn matches(&self, other: &LoopWavId) -> (same: bool)
        ensures
            same == (wav_view(*self) == wav_view(*other)),
    {
        same_text(self.root.as_str(), other.root.as_str()) && same_text(
            self.relative.as_str(),
            other.relative.as_str(),
        )
    }

    pub fn copy(&self) -> (wav: LoopWavId)
        ensures
            wav_view(wav) == wav_view(*self),
    {
        LoopWavId { root: copy_string(&self.root), relative: copy_string(&self.relative) }
    }
}

/// What the library analysis says of a WAV that the grid needs: how many
/// measures it spans.
#[derive(Clone, Copy, Debug, PartialEq, Eq, Structural)]
pub struct LoopWavAnalysis {
    pub measures: usize,
}

/// A clip on a track: a WAV starting at its cell and spanning measures.
#[derive(Clone, Debug, PartialEq, Eq)]
pub struct LoopTrackClip {
    pub wav: LoopWavId,
    pub span_measures: usize,
    /// The clip repeats the previous measure's clip.
    pub previous: bool,
}

pub ghost struct ClipView {
    pub wav: (Seq<char>, Seq<char>),
    pub span: nat,
    pub previous: bool,
}

pub open spec fn clip_view(c: LoopTrackClip) -> ClipView {
    ClipView { wav: wav_view(c.wav), span: c.span_measures as nat, previous: c.previous }
}

pub open spec fn cell_view(cell: Option<LoopTrackClip>) -> Option<ClipView> {
    match cell {
        Some(c) => Some(clip_view(c)),
        None => None,
    }
}

pub open spec fn row_view(row: Seq<Option<LoopTrackClip>>) -> Seq<Option<ClipView>> {
    row.map_values(|cell: Option<LoopTrackClip>| cell_view(cell))
}

pub open spec fn grid_view(grid: Seq<Vec<Option<LoopTrackClip>>>) -> Seq<Seq<Option<ClipView>>> {
    grid.map_values(|row: Vec<Option<LoopTrackClip>>| row_view(row@))
}

impl LoopTrackClip {
    /// A clip placed by hand.
    pub fn explicit(wav: LoopWavId, span_measures: usize) -> (clip: Self)
        ensures
            clip_view(clip) == (ClipView { wav: wav_view(wav), span: span_measures as nat, previous: false }),
    {
        LoopTrackClip { wav, span_measures, previous: false }
    }

    pub fn is_previous(&self) -> (previous: bool)
        ensures
            previous == self.previous,
    {
        self.previous
    }

    pub fn copy(&self) -> (clip: Self)
        ensures
            clip_view(clip) == clip_view(*self),
    {
        LoopTrackClip { wav: self.wav.copy(), span_measures: self.span_measures, previous: self.previous }
    }
}

/// Why the playback grid was replaced (for the logs).
#[derive(Clone, Copy, Debug, PartialEq, Eq, Structural)]
pub enum LoopGridChange {
    Initial,
    Random,
    BatchRandom,
    TrackOrder,
    Pad(char),
    Category,
}

impl LoopGridChange {
    pub open spec fn spec_label(self) -> Seq<char> {
        match self {
            LoopGridChange::Initial => "initial"@,
            LoopGridChange::Random => "random"@,
            LoopGridChange::BatchRandom => "batch-random"@,
            LoopGridChange::TrackOrder => "track-order"@,
            LoopGridChange::Pad(pad) => "pad-"@.push(pad),
            LoopGridChange::Category => "category"@,
        }
    }

    /// The label logged for the change.
    pub fn label(self) -> (label: String)
        ensures
            label@ == self.spec_label(),
    {
        match self {
            LoopGridChange::Initial => "initial".to_owned(),
            LoopGridChange::Random => "random".to_owned(),
            LoopGridChange::BatchRandom => "batch-random".to_owned(),
            LoopGridChange::TrackOrder => "track-order".to_owned(),
            LoopGridChange::Pad(pad) => {
                let mut label = "pad-".to_owned();
                crate::text::push_char(&mut label, pad);
                label
            },
            LoopGridChange::Category => "category".to_owned(),
        }
    }
}

/// `a + b`, or the largest `usize` when that overflows.
pub open spec fn sat_add(a: nat, b: nat) -> nat {
    if a + b > usize::MAX { usize::MAX as nat } else { a + b }
}

/// The clip at `start` covers `measure`.
pub open spec fn covers(cells: Seq<Option<ClipView>>, start: int, measure: nat) -> bool {
    &&& 0 <= start <= measure
    &&& start < cells.len()
    &&& cells[start] matches Some(c) && sat_add(start as nat, c.span) > measure
}

/// `start` is the last clip start at or before `measure` that covers it.
pub open spec fn is_covering_start(cells: Seq<Option<ClipView>>, measure: nat, start: int) -> bool {
    &&& covers(cells, start, measure)
    &&& forall|k: int| start < k <= measure ==> !#[trigger] covers(cells, k, measure)
}

/// The clip sounding at `measure` of a track: the latest clip starting at or
/// before it whose span reaches it, with its start.
pub open spec fn spec_clip_at(cells: Seq<Option<ClipView>>, measure: nat) -> Option<(nat, ClipView)> {
    if exists|s: int| is_covering_start(cells, measure, s) {
        let s = choose|s: int| is_covering_start(cells, measure, s);
        Some((s as nat, cells[s]->0))
    } else {
        None
    }
}

proof fn lemma_covering_start(cells: Seq<Option<ClipView>>, measure: nat, s: int)
    requires
        is_covering_start(cells, measure, s),
    ensures
        spec_clip_at(cells, measure) == Some((s as nat, cells[s]->0)),
{
    let t = choose|t: int| is_covering_start(cells, measure, t);
    assert(is_covering_start(cells, measure, t));
    if t < s {
        assert(!covers(cells, s, measure));
    } else if s < t {
        assert(!covers(cells, t, measure));
    }
}

proof fn lemma_no_covering_start(cells: Seq<Option<ClipView>>, measure: nat)
    requires
        forall|k: int| 0 <= k <= measure ==> !#[trigger] covers(cells, k, measure),
    ensures
        spec_clip_at(cells, measure) is None,
{
    if exists|s: int| is_covering_start(cells, measure, s) {
        let s = choose|s: int| is_covering_start(cells, measure, s);
        assert(covers(cells, s, measure));
    }
}

/// The last clip strictly before `measure`, with its start.
pub open spec fn is_last_clip_before(cells: Seq<Option<ClipView>>, measure: nat, start: int) -> bool {
    &&& 0 <= start < measure
    &&& start < cells.len()
    &&& cells[start] is Some
    &&& forall|k: int| start < k < measure && k < cells.len() ==> #[trigger] cells[k] is None
}

/// An empty measure inside the grid repeats the clip just before it when that
/// clip is one measure long.
pub open spec fn spec_previous_measure_repeat_clip(
    cells: Seq<Option<ClipView>>,
    measure: nat,
    measure_count: nat,
) -> Option<ClipView> {
    if measure >= measure_count || (measure < cells.len() && cells[measure as int] is Some) {
        None
    } else if exists|s: int| is_last_clip_before(cells, measure, s) {
        let s = choose|s: int| is_last_clip_before(cells, measure, s);
        if cells[s]->0.span == 1 { Some(cells[s]->0) } else { None }
    } else {
        None
    }
}

/// The end of a track: the largest end (start plus span) of its clips, or 0.
pub open spec fn row_end(cells: Seq<Option<ClipView>>) -> nat
    decreases cells.len(),
{
    if cells.len() == 0 {
        0
    } else {
        let prev = row_end(cells.drop_last());
        match cells.last() {
            Some(c) => {
                let end = sat_add((cells.len() - 1) as nat, c.span);
                if end > prev { end } else { prev }
            },
            None => prev,
        }
    }
}

/// The largest end over all tracks.
pub open spec fn grid_end(grid: Seq<Seq<Option<ClipView>>>) -> nat
    decreases grid.len(),
{
    if grid.len() == 0 {
        0
    } else {
        let prev = grid_end(grid.drop_last());
        let end = row_end(grid.last());
        if end > prev { end } else { prev }
    }
}

/// How many measures the arrangement plays: up to the end of its last clip,
/// at least one.
pub open spec fn spec_effective_measure_count(grid: Seq<Seq<Option<ClipView>>>) -> nat {
    let end = grid_end(grid);
    if end > 1 { end } else { 1 }
}

/// What plays at measure `m` of a track: its own clip, else the one-measure
/// clip that the empty measure repeats.
pub open spec fn spec_playback_cell(row: Seq<Option<ClipView>>, m: nat, count: nat) -> Option<ClipView> {
    if m < row.len() && row[m as int] is Some {
        row[m as int]
    } else {
        spec_previous_measure_repeat_clip(row, m, count)
    }
}

/// What the player gets: every track over the measures the arrangement plays.
pub open spec fn spec_playback_clips(grid: Seq<Seq<Option<ClipView>>>) -> Seq<Seq<Option<ClipView>>> {
    let count = spec_effective_measure_count(grid);
    Seq::new(grid.len(), |t: int| Seq::new(count, |m: int| spec_playback_cell(grid[t], m as nat, count)))
}

/// All tracks have the same number of measures, and there is a track.
pub open spec fn grid_wf(grid: Seq<Seq<Option<ClipView>>>) -> bool {
    &&& grid.len() > 0
    &&& forall|t: int| 0 <= t < grid.len() ==> (#[trigger] grid[t]).len() == grid[0].len()
}

/// The first analysis recorded for `wav`.
pub open spec fn is_first_analysis(
    analyses: Seq<((Seq<char>, Seq<char>), LoopWavAnalysis)>,
    wav: (Seq<char>, Seq<char>),
    i: int,
) -> bool {
    &&& 0 <= i < analyses.len()
    &&& analyses[i].0 == wav
    &&& forall|k: int| 0 <= k < i ==> (#[trigger] analyses[k]).0 != wav
}

pub open spec fn spec_analysis_for(
    analyses: Seq<((Seq<char>, Seq<char>), LoopWavAnalysis)>,
    wav: (Seq<char>, Seq<char>),
) -> Option<LoopWavAnalysis> {
    if exists|i: int| is_first_analysis(analyses, wav, i) {
        Some(analyses[choose|i: int| is_first_analysis(analyses, wav, i)].1)
    } else {
        None
    }
}

/// How many measures a WAV spans: by its analysis, at least one.
pub open spec fn spec_span_of(
    analyses: Seq<((Seq<char>, Seq<char>), LoopWavAnalysis)>,
    wav: (Seq<char>, Seq<char>),
) -> nat {
    match spec_analysis_for(analyses, wav) {
        Some(a) => if a.measures > 1 { a.measures as nat } else { 1 },
        None => 1,
    }
}


/// Which pane of the loop browser has the keys.
#[derive(Clone, Copy, Debug, PartialEq, Eq, Structural)]
pub enum LoopBrowserPane {
    Tree,
    Tracks,
}

/// The grid as it was before an edit that is being saved.
pub struct GridSnapshot {
    pub grid: Vec<Vec<Option<LoopTrackClip>>>,
    pub volumes: Vec<i32>,
    pub solo: Vec<bool>,
    pub track_cursor: usize,
    pub measure_cursor: usize,
    /// What the error says when the save fails.
    pub failure: String,
}

pub ghost struct SnapshotView {
    pub grid: Seq<Seq<Option<ClipView>>>,
    pub volumes: Seq<i32>,
    pub solo: Seq<bool>,
    pub track_cursor: nat,
    pub measure_cursor: nat,
    pub failure: Seq<char>,
}

/// What the app does after a key in the loop browser.
#[derive(Debug)]
pub enum LoopBrowserAction {
    Continue,
    /// The arrangement changed from `start_measure` on; playback restarts there.
    GridReplaced { start_measure: usize, reason: LoopGridChange },
    /// The arrangement changed; playback picks it up.
    GridRefresh { reason: LoopGridChange },
    TrackLayoutChanged { start_measure: usize, track_volumes_db: Vec<i32>, solo_tracks: Vec<bool> },
    TrackSoloChanged { solo_tracks: Vec<bool> },
    /// `p`: pause or resume the loop player, resuming at `start_measure`.
    SetPlaybackPaused { paused: bool, start_measure: usize },
}

pub ghost enum ActionView {
    Continue,
    GridReplaced { start_measure: nat, reason: LoopGridChange },
    GridRefresh { reason: LoopGridChange },
    TrackLayoutChanged { start_measure: nat, track_volumes_db: Seq<i32>, solo_tracks: Seq<bool> },
    TrackSoloChanged { solo_tracks: Seq<bool> },
    SetPlaybackPaused { paused: bool, start_measure: nat },
}

impl View for LoopBrowserAction {
    type V = ActionView;

    open spec fn view(&self) -> ActionView {
        match self {
            LoopBrowserAction::Continue => ActionView::Continue,
            LoopBrowserAction::GridReplaced { start_measure, reason } => ActionView::GridReplaced {
                start_measure: *start_measure as nat,
                reason: *reason,
            },
            LoopBrowserAction::GridRefresh { reason } => ActionView::GridRefresh { reason: *reason },
            LoopBrowserAction::TrackLayoutChanged { start_measure, track_volumes_db, solo_tracks } =>
                ActionView::TrackLayoutChanged {
                start_measure: *start_measure as nat,
                track_volumes_db: track_volumes_db@,
                solo_tracks: solo_tracks@,
            },
            LoopBrowserAction::TrackSoloChanged { solo_tracks } => ActionView::TrackSoloChanged {
                solo_tracks: solo_tracks@,
            },
            LoopBrowserAction::SetPlaybackPaused { paused, start_measure } => ActionView::SetPlaybackPaused {
                paused: *paused,
                start_measure: *start_measure as nat,
            },
        }
    }
}

/// The track grid and its cursors.
pub struct LoopBrowser {
    pub track_grid: Vec<Vec<Option<LoopTrackClip>>>,
    pub track_volumes_db: Vec<i32>,
    pub solo_tracks: Vec<bool>,
    pub wav_analyses: Vec<(LoopWavId, LoopWavAnalysis)>,
    /// The WAV assigned to each pad key.
    pub pads: Vec<(char, LoopWavId)>,
    pub track_grid_writable: bool,
    /// Where the grid is saved, if anywhere.
    pub track_grid_path: Option<String>,
    pub track_grid_error: Option<String>,
    pub track_cursor: usize,
    pub measure_cursor: usize,
    pub focus: LoopBrowserPane,
    /// An edit waits to be saved; its snapshot restores the grid if that fails.
    pub pending_save: Option<GridSnapshot>,
    /// The folder tree of the library.
    pub tree: LoopTree,
    /// A count typed before a movement key.
    pub navigation_count: NavigationCount,
    /// The pane whose key help is shown, if any.
    pub help_overlay: Option<LoopBrowserPane>,
    /// The loop player is paused.
    pub playback_paused: bool,
}

pub ghost struct LoopView {
    pub grid: Seq<Seq<Option<ClipView>>>,
    pub volumes: Seq<i32>,
    pub solo: Seq<bool>,
    pub analyses: Seq<((Seq<char>, Seq<char>), LoopWavAnalysis)>,
    pub pads: Seq<(char, (Seq<char>, Seq<char>))>,
    pub writable: bool,
    pub path: Option<Seq<char>>,
    pub error: Option<Seq<char>>,
    pub track_cursor: nat,
    pub measure_cursor: nat,
    pub focus: LoopBrowserPane,
    pub pending_save: Option<SnapshotView>,
    pub count: Option<usize>,
    pub help: Option<LoopBrowserPane>,
    pub paused: bool,
}

pub open spec fn analyses_view(a: Seq<(LoopWavId, LoopWavAnalysis)>) -> Seq<((Seq<char>, Seq<char>), LoopWavAnalysis)> {
    a.map_values(|e: (LoopWavId, LoopWavAnalysis)| (wav_view(e.0), e.1))
}

pub open spec fn pads_view(p: Seq<(char, LoopWavId)>) -> Seq<(char, (Seq<char>, Seq<char>))> {
    p.map_values(|e: (char, LoopWavId)| (e.0, wav_view(e.1)))
}

pub open spec fn snapshot_view(s: GridSnapshot) -> SnapshotView {
    SnapshotView {
        grid: grid_view(s.grid@),
        volumes: s.volumes@,
        solo: s.solo@,
        track_cursor: s.track_cursor as nat,
        measure_cursor: s.measure_cursor as nat,
        failure: s.failure@,
    }
}

impl View for LoopBrowser {
    type V = LoopView;

    open spec fn view(&self) -> LoopView {
        LoopView {
            grid: grid_view(self.track_grid@),
            volumes: self.track_volumes_db@,
            solo: self.solo_tracks@,
            analyses: analyses_view(self.wav_analyses@),
            pads: pads_view(self.pads@),
            writable: self.track_grid_writable,
            path: match self.track_grid_path {
                Some(p) => Some(p@),
                None => None,
            },
            error: match self.track_grid_error {
                Some(e) => Some(e@),
                None => None,
            },
            track_cursor: self.track_cursor as nat,
            measure_cursor: self.measure_cursor as nat,
            focus: self.focus,
            pending_save: match self.pending_save {
                Some(snap) => Some(snapshot_view(snap)),
                None => None,
            },
            count: self.navigation_count.value,
            help: self.help_overlay,
            paused: self.playback_paused,
        }
    }
}

/// The grid is rectangular and both cursors are on a cell.
pub open spec fn browser_wf(v: LoopView) -> bool {
    &&& grid_wf(v.grid)
    &&& v.track_cursor < v.grid.len()
    &&& v.measure_cursor < v.grid[0].len()
}

/// After an edit that changed `before` into `after`: when the grid has a
/// save path, a save is requested and `before` is kept to fall back to.
pub open spec fn spec_saved(before: LoopView, after: LoopView, failure: Seq<char>) -> LoopView {
    if before.path is Some {
        LoopView {
            pending_save: Some(
                SnapshotView {
                    grid: before.grid,
                    volumes: before.volumes,
                    solo: before.solo,
                    track_cursor: before.track_cursor,
                    measure_cursor: before.measure_cursor,
                    failure,
                },
            ),
            ..after
        }
    } else {
        after
    }
}

/// A failed save brings the grid back as it was and reports the error.
pub open spec fn spec_restore(v: LoopView, error: Seq<char>) -> LoopView {
    match v.pending_save {
        None => v,
        Some(snap) => LoopView {
            grid: snap.grid,
            volumes: snap.volumes,
            solo: snap.solo,
            track_cursor: snap.track_cursor,
            measure_cursor: snap.measure_cursor,
            error: Some(snap.failure + error),
            pending_save: None,
            ..v
        },
    }
}

/// The outcome of a save as the contracts see it.
pub open spec fn saved_view(saved: Result<(), String>) -> Result<(), Seq<char>> {
    match saved {
        Ok(()) => Ok(()),
        Err(error) => Err(error@),
    }
}

/// A grid edit's state and answer once its save has been tried: a failed save
/// restores the grid (`spec_restore`) and the edit answers `Continue`.
pub open spec fn spec_settle_save(v: LoopView, saved: Result<(), Seq<char>>, action: ActionView) -> (LoopView, ActionView) {
    match v.pending_save {
        None => (v, action),
        Some(_) => match saved {
            Ok(_) => (LoopView { pending_save: None, ..v }, action),
            Err(error) => (spec_restore(v, error), ActionView::Continue),
        },
    }
}

/// Whether a grid loaded from its file is written back at once: when it may be
/// written, has a file, and its file asked for migration or tidying changed it.
pub open spec fn spec_loaded_grid_needs_save(writable: bool, has_path: bool, needs_migration: bool, changed: bool) -> bool {
    writable && has_path && (needs_migration || changed)
}

/// The browser once a loaded grid took its place: the grid, its volumes, its
/// file, whether it may be written and the error of its loading; the solo flags
/// follow the number of tracks and both cursors are on the first cell.
pub open spec fn spec_install_loaded_grid(
    v: LoopView,
    grid: Seq<Seq<Option<ClipView>>>,
    volumes: Seq<i32>,
    path: Option<Seq<char>>,
    writable: bool,
    error: Option<Seq<char>>,
) -> LoopView {
    LoopView {
        grid,
        volumes,
        solo: resized(v.solo, grid.len(), false),
        path,
        writable,
        error,
        track_cursor: 0,
        measure_cursor: 0,
        pending_save: None,
        ..v
    }
}

/// `row` lengthened with empty cells to `n` measures.
pub open spec fn extend_row(row: Seq<Option<ClipView>>, n: nat) -> Seq<Option<ClipView>> {
    Seq::new(if n > row.len() { n } else { row.len() }, |m: int| if m < row.len() { row[m] } else { None })
}

/// The clips of `row` that overlap `start..end` are removed.
pub open spec fn clear_overlaps(row: Seq<Option<ClipView>>, start: nat, end: nat) -> Seq<Option<ClipView>> {
    Seq::new(
        row.len(),
        |m: int|
            if row[m] matches Some(c) && m < end && sat_add(m as nat, c.span) > start {
                None
            } else {
                row[m]
            },
    )
}

/// Places `wav` at measure `start` of the current track: every track grows to
/// hold its span, the clips it overlaps go, and it is saved. A span that does
/// not fit in `usize` is refused with an error that names `operation`.
pub open spec fn spec_write_clip_at(v: LoopView, start: nat, wav: (Seq<char>, Seq<char>), operation: Seq<char>) -> (
    LoopView,
    Option<nat>,
) {
    let span = spec_span_of(v.analyses, wav);
    if start + span > usize::MAX {
        (
            LoopView {
                error: Some("track listが大きすぎるためclipを"@ + operation + "できません"@),
                ..v
            },
            None,
        )
    } else {
        let end = start + span;
        let grown = if end > v.grid[0].len() {
            v.grid.map_values(|row: Seq<Option<ClipView>>| extend_row(row, end))
        } else {
            v.grid
        };
        let row = clear_overlaps(grown[v.track_cursor as int], start, end).update(
            start as int,
            Some(ClipView { wav, span, previous: false }),
        );
        let after = LoopView { grid: grown.update(v.track_cursor as int, row), error: None, ..v };
        (spec_saved(v, after, "track listを保存できません: "@), Some(start))
    }
}

/// A clip written to a grid that is saved somewhere, whose save then fails,
/// leaves the grid, mix and cursors as they were before the write and
/// reports the failure; where the grid is saved nowhere, the write stands.
pub proof fn failed_save_undoes_a_written_clip(
    v: LoopView,
    start: nat,
    wav: (Seq<char>, Seq<char>),
    operation: Seq<char>,
    error: Seq<char>,
)
    requires
        v.pending_save is None,
        spec_write_clip_at(v, start, wav, operation).1 is Some,
    ensures
        ({
            let written = spec_write_clip_at(v, start, wav, operation).0;
            let restored = spec_restore(written, error);
            v.path is Some ==> {
                &&& restored.grid == v.grid
                &&& restored.volumes == v.volumes
                &&& restored.solo == v.solo
                &&& restored.track_cursor == v.track_cursor
                &&& restored.measure_cursor == v.measure_cursor
                &&& restored.error == Some("track listを保存できません: "@ + error)
                &&& restored.pending_save is None
            }
        }),
        v.path is None ==> spec_write_clip_at(v, start, wav, operation).0.pending_save is None,
{
}


/// A pad key on a track grid that is saved somewhere, settled with the outcome
/// of its save: when the save fails the grid, mix and cursors are as they were before the key and the
/// key answers `Continue`; when it goes through, the edit and its answer stand.
pub proof fn failed_save_answers_a_pad_key_with_continue(v: LoopView, pad: char, error: Seq<char>)
    requires
        v.pending_save is None,
        v.path is Some,
    ensures
        ({
            let (edited, action) = spec_toggle_current_cell(v, pad);
            let (failed, answer) = spec_settle_save(edited, Err(error), action);
            &&& failed.grid == v.grid
            &&& failed.volumes == v.volumes
            &&& failed.solo == v.solo
            &&& failed.track_cursor == v.track_cursor
            &&& failed.measure_cursor == v.measure_cursor
            &&& failed.pending_save is None
            &&& (edited.pending_save is Some ==> answer == ActionView::Continue)
        }),
        ({
            let (edited, action) = spec_toggle_current_cell(v, pad);
            let (saved, answer) = spec_settle_save(edited, Ok(()), action);
            &&& saved.grid == edited.grid
            &&& answer == action
            &&& saved.pending_save is None
        }),
{
}


fn copy_cell(cell: &Option<LoopTrackClip>) -> (copy: Option<LoopTrackClip>)
    ensures
        cell_view(copy) == cell_view(*cell),
{
    match cell {
        Some(c) => Some(c.copy()),
        None => None,
    }
}

fn copy_row(row: &Vec<Option<LoopTrackClip>>) -> (copy: Vec<Option<LoopTrackClip>>)
    ensures
        row_view(copy@) == row_view(row@),
{
    let mut copy: Vec<Option<LoopTrackClip>> = Vec::new();
    let mut i: usize = 0;
    while i < row.len()
        invariant
            i <= row@.len(),
            row_view(copy@) == row_view(row@.subrange(0, i as int)),
        decreases row@.len() - i,
    {
        let ghost before = copy@;
        copy.push(copy_cell(&row[i]));
        proof {
            assert(row_view(copy@) =~= row_view(before).push(cell_view(row@[i as int])));
            assert(row_view(row@.subrange(0, i + 1)) =~= row_view(row@.subrange(0, i as int)).push(
                cell_view(row@[i as int]),
            ));
        }
        i = i + 1;
    }
    assert(row@.subrange(0, row@.len() as int) =~= row@);
    copy
}

fn copy_grid(grid: &Vec<Vec<Option<LoopTrackClip>>>) -> (copy: Vec<Vec<Option<LoopTrackClip>>>)
    ensures
        grid_view(copy@) == grid_view(grid@),
{
    let mut copy: Vec<Vec<Option<LoopTrackClip>>> = Vec::new();
    let mut i: usize = 0;
    while i < grid.len()
        invariant
            i <= grid@.len(),
            grid_view(copy@) == grid_view(grid@.subrange(0, i as int)),
        decreases grid@.len() - i,
    {
        let ghost before = copy@;
        copy.push(copy_row(&grid[i]));
        proof {
            assert(grid_view(copy@) =~= grid_view(before).push(row_view(grid@[i as int]@)));
            assert(grid_view(grid@.subrange(0, i + 1)) =~= grid_view(grid@.subrange(0, i as int)).push(
                row_view(grid@[i as int]@),
            ));
        }
        i = i + 1;
    }
    assert(grid@.subrange(0, grid@.len() as int) =~= grid@);
    copy
}

fn copy_i32s(v: &Vec<i32>) -> (copy: Vec<i32>)
    ensures
        copy@ == v@,
{
    let mut copy: Vec<i32> = Vec::new();
    let mut i: usize = 0;
    while i < v.len()
        invariant
            i <= v@.len(),
            copy@ == v@.subrange(0, i as int),
        decreases v@.len() - i,
    {
        copy.push(v[i]);
        i = i + 1;
        assert(copy@ =~= v@.subrange(0, i as int));
    }
    assert(v@.subrange(0, v@.len() as int) =~= v@);
    copy
}

fn copy_bools(v: &Vec<bool>) -> (copy: Vec<bool>)
    ensures
        copy@ == v@,
{
    let mut copy: Vec<bool> = Vec::new();
    let mut i: usize = 0;
    while i < v.len()
        invariant
            i <= v@.len(),
            copy@ == v@.subrange(0, i as int),
        decreases v@.len() - i,
    {
        copy.push(v[i]);
        i = i + 1;
        assert(copy@ =~= v@.subrange(0, i as int));
    }
    assert(v@.subrange(0, v@.len() as int) =~= v@);
    copy
}

/// The clip that an empty measure repeats; see `spec_previous_measure_repeat_clip`.
pub fn previous_measure_repeat_clip(track: &Vec<Option<LoopTrackClip>>, measure: usize, measure_count: usize) -> (clip:
    Option<LoopTrackClip>)
    ensures
        cell_view(clip) == spec_previous_measure_repeat_clip(row_view(track@), measure as nat, measure_count as nat),
{
    let ghost cells = row_view(track@);
    if measure >= measure_count || (measure < track.len() && track[measure].is_some()) {
        proof {
            if measure < track.len() {
                assert(cells[measure as int] == cell_view(track@[measure as int]));
            }
        }
        return None;
    }
    let mut k: usize = if measure < track.len() { measure } else { track.len() };
    while k > 0
        invariant
            cells == row_view(track@),
            measure < measure_count,
            measure < cells.len() ==> cells[measure as int] is None,
            k <= measure,
            k <= track@.len(),
            forall|j: int| k <= j < measure && j < cells.len() ==> #[trigger] cells[j] is None,
        decreases k,
    {
        k = k - 1;
        assert(cells[k as int] == cell_view(track@[k as int]));
        if track[k].is_some() {
            proof {
                assert(is_last_clip_before(cells, measure as nat, k as int));
                let s = choose|s: int| is_last_clip_before(cells, measure as nat, s);
                assert(is_last_clip_before(cells, measure as nat, s));
                if s < k {
                    assert(cells[k as int] is None);
                } else if k < s {
                    assert(cells[s] is None);
                }
            }
            let c = track[k].as_ref().unwrap();
            if c.span_measures == 1 {
                return Some(c.copy());
            }
            return None;
        }
    }
    proof {
        if exists|s: int| is_last_clip_before(cells, measure as nat, s) {
            let s = choose|s: int| is_last_clip_before(cells, measure as nat, s);
            assert(cells[s] is None);
        }
    }
    None
}

impl LoopBrowser {
    /// The analysis of `wav` (the first one recorded for it).
    pub fn analysis_for_wav(&self, wav: &LoopWavId) -> (analysis: Option<LoopWavAnalysis>)
        ensures
            analysis == spec_analysis_for(self@.analyses, wav_view(*wav)),
    {
        let ghost a = self@.analyses;
        let mut i: usize = 0;
        while i < self.wav_analyses.len()
            invariant
                a == self@.analyses,
                i <= a.len(),
                forall|k: int| 0 <= k < i ==> (#[trigger] a[k]).0 != wav_view(*wav),
            decreases a.len() - i,
        {
            assert(a[i as int] == (wav_view(self.wav_analyses@[i as int].0), self.wav_analyses@[i as int].1));
            if self.wav_analyses[i].0.matches(wav) {
                proof {
                    assert(is_first_analysis(a, wav_view(*wav), i as int));
                    let j = choose|j: int| is_first_analysis(a, wav_view(*wav), j);
                    assert(is_first_analysis(a, wav_view(*wav), j));
                    if j < i {
                        assert(a[j].0 != wav_view(*wav));
                    } else if i < j {
                        assert(a[i as int].0 != wav_view(*wav));
                    }
                }
                return Some(self.wav_analyses[i].1);
            }
            i = i + 1;
        }
        proof {
            if exists|j: int| is_first_analysis(a, wav_view(*wav), j) {
                let j = choose|j: int| is_first_analysis(a, wav_view(*wav), j);
                assert(a[j].0 != wav_view(*wav));
            }
        }
        None
    }

    /// The clip sounding at `measure` of `track`, with the measure it starts on.
    pub fn clip_at(&self, track: usize, measure: usize) -> (found: Option<(usize, LoopTrackClip)>)
        ensures
            match found {
                Some((start, clip)) => track < self@.grid.len() && spec_clip_at(self@.grid[track as int], measure as nat)
                    == Some((start as nat, clip_view(clip))) && is_covering_start(
                    self@.grid[track as int],
                    measure as nat,
                    start as int,
                ),
                None => track >= self@.grid.len() || (spec_clip_at(self@.grid[track as int], measure as nat) is None
                    && forall|s: int| 0 <= s <= measure ==> !#[trigger] covers(self@.grid[track as int], s, measure as nat)),
            },
    {
        if track >= self.track_grid.len() {
            return None;
        }
        let cells = &self.track_grid[track];
        let ghost v = self@.grid[track as int];
        assert(v == row_view(cells@));
        let mut k: usize = if measure < cells.len() { measure + 1 } else { cells.len() };
        while k > 0
            invariant
                v == row_view(cells@),
                track < self@.grid.len(),
                v == self@.grid[track as int],
                k <= cells@.len(),
                k <= measure + 1,
                forall|j: int| k <= j <= measure ==> !#[trigger] covers(v, j, measure as nat),
            decreases k,
        {
            k = k - 1;
            assert(v[k as int] == cell_view(cells@[k as int]));
            match &cells[k] {
                Some(c) => {
                    let end = if c.span_measures > usize::MAX - k { usize::MAX } else { k + c.span_measures };
                    if end > measure {
                        proof {
                            assert(covers(v, k as int, measure as nat));
                            assert(is_covering_start(v, measure as nat, k as int));
                            lemma_covering_start(v, measure as nat, k as int);
                        }
                        return Some((k, c.copy()));
                    }
                    assert(!covers(v, k as int, measure as nat));
                },
                None => {
                    assert(!covers(v, k as int, measure as nat));
                },
            }
        }
        proof {
            lemma_no_covering_start(v, measure as nat);
        }
        None
    }

    /// The clip that an empty measure of `track` repeats.
    pub fn previous_measure_repeat_clip(&self, track: usize, measure: usize) -> (clip: Option<LoopTrackClip>)
        ensures
            match clip {
                Some(c) => track < self@.grid.len() && spec_previous_measure_repeat_clip(
                    self@.grid[track as int],
                    measure as nat,
                    spec_effective_measure_count(self@.grid),
                ) == Some(clip_view(c)),
                None => track >= self@.grid.len() || spec_previous_measure_repeat_clip(
                    self@.grid[track as int],
                    measure as nat,
                    spec_effective_measure_count(self@.grid),
                ) is None,
            },
    {
        if track >= self.track_grid.len() {
            return None;
        }
        let count: usize = self.effective_measure_count();
        previous_measure_repeat_clip(&self.track_grid[track], measure, count)
    }

    /// The clips the player gets, track by track over the measures the
    /// arrangement plays (see `spec_playback_clips`); the app adds each
    /// WAV's tempo and meter.
    pub fn playback_clips(&self) -> (clips: Vec<Vec<Option<LoopTrackClip>>>)
        ensures
            grid_view(clips@) == spec_playback_clips(self@.grid),
    {
        let ghost g = self@.grid;
        let count: usize = self.effective_measure_count();
        let mut clips: Vec<Vec<Option<LoopTrackClip>>> = Vec::new();
        let mut t: usize = 0;
        while t < self.track_grid.len()
            invariant
                g == self@.grid,
                g.len() == self.track_grid@.len(),
                count == spec_effective_measure_count(g),
                t <= g.len(),
                grid_view(clips@) == spec_playback_clips(g).subrange(0, t as int),
            decreases g.len() - t,
        {
            let track = &self.track_grid[t];
            let ghost r = g[t as int];
            assert(r == row_view(track@));
            let mut row: Vec<Option<LoopTrackClip>> = Vec::new();
            let mut m: usize = 0;
            while m < count
                invariant
                    r == row_view(track@),
                    m <= count,
                    row_view(row@) == Seq::new(m as nat, |j: int| spec_playback_cell(r, j as nat, count as nat)),
                decreases count - m,
            {
                let cell = if m < track.len() && track[m].is_some() {
                    assert(r[m as int] == cell_view(track@[m as int]));
                    Some(track[m].as_ref().unwrap().copy())
                } else {
                    proof {
                        if m < track.len() {
                            assert(r[m as int] == cell_view(track@[m as int]));
                        }
                    }
                    previous_measure_repeat_clip(track, m, count)
                };
                let ghost before = row@;
                row.push(cell);
                proof {
                    assert(row_view(row@) =~= row_view(before).push(cell_view(cell)));
                    assert(row_view(row@) =~= Seq::new((m + 1) as nat, |j: int| spec_playback_cell(r, j as nat, count as nat)));
                }
                m = m + 1;
            }
            let ghost before = clips@;
            clips.push(row);
            proof {
                assert(grid_view(clips@) =~= grid_view(before).push(row_view(row@)));
                assert(spec_playback_clips(g)[t as int] =~= row_view(row@));
                assert(spec_playback_clips(g).subrange(0, t + 1) =~= spec_playback_clips(g).subrange(0, t as int).push(
                    row_view(row@),
                ));
            }
            t = t + 1;
        }
        assert(spec_playback_clips(g).subrange(0, g.len() as int) =~= spec_playback_clips(g));
        clips
    }

    /// How many measures the arrangement plays.
    pub fn effective_measure_count(&self) -> (count: usize)
        ensures
            count == spec_effective_measure_count(self@.grid),
    {
        let ghost g = self@.grid;
        let mut end: usize = 0;
        let mut t: usize = 0;
        while t < self.track_grid.len()
            invariant
                g == self@.grid,
                t <= g.len(),
                end == grid_end(g.subrange(0, t as int)),
            decreases g.len() - t,
        {
            let row = &self.track_grid[t];
            let ghost r = g[t as int];
            assert(r == row_view(row@));
            let mut row_max: usize = 0;
            let mut m: usize = 0;
            while m < row.len()
                invariant
                    r == row_view(row@),
                    m <= r.len(),
                    row_max == row_end(r.subrange(0, m as int)),
                decreases r.len() - m,
            {
                assert(r.subrange(0, m + 1).drop_last() =~= r.subrange(0, m as int));
                assert(r[m as int] == cell_view(row@[m as int]));
                match &row[m] {
                    Some(c) => {
                        let e = if c.span_measures > usize::MAX - m { usize::MAX } else { m + c.span_measures };
                        if e > row_max {
                            row_max = e;
                        }
                    },
                    None => {},
                }
                m = m + 1;
            }
            assert(r.subrange(0, r.len() as int) =~= r);
            assert(g.subrange(0, t + 1).drop_last() =~= g.subrange(0, t as int));
            if row_max > end {
                end = row_max;
            }
            t = t + 1;
        }
        assert(g.subrange(0, g.len() as int) =~= g);
        if end > 1 {
            end
        } else {
            1
        }
    }

    /// How many measures the grid shows: the arrangement, reaching the measure
    /// cursor, within the first track.
    pub fn displayed_measure_count(&self) -> (count: usize)
        ensures
            count == ({
                let e = spec_effective_measure_count(self@.grid);
                let c = sat_add(self@.measure_cursor, 1);
                let shown = if e > c { e } else { c };
                let limit = if self@.grid.len() > 0 { self@.grid[0].len() } else { 1 };
                if shown < limit { shown } else { limit }
            }),
    {
        let effective = self.effective_measure_count();
        let cursor_end = if self.measure_cursor == usize::MAX { usize::MAX } else { self.measure_cursor + 1 };
        let shown = if effective > cursor_end { effective } else { cursor_end };
        let limit = if self.track_grid.len() > 0 {
            proof {
                assert(self@.grid[0] == row_view(self.track_grid@[0]@));
            }
            self.track_grid[0].len()
        } else {
            1
        };
        if shown < limit {
            shown
        } else {
            limit
        }
    }
}


/// Every row grows with empty cells to `n` measures.
fn extend_rows(grid: &mut Vec<Vec<Option<LoopTrackClip>>>, n: usize)
    ensures
        grid_view(final(grid)@) == grid_view(old(grid)@).map_values(|row: Seq<Option<ClipView>>| extend_row(row, n as nat)),
{
    let ghost g0 = grid_view(grid@);
    let mut t: usize = 0;
    while t < grid.len()
        invariant
            g0.len() == grid@.len(),
            t <= grid@.len(),
            forall|k: int| 0 <= k < t ==> row_view((#[trigger] grid@[k])@) == extend_row(g0[k], n as nat),
            forall|k: int| t <= k < grid@.len() ==> row_view((#[trigger] grid@[k])@) == g0[k],
        decreases grid@.len() - t,
    {
        let ghost r0 = grid@[t as int]@;
        assert(row_view(r0) == g0[t as int]);
        while grid[t].len() < n
            invariant
                t < grid@.len(),
                g0.len() == grid@.len(),
                row_view(r0) == g0[t as int],
                r0.len() <= grid@[t as int]@.len() || grid@[t as int]@.len() < n,
                grid@[t as int]@.len() >= r0.len(),
                grid@[t as int]@.len() <= (if n > r0.len() { n as int } else { r0.len() as int }),
                forall|m: int| 0 <= m < grid@[t as int]@.len() ==> #[trigger] cell_view(grid@[t as int]@[m]) == (if m
                    < r0.len() {
                    cell_view(r0[m])
                } else {
                    None
                }),
                forall|k: int| 0 <= k < t ==> row_view((#[trigger] grid@[k])@) == extend_row(g0[k], n as nat),
                forall|k: int| t < k < grid@.len() ==> row_view((#[trigger] grid@[k])@) == g0[k],
            decreases n - grid@[t as int]@.len(),
        {
            grid[t].push(None);
        }
        proof {
            assert(row_view(grid@[t as int]@) =~= extend_row(g0[t as int], n as nat));
        }
        t = t + 1;
    }
    proof {
        assert(grid_view(grid@) =~= g0.map_values(|row: Seq<Option<ClipView>>| extend_row(row, n as nat)));
    }
}

/// The clips of the row that overlap `start..end` are removed.
fn clear_row_overlaps(row: &mut Vec<Option<LoopTrackClip>>, start: usize, end: usize)
    ensures
        row_view(final(row)@) == clear_overlaps(row_view(old(row)@), start as nat, end as nat),
{
    let ghost r0 = row_view(row@);
    let mut m: usize = 0;
    while m < row.len()
        invariant
            r0.len() == row@.len(),
            m <= row@.len(),
            forall|k: int| 0 <= k < m ==> #[trigger] cell_view(row@[k]) == clear_overlaps(r0, start as nat, end as nat)[k],
            forall|k: int| m <= k < row@.len() ==> #[trigger] cell_view(row@[k]) == r0[k],
        decreases row@.len() - m,
    {
        let ghost target = clear_overlaps(r0, start as nat, end as nat)[m as int];
        assert(r0[m as int] == cell_view(row@[m as int]));
        let overlaps = match &row[m] {
            Some(c) => {
                let clip_end = if c.span_measures > usize::MAX - m { usize::MAX } else { m + c.span_measures };
                assert(clip_end == sat_add(m as nat, c.span_measures as nat));
                m < end && clip_end > start
            },
            None => false,
        };
        assert(overlaps ==> target is None);
        assert(!overlaps ==> target == r0[m as int]);
        if overlaps {
            row.set(m, None);
        }
        proof {
            assert(cell_view(row@[m as int]) == clear_overlaps(r0, start as nat, end as nat)[m as int]);
        }
        m = m + 1;
    }
    proof {
        assert(row_view(row@) =~= clear_overlaps(r0, start as nat, end as nat));
    }
}

impl LoopBrowser {
    fn snapshot(&self, failure: &str) -> (snap: GridSnapshot)
        ensures
            snapshot_view(snap) == (SnapshotView {
                grid: self@.grid,
                volumes: self@.volumes,
                solo: self@.solo,
                track_cursor: self@.track_cursor,
                measure_cursor: self@.measure_cursor,
                failure: failure@,
            }),
    {
        GridSnapshot {
            grid: copy_grid(&self.track_grid),
            volumes: copy_i32s(&self.track_volumes_db),
            solo: copy_bools(&self.solo_tracks),
            track_cursor: self.track_cursor,
            measure_cursor: self.measure_cursor,
            failure: failure.to_owned(),
        }
    }

    /// A failed save of the grid: the grid goes back to how it was before the
    /// edit and the error is shown.
    pub fn restore_after_failed_save(&mut self, error: &str)
        ensures
            final(self).tree == old(self).tree,
            final(self)@ == spec_restore(old(self)@, error@),
    {
        match self.pending_save.take() {
            None => {},
            Some(snap) => {
                self.track_grid = snap.grid;
                self.track_track_restore(snap.volumes, snap.solo, snap.track_cursor, snap.measure_cursor);
                self.track_grid_error = Some(concat(snap.failure.as_str(), error));
            },
        }
    }

    fn track_track_restore(&mut self, volumes: Vec<i32>, solo: Vec<bool>, track_cursor: usize, measure_cursor: usize)
        ensures
            final(self).tree == old(self).tree,
            final(self)@ == (LoopView {
                volumes: volumes@,
                solo: solo@,
                track_cursor: track_cursor as nat,
                measure_cursor: measure_cursor as nat,
                ..old(self)@
            }),
    {
        self.track_volumes_db = volumes;
        self.solo_tracks = solo;
        self.track_cursor = track_cursor;
        self.measure_cursor = measure_cursor;
    }

    /// The grid was saved: the snapshot is no longer needed.
    pub fn finish_save(&mut self)
        ensures
            final(self).tree == old(self).tree,
            final(self)@ == (LoopView { pending_save: None, ..old(self)@ }),
    {
        self.pending_save = None;
    }

    /// A grid loaded from its file takes the place of the browser's grid (see
    /// `spec_install_loaded_grid`); the answer says whether it is to be written
    /// back at once (`spec_loaded_grid_needs_save`).
    pub fn install_loaded_grid(
        &mut self,
        grid: Vec<Vec<Option<LoopTrackClip>>>,
        volumes: Vec<i32>,
        path: Option<String>,
        writable: bool,
        error: Option<String>,
        needs_migration: bool,
        changed: bool,
    ) -> (save: bool)
        requires
            grid_wf(grid_view(grid@)),
            grid@[0]@.len() > 0,
        ensures
            final(self).tree == old(self).tree,
            browser_wf(final(self)@),
            final(self)@ == spec_install_loaded_grid(
                old(self)@,
                grid_view(grid@),
                volumes@,
                match path {
                    Some(p) => Some(p@),
                    None => None,
                },
                writable,
                match error {
                    Some(e) => Some(e@),
                    None => None,
                },
            ),
            save == spec_loaded_grid_needs_save(writable, path is Some, needs_migration, changed),
    {
        let save = writable && path.is_some() && (needs_migration || changed);
        let ghost solo = self@.solo;
        let tracks = grid.len();
        self.track_grid = grid;
        self.track_volumes_db = volumes;
        self.solo_tracks.resize(tracks, false);
        assert(self.solo_tracks@ =~= resized(solo, tracks as nat, false));
        self.track_grid_path = path;
        self.track_grid_writable = writable;
        self.track_grid_error = error;
        self.track_cursor = 0;
        self.measure_cursor = 0;
        self.pending_save = None;
        proof {
            assert(grid_view(self.track_grid@)[0].len() == self.track_grid@[0]@.len());
        }
        save
    }

    /// Writing back a loaded grid failed: the error says so.
    pub fn migration_save_failed(&mut self, error: &str)
        ensures
            final(self).tree == old(self).tree,
            final(self)@ == (LoopView {
                error: Some("track grid migrationを保存できません: "@ + error@),
                ..old(self)@
            }),
    {
        self.track_grid_error = Some(concat("track grid migrationを保存できません: ", error));
    }

    /// A grid edit's answer once the save it asked for has been tried: a save
    /// that failed brings the grid back and the edit answers `Continue`; a
    /// save that went through, or an edit that asked for none, keeps its answer.
    pub fn settle_save(&mut self, saved: Result<(), String>, action: LoopBrowserAction) -> (answer: LoopBrowserAction)
        ensures
            final(self).tree == old(self).tree,
            (final(self)@, answer@) == spec_settle_save(old(self)@, saved_view(saved), action@),
    {
        if self.pending_save.is_none() {
            return action;
        }
        match saved {
            Ok(()) => {
                self.finish_save();
                action
            },
            Err(error) => {
                self.restore_after_failed_save(error.as_str());
                LoopBrowserAction::Continue
            },
        }
    }

    /// Where a clip was placed, once the save it asked for has been tried: a
    /// save that failed brings the grid back and nothing counts as placed.
    pub fn settle_placement(&mut self, saved: Result<(), String>, placed: Option<usize>) -> (settled: Option<usize>)
        ensures
            final(self).tree == old(self).tree,
            final(self)@ == spec_settle_save(old(self)@, saved_view(saved), ActionView::Continue).0,
            settled == (if old(self)@.pending_save is Some && saved is Err { None } else { placed }),
    {
        if self.pending_save.is_none() {
            return placed;
        }
        match saved {
            Ok(()) => {
                self.finish_save();
                placed
            },
            Err(error) => {
                self.restore_after_failed_save(error.as_str());
                None
            },
        }
    }

    /// Places `wav` at measure `start` of the current track; see `spec_write_clip_at`.
    /// Where the grid is saved somewhere, the placement waits on that save:
    /// `settle_placement` gives the answer once it has been tried.
    pub fn write_clip_at(&mut self, start: usize, wav: LoopWavId, operation: &str) -> (placed: Option<usize>)
        requires
            browser_wf(old(self)@),
        ensures
            final(self).tree == old(self).tree,
            browser_wf(final(self)@),
            (final(self)@, match placed {
                Some(p) => Some(p as nat),
                None => None,
            }) == spec_write_clip_at(old(self)@, start as nat, wav_view(wav), operation@),
    {
        let ghost v = self@;
        let span = match self.analysis_for_wav(&wav) {
            Some(a) => if a.measures > 1 { a.measures } else { 1 },
            None => 1,
        };
        if start > usize::MAX - span {
            let message = concat(concat("track listが大きすぎるためclipを", operation).as_str(), "できません");
            self.track_grid_error = Some(message);
            proof {
                reveal_strlit("track listが大きすぎるためclipを");
                reveal_strlit("できません");
            }
            return None;
        }
        let end = start + span;
        let snapshot = match &self.track_grid_path {
            Some(_) => Some(self.snapshot("track listを保存できません: ")),
            None => None,
        };
        proof {
            assert(v.grid[0] == row_view(self.track_grid@[0]@));
        }
        if end > self.track_grid[0].len() {
            extend_rows(&mut self.track_grid, end);
        }
        let ghost grown = grid_view(self.track_grid@);
        proof {
            assert(grown.len() == v.grid.len());
            assert(v.grid[v.track_cursor as int].len() == v.grid[0].len());
            if !(end > v.grid[0].len()) {
                assert(grown == v.grid);
            } else {
                assert(grown[v.track_cursor as int] == extend_row(v.grid[v.track_cursor as int], end as nat));
            }
            assert(grown[v.track_cursor as int] == row_view(self.track_grid@[v.track_cursor as int]@));
            assert(grown[v.track_cursor as int].len() > start);
        }
        let tc = self.track_cursor;
        clear_row_overlaps(&mut self.track_grid[tc], start, end);
        proof {
            assert(row_view(self.track_grid@[tc as int]@) == clear_overlaps(grown[tc as int], start as nat, end as nat));
            assert(row_view(self.track_grid@[tc as int]@).len() == self.track_grid@[tc as int]@.len());
            assert(start < self.track_grid@[tc as int]@.len());
        }
        let clip = LoopTrackClip::explicit(wav, span);
        self.track_grid[tc].set(start, Some(clip));
        self.track_grid_error = None;
        match snapshot {
            Some(snap) => {
                self.pending_save = Some(snap);
            },
            None => {},
        }
        proof {
            let row = clear_overlaps(grown[v.track_cursor as int], start as nat, end as nat).update(
                start as int,
                Some(ClipView { wav: wav_view(wav), span: span as nat, previous: false }),
            );
            assert(row_view(self.track_grid@[tc as int]@) =~= row);
            assert(grid_view(self.track_grid@) =~= grown.update(v.track_cursor as int, row));
            assert(spec_span_of(v.analyses, wav_view(wav)) == span);
        }
        Some(start)
    }
}


/// `s` truncated or padded with `fill` to `n` items (what `Vec::resize` does).
pub open spec fn resized<T>(s: Seq<T>, n: nat, fill: T) -> Seq<T> {
    Seq::new(n, |i: int| if i < s.len() { s[i] } else { fill })
}

pub open spec fn seq_swap<T>(s: Seq<T>, i: int, j: int) -> Seq<T> {
    s.update(i, s[j]).update(j, s[i])
}

pub open spec fn spec_insert_current_clip(v: LoopView, wav: (Seq<char>, Seq<char>)) -> (LoopView, Option<nat>) {
    if !v.writable || spec_clip_at(v.grid[v.track_cursor as int], v.measure_cursor) is Some {
        (v, None)
    } else {
        spec_write_clip_at(v, v.measure_cursor, wav, "配置"@)
    }
}

pub open spec fn spec_replace_current_clip(v: LoopView, wav: (Seq<char>, Seq<char>)) -> (LoopView, Option<nat>) {
    if !v.writable {
        (v, None)
    } else {
        match spec_clip_at(v.grid[v.track_cursor as int], v.measure_cursor) {
            None => (v, None),
            Some((start, _)) => spec_write_clip_at(v, start, wav, "差し替え"@),
        }
    }
}

/// The first pad entry for `pad`.
pub open spec fn is_first_pad(pads: Seq<(char, (Seq<char>, Seq<char>))>, pad: char, i: int) -> bool {
    &&& 0 <= i < pads.len()
    &&& pads[i].0 == pad
    &&& forall|k: int| 0 <= k < i ==> (#[trigger] pads[k]).0 != pad
}

/// The WAV assigned to `pad`.
pub open spec fn spec_pad_wav(pads: Seq<(char, (Seq<char>, Seq<char>))>, pad: char) -> Option<(Seq<char>, Seq<char>)> {
    if exists|i: int| is_first_pad(pads, pad, i) {
        Some(pads[choose|i: int| is_first_pad(pads, pad, i)].1)
    } else {
        None
    }
}

/// A pad key on the track grid: an empty cell gets the pad's WAV; a cell with
/// another WAV (or a repeat marker) has it replaced; the same WAV is removed.
pub open spec fn spec_toggle_current_cell(v: LoopView, pad: char) -> (LoopView, ActionView) {
    match spec_pad_wav(v.pads, pad) {
        None => (v, ActionView::Continue),
        Some(wav) => if !v.writable {
            (v, ActionView::Continue)
        } else {
            match spec_clip_at(v.grid[v.track_cursor as int], v.measure_cursor) {
                Some((start, clip)) => if clip.previous || clip.wav != wav {
                    let (v2, placed) = spec_replace_current_clip(v, wav);
                    match placed {
                        Some(s) => (v2, ActionView::GridReplaced { start_measure: s, reason: LoopGridChange::Pad(pad) }),
                        None => (v2, ActionView::Continue),
                    }
                } else {
                    let row = v.grid[v.track_cursor as int].update(start as int, None);
                    let after = LoopView { grid: v.grid.update(v.track_cursor as int, row), error: None, ..v };
                    (
                        spec_saved(v, after, "track listを保存できません: "@),
                        ActionView::GridRefresh { reason: LoopGridChange::Pad(pad) },
                    )
                },
                None => {
                    let (v2, placed) = spec_insert_current_clip(v, wav);
                    match placed {
                        Some(_) => (v2, ActionView::GridRefresh { reason: LoopGridChange::Pad(pad) }),
                        None => (v2, ActionView::Continue),
                    }
                },
            }
        },
    }
}

/// `l` with a count: right by `count` measures; past the end a writable grid
/// grows (and is saved), a read-only one stops at its last measure.
pub open spec fn spec_move_right(v: LoopView, count: nat) -> LoopView {
    let measures = v.grid[0].len();
    let next = sat_add(v.measure_cursor, count);
    if count == 0 {
        v
    } else if next < measures {
        LoopView { measure_cursor: next, ..v }
    } else if !v.writable {
        LoopView { measure_cursor: (measures - 1) as nat, ..v }
    } else if next + 1 > usize::MAX {
        LoopView { error: Some("track listが大きすぎるためmeasureを追加できません"@), ..v }
    } else {
        let after = LoopView {
            grid: v.grid.map_values(|row: Seq<Option<ClipView>>| extend_row(row, next + 1)),
            error: None,
            measure_cursor: next,
            ..v
        };
        spec_saved(v, after, "measure追加を保存できません: "@)
    }
}

/// `j` with a count: down by `count` tracks; past the last a writable grid
/// gets new empty tracks (and is saved), a read-only one stops at its last.
pub open spec fn spec_move_down(v: LoopView, count: nat) -> LoopView {
    let next = sat_add(v.track_cursor, count);
    if count == 0 {
        v
    } else if next < v.grid.len() {
        LoopView { track_cursor: next, ..v }
    } else if !v.writable {
        LoopView { track_cursor: (v.grid.len() - 1) as nat, ..v }
    } else if next + 1 > usize::MAX {
        LoopView { error: Some("track listが大きすぎるためtrackを追加できません"@), ..v }
    } else {
        let required = next + 1;
        let empty_row = Seq::new(v.grid[0].len(), |m: int| None::<ClipView>);
        let after = LoopView {
            grid: resized(v.grid, required, empty_row),
            volumes: resized(v.volumes, required, 0i32),
            solo: resized(v.solo, required, false),
            error: None,
            track_cursor: next,
            ..v
        };
        spec_saved(v, after, "track追加を保存できません: "@)
    }
}

/// Moves the current track up or down by `delta` places, with its volume and
/// solo; the cursor follows it.
pub open spec fn spec_move_current_track(v: LoopView, delta: isize) -> (LoopView, ActionView) {
    let destination = v.track_cursor + delta;
    if !v.writable || v.grid.len() < 2 || destination < 0 || destination > usize::MAX || destination >= v.grid.len() {
        (v, ActionView::Continue)
    } else {
        let n = v.grid.len();
        let v1 = LoopView { volumes: resized(v.volumes, n, 0i32), solo: resized(v.solo, n, false), ..v };
        let t = v.track_cursor as int;
        let after = LoopView {
            grid: seq_swap(v1.grid, t, destination),
            volumes: seq_swap(v1.volumes, t, destination),
            solo: seq_swap(v1.solo, t, destination),
            error: None,
            track_cursor: destination as nat,
            ..v1
        };
        (
            spec_saved(v1, after, "track並び替えを保存できません: "@),
            ActionView::TrackLayoutChanged {
                start_measure: v.measure_cursor,
                track_volumes_db: after.volumes,
                solo_tracks: after.solo,
            },
        )
    }
}

pub open spec fn spec_solo_active(solo: Seq<bool>) -> bool {
    exists|i: int| 0 <= i < solo.len() && solo[i]
}

/// Solo on the current track: without any solo it becomes the only soloed
/// track; otherwise its solo flips.
pub open spec fn spec_toggle_solo(v: LoopView) -> LoopView {
    let n = v.grid.len();
    let t = v.track_cursor as int;
    let solo = resized(v.solo, n, false);
    if !spec_solo_active(solo) {
        LoopView { solo: Seq::new(n, |i: int| i == t), ..v }
    } else {
        LoopView { solo: solo.update(t, !solo[t]), ..v }
    }
}

impl LoopBrowser {
    pub fn insert_current_clip(&mut self, wav: LoopWavId) -> (placed: Option<usize>)
        requires
            browser_wf(old(self)@),
        ensures
            final(self).tree == old(self).tree,
            browser_wf(final(self)@),
            (final(self)@, match placed {
                Some(p) => Some(p as nat),
                None => None,
            }) == spec_insert_current_clip(old(self)@, wav_view(wav)),
    {
        if !self.track_grid_writable || self.clip_at(self.track_cursor, self.measure_cursor).is_some() {
            return None;
        }
        self.write_clip_at(self.measure_cursor, wav, "配置")
    }

    pub fn replace_current_clip(&mut self, wav: LoopWavId) -> (placed: Option<usize>)
        requires
            browser_wf(old(self)@),
        ensures
            final(self).tree == old(self).tree,
            browser_wf(final(self)@),
            (final(self)@, match placed {
                Some(p) => Some(p as nat),
                None => None,
            }) == spec_replace_current_clip(old(self)@, wav_view(wav)),
    {
        if !self.track_grid_writable {
            return None;
        }
        let start = match self.clip_at(self.track_cursor, self.measure_cursor) {
            Some((start, _)) => start,
            None => return None,
        };
        self.write_clip_at(start, wav, "差し替え")
    }

    /// The WAV assigned to `pad`.
    pub fn pad_wav(&self, pad: char) -> (wav: Option<LoopWavId>)
        ensures
            match wav {
                Some(w) => spec_pad_wav(self@.pads, pad) == Some(wav_view(w)),
                None => spec_pad_wav(self@.pads, pad) is None,
            },
    {
        let ghost p = self@.pads;
        let mut i: usize = 0;
        while i < self.pads.len()
            invariant
                p == self@.pads,
                i <= p.len(),
                forall|k: int| 0 <= k < i ==> (#[trigger] p[k]).0 != pad,
            decreases p.len() - i,
        {
            assert(p[i as int] == (self.pads@[i as int].0, wav_view(self.pads@[i as int].1)));
            if self.pads[i].0 == pad {
                proof {
                    assert(is_first_pad(p, pad, i as int));
                    let j = choose|j: int| is_first_pad(p, pad, j);
                    assert(is_first_pad(p, pad, j));
                    if j < i {
                        assert(p[j].0 != pad);
                    } else if i < j {
                        assert(p[i as int].0 != pad);
                    }
                }
                return Some(self.pads[i].1.copy());
            }
            i = i + 1;
        }
        proof {
            if exists|j: int| is_first_pad(p, pad, j) {
                let j = choose|j: int| is_first_pad(p, pad, j);
                assert(p[j].0 != pad);
            }
        }
        None
    }

    /// A pad key on the track grid; see `spec_toggle_current_cell`.
    pub fn toggle_current_cell(&mut self, pad: char) -> (action: LoopBrowserAction)
        requires
            browser_wf(old(self)@),
        ensures
            final(self).tree == old(self).tree,
            browser_wf(final(self)@),
            (final(self)@, action@) == spec_toggle_current_cell(old(self)@, pad),
    {
        let wav = match self.pad_wav(pad) {
            Some(w) => w,
            None => return LoopBrowserAction::Continue,
        };
        if !self.track_grid_writable {
            return LoopBrowserAction::Continue;
        }
        let occupied = self.clip_at(self.track_cursor, self.measure_cursor);
        match occupied {
            Some((start, clip)) => {
                if clip.is_previous() || !clip.wav.matches(&wav) {
                    match self.replace_current_clip(wav) {
                        Some(start_measure) => LoopBrowserAction::GridReplaced {
                            start_measure,
                            reason: LoopGridChange::Pad(pad),
                        },
                        None => LoopBrowserAction::Continue,
                    }
                } else {
                    let ghost v = self@;
                    let snapshot = match &self.track_grid_path {
                        Some(_) => Some(self.snapshot("track listを保存できません: ")),
                        None => None,
                    };
                    let tc = self.track_cursor;
                    proof {
                        assert(v.grid[tc as int] == row_view(self.track_grid@[tc as int]@));
                    }
                    self.track_grid[tc].set(start, None);
                    self.track_grid_error = None;
                    match snapshot {
                        Some(snap) => {
                            self.pending_save = Some(snap);
                        },
                        None => {},
                    }
                    proof {
                        let row = v.grid[tc as int].update(start as int, None);
                        assert(row_view(self.track_grid@[tc as int]@) =~= row);
                        assert(grid_view(self.track_grid@) =~= v.grid.update(tc as int, row));
                        assert forall|t: int| 0 <= t < self@.grid.len() implies (#[trigger] self@.grid[t]).len()
                            == self@.grid[0].len() by {
                            assert(v.grid[t].len() == v.grid[0].len());
                        }
                    }
                    LoopBrowserAction::GridRefresh { reason: LoopGridChange::Pad(pad) }
                }
            },
            None => match self.insert_current_clip(wav) {
                Some(_) => LoopBrowserAction::GridRefresh { reason: LoopGridChange::Pad(pad) },
                None => LoopBrowserAction::Continue,
            },
        }
    }

    /// Whether any track is soloed.
    pub fn solo_mode_active(&self) -> (active: bool)
        ensures
            active == spec_solo_active(self@.solo),
    {
        let mut i: usize = 0;
        while i < self.solo_tracks.len()
            invariant
                i <= self.solo_tracks@.len(),
                forall|k: int| 0 <= k < i ==> !self.solo_tracks@[k],
            decreases self.solo_tracks@.len() - i,
        {
            if self.solo_tracks[i] {
                return true;
            }
            i = i + 1;
        }
        false
    }

    pub fn track_is_soloed(&self, track: usize) -> (soloed: bool)
        ensures
            soloed == (track < self@.solo.len() && self@.solo[track as int]),
    {
        track < self.solo_tracks.len() && self.solo_tracks[track]
    }

    /// A track is heard unless another track is soloed.
    pub fn track_is_audible(&self, track: usize) -> (audible: bool)
        ensures
            audible == (!spec_solo_active(self@.solo) || (track < self@.solo.len() && self@.solo[track as int])),
    {
        !self.solo_mode_active() || self.track_is_soloed(track)
    }

    /// The mix level of `track` in dB (0 when none is stored).
    pub fn track_volume_db(&self, track: usize) -> (volume: i32)
        ensures
            volume == (if track < self@.volumes.len() { self@.volumes[track as int] } else { 0 }),
    {
        if track < self.track_volumes_db.len() {
            self.track_volumes_db[track]
        } else {
            0
        }
    }

    pub fn track_volumes_db(&self) -> (volumes: &[i32])
        ensures
            volumes@ == self@.volumes,
    {
        self.track_volumes_db.as_slice()
    }

    pub fn solo_tracks(&self) -> (solo: &[bool])
        ensures
            solo@ == self@.solo,
    {
        self.solo_tracks.as_slice()
    }

    pub fn track_grid(&self) -> (grid: &[Vec<Option<LoopTrackClip>>])
        ensures
            grid_view(grid@) == self@.grid,
    {
        self.track_grid.as_slice()
    }

    /// Solo on the current track; see `spec_toggle_solo`.
    pub fn toggle_current_track_solo(&mut self) -> (action: LoopBrowserAction)
        requires
            browser_wf(old(self)@),
        ensures
            final(self).tree == old(self).tree,
            browser_wf(final(self)@),
            final(self)@ == spec_toggle_solo(old(self)@),
            action@ == (ActionView::TrackSoloChanged { solo_tracks: final(self)@.solo }),
    {
        let n = self.track_grid.len();
        let track = self.track_cursor;
        let mut solo = copy_bools(&self.solo_tracks);
        solo.resize(n, false);
        proof {
            assert(solo@ =~= resized(old(self)@.solo, n as nat, false));
        }
        let mut active = false;
        let mut k: usize = 0;
        while k < n
            invariant
                n == solo@.len(),
                k <= n,
                active == (exists|j: int| 0 <= j < k && solo@[j]),
            decreases n - k,
        {
            if solo[k] {
                active = true;
            }
            k = k + 1;
        }
        if !active {
            let mut i: usize = 0;
            while i < n
                invariant
                    n == solo@.len(),
                    i <= n,
                    forall|k: int| 0 <= k < i ==> solo@[k] == (k == track),
                decreases n - i,
            {
                solo.set(i, i == track);
                i = i + 1;
            }
            assert(solo@ =~= Seq::new(n as nat, |i: int| i == track as int));
        } else {
            let flipped = !solo[track];
            solo.set(track, flipped);
        }
        self.solo_tracks = solo;
        LoopBrowserAction::TrackSoloChanged { solo_tracks: copy_bools(&self.solo_tracks) }
    }
}


fn empty_row(measures: usize) -> (row: Vec<Option<LoopTrackClip>>)
    ensures
        row_view(row@) == Seq::new(measures as nat, |m: int| None::<ClipView>),
{
    let mut row: Vec<Option<LoopTrackClip>> = Vec::new();
    let mut m: usize = 0;
    while m < measures
        invariant
            m <= measures,
            row@.len() == m,
            forall|k: int| 0 <= k < m ==> (#[trigger] row@[k]) is None,
        decreases measures - m,
    {
        row.push(None);
        m = m + 1;
    }
    assert(row_view(row@) =~= Seq::new(measures as nat, |m: int| None::<ClipView>));
    row
}

impl LoopBrowser {
    /// `l` with a count; see `spec_move_right`.
    pub fn move_track_cursor_right(&mut self, count: usize)
        requires
            browser_wf(old(self)@),
        ensures
            final(self).tree == old(self).tree,
            browser_wf(final(self)@),
            final(self)@ == spec_move_right(old(self)@, count as nat),
    {
        if count == 0 {
            return;
        }
        proof {
            assert(self@.grid[0] == row_view(self.track_grid@[0]@));
        }
        let measures = self.track_grid[0].len();
        let next = if count > usize::MAX - self.measure_cursor { usize::MAX } else { self.measure_cursor + count };
        if next < measures {
            self.measure_cursor = next;
            return;
        }
        if !self.track_grid_writable {
            self.measure_cursor = measures - 1;
            return;
        }
        if next == usize::MAX {
            self.track_grid_error = Some("track listが大きすぎるためmeasureを追加できません".to_owned());
            return;
        }
        let required = next + 1;
        let ghost v = self@;
        let snapshot = match &self.track_grid_path {
            Some(_) => Some(self.snapshot("measure追加を保存できません: ")),
            None => None,
        };
        extend_rows(&mut self.track_grid, required);
        self.track_grid_error = None;
        self.measure_cursor = next;
        match snapshot {
            Some(snap) => {
                self.pending_save = Some(snap);
            },
            None => {},
        }
        proof {
            let g = v.grid.map_values(|row: Seq<Option<ClipView>>| extend_row(row, required as nat));
            assert(self@.grid == g);
            assert forall|t: int| 0 <= t < g.len() implies (#[trigger] g[t]).len() == g[0].len() by {
                assert(v.grid[t].len() == v.grid[0].len());
            }
        }
    }

    /// `j` with a count; see `spec_move_down`.
    pub fn move_track_cursor_down(&mut self, count: usize)
        requires
            browser_wf(old(self)@),
        ensures
            final(self).tree == old(self).tree,
            browser_wf(final(self)@),
            final(self)@ == spec_move_down(old(self)@, count as nat),
    {
        if count == 0 {
            return;
        }
        let next = if count > usize::MAX - self.track_cursor { usize::MAX } else { self.track_cursor + count };
        if next < self.track_grid.len() {
            self.track_cursor = next;
            return;
        }
        if !self.track_grid_writable {
            self.track_cursor = self.track_grid.len() - 1;
            return;
        }
        if next == usize::MAX {
            self.track_grid_error = Some("track listが大きすぎるためtrackを追加できません".to_owned());
            return;
        }
        let required = next + 1;
        let ghost v = self@;
        let snapshot = match &self.track_grid_path {
            Some(_) => Some(self.snapshot("track追加を保存できません: ")),
            None => None,
        };
        proof {
            assert(v.grid[0] == row_view(self.track_grid@[0]@));
        }
        let measures = self.track_grid[0].len();
        let ghost blank = Seq::new(measures as nat, |m: int| None::<ClipView>);
        let mut grid = copy_grid(&self.track_grid);
        while grid.len() < required
            invariant
                blank == Seq::new(measures as nat, |m: int| None::<ClipView>),
                v.grid.len() <= grid@.len() <= required,
                forall|t: int| 0 <= t < v.grid.len() ==> row_view((#[trigger] grid@[t])@) == v.grid[t],
                forall|t: int| v.grid.len() <= t < grid@.len() ==> row_view((#[trigger] grid@[t])@) == blank,
            decreases required - grid@.len(),
        {
            grid.push(empty_row(measures));
        }
        proof {
            assert(grid_view(grid@) =~= resized(v.grid, required as nat, blank));
        }
        self.track_grid = grid;
        self.track_volumes_db.resize(required, 0);
        self.solo_tracks.resize(required, false);
        proof {
            assert(self.track_volumes_db@ =~= resized(v.volumes, required as nat, 0i32));
            assert(self.solo_tracks@ =~= resized(v.solo, required as nat, false));
        }
        self.track_grid_error = None;
        self.track_cursor = next;
        match snapshot {
            Some(snap) => {
                self.pending_save = Some(snap);
            },
            None => {},
        }
        proof {
            let g = resized(v.grid, required as nat, blank);
            assert forall|t: int| 0 <= t < g.len() implies (#[trigger] g[t]).len() == g[0].len() by {
                if t < v.grid.len() {
                    assert(v.grid[t].len() == v.grid[0].len());
                }
            }
        }
    }

    /// Moves the current track by `delta` places; see `spec_move_current_track`.
    pub fn move_current_track(&mut self, delta: isize) -> (action: LoopBrowserAction)
        requires
            browser_wf(old(self)@),
        ensures
            final(self).tree == old(self).tree,
            browser_wf(final(self)@),
            (final(self)@, action@) == spec_move_current_track(old(self)@, delta),
    {
        let n = self.track_grid.len();
        if !self.track_grid_writable || n < 2 {
            return LoopBrowserAction::Continue;
        }
        let target = self.track_cursor as i128 + delta as i128;
        if target < 0 || target > usize::MAX as i128 || target >= n as i128 {
            return LoopBrowserAction::Continue;
        }
        let destination = target as usize;
        let t = self.track_cursor;
        self.track_volumes_db.resize(n, 0);
        self.solo_tracks.resize(n, false);
        let ghost v1 = self@;
        proof {
            assert(v1.volumes =~= resized(old(self)@.volumes, n as nat, 0i32));
            assert(v1.solo =~= resized(old(self)@.solo, n as nat, false));
        }
        let snapshot = match &self.track_grid_path {
            Some(_) => Some(self.snapshot("track並び替えを保存できません: ")),
            None => None,
        };
        let row_t = copy_row(&self.track_grid[t]);
        let row_d = copy_row(&self.track_grid[destination]);
        self.track_grid.set(t, row_d);
        self.track_grid.set(destination, row_t);
        let vol_t = self.track_volumes_db[t];
        let vol_d = self.track_volumes_db[destination];
        self.track_volumes_db.set(t, vol_d);
        self.track_volumes_db.set(destination, vol_t);
        let solo_t = self.solo_tracks[t];
        let solo_d = self.solo_tracks[destination];
        self.solo_tracks.set(t, solo_d);
        self.solo_tracks.set(destination, solo_t);
        self.track_grid_error = None;
        self.track_cursor = destination;
        match snapshot {
            Some(snap) => {
                self.pending_save = Some(snap);
            },
            None => {},
        }
        proof {
            assert(grid_view(self.track_grid@) =~= seq_swap(v1.grid, t as int, destination as int));
            assert(self.track_volumes_db@ =~= seq_swap(v1.volumes, t as int, destination as int));
            assert(self.solo_tracks@ =~= seq_swap(v1.solo, t as int, destination as int));
            let g = seq_swap(v1.grid, t as int, destination as int);
            assert forall|k: int| 0 <= k < g.len() implies (#[trigger] g[k]).len() == g[0].len() by {
                assert(v1.grid[k].len() == v1.grid[0].len());
                assert(v1.grid[t as int].len() == v1.grid[0].len());
                assert(v1.grid[destination as int].len() == v1.grid[0].len());
            }
        }
        LoopBrowserAction::TrackLayoutChanged {
            start_measure: self.measure_cursor,
            track_volumes_db: copy_i32s(&self.track_volumes_db),
            solo_tracks: copy_bools(&self.solo_tracks),
        }
    }
}


/// A clip written at `start` is what plays from `start` on, with its analysed
/// span, and no other clip of the track overlaps it.
pub proof fn written_clip_plays_at_its_start(
    v: LoopView,
    start: nat,
    wav: (Seq<char>, Seq<char>),
    operation: Seq<char>,
)
    requires
        browser_wf(v),
        spec_write_clip_at(v, start, wav, operation).1 is Some,
    ensures
        ({
            let after = spec_write_clip_at(v, start, wav, operation).0;
            let row = after.grid[v.track_cursor as int];
            let span = spec_span_of(v.analyses, wav);
            &&& spec_clip_at(row, start) == Some((start, ClipView { wav, span, previous: false }))
            &&& forall|m: int|
                0 <= m < row.len() && m != start ==> !(#[trigger] row[m] matches Some(c) && m < start + span
                    && sat_add(m as nat, c.span) > start)
        }),
{
    let after = spec_write_clip_at(v, start, wav, operation).0;
    let span = spec_span_of(v.analyses, wav);
    let end = start + span;
    let grown = if end > v.grid[0].len() {
        v.grid.map_values(|row: Seq<Option<ClipView>>| extend_row(row, end))
    } else {
        v.grid
    };
    let t = v.track_cursor as int;
    assert(v.grid[t].len() == v.grid[0].len());
    let cleared = clear_overlaps(grown[t], start, end);
    let row = cleared.update(start as int, Some(ClipView { wav, span, previous: false }));
    assert(after.grid[t] == row);
    assert(start < grown[t].len());
    assert(covers(row, start as int, start));
    assert(is_covering_start(row, start, start as int));
    lemma_covering_start(row, start, start as int);
}


/// A WAV of the library index, with its analysis.
pub struct LoopWavIndex {
    pub relative: String,
    pub analysis: LoopWavAnalysis,
}

/// A loop root of the library index and its WAV files.
pub struct LoopRootIndex {
    pub path: String,
    pub wav_files: Vec<LoopWavIndex>,
}

/// The loop library as indexed on disk.
pub struct LoopIndex {
    pub roots: Vec<LoopRootIndex>,
}

/// The analyses of the index: each root's WAVs in order, root after root.
pub open spec fn index_analyses(roots: Seq<LoopRootIndex>) -> Seq<((Seq<char>, Seq<char>), LoopWavAnalysis)>
    decreases roots.len(),
{
    if roots.len() == 0 {
        Seq::empty()
    } else {
        let root = roots.last();
        index_analyses(roots.drop_last()) + root.wav_files@.map_values(
            |w: LoopWavIndex| ((root.path@, w.relative@), w.analysis),
        )
    }
}

impl LoopBrowser {
    /// A browser over the indexed library: one empty track of one measure,
    /// writable, not saved anywhere.
    pub fn from_index(index: LoopIndex) -> (browser: Self)
        ensures
            browser_wf(browser@),
            browser@.analyses == index_analyses(index.roots@),
            browser@.grid == seq![seq![None::<ClipView>]],
            browser@.volumes == seq![0i32],
            browser@.solo == seq![false],
            browser@.pads.len() == 0,
            browser@.writable,
            browser@.path is None,
            browser@.error is None,
            browser@.track_cursor == 0,
            browser@.measure_cursor == 0,
            browser@.focus == LoopBrowserPane::Tree,
            browser@.pending_save is None,
            built_from(browser.tree@, index.roots@),
    {
        let tree = LoopTree::from_index(&index);
        let mut analyses: Vec<(LoopWavId, LoopWavAnalysis)> = Vec::new();
        let mut r: usize = 0;
        while r < index.roots.len()
            invariant
                r <= index.roots@.len(),
                analyses_view(analyses@) == index_analyses(index.roots@.subrange(0, r as int)),
            decreases index.roots@.len() - r,
        {
            let root = &index.roots[r];
            let ghost prefix = index.roots@.subrange(0, r as int);
            let ghost base = analyses_view(analyses@);
            let ghost mapped = root.wav_files@.map_values(
                |w: LoopWavIndex| ((root.path@, w.relative@), w.analysis),
            );
            let mut w: usize = 0;
            while w < root.wav_files.len()
                invariant
                    w <= root.wav_files@.len(),
                    base == index_analyses(prefix),
                    mapped == root.wav_files@.map_values(
                        |x: LoopWavIndex| ((root.path@, x.relative@), x.analysis),
                    ),
                    analyses_view(analyses@) == base + mapped.subrange(0, w as int),
                decreases root.wav_files@.len() - w,
            {
                let ghost before = analyses@;
                let wav = LoopWavId::new(root.path.as_str(), root.wav_files[w].relative.as_str());
                analyses.push((wav, root.wav_files[w].analysis));
                proof {
                    assert(analyses_view(analyses@) =~= analyses_view(before).push(mapped[w as int]));
                    assert(mapped.subrange(0, w + 1) =~= mapped.subrange(0, w as int).push(mapped[w as int]));
                }
                w = w + 1;
            }
            proof {
                assert(mapped.subrange(0, mapped.len() as int) =~= mapped);
                assert(index.roots@.subrange(0, r + 1).drop_last() =~= prefix);
            }
            r = r + 1;
        }
        assert(index.roots@.subrange(0, index.roots@.len() as int) =~= index.roots@);
        let mut row: Vec<Option<LoopTrackClip>> = Vec::new();
        row.push(None);
        let mut grid: Vec<Vec<Option<LoopTrackClip>>> = Vec::new();
        grid.push(row);
        let mut volumes: Vec<i32> = Vec::new();
        volumes.push(0);
        let mut solo: Vec<bool> = Vec::new();
        solo.push(false);
        let browser = LoopBrowser {
            track_grid: grid,
            track_volumes_db: volumes,
            solo_tracks: solo,
            wav_analyses: analyses,
            pads: Vec::new(),
            track_grid_writable: true,
            track_grid_path: None,
            track_grid_error: None,
            track_cursor: 0,
            measure_cursor: 0,
            focus: LoopBrowserPane::Tree,
            pending_save: None,
            tree,
            navigation_count: NavigationCount::default(),
            help_overlay: None,
            playback_paused: false,
        };
        proof {
            assert(row_view(browser.track_grid@[0]@) =~= seq![None::<ClipView>]);
            assert(grid_view(browser.track_grid@) =~= seq![seq![None::<ClipView>]]);
            assert(browser.track_volumes_db@ =~= seq![0i32]);
            assert(browser.solo_tracks@ =~= seq![false]);
            assert(pads_view(browser.pads@) =~= Seq::empty());
        }
        browser
    }
}

/// What a key in the loop browser leaves for the app to do.
pub enum BrowserOutcome {
    Tree(TreeKeyOutcome),
    Grid(LoopBrowserAction),
    Return,
    Quit,
}

pub ghost enum BrowserOutcomeView {
    Tree(OutcomeView),
    Grid(ActionView),
    Return,
    Quit,
}

pub open spec fn browser_outcome_view(o: BrowserOutcome) -> BrowserOutcomeView {
    match o {
        BrowserOutcome::Tree(t) => BrowserOutcomeView::Tree(outcome_view(t)),
        BrowserOutcome::Grid(a) => BrowserOutcomeView::Grid(a@),
        BrowserOutcome::Return => BrowserOutcomeView::Return,
        BrowserOutcome::Quit => BrowserOutcomeView::Quit,
    }
}

/// A key on the track grid: a pad note toggles the pad's WAV in the current
/// cell, `h` `k` (and the arrows) move left and up, `l` `j` right and down
/// (growing a writable grid), `Esc` returns and `q` quits.
pub open spec fn spec_handle_track_key(v: LoopView, key: TreeKey) -> (LoopView, BrowserOutcomeView) {
    let plain_pad = match key.code {
        TreeKeyCode::Char(c) => !key.shift && !key.other_modifiers && is_pad_key(c),
        _ => false,
    };
    if plain_pad {
        let (v2, a) = spec_toggle_current_cell(v, key.code->Char_0);
        (v2, BrowserOutcomeView::Grid(a))
    } else {
        let c = match key.code {
            TreeKeyCode::Char(c) => c,
            TreeKeyCode::Left => 'h',
            TreeKeyCode::Up => 'k',
            TreeKeyCode::Right => 'l',
            TreeKeyCode::Down => 'j',
            TreeKeyCode::Esc => '\u{1b}',
            _ => '\0',
        };
        if c == '\u{1b}' {
            (v, BrowserOutcomeView::Return)
        } else if c == 'q' {
            (v, BrowserOutcomeView::Quit)
        } else if c == 'h' {
            (
                LoopView { measure_cursor: if v.measure_cursor > 0 { (v.measure_cursor - 1) as nat } else { 0 }, ..v },
                BrowserOutcomeView::Grid(ActionView::Continue),
            )
        } else if c == 'k' {
            (
                LoopView { track_cursor: if v.track_cursor > 0 { (v.track_cursor - 1) as nat } else { 0 }, ..v },
                BrowserOutcomeView::Grid(ActionView::Continue),
            )
        } else if c == 'l' {
            (spec_move_right(v, 1), BrowserOutcomeView::Grid(ActionView::Continue))
        } else if c == 'j' {
            (spec_move_down(v, 1), BrowserOutcomeView::Grid(ActionView::Continue))
        } else {
            (v, BrowserOutcomeView::Grid(ActionView::Continue))
        }
    }
}

/// A character key without `Shift` or another modifier.
pub open spec fn plain_char(key: TreeKey) -> Option<char> {
    match key.code {
        TreeKeyCode::Char(c) => if !key.shift && !key.other_modifiers {
            Some(c)
        } else {
            None
        },
        _ => None,
    }
}

/// Whether the key is a digit that extends the typed count (a count never
/// starts with `0`).
pub open spec fn extends_count(key: TreeKey, count: Option<usize>) -> bool {
    match plain_char(key) {
        Some(c) => match spec_decimal_digit(c) {
            Some(d) => !(count is None && d == 0),
            None => false,
        },
        None => false,
    }
}

/// The count after typing digit `c`.
pub open spec fn pushed_count(count: Option<usize>, c: char) -> Option<usize> {
    Some(
        spec_append_digit(
            match count {
                Some(v) => v as nat,
                None => 0nat,
            },
            spec_decimal_digit(c).unwrap(),
        ) as usize,
    )
}

/// How many times a counted key acts: the count, or once.
pub open spec fn repeats(count: Option<usize>) -> nat {
    match count {
        Some(n) => n as nat,
        None => 1,
    }
}

/// The rows a counted move covers, saturating at the bounds of `isize`.
pub open spec fn counted_delta(unit: isize, count: Option<usize>) -> isize {
    spec_clamp_isize(
        unit * match count {
            Some(n) => if n > isize::MAX {
                isize::MAX as int
            } else {
                n as int
            },
            None => 1int,
        },
    ) as isize
}

/// A key on the tree pane, after the count typed before it: `j` and `k` move
/// that many rows and `h` acts that many times; every other key acts once
/// (see `spec_handle_tree_key`).
pub open spec fn spec_counted_tree_key(t: TreeView, key: TreeKey, count: Option<usize>, page: isize) -> (
    TreeView,
    OutcomeView,
) {
    match plain_char(key) {
        Some(c) => if c == 'j' {
            (spec_move_cursor(t, counted_delta(1, count)).0, from_tree_action(spec_move_cursor(t, counted_delta(1, count)).1))
        } else if c == 'k' {
            (
                spec_move_cursor(t, counted_delta(-1isize, count)).0,
                from_tree_action(spec_move_cursor(t, counted_delta(-1isize, count)).1),
            )
        } else if c == 'h' {
            (spec_repeat_collapse(t, repeats(count)), OutcomeView::Continue)
        } else {
            spec_handle_tree_key(t, key, page)
        },
        None => spec_handle_tree_key(t, key, page),
    }
}

/// A key on the track grid, after the count typed before it: `h` `k` `l` `j`
/// move that many measures or tracks; every other key acts once (see
/// `spec_handle_track_key`).
pub open spec fn spec_counted_track_key(v: LoopView, key: TreeKey, count: Option<usize>) -> (
    LoopView,
    BrowserOutcomeView,
) {
    let n = repeats(count);
    match plain_char(key) {
        Some(c) => if c == 'h' {
            (
                LoopView { measure_cursor: if v.measure_cursor > n { (v.measure_cursor - n) as nat } else { 0 }, ..v },
                BrowserOutcomeView::Grid(ActionView::Continue),
            )
        } else if c == 'k' {
            (
                LoopView { track_cursor: if v.track_cursor > n { (v.track_cursor - n) as nat } else { 0 }, ..v },
                BrowserOutcomeView::Grid(ActionView::Continue),
            )
        } else if c == 'l' {
            (spec_move_right(v, n), BrowserOutcomeView::Grid(ActionView::Continue))
        } else if c == 'j' {
            (spec_move_down(v, n), BrowserOutcomeView::Grid(ActionView::Continue))
        } else {
            spec_handle_track_key(v, key)
        },
        None => spec_handle_track_key(v, key),
    }
}

/// The WAV the current cell plays: the clip over it, else the one-measure
/// clip that an empty measure repeats.
pub open spec fn spec_current_cell_wav(v: LoopView) -> Option<(Seq<char>, Seq<char>)> {
    if v.track_cursor >= v.grid.len() {
        None
    } else {
        let cells = v.grid[v.track_cursor as int];
        match spec_clip_at(cells, v.measure_cursor) {
            Some((_, c)) => Some(c.wav),
            None => match spec_previous_measure_repeat_clip(cells, v.measure_cursor, spec_effective_measure_count(v.grid)) {
                Some(c) => Some(c.wav),
                None => None,
            },
        }
    }
}

/// The tree shows the current cell's WAV, when the cell plays one.
pub open spec fn spec_sync_tree(v: LoopView, t: TreeView) -> TreeView {
    match spec_current_cell_wav(v) {
        Some(w) => spec_reveal_wav(t, w.0, w.1),
        None => t,
    }
}

/// `Esc`, `q` and `?` close the key help.
pub open spec fn closes_help(key: TreeKey) -> bool {
    match key.code {
        TreeKeyCode::Esc => true,
        TreeKeyCode::Char(c) => c == 'q' || c == '?',
        _ => false,
    }
}

/// `?`, with or without `Shift`, opens the key help.
pub open spec fn opens_help(key: TreeKey) -> bool {
    key.code == TreeKeyCode::Char('?') && !key.other_modifiers
}

/// A key in the loop browser, in this order: while the key help is shown,
/// `Esc` `q` `?` close it and every other key (`Tab` too) does nothing; `?`
/// shows the focused pane's help; `Tab` switches pane; `p` pauses or resumes
/// the loop player at the measure cursor; `s` on the track grid solos the
/// current track; a digit extends the count typed before a movement key;
/// the focused pane takes any other key with that count (see
/// `spec_counted_tree_key` and `spec_counted_track_key`). The count is
/// dropped by every key but a digit and the keys the help swallows. On the
/// track grid (and on `Tab` into it) the tree then shows the current cell's
/// WAV.
pub open spec fn spec_browser_key(v: LoopView, t: TreeView, key: TreeKey, tab: bool, page: isize) -> (
    LoopView,
    TreeView,
    BrowserOutcomeView,
) {
    let cont = BrowserOutcomeView::Grid(ActionView::Continue);
    if v.help is Some {
        (LoopView { help: if !tab && closes_help(key) { None } else { v.help }, ..v }, t, cont)
    } else if !tab && opens_help(key) {
        (LoopView { help: Some(v.focus), count: None, ..v }, t, cont)
    } else if tab {
        let v2 = LoopView {
            focus: match v.focus {
                LoopBrowserPane::Tree => LoopBrowserPane::Tracks,
                LoopBrowserPane::Tracks => LoopBrowserPane::Tree,
            },
            count: None,
            ..v
        };
        (v2, if v2.focus == LoopBrowserPane::Tracks { spec_sync_tree(v2, t) } else { t }, cont)
    } else if plain_char(key) == Some('p') {
        (
            LoopView { paused: !v.paused, count: None, ..v },
            t,
            BrowserOutcomeView::Grid(ActionView::SetPlaybackPaused { paused: !v.paused, start_measure: v.measure_cursor }),
        )
    } else if plain_char(key) == Some('s') && v.focus == LoopBrowserPane::Tracks {
        let soloed = spec_toggle_solo(v);
        (
            LoopView { count: None, ..soloed },
            t,
            BrowserOutcomeView::Grid(ActionView::TrackSoloChanged { solo_tracks: soloed.solo }),
        )
    } else {
        spec_pane_key(v, t, key, page)
    }
}

/// A key for the focused pane: a digit extends the typed count; any other
/// key acts with that count (see `spec_counted_tree_key` and
/// `spec_counted_track_key`) and drops it, and after a key on the track grid
/// the tree shows the current cell's WAV.
pub open spec fn spec_pane_key(v: LoopView, t: TreeView, key: TreeKey, page: isize) -> (
    LoopView,
    TreeView,
    BrowserOutcomeView,
) {
    if extends_count(key, v.count) {
        (
            LoopView { count: pushed_count(v.count, plain_char(key)->Some_0), ..v },
            t,
            match v.focus {
                LoopBrowserPane::Tree => BrowserOutcomeView::Tree(OutcomeView::Continue),
                LoopBrowserPane::Tracks => BrowserOutcomeView::Grid(ActionView::Continue),
            },
        )
    } else if v.focus == LoopBrowserPane::Tree {
        let (t2, o) = spec_counted_tree_key(t, key, v.count, page);
        (LoopView { count: None, ..v }, t2, BrowserOutcomeView::Tree(o))
    } else {
        let (v2, o) = spec_counted_track_key(v, key, v.count);
        (LoopView { count: None, ..v2 }, spec_sync_tree(v2, t), o)
    }
}

impl LoopBrowser {
    /// A key on the track grid; see `spec_handle_track_key`.
    pub fn handle_track_key(&mut self, key: TreeKey) -> (outcome: BrowserOutcome)
        requires
            browser_wf(old(self)@),
        ensures
            final(self).tree == old(self).tree,
            browser_wf(final(self)@),
            (final(self)@, browser_outcome_view(outcome)) == spec_handle_track_key(old(self)@, key),
    {
        if let TreeKeyCode::Char(c) = key.code {
            if !key.shift && !key.other_modifiers && crate::loop_tree::pad_key(c) {
                return BrowserOutcome::Grid(self.toggle_current_cell(c));
            }
        }
        let c = match key.code {
            TreeKeyCode::Char(c) => c,
            TreeKeyCode::Left => 'h',
            TreeKeyCode::Up => 'k',
            TreeKeyCode::Right => 'l',
            TreeKeyCode::Down => 'j',
            TreeKeyCode::Esc => '\u{1b}',
            _ => '\0',
        };
        if c == '\u{1b}' {
            BrowserOutcome::Return
        } else if c == 'q' {
            BrowserOutcome::Quit
        } else if c == 'h' {
            if self.measure_cursor > 0 {
                self.measure_cursor = self.measure_cursor - 1;
            }
            BrowserOutcome::Grid(LoopBrowserAction::Continue)
        } else if c == 'k' {
            if self.track_cursor > 0 {
                self.track_cursor = self.track_cursor - 1;
            }
            BrowserOutcome::Grid(LoopBrowserAction::Continue)
        } else if c == 'l' {
            self.move_track_cursor_right(1);
            BrowserOutcome::Grid(LoopBrowserAction::Continue)
        } else if c == 'j' {
            self.move_track_cursor_down(1);
            BrowserOutcome::Grid(LoopBrowserAction::Continue)
        } else {
            BrowserOutcome::Grid(LoopBrowserAction::Continue)
        }
    }

    /// A key in the loop browser; see `spec_browser_key`. `page` is how many
    /// rows a page key moves; `tab` says the key is `Tab`.
    pub fn handle_key_event(&mut self, key: TreeKey, tab: bool, page: usize) -> (outcome: BrowserOutcome)
        requires
            browser_wf(old(self)@),
            forest_wf(old(self).tree@.roots),
            page <= isize::MAX,
        ensures
            browser_wf(final(self)@),
            (final(self)@, final(self).tree@, browser_outcome_view(outcome)) == spec_browser_key(
                old(self)@,
                old(self).tree@,
                key,
                tab,
                page as isize,
            ),
    {
        if self.help_overlay.is_some() {
            let closes = !tab && match key.code {
                TreeKeyCode::Esc => true,
                TreeKeyCode::Char(c) => c == 'q' || c == '?',
                _ => false,
            };
            if closes {
                self.help_overlay = None;
            }
            return BrowserOutcome::Grid(LoopBrowserAction::Continue);
        }
        let opens = !tab && !key.other_modifiers && match key.code {
            TreeKeyCode::Char(c) => c == '?',
            _ => false,
        };
        if opens {
            self.help_overlay = Some(self.focus);
            self.navigation_count = NavigationCount { value: None };
            return BrowserOutcome::Grid(LoopBrowserAction::Continue);
        }
        if tab {
            self.navigation_count = NavigationCount { value: None };
            self.focus = match self.focus {
                LoopBrowserPane::Tree => LoopBrowserPane::Tracks,
                LoopBrowserPane::Tracks => LoopBrowserPane::Tree,
            };
            if self.focus == LoopBrowserPane::Tracks {
                self.sync_tree_to_current_cell();
            }
            return BrowserOutcome::Grid(LoopBrowserAction::Continue);
        }
        let plain: Option<char> = match key.code {
            TreeKeyCode::Char(c) => if !key.shift && !key.other_modifiers {
                Some(c)
            } else {
                None
            },
            _ => None,
        };
        let c: char = match plain {
            Some(c) => c,
            None => '\0',
        };
        if plain.is_some() && c == 'p' {
            let paused = !self.playback_paused;
            self.playback_paused = paused;
            self.navigation_count = NavigationCount { value: None };
            return BrowserOutcome::Grid(LoopBrowserAction::SetPlaybackPaused { paused, start_measure: self.measure_cursor });
        }
        if plain.is_some() && c == 's' && self.focus == LoopBrowserPane::Tracks {
            self.navigation_count = NavigationCount { value: None };
            return BrowserOutcome::Grid(self.toggle_current_track_solo());
        }
        self.handle_pane_key(key, page)
    }

    /// A key for the focused pane; see `spec_pane_key`.
    fn handle_pane_key(&mut self, key: TreeKey, page: usize) -> (outcome: BrowserOutcome)
        requires
            browser_wf(old(self)@),
            forest_wf(old(self).tree@.roots),
            page <= isize::MAX,
        ensures
            browser_wf(final(self)@),
            (final(self)@, final(self).tree@, browser_outcome_view(outcome)) == spec_pane_key(
                old(self)@,
                old(self).tree@,
                key,
                page as isize,
            ),
    {
        let count = self.navigation_count.value;
        let plain: Option<char> = match key.code {
            TreeKeyCode::Char(c) => if !key.shift && !key.other_modifiers {
                Some(c)
            } else {
                None
            },
            _ => None,
        };
        let c: char = match plain {
            Some(c) => c,
            None => '\0',
        };
        let mut counter = NavigationCount { value: count };
        if plain.is_some() && counter.push_digit(c) {
            self.navigation_count = counter;
            return match self.focus {
                LoopBrowserPane::Tree => BrowserOutcome::Tree(TreeKeyOutcome::Continue),
                LoopBrowserPane::Tracks => BrowserOutcome::Grid(LoopBrowserAction::Continue),
            };
        }
        let outcome = match self.focus {
            LoopBrowserPane::Tree => self.counted_tree_key(key, page, count),
            LoopBrowserPane::Tracks => self.counted_track_key(key, count),
        };
        self.navigation_count = NavigationCount { value: None };
        outcome
    }

    /// A key on the tree pane after the count typed before it.
    fn counted_tree_key(&mut self, key: TreeKey, page: usize, count: Option<usize>) -> (outcome: BrowserOutcome)
        requires
            forest_wf(old(self).tree@.roots),
            page <= isize::MAX,
        ensures
            final(self)@ == old(self)@,
            (final(self).tree@, browser_outcome_view(outcome)) == ({
                let (t, o) = spec_counted_tree_key(old(self).tree@, key, count, page as isize);
                (t, BrowserOutcomeView::Tree(o))
            }),
    {
        let mut counter = NavigationCount { value: count };
        let n: usize = match count {
            Some(x) => x,
            None => 1,
        };
        let plain = !key.shift && !key.other_modifiers;
        let o = match key.code {
            TreeKeyCode::Char(c) => if plain && c == 'j' {
                let delta: isize = counter.take_delta(1);
                outcome_of(self.tree.move_cursor(delta))
            } else if plain && c == 'k' {
                let delta: isize = counter.take_delta(-1);
                outcome_of(self.tree.move_cursor(delta))
            } else if plain && c == 'h' {
                self.tree.collapse_or_select_parent_times(n);
                TreeKeyOutcome::Continue
            } else {
                self.tree.handle_tree_key(key, page)
            },
            _ => self.tree.handle_tree_key(key, page),
        };
        BrowserOutcome::Tree(o)
    }

    /// A key on the track grid after the count typed before it; the tree then
    /// shows the current cell's WAV.
    fn counted_track_key(&mut self, key: TreeKey, count: Option<usize>) -> (outcome: BrowserOutcome)
        requires
            browser_wf(old(self)@),
            forest_wf(old(self).tree@.roots),
        ensures
            browser_wf(final(self)@),
            (final(self)@, browser_outcome_view(outcome)) == spec_counted_track_key(old(self)@, key, count),
            final(self).tree@ == spec_sync_tree(spec_counted_track_key(old(self)@, key, count).0, old(self).tree@),
    {
        let n: usize = match count {
            Some(x) => x,
            None => 1,
        };
        let plain = !key.shift && !key.other_modifiers;
        let c: char = match key.code {
            TreeKeyCode::Char(c) => c,
            _ => '\0',
        };
        let is_char = match key.code {
            TreeKeyCode::Char(_) => true,
            _ => false,
        };
        let o = if is_char && plain && c == 'h' {
            self.measure_cursor = if self.measure_cursor > n {
                self.measure_cursor - n
            } else {
                0
            };
            BrowserOutcome::Grid(LoopBrowserAction::Continue)
        } else if is_char && plain && c == 'k' {
            self.track_cursor = if self.track_cursor > n {
                self.track_cursor - n
            } else {
                0
            };
            BrowserOutcome::Grid(LoopBrowserAction::Continue)
        } else if is_char && plain && c == 'l' {
            self.move_track_cursor_right(n);
            BrowserOutcome::Grid(LoopBrowserAction::Continue)
        } else if is_char && plain && c == 'j' {
            self.move_track_cursor_down(n);
            BrowserOutcome::Grid(LoopBrowserAction::Continue)
        } else {
            self.handle_track_key(key)
        };
        self.sync_tree_to_current_cell();
        o
    }

    /// Shows the current cell's WAV in the tree (see `spec_sync_tree`).
    pub fn sync_tree_to_current_cell(&mut self)
        requires
            forest_wf(old(self).tree@.roots),
        ensures
            final(self)@ == old(self)@,
            final(self).tree@ == spec_sync_tree(old(self)@, old(self).tree@),
    {
        let wav = match self.clip_at(self.track_cursor, self.measure_cursor) {
            Some((_, clip)) => Some(clip.wav),
            None => match self.previous_measure_repeat_clip(self.track_cursor, self.measure_cursor) {
                Some(c) => Some(c.wav),
                None => None,
            },
        };
        if let Some(w) = wav {
            self.tree.reveal_wav(&w);
        }
    }
}

impl LoopBrowser {
    /// An empty browser: no library, one empty track of one measure,
    /// writable, not saved anywhere.
    pub fn default() -> (browser: Self)
        ensures
            browser_wf(browser@),
            browser@.analyses.len() == 0,
            browser@.grid == seq![seq![None::<ClipView>]],
            browser@.volumes == seq![0i32],
            browser@.solo == seq![false],
            browser@.pads.len() == 0,
            browser@.writable,
            browser@.path is None,
            browser@.error is None,
            browser@.track_cursor == 0,
            browser@.measure_cursor == 0,
            browser@.focus == LoopBrowserPane::Tree,
            browser@.pending_save is None,
            browser.tree@.roots.len() == 0,
            browser.tree@.visible.len() == 0,
            browser.tree@.cursor == 0,
    {
        let browser = LoopBrowser::from_index(LoopIndex { roots: Vec::new() });
        proof {
            assert(index_analyses(Seq::<LoopRootIndex>::empty()) =~= Seq::empty());
        }
        browser
    }
}

} // verus!
