//! The patch list overlay: filtering, the two panes (all patches and
//! favorites), their cursors, and the preview of the selected patch.
use vstd::prelude::*;
use crate::query::{filter_patches, filtered_patches, pairs_view, query_terms, strings_view};
use crate::text::{ascii_lowercase, concat, copy_string, spec_ascii_lowercase, string_of, trim, trimmed};
use crate::keyboard_connection::opt_str_view;
use crate::tui_app::{
    clamp, effects_view, tui_wf, AppEffect, EditorView, EffectView, Mode, PlayState, PlayStateView, TuiApp, TuiView,
    spec_enter_help, spec_set_play_error, spec_start_patch_phrase,
};

verus! {

/// The two panes of the patch list.
#[derive(Clone, Copy, Debug, PartialEq, Eq, Structural)]
pub enum PatchSelectPane {
    Patches,
    Favorites,
}

/// Where the background patch scan stands; a ready scan holds each patch's
/// display name and its lowercase form.
#[derive(Clone, Debug, PartialEq, Eq)]
pub enum PatchLoadState {
    Loading,
    Failed(String),
    Ready(Vec<(String, String)>),
}

pub ghost enum PatchLoadView {
    Loading,
    Failed(Seq<char>),
    Ready(Seq<(Seq<char>, Seq<char>)>),
}

impl View for PatchLoadState {
    type V = PatchLoadView;

    open spec fn view(&self) -> PatchLoadView {
        match self {
            PatchLoadState::Loading => PatchLoadView::Loading,
            PatchLoadState::Failed(e) => PatchLoadView::Failed(e@),
            PatchLoadState::Ready(pairs) => PatchLoadView::Ready(pairs_view(pairs@)),
        }
    }
}

/// The state of the patch list overlay.
pub struct PatchSelectState {
    pub all: Vec<(String, String)>,
    pub source_order: Vec<(String, String)>,
    pub query: String,
    pub filtered: Vec<String>,
    pub cursor: usize,
    pub selected: Option<usize>,
    pub favorites_cursor: usize,
    pub favorites_selected: Option<usize>,
    pub favorite_items: Vec<String>,
    pub focus: PatchSelectPane,
    pub filter_active: bool,
    /// The patches in the order the favorites were added.
    pub favorite_patches: Vec<String>,
    /// The patches that have at least one favorite phrase.
    pub patches_with_favorites: Vec<String>,
    /// The list is shown in category order rather than scan order.
    pub category_order: bool,
    /// The scanned patches in category order (sorted where the scan is read).
    pub category_sorted: Vec<(String, String)>,
}

pub ghost struct PatchSelectView {
    pub all: Seq<(Seq<char>, Seq<char>)>,
    pub source_order: Seq<(Seq<char>, Seq<char>)>,
    pub query: Seq<char>,
    pub filtered: Seq<Seq<char>>,
    pub cursor: nat,
    pub selected: Option<nat>,
    pub favorites_cursor: nat,
    pub favorites_selected: Option<nat>,
    pub favorite_items: Seq<Seq<char>>,
    pub focus: PatchSelectPane,
    pub filter_active: bool,
    pub favorite_patches: Seq<Seq<char>>,
    pub patches_with_favorites: Seq<Seq<char>>,
    pub category_order: bool,
    pub category_sorted: Seq<(Seq<char>, Seq<char>)>,
}

impl PatchSelectView {
    pub open spec fn empty() -> PatchSelectView {
        PatchSelectView {
            all: Seq::empty(),
            source_order: Seq::empty(),
            query: Seq::empty(),
            filtered: Seq::empty(),
            cursor: 0,
            selected: None,
            favorites_cursor: 0,
            favorites_selected: None,
            favorite_items: Seq::empty(),
            focus: PatchSelectPane::Patches,
            filter_active: false,
            favorite_patches: Seq::empty(),
            patches_with_favorites: Seq::empty(),
            category_order: false,
            category_sorted: Seq::empty(),
        }
    }
}

pub open spec fn opt_nat(i: Option<usize>) -> Option<nat> {
    match i {
        Some(i) => Some(i as nat),
        None => None,
    }
}

impl View for PatchSelectState {
    type V = PatchSelectView;

    open spec fn view(&self) -> PatchSelectView {
        PatchSelectView {
            all: pairs_view(self.all@),
            source_order: pairs_view(self.source_order@),
            query: self.query@,
            filtered: strings_view(self.filtered@),
            cursor: self.cursor as nat,
            selected: opt_nat(self.selected),
            favorites_cursor: self.favorites_cursor as nat,
            favorites_selected: opt_nat(self.favorites_selected),
            favorite_items: strings_view(self.favorite_items@),
            focus: self.focus,
            filter_active: self.filter_active,
            favorite_patches: strings_view(self.favorite_patches@),
            patches_with_favorites: strings_view(self.patches_with_favorites@),
            category_order: self.category_order,
            category_sorted: pairs_view(self.category_sorted@),
        }
    }
}

impl PatchSelectState {
    pub fn new() -> (state: Self)
        ensures
            state@ == PatchSelectView::empty(),
    {
        let state = PatchSelectState {
            all: Vec::new(),
            source_order: Vec::new(),
            query: String::new(),
            filtered: Vec::new(),
            cursor: 0,
            selected: None,
            favorites_cursor: 0,
            favorites_selected: None,
            favorite_items: Vec::new(),
            focus: PatchSelectPane::Patches,
            filter_active: false,
            favorite_patches: Vec::new(),
            patches_with_favorites: Vec::new(),
            category_order: false,
            category_sorted: Vec::new(),
        };
        assert(pairs_view(state.all@) =~= Seq::empty());
        assert(pairs_view(state.category_sorted@) =~= Seq::empty());
        assert(pairs_view(state.source_order@) =~= Seq::empty());
        assert(strings_view(state.filtered@) =~= Seq::empty());
        assert(strings_view(state.favorite_items@) =~= Seq::empty());
        assert(strings_view(state.favorite_patches@) =~= Seq::empty());
        assert(strings_view(state.patches_with_favorites@) =~= Seq::empty());
        state
    }
}

/// The patch under the cursor of `focus`, if the cursor is on an item.
pub open spec fn spec_name_for_selection(p: PatchSelectView, focus: PatchSelectPane, cursor: nat) -> Option<
    Seq<char>,
> {
    let items = match focus {
        PatchSelectPane::Patches => p.filtered,
        PatchSelectPane::Favorites => p.favorite_items,
    };
    if cursor < items.len() {
        Some(items[cursor as int])
    } else {
        None
    }
}

/// The patch selected in the focused pane.
pub open spec fn spec_selected_patch_name(p: PatchSelectView) -> Option<Seq<char>> {
    spec_name_for_selection(
        p,
        p.focus,
        match p.focus {
            PatchSelectPane::Patches => p.cursor,
            PatchSelectPane::Favorites => p.favorites_cursor,
        },
    )
}

/// Previewing plays the selected patch (with the current line's phrase).
pub open spec fn spec_preview_selected_patch(s: TuiView) -> TuiView {
    match spec_selected_patch_name(s.patches) {
        Some(name) => TuiView { effects: s.effects.push(EffectView::PreviewPatch(name)), ..s },
        None => s,
    }
}

/// Both cursors are brought inside their lists and highlighted (no highlight
/// for an empty list).
pub open spec fn spec_sync_states(p: PatchSelectView) -> PatchSelectView {
    let (cursor, selected) = if p.filtered.len() == 0 {
        (0nat, None)
    } else {
        let c = if p.cursor < p.filtered.len() { p.cursor } else { (p.filtered.len() - 1) as nat };
        (c, Some(c))
    };
    let (fcursor, fselected) = if p.favorite_items.len() == 0 {
        (0nat, None)
    } else {
        let c = if p.favorites_cursor < p.favorite_items.len() {
            p.favorites_cursor
        } else {
            (p.favorite_items.len() - 1) as nat
        };
        (c, Some(c))
    };
    PatchSelectView { cursor, selected, favorites_cursor: fcursor, favorites_selected: fselected, ..p }
}

/// Moves the cursor of the patch pane by `delta`, stopping at the ends; a move
/// previews the patch reached.
pub open spec fn spec_move_patch_cursor(s: TuiView, delta: isize) -> TuiView {
    let p = s.patches;
    if p.filtered.len() == 0 {
        s
    } else {
        let next = clamp(p.cursor + delta, 0, p.filtered.len() - 1) as nat;
        if next == p.cursor {
            s
        } else {
            spec_preview_selected_patch(
                TuiView { patches: PatchSelectView { cursor: next, selected: Some(next), ..p }, ..s },
            )
        }
    }
}

/// The same for the favorites pane.
pub open spec fn spec_move_favorites_cursor(s: TuiView, delta: isize) -> TuiView {
    let p = s.patches;
    if p.favorite_items.len() == 0 {
        s
    } else {
        let next = clamp(p.favorites_cursor + delta, 0, p.favorite_items.len() - 1) as nat;
        if next == p.favorites_cursor {
            s
        } else {
            spec_preview_selected_patch(
                TuiView {
                    patches: PatchSelectView { favorites_cursor: next, favorites_selected: Some(next), ..p },
                    ..s
                },
            )
        }
    }
}

pub open spec fn spec_move_selection(s: TuiView, delta: isize) -> TuiView {
    match s.patches.focus {
        PatchSelectPane::Patches => spec_move_patch_cursor(s, delta),
        PatchSelectPane::Favorites => spec_move_favorites_cursor(s, delta),
    }
}

/// The favorites pane: the patches of the favorite order that still have a
/// favorite phrase, each once.
pub open spec fn spec_favorite_items(order: Seq<Seq<char>>, with_favorites: Seq<Seq<char>>) -> Seq<Seq<char>>
    decreases order.len(),
{
    if order.len() == 0 {
        Seq::empty()
    } else {
        let prev = spec_favorite_items(order.drop_last(), with_favorites);
        let p = order.last();
        if with_favorites.contains(p) && !prev.contains(p) { prev.push(p) } else { prev }
    }
}

/// The display names of the pairs, in order.
pub open spec fn display_names(pairs: Seq<(Seq<char>, Seq<char>)>) -> Seq<Seq<char>> {
    pairs.map_values(|p: (Seq<char>, Seq<char>)| p.0)
}

/// The first position of `name` in `items`, or -1.
pub open spec fn spec_position(items: Seq<Seq<char>>, name: Seq<char>) -> int {
    if exists|i: int| is_first_position(items, name, i) {
        choose|i: int| is_first_position(items, name, i)
    } else {
        -1
    }
}

pub open spec fn is_first_position(items: Seq<Seq<char>>, name: Seq<char>, i: int) -> bool {
    &&& 0 <= i < items.len()
    &&& items[i] == name
    &&& forall|k: int| 0 <= k < i ==> #[trigger] items[k] != name
}

pub proof fn lemma_position(items: Seq<Seq<char>>, name: Seq<char>, i: int)
    requires
        is_first_position(items, name, i),
    ensures
        spec_position(items, name) == i,
{
    let j = choose|j: int| is_first_position(items, name, j);
    assert(is_first_position(items, name, j));
    if j < i {
        assert(items[j] != name);
    } else if i < j {
        assert(items[i] != name);
    }
}

pub proof fn lemma_no_position(items: Seq<Seq<char>>, name: Seq<char>)
    requires
        forall|k: int| 0 <= k < items.len() ==> #[trigger] items[k] != name,
    ensures
        spec_position(items, name) == -1,
{
    if exists|i: int| is_first_position(items, name, i) {
        let j = choose|j: int| is_first_position(items, name, j);
        assert(items[j] != name);
    }
}

/// Opens the list on the ready patches (in category order when that order is
/// chosen): no filter, the patch pane focused, its cursor on `initial` when
/// listed (else on the first patch), the favorites rebuilt and their cursor on
/// the first one.
pub open spec fn spec_start_patch_select(
    s: TuiView,
    pairs: Seq<(Seq<char>, Seq<char>)>,
    initial: Option<Seq<char>>,
) -> TuiView {
    let shown = if s.patches.category_order { s.patches.category_sorted } else { pairs };
    let names = display_names(shown);
    let cursor = match initial {
        Some(name) => if spec_position(names, name) >= 0 { spec_position(names, name) as nat } else { 0nat },
        None => 0nat,
    };
    let p = PatchSelectView {
        all: shown,
        source_order: pairs,
        query: Seq::empty(),
        filtered: names,
        focus: PatchSelectPane::Patches,
        filter_active: false,
        cursor,
        favorite_items: spec_favorite_items(s.patches.favorite_patches, s.patches.patches_with_favorites),
        favorites_cursor: 0,
        selected: None,
        favorites_selected: None,
        ..s.patches
    };
    TuiView { patches: spec_sync_states(p), mode: Mode::PatchSelect, ..s }
}

/// The patch the list opens on: the one asked for, else the current line's.
pub open spec fn opening_name(initial: Option<Seq<char>>, line_patch: Option<Seq<char>>) -> Option<Seq<char>> {
    match initial {
        Some(n) => Some(n),
        None => line_patch,
    }
}

pub open spec fn opt_view(o: Option<String>) -> Option<Seq<char>> {
    match o {
        Some(n) => Some(n@),
        None => None,
    }
}

/// The patches the list opens on: those of a ready scan, else the ones it had.
pub open spec fn spec_source_pairs(s: TuiView) -> Seq<(Seq<char>, Seq<char>)> {
    match s.patch_load {
        PatchLoadView::Ready(pairs) => pairs,
        _ => s.patches.source_order,
    }
}

pub open spec fn not_configured_message() -> Seq<char> {
    "patches_dirs が設定されていません"@
}

pub open spec fn loading_message() -> Seq<char> {
    "パッチを読み込み中です..."@
}

pub open spec fn load_failed_prefix() -> Seq<char> {
    "パッチの読み込みに失敗: "@
}

pub open spec fn no_patches_message() -> Seq<char> {
    "patches_dirs にパッチが見つかりません"@
}

/// `t`: opens the patch list, or says why it cannot.
pub open spec fn spec_open_patch_select(s: TuiView, initial: Option<Seq<char>>) -> TuiView {
    if !s.patch_dirs_configured {
        spec_set_play_error(s, not_configured_message())
    } else {
        match s.patch_load {
            PatchLoadView::Loading => spec_set_play_error(s, loading_message()),
            PatchLoadView::Failed(e) => spec_set_play_error(s, load_failed_prefix() + e),
            PatchLoadView::Ready(pairs) => if pairs.len() == 0 {
                spec_set_play_error(s, no_patches_message())
            } else {
                spec_start_patch_select(s, pairs, initial)
            },
        }
    }
}

/// The filter changed: the patch pane lists the matches from its top.
pub open spec fn spec_update_patch_filter(s: TuiView) -> TuiView {
    let p = PatchSelectView {
        filtered: filtered_patches(s.patches.all, query_terms(s.patches.query)),
        cursor: 0,
        ..s.patches
    };
    spec_preview_selected_patch(TuiView { patches: spec_sync_states(p), ..s })
}

pub open spec fn spec_set_focus(s: TuiView, focus: PatchSelectPane) -> TuiView {
    spec_preview_selected_patch(
        TuiView { patches: spec_sync_states(PatchSelectView { focus, ..s.patches }), ..s },
    )
}

fn copy_pairs(pairs: &Vec<(String, String)>) -> (copy: Vec<(String, String)>)
    ensures
        pairs_view(copy@) == pairs_view(pairs@),
{
    let mut copy: Vec<(String, String)> = Vec::new();
    let mut i: usize = 0;
    while i < pairs.len()
        invariant
            i <= pairs@.len(),
            pairs_view(copy@) == pairs_view(pairs@.subrange(0, i as int)),
        decreases pairs@.len() - i,
    {
        let ghost before = copy@;
        let first = copy_string(&pairs[i].0);
        let second = copy_string(&pairs[i].1);
        copy.push((first, second));
        proof {
            assert(pairs_view(copy@) =~= pairs_view(before).push((pairs@[i as int].0@, pairs@[i as int].1@)));
            assert(pairs_view(pairs@.subrange(0, i + 1)) =~= pairs_view(pairs@.subrange(0, i as int)).push(
                (pairs@[i as int].0@, pairs@[i as int].1@),
            ));
        }
        i = i + 1;
    }
    assert(pairs@.subrange(0, pairs@.len() as int) =~= pairs@);
    copy
}

/// The first position of `name` in `items`.
fn position_of(items: &Vec<String>, name: &String) -> (pos: Option<usize>)
    ensures
        match pos {
            Some(k) => k < items@.len() && spec_position(strings_view(items@), name@) == k,
            None => spec_position(strings_view(items@), name@) == -1,
        },
{
    let ghost view = strings_view(items@);
    let mut i: usize = 0;
    while i < items.len()
        invariant
            i <= items@.len(),
            view == strings_view(items@),
            forall|k: int| 0 <= k < i ==> #[trigger] view[k] != name@,
        decreases items@.len() - i,
    {
        if crate::text::same_text(items[i].as_str(), name.as_str()) {
            proof {
                assert(view[i as int] == name@);
                lemma_position(view, name@, i as int);
            }
            return Some(i);
        }
        i = i + 1;
    }
    proof {
        lemma_no_position(view, name@);
    }
    None
}

fn contains_string(items: &Vec<String>, name: &String) -> (found: bool)
    ensures
        found == strings_view(items@).contains(name@),
{
    let mut i: usize = 0;
    while i < items.len()
        invariant
            i <= items@.len(),
            forall|k: int| 0 <= k < i ==> items@[k]@ != name@,
        decreases items@.len() - i,
    {
        if crate::text::same_text(items[i].as_str(), name.as_str()) {
            assert(strings_view(items@)[i as int] == name@);
            return true;
        }
        i = i + 1;
    }
    proof {
        if strings_view(items@).contains(name@) {
            let k = choose|k: int| 0 <= k < strings_view(items@).len() && strings_view(items@)[k] == name@;
            assert(items@[k]@ == name@);
        }
    }
    false
}

impl TuiApp {
    /// The patch the focused pane's cursor is on.
    pub fn patch_select_selected_patch_name(&self) -> (name: Option<String>)
        ensures
            match name {
                Some(n) => spec_selected_patch_name(self@.patches) == Some(n@),
                None => spec_selected_patch_name(self@.patches) is None,
            },
    {
        let cursor = match self.patch_select.focus {
            PatchSelectPane::Patches => self.patch_select.cursor,
            PatchSelectPane::Favorites => self.patch_select.favorites_cursor,
        };
        self.patch_select_patch_name_for_selection(self.patch_select.focus, cursor)
    }

    /// The patch at `cursor` in the `focus` pane, if there is one.
    pub fn patch_select_patch_name_for_selection(&self, focus: PatchSelectPane, cursor: usize) -> (name: Option<
        String,
    >)
        ensures
            match name {
                Some(n) => spec_name_for_selection(self@.patches, focus, cursor as nat) == Some(n@),
                None => spec_name_for_selection(self@.patches, focus, cursor as nat) is None,
            },
    {
        let items = match focus {
            PatchSelectPane::Patches => &self.patch_select.filtered,
            PatchSelectPane::Favorites => &self.patch_select.favorite_items,
        };
        if cursor < items.len() {
            assert(strings_view(items@)[cursor as int] == items@[cursor as int]@);
            Some(copy_string(&items[cursor]))
        } else {
            None
        }
    }

    /// The favorites pane's items.
    pub fn patch_select_favorite_items(&self) -> (items: &[String])
        ensures
            strings_view(items@) == self@.patches.favorite_items,
    {
        self.patch_select.favorite_items.as_slice()
    }

    /// Plays the selected patch with the current line's phrase.
    pub fn preview_selected_patch(&mut self)
        ensures
            final(self).keyboard == old(self).keyboard,
            final(self)@ == spec_preview_selected_patch(old(self)@),
    {
        match self.patch_select_selected_patch_name() {
            Some(name) => {
                let ghost before = self.effects@;
                self.effects.push(AppEffect::PreviewPatch(name));
                assert(effects_view(self.effects@) =~= effects_view(before).push(self.effects@.last()@));
            },
            None => {},
        }
    }

    /// Brings both cursors inside their lists.
    pub fn sync_patch_select_states(&mut self)
        ensures
            final(self).keyboard == old(self).keyboard,
            final(self)@ == (TuiView { patches: spec_sync_states(old(self)@.patches), ..old(self)@ }),
    {
        if self.patch_select.filtered.len() == 0 {
            self.patch_select.cursor = 0;
            self.patch_select.selected = None;
        } else {
            if self.patch_select.cursor >= self.patch_select.filtered.len() {
                self.patch_select.cursor = self.patch_select.filtered.len() - 1;
            }
            self.patch_select.selected = Some(self.patch_select.cursor);
        }
        let favorites_len = self.patch_select.favorite_items.len();
        if favorites_len == 0 {
            self.patch_select.favorites_cursor = 0;
            self.patch_select.favorites_selected = None;
        } else {
            if self.patch_select.favorites_cursor >= favorites_len {
                self.patch_select.favorites_cursor = favorites_len - 1;
            }
            self.patch_select.favorites_selected = Some(self.patch_select.favorites_cursor);
        }
    }

    pub fn move_patch_cursor_by(&mut self, delta: isize)
        ensures
            final(self).keyboard == old(self).keyboard,
            final(self)@ == spec_move_patch_cursor(old(self)@, delta),
    {
        if self.patch_select.filtered.len() == 0 {
            return;
        }
        let max_cursor = (self.patch_select.filtered.len() - 1) as i128;
        let target = self.patch_select.cursor as i128 + delta as i128;
        let next: usize = if target < 0 {
            0
        } else if target > max_cursor {
            max_cursor as usize
        } else {
            target as usize
        };
        if next != self.patch_select.cursor {
            self.patch_select.cursor = next;
            self.patch_select.selected = Some(next);
            self.preview_selected_patch();
        }
    }

    pub fn move_patch_favorites_cursor_by(&mut self, delta: isize)
        ensures
            final(self).keyboard == old(self).keyboard,
            final(self)@ == spec_move_favorites_cursor(old(self)@, delta),
    {
        if self.patch_select.favorite_items.len() == 0 {
            return;
        }
        let max_cursor = (self.patch_select.favorite_items.len() - 1) as i128;
        let target = self.patch_select.favorites_cursor as i128 + delta as i128;
        let next: usize = if target < 0 {
            0
        } else if target > max_cursor {
            max_cursor as usize
        } else {
            target as usize
        };
        if next != self.patch_select.favorites_cursor {
            self.patch_select.favorites_cursor = next;
            self.patch_select.favorites_selected = Some(next);
            self.preview_selected_patch();
        }
    }

    /// Moves the cursor of the focused pane.
    pub fn move_patch_select_selection_by(&mut self, delta: isize)
        ensures
            final(self).keyboard == old(self).keyboard,
            final(self)@ == spec_move_selection(old(self)@, delta),
    {
        match self.patch_select.focus {
            PatchSelectPane::Patches => self.move_patch_cursor_by(delta),
            PatchSelectPane::Favorites => self.move_patch_favorites_cursor_by(delta),
        }
    }

    /// Switches pane; the patch selected there is previewed.
    pub fn set_patch_select_focus(&mut self, focus: PatchSelectPane)
        ensures
            final(self).keyboard == old(self).keyboard,
            final(self)@ == spec_set_focus(old(self)@, focus),
    {
        self.patch_select.focus = focus;
        self.sync_patch_select_states();
        self.preview_selected_patch();
    }

    /// Remembers the scan order before the list is sorted another way.
    pub fn ensure_patch_select_source_order(&mut self)
        ensures
            final(self).keyboard == old(self).keyboard,
            final(self)@ == (if old(self)@.patches.source_order.len() == 0 {
                TuiView {
                    patches: PatchSelectView { source_order: old(self)@.patches.all, ..old(self)@.patches },
                    ..old(self)@
                }
            } else {
                old(self)@
            }),
    {
        if self.patch_select.source_order.len() == 0 {
            self.patch_select.source_order = copy_pairs(&self.patch_select.all);
            assert(pairs_view(self.patch_select.source_order@).len() == 0 ==> true);
        } else {
            assert(pairs_view(self.patch_select.source_order@).len() > 0);
        }
    }

    /// The patches of the favorite order that have a favorite phrase, each once.
    pub fn rebuild_patch_select_favorite_items(&self) -> (items: Vec<String>)
        ensures
            strings_view(items@) == spec_favorite_items(
                self@.patches.favorite_patches,
                self@.patches.patches_with_favorites,
            ),
    {
        let order = &self.patch_select.favorite_patches;
        let ghost with = strings_view(self.patch_select.patches_with_favorites@);
        let mut items: Vec<String> = Vec::new();
        let mut i: usize = 0;
        while i < order.len()
            invariant
                i <= order@.len(),
                with == strings_view(self.patch_select.patches_with_favorites@),
                strings_view(items@) == spec_favorite_items(strings_view(order@.subrange(0, i as int)), with),
            decreases order@.len() - i,
        {
            let ghost prefix = strings_view(order@.subrange(0, i as int));
            let ghost next = strings_view(order@.subrange(0, i + 1));
            proof {
                assert(next.drop_last() =~= prefix);
                assert(next.last() == order@[i as int]@);
            }
            if contains_string(&self.patch_select.patches_with_favorites, &order[i]) && !contains_string(
                &items,
                &order[i],
            ) {
                let ghost before = items@;
                items.push(copy_string(&order[i]));
                proof {
                    assert(strings_view(items@) =~= strings_view(before).push(order@[i as int]@));
                }
            }
            i = i + 1;
        }
        assert(order@.subrange(0, order@.len() as int) =~= order@);
        items
    }

    /// Rebuilds the favorites pane.
    pub fn refresh_patch_select_favorites(&mut self)
        ensures
            final(self).keyboard == old(self).keyboard,
            final(self)@ == (TuiView {
                patches: PatchSelectView {
                    favorite_items: spec_favorite_items(
                        old(self)@.patches.favorite_patches,
                        old(self)@.patches.patches_with_favorites,
                    ),
                    ..old(self)@.patches
                },
                ..old(self)@
            }),
    {
        self.patch_select.favorite_items = self.rebuild_patch_select_favorite_items();
    }

    /// The query changed: the patch pane shows the matches from its top.
    pub fn update_patch_filter(&mut self)
        ensures
            final(self).keyboard == old(self).keyboard,
            final(self)@ == spec_update_patch_filter(old(self)@),
    {
        self.patch_select.filtered = filter_patches(self.patch_select.all.as_slice(), self.patch_select.query.as_str());
        self.patch_select.cursor = 0;
        self.sync_patch_select_states();
        self.preview_selected_patch();
    }

    /// Opens the list (on the scanned patches when the scan is ready) with the
    /// cursor on `initial_patch_name` when it is listed.
    /// `line_patch_name` is the patch the current line names (see
    /// `CurrentLine`); the list opens on it when no name is asked for.
    pub fn start_patch_select_with_initial_patch_name(
        &mut self,
        initial_patch_name: Option<String>,
        line_patch_name: Option<String>,
    )
        ensures
            final(self).keyboard == old(self).keyboard,
            final(self)@ == spec_start_patch_select(
                old(self)@,
                spec_source_pairs(old(self)@),
                opening_name(opt_view(initial_patch_name), opt_view(line_patch_name)),
            ),
    {
        let pairs = match &self.patch_load_state {
            PatchLoadState::Ready(pairs) => copy_pairs(pairs),
            _ => copy_pairs(&self.patch_select.source_order),
        };
        let name = match initial_patch_name {
            Some(n) => Some(n),
            None => line_patch_name,
        };
        self.start_patch_select_with_pairs(&pairs, name);
    }

    fn start_patch_select_with_pairs(&mut self, pairs: &Vec<(String, String)>, initial: Option<String>)
        ensures
            final(self).keyboard == old(self).keyboard,
            final(self)@ == spec_start_patch_select(old(self)@, pairs_view(pairs@), match initial {
                Some(n) => Some(n@),
                None => None,
            }),
    {
        let ghost s = self@;
        let shown = if self.patch_select.category_order {
            copy_pairs(&self.patch_select.category_sorted)
        } else {
            copy_pairs(pairs)
        };
        self.patch_select.source_order = copy_pairs(pairs);
        let pairs = &shown;
        self.patch_select.all = copy_pairs(pairs);
        self.patch_select.query = String::new();
        let mut names: Vec<String> = Vec::new();
        let mut position: Option<usize> = None;
        let mut i: usize = 0;
        while i < pairs.len()
            invariant
                i <= pairs@.len(),
                strings_view(names@) == display_names(pairs_view(pairs@.subrange(0, i as int))),
                match position {
                    Some(k) => match initial {
                        Some(name) => is_first_position(display_names(pairs_view(pairs@)), name@, k as int),
                        None => false,
                    },
                    None => match initial {
                        Some(name) => forall|k: int| 0 <= k < i ==> #[trigger] pairs@[k].0@ != name@,
                        None => true,
                    },
                },
            decreases pairs@.len() - i,
        {
            let ghost before = names@;
            names.push(copy_string(&pairs[i].0));
            proof {
                assert(strings_view(names@) =~= strings_view(before).push(pairs@[i as int].0@));
                assert(display_names(pairs_view(pairs@.subrange(0, i + 1))) =~= display_names(
                    pairs_view(pairs@.subrange(0, i as int)),
                ).push(pairs@[i as int].0@));
            }
            if position.is_none() {
                match &initial {
                    Some(name) => {
                        if crate::text::same_text(pairs[i].0.as_str(), name.as_str()) {
                            position = Some(i);
                            proof {
                                let names_all = display_names(pairs_view(pairs@));
                                assert(names_all[i as int] == name@);
                                assert forall|k: int| 0 <= k < i implies #[trigger] names_all[k] != name@ by {
                                    assert(names_all[k] == pairs@[k].0@);
                                }
                            }
                        }
                    },
                    None => {},
                }
            }
            i = i + 1;
        }
        proof {
            assert(pairs@.subrange(0, pairs@.len() as int) =~= pairs@);
            let names_all = display_names(pairs_view(pairs@));
            match initial {
                Some(name) => match position {
                    Some(k) => lemma_position(names_all, name@, k as int),
                    None => {
                        assert forall|k: int| 0 <= k < names_all.len() implies #[trigger] names_all[k] != name@ by {
                            assert(names_all[k] == pairs@[k].0@);
                        }
                        lemma_no_position(names_all, name@);
                    },
                },
                None => {},
            }
        }
        self.patch_select.filtered = names;
        self.patch_select.focus = PatchSelectPane::Patches;
        self.patch_select.filter_active = false;
        self.patch_select.cursor = match position {
            Some(k) => k,
            None => 0,
        };
        self.refresh_patch_select_favorites();
        self.patch_select.favorites_cursor = 0;
        self.patch_select.selected = None;
        self.patch_select.favorites_selected = None;
        self.sync_patch_select_states();
        self.mode = Mode::PatchSelect;
    }

    /// `t`: opens the patch list with the cursor on `initial_patch_name`, or
    /// shows why it cannot open (no patch folders, still loading, the scan
    /// failed, no patches found).
    pub fn open_patch_select_overlay(&mut self, initial_patch_name: Option<String>, line_patch_name: Option<String>)
        ensures
            final(self).keyboard == old(self).keyboard,
            final(self)@ == spec_open_patch_select(
                old(self)@,
                opening_name(opt_view(initial_patch_name), opt_view(line_patch_name)),
            ),
    {
        if !self.patch_dirs_configured {
            self.set_play_error("patches_dirs が設定されていません".to_owned());
            return;
        }
        let pairs = match &self.patch_load_state {
            PatchLoadState::Loading => {
                self.set_play_error("パッチを読み込み中です...".to_owned());
                return;
            },
            PatchLoadState::Failed(e) => {
                let message = concat("パッチの読み込みに失敗: ", e.as_str());
                self.set_play_error(message);
                return;
            },
            PatchLoadState::Ready(pairs) => copy_pairs(pairs),
        };
        if pairs.len() == 0 {
            self.set_play_error("patches_dirs にパッチが見つかりません".to_owned());
            return;
        }
        self.start_patch_select_with_initial_patch_name(initial_patch_name, line_patch_name);
    }

    /// Opens the patch list without a patch to show first.
    pub fn start_patch_select(&mut self, line_patch_name: Option<String>)
        ensures
            final(self).keyboard == old(self).keyboard,
            final(self)@ == spec_start_patch_select(old(self)@, spec_source_pairs(old(self)@), opt_view(line_patch_name)),
    {
        self.start_patch_select_with_initial_patch_name(None, line_patch_name);
    }
}


/// The query a random pick draws by: the trimmed query, none when it is blank.
pub open spec fn selection_query(query: Option<Seq<char>>) -> Option<Seq<char>> {
    match query {
        Some(q) => if trimmed(q).len() > 0 { Some(trimmed(q)) } else { None },
        None => None,
    }
}

/// The patches a random pick draws from, with the query it draws by: the
/// patches that match the query, or all of them for no (or a blank) query;
/// or why no pick can be made.
pub open spec fn spec_random_patch_candidates(s: TuiView, query: Option<Seq<char>>) -> Result<
    (Option<Seq<char>>, Seq<Seq<char>>),
    Seq<char>,
> {
    if !s.patch_dirs_configured {
        Err(not_configured_message())
    } else {
        match s.patch_load {
            PatchLoadView::Loading => Err(loading_message()),
            PatchLoadView::Failed(e) => Err(load_failed_prefix() + e),
            PatchLoadView::Ready(pairs) => if pairs.len() == 0 {
                Err(no_patches_message())
            } else {
                match selection_query(query) {
                    Some(q) => Ok((Some(q), filtered_patches(pairs, query_terms(q)))),
                    None => Ok((None, display_names(pairs))),
                }
            },
        }
    }
}

/// The display names of the pairs.
fn pair_display_names(pairs: &Vec<(String, String)>) -> (names: Vec<String>)
    ensures
        strings_view(names@) == display_names(pairs_view(pairs@)),
{
    let mut names: Vec<String> = Vec::new();
    let mut i: usize = 0;
    while i < pairs.len()
        invariant
            i <= pairs@.len(),
            strings_view(names@) == display_names(pairs_view(pairs@.subrange(0, i as int))),
        decreases pairs@.len() - i,
    {
        let ghost before = names@;
        names.push(copy_string(&pairs[i].0));
        proof {
            assert(strings_view(names@) =~= strings_view(before).push(pairs@[i as int].0@));
            assert(display_names(pairs_view(pairs@.subrange(0, i + 1))) =~= display_names(
                pairs_view(pairs@.subrange(0, i as int)),
            ).push(pairs@[i as int].0@));
        }
        i = i + 1;
    }
    assert(pairs@.subrange(0, pairs@.len() as int) =~= pairs@);
    names
}

impl TuiApp {
    /// The patches a random pick with `query` draws from, and the trimmed query
    /// it draws by (none for no or a blank query); see
    /// `spec_random_patch_candidates` for when no pick can be made. Which of
    /// them is drawn is the query's random deck's to say.
    pub fn random_patch_candidates(&self, query: Option<&str>) -> (candidates: Result<
        (Option<String>, Vec<String>),
        String,
    >)
        ensures
            match candidates {
                Ok((q, names)) => spec_random_patch_candidates(self@, opt_str_view(query)) == Ok::<
                    (Option<Seq<char>>, Seq<Seq<char>>),
                    Seq<char>,
                >((opt_view(q), strings_view(names@))),
                Err(e) => spec_random_patch_candidates(self@, opt_str_view(query)) == Err::<
                    (Option<Seq<char>>, Seq<Seq<char>>),
                    Seq<char>,
                >(e@),
            },
    {
        proof {
            reveal_strlit("patches_dirs が設定されていません");
            reveal_strlit("パッチを読み込み中です...");
            reveal_strlit("patches_dirs にパッチが見つかりません");
        }
        if !self.patch_dirs_configured {
            return Err("patches_dirs が設定されていません".to_owned());
        }
        let pairs = match &self.patch_load_state {
            PatchLoadState::Loading => {
                return Err("パッチを読み込み中です...".to_owned());
            },
            PatchLoadState::Failed(e) => {
                return Err(concat("パッチの読み込みに失敗: ", e.as_str()));
            },
            PatchLoadState::Ready(pairs) => pairs,
        };
        if pairs.len() == 0 {
            return Err("patches_dirs にパッチが見つかりません".to_owned());
        }
        let selection = match query {
            Some(q) => {
                let t = trim(q);
                if t.unicode_len() > 0 { Some(t) } else { None }
            },
            None => None,
        };
        match selection {
            Some(q) => {
                let names = filter_patches(pairs.as_slice(), q.as_str());
                Ok((Some(q), names))
            },
            None => Ok((None, pair_display_names(pairs))),
        }
    }
}

/// The entry at `cursor`, if the list has one there.
pub open spec fn entry_at(items: Seq<Seq<char>>, cursor: nat) -> Option<Seq<char>> {
    if cursor < items.len() { Some(items[cursor as int]) } else { None }
}

/// Where a cursor goes after the list changed: onto the entry it was on, if
/// that is still listed, else onto the first one.
pub open spec fn follow_entry(items: Seq<Seq<char>>, entry: Option<Seq<char>>) -> nat {
    match entry {
        Some(name) => if spec_position(items, name) >= 0 { spec_position(items, name) as nat } else { 0 },
        None => 0,
    }
}

/// `Ctrl+s`: the other order is shown (category order, or the scan order
/// kept aside), filtered by the current query; both cursors stay on the
/// patch they were on, and the selected patch is previewed.
pub open spec fn spec_toggle_sort_order(s: TuiView) -> TuiView {
    let p0 = s.patches;
    let source = if p0.source_order.len() == 0 { p0.all } else { p0.source_order };
    let category = !p0.category_order;
    let all = if category { p0.category_sorted } else { source };
    let filtered = filtered_patches(all, query_terms(p0.query));
    let favorites = spec_favorite_items(p0.favorite_patches, p0.patches_with_favorites);
    let p = PatchSelectView {
        source_order: source,
        category_order: category,
        all,
        filtered,
        favorite_items: favorites,
        cursor: follow_entry(filtered, entry_at(p0.filtered, p0.cursor)),
        favorites_cursor: follow_entry(favorites, entry_at(p0.favorite_items, p0.favorites_cursor)),
        ..p0
    };
    spec_preview_selected_patch(TuiView { patches: spec_sync_states(p), ..s })
}

impl TuiApp {
    /// `Ctrl+s`: switches between scan order and category order.
    pub fn toggle_patch_select_sort_order(&mut self)
        ensures
            final(self).keyboard == old(self).keyboard,
            final(self)@ == spec_toggle_sort_order(old(self)@),
    {
        self.ensure_patch_select_source_order();
        let selected_patch = if self.patch_select.cursor < self.patch_select.filtered.len() {
            Some(copy_string(&self.patch_select.filtered[self.patch_select.cursor]))
        } else {
            None
        };
        let selected_favorite = if self.patch_select.favorites_cursor < self.patch_select.favorite_items.len() {
            Some(copy_string(&self.patch_select.favorite_items[self.patch_select.favorites_cursor]))
        } else {
            None
        };
        self.patch_select.category_order = !self.patch_select.category_order;
        self.patch_select.all = if self.patch_select.category_order {
            copy_pairs(&self.patch_select.category_sorted)
        } else {
            copy_pairs(&self.patch_select.source_order)
        };
        self.patch_select.filtered = filter_patches(self.patch_select.all.as_slice(), self.patch_select.query.as_str());
        self.refresh_patch_select_favorites();
        self.patch_select.cursor = match &selected_patch {
            Some(name) => match position_of(&self.patch_select.filtered, name) {
                Some(k) => k,
                None => 0,
            },
            None => 0,
        };
        self.patch_select.favorites_cursor = match &selected_favorite {
            Some(name) => match position_of(&self.patch_select.favorite_items, name) {
                Some(k) => k,
                None => 0,
            },
            None => 0,
        };
        self.sync_patch_select_states();
        self.preview_selected_patch();
    }
}

/// A key pressed on the patch list.
#[derive(Clone, Copy, Debug, PartialEq, Eq, Structural)]
pub enum PatchSelectKey {
    Esc,
    Enter,
    Backspace,
    Left,
    Right,
    Up,
    Down,
    PageUp,
    PageDown,
    Char(char),
    /// A character typed with Control held.
    Ctrl(char),
    Other,
}

/// What a key on the patch list leaves for the app to do.
#[derive(Clone, Debug, PartialEq, Eq)]
pub enum PatchSelectAction {
    Continue,
    /// The filter line takes the key; its new text comes back through
    /// `apply_patch_query_edit`.
    EditQuery,
    /// The filter line opened: it is shown with the current query.
    FocusFilter,
    /// `n`: open the notepad history.
    StartNotepadHistory,
    /// `f` / `Ctrl+f`: save the current phrase as a favorite of the selected
    /// patch; the new favorites come back through `set_patch_favorites`.
    AddPhraseFavorite,
    /// `Ctrl+s`: switch between scan order and category order.
    ToggleSortOrder,
}

pub ghost enum ActionView {
    Continue,
    EditQuery,
    FocusFilter,
    StartNotepadHistory,
    AddPhraseFavorite,
    ToggleSortOrder,
}

impl View for PatchSelectAction {
    type V = ActionView;

    open spec fn view(&self) -> ActionView {
        match self {
            PatchSelectAction::Continue => ActionView::Continue,
            PatchSelectAction::EditQuery => ActionView::EditQuery,
            PatchSelectAction::FocusFilter => ActionView::FocusFilter,
            PatchSelectAction::StartNotepadHistory => ActionView::StartNotepadHistory,
            PatchSelectAction::AddPhraseFavorite => ActionView::AddPhraseFavorite,
            PatchSelectAction::ToggleSortOrder => ActionView::ToggleSortOrder,
        }
    }
}

/// The filter line is being edited.
pub open spec fn spec_handle_patch_filter_key(s: TuiView, key: PatchSelectKey) -> (TuiView, ActionView) {
    match key {
        PatchSelectKey::Esc => (TuiView { mode: Mode::Normal, ..s }, ActionView::Continue),
        PatchSelectKey::Enter => (
            TuiView { patches: spec_sync_states(PatchSelectView { filter_active: false, ..s.patches }), ..s },
            ActionView::Continue,
        ),
        PatchSelectKey::Backspace => if s.patches.query.len() == 0 {
            (TuiView { patches: PatchSelectView { filter_active: false, ..s.patches }, ..s }, ActionView::Continue)
        } else {
            (s, ActionView::EditQuery)
        },
        PatchSelectKey::Char(c) => if c == '?' {
            (spec_enter_help(s), ActionView::Continue)
        } else {
            (s, ActionView::EditQuery)
        },
        _ => (s, ActionView::EditQuery),
    }
}

/// A key with Control held.
pub open spec fn spec_handle_patch_ctrl_key(s: TuiView, c: char) -> (TuiView, ActionView) {
    let lower = spec_ascii_lowercase(c);
    if lower == 'f' {
        (s, ActionView::AddPhraseFavorite)
    } else if lower == 'j' || lower == 'n' {
        (spec_move_selection(s, 1), ActionView::Continue)
    } else if lower == 'k' || lower == 'p' {
        (spec_move_selection(s, -1isize), ActionView::Continue)
    } else if lower == 's' {
        (s, ActionView::ToggleSortOrder)
    } else {
        (s, ActionView::Continue)
    }
}

/// A plain character on the patch list.
pub open spec fn spec_handle_patch_char(s: TuiView, c: char, line_patch: Option<Seq<char>>) -> (TuiView, ActionView) {
    if c == 'n' {
        (s, ActionView::StartNotepadHistory)
    } else if c == 'p' {
        (spec_start_patch_phrase(s, spec_selected_patch_name(s.patches)), ActionView::Continue)
    } else if c == 't' {
        (spec_open_patch_select(s, opening_name(spec_selected_patch_name(s.patches), line_patch)), ActionView::Continue)
    } else if c == 'h' {
        (spec_set_focus(s, PatchSelectPane::Patches), ActionView::Continue)
    } else if c == 'l' {
        (spec_set_focus(s, PatchSelectPane::Favorites), ActionView::Continue)
    } else if c == 'j' {
        (spec_move_selection(s, 1), ActionView::Continue)
    } else if c == 'k' {
        (spec_move_selection(s, -1isize), ActionView::Continue)
    } else if c == 'f' {
        (s, ActionView::AddPhraseFavorite)
    } else if c == '/' {
        (
            TuiView {
                patches: spec_sync_states(
                    PatchSelectView { focus: PatchSelectPane::Patches, filter_active: true, ..s.patches },
                ),
                ..s
            },
            ActionView::FocusFilter,
        )
    } else if c == '?' {
        (spec_enter_help(s), ActionView::Continue)
    } else {
        (s, ActionView::Continue)
    }
}

/// On the patch list with its filter closed, `k` (like Up) moves the
/// selection one row up and `j` (like Down) one row down, when there is a row
/// there; the key answers `Continue`.
pub proof fn j_and_k_move_the_patch_selection(s: TuiView, line_patch: Option<Seq<char>>, part_mml: Seq<Seq<char>>)
    requires
        !s.patches.filter_active,
        s.patches.focus == PatchSelectPane::Patches,
        s.patches.cursor < s.patches.filtered.len(),
    ensures
        ({
            let (up, action) = spec_handle_patch_select(s, PatchSelectKey::Char('k'), 1, line_patch, part_mml);
            s.patches.cursor > 0 ==> up.patches.cursor == s.patches.cursor - 1 && up.patches.selected == Some(
                (s.patches.cursor - 1) as nat,
            ) && up.patches.filtered == s.patches.filtered && action == ActionView::Continue
        }),
        ({
            let (down, action) = spec_handle_patch_select(s, PatchSelectKey::Char('j'), 1, line_patch, part_mml);
            s.patches.cursor + 1 < s.patches.filtered.len() ==> down.patches.cursor == s.patches.cursor + 1
                && down.patches.selected == Some((s.patches.cursor + 1) as nat) && down.patches.filtered
                == s.patches.filtered && action == ActionView::Continue
        }),
        s.patches.cursor == 0 ==> spec_handle_patch_select(s, PatchSelectKey::Char('k'), 1, line_patch, part_mml).0.patches.cursor
            == 0,
        spec_handle_patch_select(s, PatchSelectKey::Char('k'), 1, line_patch, part_mml) == spec_handle_patch_select(
            s,
            PatchSelectKey::Up,
            1,
            line_patch,
            part_mml,
        ),
        spec_handle_patch_select(s, PatchSelectKey::Char('j'), 1, line_patch, part_mml) == spec_handle_patch_select(
            s,
            PatchSelectKey::Down,
            1,
            line_patch,
            part_mml,
        ),
{
}

/// On the favorites pane with the filter closed, `k` moves the favorites
/// selection one row up and `j` one row down, when there is a row there, and
/// the patch list's own cursor stays where it is.
pub proof fn j_and_k_move_the_favorites_selection(s: TuiView, line_patch: Option<Seq<char>>, part_mml: Seq<Seq<char>>)
    requires
        !s.patches.filter_active,
        s.patches.focus == PatchSelectPane::Favorites,
        s.patches.favorites_cursor < s.patches.favorite_items.len(),
    ensures
        ({
            let (up, action) = spec_handle_patch_select(s, PatchSelectKey::Char('k'), 1, line_patch, part_mml);
            s.patches.favorites_cursor > 0 ==> up.patches.favorites_cursor == s.patches.favorites_cursor - 1
                && up.patches.favorites_selected == Some((s.patches.favorites_cursor - 1) as nat)
                && up.patches.cursor == s.patches.cursor && action == ActionView::Continue
        }),
        ({
            let (down, action) = spec_handle_patch_select(s, PatchSelectKey::Char('j'), 1, line_patch, part_mml);
            s.patches.favorites_cursor + 1 < s.patches.favorite_items.len() ==> down.patches.favorites_cursor
                == s.patches.favorites_cursor + 1 && down.patches.favorites_selected == Some(
                (s.patches.favorites_cursor + 1) as nat,
            ) && down.patches.cursor == s.patches.cursor && action == ActionView::Continue
        }),
{
}

/// The current line once the patch `name` is applied to it (see
/// `spec_line_with_patch`; `part_mml` is what each of its parts holds as MML),
/// and the new line recorded in the notepad history.
pub open spec fn spec_apply_patch_to_line(s: TuiView, name: Seq<char>, part_mml: Seq<Seq<char>>) -> TuiView {
    let line = spec_line_with_patch(patch_json_with(json_string_literal(name)), part_mml);
    TuiView {
        editor: EditorView { lines: s.editor.lines.update(s.editor.cursor as int, line), ..s.editor },
        effects: s.effects.push(EffectView::RecordNotepadHistory(line)),
        ..s
    }
}

/// A key on the patch list; `page` is how many rows a page key moves;
/// `line_patch` and `part_mml` are what the current line holds (see
/// `CurrentLine`).
pub open spec fn spec_handle_patch_select(
    s: TuiView,
    key: PatchSelectKey,
    page: isize,
    line_patch: Option<Seq<char>>,
    part_mml: Seq<Seq<char>>,
) -> (TuiView, ActionView) {
    if s.patches.filter_active {
        spec_handle_patch_filter_key(s, key)
    } else {
        match key {
            PatchSelectKey::Ctrl(c) => spec_handle_patch_ctrl_key(s, c),
            PatchSelectKey::Esc => (TuiView { mode: Mode::Normal, ..s }, ActionView::Continue),
            PatchSelectKey::Enter => (
                match spec_selected_patch_name(s.patches) {
                    Some(name) => spec_apply_patch_to_line(TuiView { mode: Mode::Normal, ..s }, name, part_mml),
                    None => TuiView { mode: Mode::Normal, ..s },
                },
                ActionView::Continue,
            ),
            PatchSelectKey::Left => (spec_set_focus(s, PatchSelectPane::Patches), ActionView::Continue),
            PatchSelectKey::Right => (spec_set_focus(s, PatchSelectPane::Favorites), ActionView::Continue),
            PatchSelectKey::Down => (spec_move_selection(s, 1), ActionView::Continue),
            PatchSelectKey::Up => (spec_move_selection(s, -1isize), ActionView::Continue),
            PatchSelectKey::PageDown => (spec_move_selection(s, page), ActionView::Continue),
            PatchSelectKey::PageUp => (spec_move_selection(s, -page as isize), ActionView::Continue),
            PatchSelectKey::Char(c) => spec_handle_patch_char(s, c, line_patch),
            _ => (s, ActionView::Continue),
        }
    }
}

impl TuiApp {
    /// Applies the patch `patch_name` to the current line (see
    /// `spec_line_with_patch`); `part_mml` is what each part of the line holds
    /// as MML.
    pub fn replace_current_line_patch(&mut self, patch_name: &str, part_mml: &[String])
        requires
            tui_wf(old(self)@),
        ensures
            final(self).keyboard == old(self).keyboard,
            final(self)@ == (TuiView {
                editor: EditorView {
                    lines: old(self)@.editor.lines.update(
                        old(self)@.editor.cursor as int,
                        spec_line_with_patch(patch_json_with(json_string_literal(patch_name@)), strings_view(part_mml@)),
                    ),
                    ..old(self)@.editor
                },
                ..old(self)@
            }),
    {
        let json = build_patch_json(patch_name);
        let line = line_with_patch(json.as_str(), part_mml);
        let ghost before = self.editor.lines@;
        let cursor = self.editor.cursor;
        self.editor.lines.set(cursor, line);
        assert(strings_view(self.editor.lines@) =~= strings_view(before).update(cursor as int, line@));
    }
}

impl TuiApp {
    /// A key while the filter line is edited.
    fn handle_patch_select_filter_input(&mut self, key: PatchSelectKey) -> (action: PatchSelectAction)
        requires
            old(self)@.patches.filter_active,
        ensures
            final(self).keyboard == old(self).keyboard,
            final(self)@ == spec_handle_patch_filter_key(old(self)@, key).0,
            action@ == spec_handle_patch_filter_key(old(self)@, key).1,
    {
        match key {
            PatchSelectKey::Esc => {
                self.mode = Mode::Normal;
                PatchSelectAction::Continue
            },
            PatchSelectKey::Enter => {
                self.patch_select.filter_active = false;
                self.sync_patch_select_states();
                PatchSelectAction::Continue
            },
            PatchSelectKey::Backspace => {
                if self.patch_select.query.unicode_len() == 0 {
                    self.patch_select.filter_active = false;
                    PatchSelectAction::Continue
                } else {
                    PatchSelectAction::EditQuery
                }
            },
            PatchSelectKey::Char(c) => {
                if c == '?' {
                    self.enter_help();
                    PatchSelectAction::Continue
                } else {
                    PatchSelectAction::EditQuery
                }
            },
            _ => PatchSelectAction::EditQuery,
        }
    }

    /// A key with Control held.
    fn handle_patch_select_with_ctrl(&mut self, c: char) -> (action: PatchSelectAction)
        ensures
            final(self).keyboard == old(self).keyboard,
            final(self)@ == spec_handle_patch_ctrl_key(old(self)@, c).0,
            action@ == spec_handle_patch_ctrl_key(old(self)@, c).1,
    {
        let lower = ascii_lowercase(c);
        if lower == 'f' {
            PatchSelectAction::AddPhraseFavorite
        } else if lower == 'j' || lower == 'n' {
            self.move_patch_select_selection_by(1);
            PatchSelectAction::Continue
        } else if lower == 'k' || lower == 'p' {
            self.move_patch_select_selection_by(-1);
            PatchSelectAction::Continue
        } else if lower == 's' {
            PatchSelectAction::ToggleSortOrder
        } else {
            PatchSelectAction::Continue
        }
    }

    /// A plain character on the patch list.
    fn handle_patch_select_char(&mut self, c: char, line_patch_name: Option<String>) -> (action: PatchSelectAction)
        ensures
            final(self).keyboard == old(self).keyboard,
            final(self)@ == spec_handle_patch_char(old(self)@, c, opt_view(line_patch_name)).0,
            action@ == spec_handle_patch_char(old(self)@, c, opt_view(line_patch_name)).1,
    {
        if c == 'n' {
            PatchSelectAction::StartNotepadHistory
        } else if c == 'p' {
            let name = self.patch_select_selected_patch_name();
            self.start_patch_phrase_for_patch_name(name);
            PatchSelectAction::Continue
        } else if c == 't' {
            let name = self.patch_select_selected_patch_name();
            self.open_patch_select_overlay(name, line_patch_name);
            PatchSelectAction::Continue
        } else if c == 'h' {
            self.set_patch_select_focus(PatchSelectPane::Patches);
            PatchSelectAction::Continue
        } else if c == 'l' {
            self.set_patch_select_focus(PatchSelectPane::Favorites);
            PatchSelectAction::Continue
        } else if c == 'j' {
            self.move_patch_select_selection_by(1);
            PatchSelectAction::Continue
        } else if c == 'k' {
            self.move_patch_select_selection_by(-1);
            PatchSelectAction::Continue
        } else if c == 'f' {
            PatchSelectAction::AddPhraseFavorite
        } else if c == '/' {
            self.patch_select.focus = PatchSelectPane::Patches;
            self.patch_select.filter_active = true;
            self.sync_patch_select_states();
            PatchSelectAction::FocusFilter
        } else if c == '?' {
            self.enter_help();
            PatchSelectAction::Continue
        } else {
            PatchSelectAction::Continue
        }
    }

    /// A key on the patch list: the filter line takes it while it is open;
    /// otherwise it moves the cursors, switches pane, opens the filter, help
    /// or the phrase list, or closes the list (with `Enter`, choosing the
    /// selected patch). `page` is how many rows a page key moves.
    pub fn handle_patch_select(&mut self, key: PatchSelectKey, page: usize, line: &CurrentLine) -> (action:
        PatchSelectAction)
        requires
            page <= isize::MAX,
            !old(self)@.patches.filter_active && key == PatchSelectKey::Enter ==> tui_wf(old(self)@),
        ensures
            final(self).keyboard == old(self).keyboard,
            final(self)@ == spec_handle_patch_select(
                old(self)@,
                key,
                page as isize,
                opt_view(line.patch_name),
                strings_view(line.part_mml@),
            ).0,
            action@ == spec_handle_patch_select(
                old(self)@,
                key,
                page as isize,
                opt_view(line.patch_name),
                strings_view(line.part_mml@),
            ).1,
    {
        if self.patch_select.filter_active {
            return self.handle_patch_select_filter_input(key);
        }
        match key {
            PatchSelectKey::Ctrl(c) => self.handle_patch_select_with_ctrl(c),
            PatchSelectKey::Esc => {
                self.mode = Mode::Normal;
                PatchSelectAction::Continue
            },
            PatchSelectKey::Enter => {
                let selected = self.patch_select_selected_patch_name();
                self.mode = Mode::Normal;
                if let Some(name) = selected {
                    let ghost s1 = self@;
                    assert(tui_wf(s1));
                    self.replace_current_line_patch(name.as_str(), line.part_mml.as_slice());
                    assert(self@.editor.lines.len() == s1.editor.lines.len());
                    assert(self.editor.cursor < self.editor.lines@.len());
                    let recorded = copy_string(&self.editor.lines[self.editor.cursor]);
                    assert(recorded@ == self@.editor.lines[self.editor.cursor as int]);
                    self.push_effect(AppEffect::RecordNotepadHistory(recorded));
                    assert(self@ == spec_apply_patch_to_line(s1, name@, strings_view(line.part_mml@)));
                }
                PatchSelectAction::Continue
            },
            PatchSelectKey::Left => {
                self.set_patch_select_focus(PatchSelectPane::Patches);
                PatchSelectAction::Continue
            },
            PatchSelectKey::Right => {
                self.set_patch_select_focus(PatchSelectPane::Favorites);
                PatchSelectAction::Continue
            },
            PatchSelectKey::Down => {
                self.move_patch_select_selection_by(1);
                PatchSelectAction::Continue
            },
            PatchSelectKey::Up => {
                self.move_patch_select_selection_by(-1);
                PatchSelectAction::Continue
            },
            PatchSelectKey::PageDown => {
                self.move_patch_select_selection_by(page as isize);
                PatchSelectAction::Continue
            },
            PatchSelectKey::PageUp => {
                self.move_patch_select_selection_by(-(page as isize));
                PatchSelectAction::Continue
            },
            PatchSelectKey::Char(c) => {
                let line_patch = match &line.patch_name {
                    Some(n) => Some(copy_string(n)),
                    None => None,
                };
                self.handle_patch_select_char(c, line_patch)
            },
            _ => PatchSelectAction::Continue,
        }
    }

    /// The filter line's text after a key: a changed query filters the list
    /// anew; an unchanged one changes nothing.
    pub fn apply_patch_query_edit(&mut self, next_query: String)
        ensures
            final(self).keyboard == old(self).keyboard,
            final(self)@ == (if next_query@ == old(self)@.patches.query {
                old(self)@
            } else {
                spec_update_patch_filter(
                    TuiView { patches: PatchSelectView { query: next_query@, ..old(self)@.patches }, ..old(self)@ },
                )
            }),
    {
        if crate::text::same_text(next_query.as_str(), self.patch_select.query.as_str()) {
            return;
        }
        self.patch_select.query = next_query;
        self.update_patch_filter();
    }

    /// A favorite phrase was saved: the favorites pane is rebuilt from the new
    /// favorite order, the cursors are brought inside their lists, and the
    /// selected patch is previewed.
    pub fn set_patch_favorites(&mut self, favorite_patches: Vec<String>, patches_with_favorites: Vec<String>)
        ensures
            final(self).keyboard == old(self).keyboard,
            final(self)@ == spec_preview_selected_patch(
                TuiView {
                    patches: spec_sync_states(
                        PatchSelectView {
                            favorite_patches: strings_view(favorite_patches@),
                            patches_with_favorites: strings_view(patches_with_favorites@),
                            favorite_items: spec_favorite_items(
                                strings_view(favorite_patches@),
                                strings_view(patches_with_favorites@),
                            ),
                            ..old(self)@.patches
                        },
                    ),
                    ..old(self)@
                },
            ),
    {
        self.patch_select.favorite_patches = favorite_patches;
        self.patch_select.patches_with_favorites = patches_with_favorites;
        self.refresh_patch_select_favorites();
        self.sync_patch_select_states();
        self.preview_selected_patch();
    }
}

/// The patch for the chord chart's bass preview, as far as it is known now.
#[derive(Clone, Debug, PartialEq, Eq)]
pub enum BassPatchResolution {
    Ready(String),
    Loading,
    CatalogError(String),
    NoCandidate,
}

pub ghost enum BassResolutionView {
    Ready(Seq<char>),
    Loading,
    CatalogError(Seq<char>),
    NoCandidate,
}

impl View for BassPatchResolution {
    type V = BassResolutionView;

    open spec fn view(&self) -> BassResolutionView {
        match self {
            BassPatchResolution::Ready(p) => BassResolutionView::Ready(p@),
            BassPatchResolution::Loading => BassResolutionView::Loading,
            BassPatchResolution::CatalogError(e) => BassResolutionView::CatalogError(e@),
            BassPatchResolution::NoCandidate => BassResolutionView::NoCandidate,
        }
    }
}

/// A saved bass patch wins at once; otherwise the scan decides: still loading,
/// failed, or the first bass candidate it found (none: no candidate).
pub open spec fn spec_resolve_bass_patch(
    saved: Option<Seq<char>>,
    load: PatchLoadView,
    bass_candidates: Seq<Seq<char>>,
) -> BassResolutionView {
    match saved {
        Some(p) => BassResolutionView::Ready(p),
        None => match load {
            PatchLoadView::Loading => BassResolutionView::Loading,
            PatchLoadView::Failed(e) => BassResolutionView::CatalogError(e),
            PatchLoadView::Ready(_) => if bass_candidates.len() > 0 {
                BassResolutionView::Ready(bass_candidates[0])
            } else {
                BassResolutionView::NoCandidate
            },
        },
    }
}

/// See `spec_resolve_bass_patch`; `bass_candidates` are the scan's patches in
/// the bass role, in catalog order.
pub fn resolve_bass_patch(saved_patch: Option<&str>, patch_load: &PatchLoadState, bass_candidates: &[String]) -> (resolution:
    BassPatchResolution)
    ensures
        resolution@ == spec_resolve_bass_patch(
            match saved_patch {
                Some(p) => Some(p@),
                None => None,
            },
            patch_load@,
            strings_view(bass_candidates@),
        ),
{
    match saved_patch {
        Some(p) => BassPatchResolution::Ready(p.to_owned()),
        None => match patch_load {
            PatchLoadState::Loading => BassPatchResolution::Loading,
            PatchLoadState::Failed(error) => BassPatchResolution::CatalogError(copy_string(error)),
            PatchLoadState::Ready(_) => {
                if bass_candidates.len() > 0 {
                    assert(strings_view(bass_candidates@)[0] == bass_candidates@[0]@);
                    BassPatchResolution::Ready(copy_string(&bass_candidates[0]))
                } else {
                    BassPatchResolution::NoCandidate
                }
            },
        },
    }
}

impl TuiApp {
    /// The bass preview patch: the chart's saved one, else the first bass
    /// candidate of the scan, without waiting for it.
    pub fn resolve_chord_chart_bass_patch(&self) -> (resolution: BassPatchResolution)
        ensures
            resolution@ == spec_resolve_bass_patch(
                match self.chord_chart_bass_patch {
                    Some(p) => Some(p@),
                    None => None,
                },
                self@.patch_load,
                strings_view(self.bass_candidates@),
            ),
    {
        let saved = match &self.chord_chart_bass_patch {
            Some(p) => Some(p.as_str()),
            None => None,
        };
        resolve_bass_patch(saved, &self.patch_load_state, self.bass_candidates.as_slice())
    }
}


/// A lowercase hexadecimal digit.
pub open spec fn hex_digit(n: u32) -> char {
    seq!['0', '1', '2', '3', '4', '5', '6', '7', '8', '9', 'a', 'b', 'c', 'd', 'e', 'f'][n as int]
}

/// How serde_json writes one character inside a JSON string: `"` and `\`
/// and the controls with a short escape get it, other controls below U+0020
/// are written `\u00XX`, and every other character stands as it is.
pub open spec fn json_escape(c: char) -> Seq<char> {
    if c == '"' {
        seq!['\\', '"']
    } else if c == '\\' {
        seq!['\\', '\\']
    } else if c == '\u{8}' {
        seq!['\\', 'b']
    } else if c == '\t' {
        seq!['\\', 't']
    } else if c == '\n' {
        seq!['\\', 'n']
    } else if c == '\u{c}' {
        seq!['\\', 'f']
    } else if c == '\r' {
        seq!['\\', 'r']
    } else if (c as u32) < 0x20 {
        seq!['\\', 'u', '0', '0', hex_digit((c as u32) / 16), hex_digit((c as u32) % 16)]
    } else {
        seq![c]
    }
}

/// The characters of `s`, each escaped.
pub open spec fn json_escaped(s: Seq<char>) -> Seq<char>
    decreases s.len(),
{
    if s.len() == 0 {
        Seq::empty()
    } else {
        json_escaped(s.drop_last()) + json_escape(s.last())
    }
}

/// What `serde_json::to_string` writes for a string: a JSON string literal.
pub open spec fn json_string_literal(s: Seq<char>) -> Seq<char> {
    seq!['"'] + json_escaped(s) + seq!['"']
}

/// The JSON string literal for `s`.
///
/// Trusted: calls `serde_json::to_string` on a `str`, which writes the string
/// between quotes with the escapes of its `ESCAPE` table (see
/// `json_escape`). It succeeds: serde_json fails only where a value's own
/// `Serialize` fails or a map has non-string keys, neither of which a `str`
/// can meet.
#[verifier::external_body]
fn json_quote(s: &str) -> (quoted: Option<String>)
    ensures
        quoted is Some,
        quoted.unwrap()@ == json_string_literal(s@),
{
    serde_json::to_string(s).ok()
}

/// The key under which a line names its patch.
pub open spec fn patch_json_key() -> Seq<char> {
    "Surge XT patch"@
}

/// The JSON object that names `quoted_name`'s patch at the start of a line.
pub open spec fn patch_json_with(quoted_name: Seq<char>) -> Seq<char> {
    "{\""@ + patch_json_key() + "\": "@ + quoted_name + "}"@
}

/// The JSON that names `patch_name` at the start of a notepad line: the name
/// as a JSON string.
pub fn build_patch_json(patch_name: &str) -> (json: String)
    ensures
        json@ == patch_json_with(json_string_literal(patch_name@)),
{
    let quoted = match json_quote(patch_name) {
        Some(q) => q,
        None => {
            let opened = concat("\"", patch_name);
            proof {
                reveal_strlit("\"");
            }
            concat(opened.as_str(), "\"")
        },
    };
    let head = concat("{\"", "Surge XT patch");
    let head = concat(head.as_str(), "\": ");
    let with_name = concat(head.as_str(), quoted.as_str());
    let json = concat(with_name.as_str(), "}");
    proof {
        reveal_strlit("{\"");
        reveal_strlit("Surge XT patch");
        reveal_strlit("\": ");
        reveal_strlit("}");
        reveal_strlit("\"");
    }
    json
}


/// The parts of `s` between semicolons, in order (empty parts included).
pub open spec fn split_semicolons(s: Seq<char>) -> Seq<Seq<char>>
    decreases s.len(),
{
    if s.len() == 0 {
        seq![Seq::<char>::empty()]
    } else {
        let parts = split_semicolons(s.drop_last());
        if s.last() == ';' {
            parts.push(Seq::empty())
        } else {
            parts.update(parts.len() - 1, parts.last().push(s.last()))
        }
    }
}

/// The `;`-parts of a notepad line, each without its leading white space.
pub open spec fn spec_line_parts(line: Seq<char>) -> Seq<Seq<char>> {
    split_semicolons(line).map_values(|p: Seq<char>| crate::text::trim_start(p))
}

/// The `;`-parts of `line`, each without its leading white space: what the
/// app hands, one by one, to the embedded-JSON extractor.
pub fn line_parts(line: &str) -> (parts: Vec<String>)
    ensures
        strings_view(parts@) == spec_line_parts(line@),
{
    let len = line.unicode_len();
    let mut done: Vec<String> = Vec::new();
    let mut current: Vec<char> = Vec::new();
    let mut i: usize = 0;
    assert(line@.subrange(0, 0) =~= Seq::<char>::empty());
    while i < len
        invariant
            len == line@.len(),
            i <= len,
            split_semicolons(line@.subrange(0, i as int)) == done@.map_values(|p: String| p@).push(current@),
        decreases len - i,
    {
        let c = line.get_char(i);
        let ghost prefix = line@.subrange(0, i as int);
        let ghost before = done@.map_values(|p: String| p@);
        assert(line@.subrange(0, i + 1).drop_last() =~= prefix);
        if c == ';' {
            let part = string_of(current.as_slice());
            done.push(part);
            current = Vec::new();
            assert(done@.map_values(|p: String| p@) =~= before.push(part@));
            assert(split_semicolons(line@.subrange(0, i + 1)) =~= done@.map_values(|p: String| p@).push(current@));
        } else {
            let ghost cur = current@;
            current.push(c);
            assert(split_semicolons(line@.subrange(0, i + 1)) =~= before.push(cur).update(
                before.len() as int,
                cur.push(c),
            ));
            assert(before.push(cur).update(before.len() as int, cur.push(c)) =~= before.push(current@));
        }
        i = i + 1;
    }
    assert(line@.subrange(0, len as int) =~= line@);
    let last = string_of(current.as_slice());
    let ghost before = done@.map_values(|p: String| p@);
    done.push(last);
    assert(done@.map_values(|p: String| p@) =~= before.push(last@));
    let ghost split = split_semicolons(line@);
    let mut parts: Vec<String> = Vec::new();
    let mut k: usize = 0;
    while k < done.len()
        invariant
            k <= done@.len(),
            split == done@.map_values(|p: String| p@),
            strings_view(parts@) == split.subrange(0, k as int).map_values(|p: Seq<char>| crate::text::trim_start(p)),
        decreases done@.len() - k,
    {
        let t = crate::text::trim_start_str(done[k].as_str());
        let ghost b = strings_view(parts@);
        parts.push(t);
        assert(strings_view(parts@) =~= b.push(t@));
        assert(split.subrange(0, k + 1).map_values(|p: Seq<char>| crate::text::trim_start(p)) =~= split.subrange(
            0,
            k as int,
        ).map_values(|p: Seq<char>| crate::text::trim_start(p)).push(crate::text::trim_start(split[k as int])));
        k = k + 1;
    }
    assert(split.subrange(0, split.len() as int) =~= split);
    parts
}

/// A part after the patch is applied: empty when no MML is left in it, else
/// the patch JSON, a space and the MML.
pub open spec fn rewritten_part(json: Seq<char>, leftover: Seq<char>) -> Seq<char> {
    if trimmed(leftover).len() == 0 {
        Seq::empty()
    } else {
        json + " "@ + trimmed(leftover)
    }
}

/// The parts joined with `;`.
pub open spec fn join_semicolons(parts: Seq<Seq<char>>) -> Seq<char>
    decreases parts.len(),
{
    if parts.len() == 0 {
        Seq::empty()
    } else if parts.len() == 1 {
        parts[0]
    } else {
        join_semicolons(parts.drop_last()) + seq![';'] + parts.last()
    }
}

/// The line once the patch `json` is applied to parts whose leftover MML is
/// `leftovers`: each part rewritten, joined with `;`; when no part has MML
/// left, the JSON followed by ` c`.
pub open spec fn spec_line_with_patch(json: Seq<char>, leftovers: Seq<Seq<char>>) -> Seq<char> {
    if exists|i: int| 0 <= i < leftovers.len() && trimmed(#[trigger] leftovers[i]).len() > 0 {
        join_semicolons(leftovers.map_values(|l: Seq<char>| rewritten_part(json, l)))
    } else {
        json + " c"@
    }
}

/// See `spec_line_with_patch`.
pub fn line_with_patch(json: &str, leftovers: &[String]) -> (line: String)
    ensures
        line@ == spec_line_with_patch(json@, strings_view(leftovers@)),
{
    let ghost ls = strings_view(leftovers@);
    let ghost parts = ls.map_values(|l: Seq<char>| rewritten_part(json@, l));
    let mut line = String::new();
    let mut content = false;
    let mut i: usize = 0;
    proof {
        reveal_strlit(" ");
        reveal_strlit(" c");
        reveal_strlit(";");
    }
    while i < leftovers.len()
        invariant
            ls == strings_view(leftovers@),
            parts == ls.map_values(|l: Seq<char>| rewritten_part(json@, l)),
            i <= leftovers@.len(),
            line@ == join_semicolons(parts.subrange(0, i as int)),
            content == exists|j: int| 0 <= j < i && trimmed(#[trigger] ls[j]).len() > 0,
        decreases leftovers@.len() - i,
    {
        let m = trim(leftovers[i].as_str());
        assert(ls[i as int] == leftovers@[i as int]@);
        proof {
            reveal_strlit(" ");
        }
        let piece = if m.unicode_len() == 0 {
            String::new()
        } else {
            content = true;
            let head = concat(json, " ");
            concat(head.as_str(), m.as_str())
        };
        assert(piece@ == parts[i as int]);
        let ghost before = line@;
        if i == 0 {
            line = piece;
            let ghost sub = parts.subrange(0, 1);
            assert(sub.len() == 1);
            assert(sub[0] == parts[0]);
            assert(join_semicolons(sub) == sub[0]);
        } else {
            let with_sep = concat(line.as_str(), ";");
            line = concat(with_sep.as_str(), piece.as_str());
            proof {
                reveal_strlit(";");
            }
            assert(";"@ =~= seq![';']);
            assert(line@ == before + seq![';'] + piece@);
            let ghost sub = parts.subrange(0, i + 1);
            assert(sub.drop_last() =~= parts.subrange(0, i as int));
            assert(sub.last() == parts[i as int]);
            assert(sub.len() > 1);
            assert(join_semicolons(sub) == join_semicolons(sub.drop_last()) + seq![';'] + sub.last());
        }
        proof {
            if trimmed(ls[i as int]).len() > 0 {
                assert(exists|j: int| 0 <= j < i + 1 && trimmed(#[trigger] ls[j]).len() > 0);
            }
            if exists|j: int| 0 <= j < i + 1 && trimmed(#[trigger] ls[j]).len() > 0 {
                let j = choose|j: int| 0 <= j < i + 1 && trimmed(#[trigger] ls[j]).len() > 0;
                if j < i {
                    assert(exists|j2: int| 0 <= j2 < i && trimmed(#[trigger] ls[j2]).len() > 0);
                }
            }
        }
        i = i + 1;
    }
    assert(parts.subrange(0, parts.len() as int) =~= parts);
    if content {
        line
    } else {
        concat(json, " c")
    }
}

/// What the app reads from the current notepad line with the embedded-JSON
/// extractor: the patch its JSON names (resolved to a loaded name, when one
/// matches), and, for each of its `line_parts`, the MML left once the JSON is
/// taken out.
pub struct CurrentLine {
    pub patch_name: Option<String>,
    pub part_mml: Vec<String>,
}

impl CurrentLine {
    /// A line that names no patch and holds no MML.
    pub fn empty() -> (line: Self)
        ensures
            line.patch_name is None,
            line.part_mml@.len() == 0,
    {
        CurrentLine { patch_name: None, part_mml: Vec::new() }
    }
}

} // verus!
