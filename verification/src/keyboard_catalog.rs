//! The patch browser of the keyboard screen: patches grouped by category, a
//! category cursor and a patch cursor, and the scroll offsets of both lists.
use vstd::prelude::*;
use crate::query::strings_view;
use crate::patch_select::{is_first_position, lemma_position, spec_position};
use crate::text::copy_string;
use crate::tui_app::clamp;

verus! {

/// A category and its patches, in display order.
#[derive(Clone, Debug, PartialEq, Eq)]
pub struct PatchCategory {
    pub name: String,
    pub patches: Vec<String>,
}

pub open spec fn category_view(c: PatchCategory) -> (Seq<char>, Seq<Seq<char>>) {
    (c.name@, strings_view(c.patches@))
}

pub open spec fn categories_view(categories: Seq<PatchCategory>) -> Seq<(Seq<char>, Seq<Seq<char>>)> {
    categories.map_values(|c: PatchCategory| category_view(c))
}

/// Whether the catalog can be browsed.
#[derive(Clone, Debug, PartialEq, Eq)]
pub enum KeyboardPatchCatalogStatus {
    Loading,
    NotConfigured,
    Ready,
    Error(String),
}

pub struct KeyboardPatchCatalog {
    status: KeyboardPatchCatalogStatus,
    categories: Vec<PatchCategory>,
    category_cursor: Option<usize>,
    patch_cursor: Option<usize>,
    category_offset: usize,
    patch_offset: usize,
}

pub ghost enum CatalogStatusView {
    Loading,
    NotConfigured,
    Ready,
    Error(Seq<char>),
}

pub open spec fn status_view(status: KeyboardPatchCatalogStatus) -> CatalogStatusView {
    match status {
        KeyboardPatchCatalogStatus::Loading => CatalogStatusView::Loading,
        KeyboardPatchCatalogStatus::NotConfigured => CatalogStatusView::NotConfigured,
        KeyboardPatchCatalogStatus::Ready => CatalogStatusView::Ready,
        KeyboardPatchCatalogStatus::Error(e) => CatalogStatusView::Error(e@),
    }
}

pub ghost struct CatalogView {
    pub status: CatalogStatusView,
    pub categories: Seq<(Seq<char>, Seq<Seq<char>>)>,
    pub category_cursor: Option<nat>,
    pub patch_cursor: Option<nat>,
    pub category_offset: nat,
    pub patch_offset: nat,
}

pub open spec fn opt_index(i: Option<usize>) -> Option<nat> {
    match i {
        Some(i) => Some(i as nat),
        None => None,
    }
}

impl View for KeyboardPatchCatalog {
    type V = CatalogView;

    closed spec fn view(&self) -> CatalogView {
        CatalogView {
            status: status_view(self.status),
            categories: categories_view(self.categories@),
            category_cursor: opt_index(self.category_cursor),
            patch_cursor: opt_index(self.patch_cursor),
            category_offset: self.category_offset as nat,
            patch_offset: self.patch_offset as nat,
        }
    }
}

/// Either both cursors point at a patch, or neither is set.
pub open spec fn catalog_wf(c: CatalogView) -> bool {
    match (c.category_cursor, c.patch_cursor) {
        (Some(ci), Some(pi)) => ci < c.categories.len() && pi < c.categories[ci as int].1.len(),
        (None, None) => true,
        _ => false,
    }
}

/// The first category holding `name`, and the patch's first position in it.
pub open spec fn spec_find_patch(categories: Seq<(Seq<char>, Seq<Seq<char>>)>, name: Seq<char>) -> Option<
    (nat, nat),
>
    decreases categories.len(),
{
    if categories.len() == 0 {
        None
    } else {
        match spec_find_patch(categories.drop_last(), name) {
            Some(found) => Some(found),
            None => if categories.last().1.contains(name) {
                Some(((categories.len() - 1) as nat, spec_position(categories.last().1, name) as nat))
            } else {
                None
            },
        }
    }
}

/// The scroll offset that keeps `cursor` in a window of `page_size` rows over
/// `item_count` items, moving as little as possible from `offset`.
pub open spec fn spec_list_offset(offset: nat, cursor: Option<nat>, item_count: nat, page_size: nat) -> nat {
    match cursor {
        None => 0,
        Some(cursor) => {
            let page = if page_size < 1 { 1nat } else { page_size };
            let items = if item_count < 1 { 1nat } else { item_count };
            let visible = if page < items { page } else { items };
            let max_offset = if item_count > visible { (item_count - visible) as nat } else { 0nat };
            let current = if offset < max_offset { offset } else { max_offset };
            let next = if cursor < current {
                cursor
            } else if cursor >= current + visible {
                (cursor + 1 - visible) as nat
            } else {
                current
            };
            if next < max_offset { next } else { max_offset }
        },
    }
}

/// See `spec_list_offset`.
pub fn sync_list_offset(offset: usize, cursor: Option<usize>, item_count: usize, page_size: usize) -> (next:
    usize)
    ensures
        next == spec_list_offset(offset as nat, opt_index(cursor), item_count as nat, page_size as nat),
{
    let cursor = match cursor {
        None => return 0,
        Some(c) => c,
    };
    let page = if page_size < 1 { 1 } else { page_size };
    let items = if item_count < 1 { 1 } else { item_count };
    let visible = if page < items { page } else { items };
    let max_offset = if item_count > visible { item_count - visible } else { 0 };
    let current = if offset < max_offset { offset } else { max_offset };
    let next = if cursor < current {
        cursor
    } else if cursor >= current + visible {
        cursor - visible + 1
    } else {
        current
    };
    if next < max_offset { next } else { max_offset }
}

/// Selecting `(ci, pi)`: both cursors move there and the patch comes back;
/// nothing happens for a position with no patch.
pub open spec fn spec_select(c: CatalogView, ci: nat, pi: nat) -> (CatalogView, Option<Seq<char>>) {
    if ci < c.categories.len() && pi < c.categories[ci as int].1.len() {
        (
            CatalogView { category_cursor: Some(ci), patch_cursor: Some(pi), ..c },
            Some(c.categories[ci as int].1[pi as int]),
        )
    } else {
        (c, None)
    }
}

/// Moves within the category by `delta` patches, stopping at its ends; with no
/// selection yet, the first patch of the first category is selected.
pub open spec fn spec_move_patch(c: CatalogView, delta: isize) -> (CatalogView, Option<Seq<char>>) {
    if c.categories.len() == 0 {
        (c, None)
    } else {
        match c.category_cursor {
            None => spec_select(c, 0, 0),
            Some(ci) => {
                let n = c.categories[ci as int].1.len();
                if n == 0 {
                    (c, None)
                } else {
                    match c.patch_cursor {
                        None => spec_select(c, ci, 0),
                        Some(pi) => {
                            let next = clamp(pi + delta, 0, n - 1) as nat;
                            if next == pi { (c, None) } else { spec_select(c, ci, next) }
                        },
                    }
                }
            },
        }
    }
}

/// Moves by `delta` categories, stopping at the ends, onto the first patch.
pub open spec fn spec_move_category(c: CatalogView, delta: isize) -> (CatalogView, Option<Seq<char>>) {
    if c.categories.len() == 0 {
        (c, None)
    } else {
        match c.category_cursor {
            None => spec_select(c, 0, 0),
            Some(ci) => {
                let next = clamp(ci + delta, 0, c.categories.len() - 1) as nat;
                if next == ci { (c, None) } else { spec_select(c, next, 0) }
            },
        }
    }
}

/// The scroll offsets follow the cursors.
pub open spec fn spec_sync_lists(c: CatalogView, category_page_size: nat, patch_page_size: nat) -> CatalogView {
    let patch_count = match c.category_cursor {
        Some(ci) => if ci < c.categories.len() { c.categories[ci as int].1.len() } else { 0 },
        None => 0,
    };
    CatalogView {
        category_offset: spec_list_offset(
            c.category_offset,
            c.category_cursor,
            c.categories.len(),
            category_page_size,
        ),
        patch_offset: spec_list_offset(c.patch_offset, c.patch_cursor, patch_count, patch_page_size),
        ..c
    }
}

/// Loading the scanned categories: the current patch is selected when listed.
pub open spec fn spec_load(
    c: CatalogView,
    categories: Seq<(Seq<char>, Seq<Seq<char>>)>,
    current: Option<Seq<char>>,
) -> CatalogView {
    let found = match current {
        Some(name) => spec_find_patch(categories, name),
        None => None,
    };
    spec_sync_lists(
        CatalogView {
            status: CatalogStatusView::Ready,
            categories,
            category_cursor: match found {
                Some((ci, _)) => Some(ci),
                None => None,
            },
            patch_cursor: match found {
                Some((_, pi)) => Some(pi),
                None => None,
            },
            ..c
        },
        1,
        1,
    )
}

pub open spec fn spec_cleared(c: CatalogView, status: CatalogStatusView) -> CatalogView {
    CatalogView { status, categories: Seq::empty(), category_cursor: None, patch_cursor: None, ..c }
}

proof fn lemma_find_patch(categories: Seq<(Seq<char>, Seq<Seq<char>>)>, name: Seq<char>)
    ensures
        match spec_find_patch(categories, name) {
            Some((ci, pi)) => ci < categories.len() && pi < categories[ci as int].1.len()
                && is_first_position(categories[ci as int].1, name, pi as int),
            None => forall|k: int| 0 <= k < categories.len() ==> !(#[trigger] categories[k]).1.contains(name),
        },
    decreases categories.len(),
{
    if categories.len() > 0 {
        let prev = categories.drop_last();
        lemma_find_patch(prev, name);
        match spec_find_patch(prev, name) {
            Some((ci, pi)) => {
                assert(categories[ci as int] == prev[ci as int]);
            },
            None => {
                let last = categories.last();
                if last.1.contains(name) {
                    let k = choose|k: int| 0 <= k < last.1.len() && last.1[k] == name;
                    lemma_first_position_exists(last.1, name, k);
                } else {
                    assert forall|k: int| 0 <= k < categories.len() implies !(#[trigger] categories[k]).1.contains(
                        name,
                    ) by {
                        if k < categories.len() - 1 {
                            assert(categories[k] == prev[k]);
                        }
                    }
                }
            },
        }
    }
}

/// An item that occurs has a first position, and `spec_position` finds it.
proof fn lemma_first_position_exists(items: Seq<Seq<char>>, name: Seq<char>, k: int)
    requires
        0 <= k < items.len(),
        items[k] == name,
    ensures
        is_first_position(items, name, spec_position(items, name)),
    decreases k,
{
    if exists|j: int| 0 <= j < k && items[j] == name {
        let j = choose|j: int| 0 <= j < k && items[j] == name;
        lemma_first_position_exists(items, name, j);
    } else {
        assert(is_first_position(items, name, k));
    }
}


/// The first position of `name` in `items`.
fn position_of(items: &Vec<String>, name: &str) -> (found: Option<usize>)
    ensures
        match found {
            Some(i) => is_first_position(strings_view(items@), name@, i as int),
            None => !strings_view(items@).contains(name@),
        },
{
    let ghost v = strings_view(items@);
    let mut i: usize = 0;
    while i < items.len()
        invariant
            v == strings_view(items@),
            i <= items@.len(),
            forall|k: int| 0 <= k < i ==> #[trigger] v[k] != name@,
        decreases items@.len() - i,
    {
        assert(v[i as int] == items@[i as int]@);
        if crate::text::same_text(items[i].as_str(), name) {
            return Some(i);
        }
        i = i + 1;
    }
    proof {
        if v.contains(name@) {
            let k = choose|k: int| 0 <= k < v.len() && v[k] == name@;
            assert(v[k] != name@);
        }
    }
    None
}

/// The first category holding `name` and the patch's position in it.
fn find_patch(categories: &Vec<PatchCategory>, name: &str) -> (found: Option<(usize, usize)>)
    ensures
        match found {
            Some((ci, pi)) => spec_find_patch(categories_view(categories@), name@) == Some((ci as nat, pi as nat)),
            None => spec_find_patch(categories_view(categories@), name@) is None,
        },
{
    let ghost cats = categories_view(categories@);
    let mut ci: usize = 0;
    while ci < categories.len()
        invariant
            cats == categories_view(categories@),
            ci <= cats.len(),
            spec_find_patch(cats.subrange(0, ci as int), name@) is None,
        decreases cats.len() - ci,
    {
        let ghost prefix = cats.subrange(0, ci as int);
        proof {
            assert(cats.subrange(0, ci + 1).drop_last() =~= prefix);
            assert(cats.subrange(0, ci + 1).last() == cats[ci as int]);
            assert(cats[ci as int].1 == strings_view(categories@[ci as int].patches@));
        }
        match position_of(&categories[ci].patches, name) {
            Some(pi) => {
                proof {
                    lemma_position(cats[ci as int].1, name@, pi as int);
                    assert(cats[ci as int].1.contains(name@)) by {
                        assert(cats[ci as int].1[pi as int] == name@);
                    }
                    assert(spec_find_patch(cats.subrange(0, ci + 1), name@) == Some((ci as nat, pi as nat)));
                    lemma_find_prefix(cats, name@, (ci + 1) as nat);
                }
                return Some((ci, pi));
            },
            None => {},
        }
        ci = ci + 1;
    }
    assert(cats.subrange(0, cats.len() as int) =~= cats);
    None
}

impl KeyboardPatchCatalog {
    pub closed spec fn wf(&self) -> bool {
        catalog_wf(self@)
    }

    /// An empty catalog waiting for the patch scan.
    pub fn default() -> (catalog: Self)
        ensures
            catalog.wf(),
            catalog@ == (CatalogView {
                status: CatalogStatusView::Loading,
                categories: Seq::empty(),
                category_cursor: None,
                patch_cursor: None,
                category_offset: 0,
                patch_offset: 0,
            }),
    {
        let catalog = KeyboardPatchCatalog {
            status: KeyboardPatchCatalogStatus::Loading,
            categories: Vec::new(),
            category_cursor: None,
            patch_cursor: None,
            category_offset: 0,
            patch_offset: 0,
        };
        assert(categories_view(catalog.categories@) =~= Seq::empty());
        catalog
    }

    pub fn status(&self) -> (status: &KeyboardPatchCatalogStatus)
        ensures
            status_view(*status) == self@.status,
    {
        &self.status
    }

    pub fn is_ready(&self) -> (ready: bool)
        ensures
            ready == (self@.status is Ready),
    {
        match self.status {
            KeyboardPatchCatalogStatus::Ready => true,
            _ => false,
        }
    }

    pub fn set_loading(&mut self)
        requires
            old(self).wf(),
        ensures
            final(self).wf(),
            final(self)@ == (CatalogView { status: CatalogStatusView::Loading, ..old(self)@ }),
    {
        self.status = KeyboardPatchCatalogStatus::Loading;
    }

    pub fn set_not_configured(&mut self)
        requires
            old(self).wf(),
        ensures
            final(self).wf(),
            final(self)@ == spec_cleared(old(self)@, CatalogStatusView::NotConfigured),
    {
        self.clear_with_status(KeyboardPatchCatalogStatus::NotConfigured);
    }

    pub fn set_error(&mut self, error: String)
        requires
            old(self).wf(),
        ensures
            final(self).wf(),
            final(self)@ == spec_cleared(old(self)@, CatalogStatusView::Error(error@)),
    {
        self.clear_with_status(KeyboardPatchCatalogStatus::Error(error));
    }

    fn clear_with_status(&mut self, status: KeyboardPatchCatalogStatus)
        ensures
            final(self).wf(),
            final(self)@ == spec_cleared(old(self)@, status_view(status)),
    {
        self.status = status;
        self.categories = Vec::new();
        self.category_cursor = None;
        self.patch_cursor = None;
        assert(categories_view(self.categories@) =~= Seq::empty());
    }

    /// The scanned categories arrive; the current patch is selected when listed.
    pub fn load(&mut self, categories: Vec<PatchCategory>, current_patch: Option<&str>)
        ensures
            final(self).wf(),
            final(self)@ == spec_load(old(self)@, categories_view(categories@), match current_patch {
                Some(p) => Some(p@),
                None => None,
            }),
    {
        let ghost cats = categories_view(categories@);
        self.status = KeyboardPatchCatalogStatus::Ready;
        self.categories = categories;
        let found = match current_patch {
            Some(current) => find_patch(&self.categories, current),
            None => None,
        };
        match found {
            Some((ci, pi)) => {
                self.category_cursor = Some(ci);
                self.patch_cursor = Some(pi);
            },
            None => {
                self.category_cursor = None;
                self.patch_cursor = None;
            },
        }
        proof {
            match current_patch {
                Some(p) => lemma_find_patch(cats, p@),
                None => {},
            }
        }
        self.sync_list_states(1, 1);
    }

    pub fn categories(&self) -> (categories: &[PatchCategory])
        ensures
            categories_view(categories@) == self@.categories,
    {
        self.categories.as_slice()
    }

    pub fn selected_category_index(&self) -> (index: Option<usize>)
        ensures
            opt_index(index) == self@.category_cursor,
    {
        self.category_cursor
    }

    pub fn selected_patch_index(&self) -> (index: Option<usize>)
        ensures
            opt_index(index) == self@.patch_cursor,
    {
        self.patch_cursor
    }

    /// The category under the cursor.
    pub fn selected_category(&self) -> (category: Option<&PatchCategory>)
        requires
            self.wf(),
        ensures
            match category {
                Some(c) => self@.category_cursor matches Some(ci) && category_view(*c) == self@.categories[ci as int],
                None => self@.category_cursor is None,
            },
    {
        match self.category_cursor {
            Some(index) => Some(&self.categories[index]),
            None => None,
        }
    }

    fn select(&mut self, category_index: usize, patch_index: usize) -> (patch: Option<String>)
        requires
            old(self).wf(),
        ensures
            final(self).wf(),
            (final(self)@, match patch {
                Some(p) => Some(p@),
                None => None,
            }) == spec_select(old(self)@, category_index as nat, patch_index as nat),
    {
        if category_index >= self.categories.len() {
            return None;
        }
        let patches = &self.categories[category_index].patches;
        if patch_index >= patches.len() {
            proof {
                assert(self@.categories[category_index as int].1 == strings_view(patches@));
            }
            return None;
        }
        let patch = copy_string(&patches[patch_index]);
        proof {
            assert(self@.categories[category_index as int].1 == strings_view(patches@));
            assert(strings_view(patches@)[patch_index as int] == patches@[patch_index as int]@);
        }
        self.category_cursor = Some(category_index);
        self.patch_cursor = Some(patch_index);
        Some(patch)
    }

    /// `j` / `k` on the keyboard screen.
    pub fn move_patch_by(&mut self, delta: isize) -> (patch: Option<String>)
        requires
            old(self).wf(),
        ensures
            final(self).wf(),
            (final(self)@, match patch {
                Some(p) => Some(p@),
                None => None,
            }) == spec_move_patch(old(self)@, delta),
    {
        if self.categories.len() == 0 {
            return None;
        }
        let category_index = match self.category_cursor {
            None => return self.select(0, 0),
            Some(ci) => ci,
        };
        let patches_len = self.categories[category_index].patches.len();
        proof {
            assert(self@.categories[category_index as int].1 == strings_view(
                self.categories@[category_index as int].patches@,
            ));
        }
        if patches_len == 0 {
            return None;
        }
        let patch_index = match self.patch_cursor {
            None => return self.select(category_index, 0),
            Some(pi) => pi,
        };
        let target = patch_index as i128 + delta as i128;
        let max = (patches_len - 1) as i128;
        let next: usize = if target < 0 {
            0
        } else if target > max {
            max as usize
        } else {
            target as usize
        };
        if next == patch_index {
            return None;
        }
        self.select(category_index, next)
    }

    /// `h` / `l` on the keyboard screen.
    pub fn move_category_by(&mut self, delta: isize) -> (patch: Option<String>)
        requires
            old(self).wf(),
        ensures
            final(self).wf(),
            (final(self)@, match patch {
                Some(p) => Some(p@),
                None => None,
            }) == spec_move_category(old(self)@, delta),
    {
        if self.categories.len() == 0 {
            return None;
        }
        let category_index = match self.category_cursor {
            None => return self.select(0, 0),
            Some(ci) => ci,
        };
        let target = category_index as i128 + delta as i128;
        let max = (self.categories.len() - 1) as i128;
        let next: usize = if target < 0 {
            0
        } else if target > max {
            max as usize
        } else {
            target as usize
        };
        if next == category_index {
            return None;
        }
        self.select(next, 0)
    }

    /// Scrolls both lists so that their cursors show.
    pub fn sync_list_states(&mut self, category_page_size: usize, patch_page_size: usize)
        requires
            old(self).wf(),
        ensures
            final(self).wf(),
            final(self)@ == spec_sync_lists(old(self)@, category_page_size as nat, patch_page_size as nat),
    {
        self.category_offset = sync_list_offset(
            self.category_offset,
            self.category_cursor,
            self.categories.len(),
            category_page_size,
        );
        let patch_count = match self.category_cursor {
            Some(ci) => {
                proof {
                    assert(self@.categories[ci as int].1 == strings_view(self.categories@[ci as int].patches@));
                }
                self.categories[ci].patches.len()
            },
            None => 0,
        };
        self.patch_offset = sync_list_offset(self.patch_offset, self.patch_cursor, patch_count, patch_page_size);
    }
}

/// `spec_find_patch` on a prefix that already finds the patch finds the same
/// on every longer prefix.
proof fn lemma_find_prefix(cats: Seq<(Seq<char>, Seq<Seq<char>>)>, name: Seq<char>, n: nat)
    requires
        n <= cats.len(),
        spec_find_patch(cats.subrange(0, n as int), name) is Some,
    ensures
        spec_find_patch(cats, name) == spec_find_patch(cats.subrange(0, n as int), name),
    decreases cats.len() - n,
{
    if n < cats.len() {
        let longer = cats.subrange(0, (n + 1) as int);
        assert(longer.drop_last() =~= cats.subrange(0, n as int));
        lemma_find_prefix(cats, name, (n + 1) as nat);
    } else {
        assert(cats.subrange(0, n as int) =~= cats);
    }
}


/// The list scrolls so that the cursor shows: the offset never passes the
/// cursor and the cursor is inside the window of visible rows.
pub proof fn list_offset_keeps_cursor_visible(offset: nat, cursor: nat, item_count: nat, page_size: nat)
    requires
        cursor < item_count,
    ensures
        spec_list_offset(offset, Some(cursor), item_count, page_size) <= cursor,
        cursor < spec_list_offset(offset, Some(cursor), item_count, page_size) + (if page_size < 1 {
            1
        } else if page_size < item_count {
            page_size
        } else {
            item_count
        }),
{
}

} // verus!
