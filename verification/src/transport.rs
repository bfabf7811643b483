//! The loop player's transport: which measure of the arrangement starts next.
//! The arrangement is given by the span (in measures) of each clip at the
//! measure it starts on, track by track.
use vstd::prelude::*;

verus! {

/// A count plus a span, stopping at the largest `usize`.
pub open spec fn sat_end(start: int, span: int) -> int {
    if start + span > usize::MAX { usize::MAX as int } else { start + span }
}

/// The clip in `cell`, starting at measure `s`, still sounds in measure `m`.
pub open spec fn sounds_at(cell: Option<usize>, s: int, m: int) -> bool {
    match cell {
        Some(span) => sat_end(s, span as int) > m,
        None => false,
    }
}

/// A clip of some track sounds during measure `m` (it starts at or before `m`
/// and its span reaches past `m`).
pub open spec fn occupied(grid: Seq<Seq<Option<usize>>>, m: int) -> bool {
    exists|t: int, s: int|
        #![trigger grid[t][s]]
        0 <= t < grid.len() && 0 <= s <= m && s < grid[t].len() && sounds_at(grid[t][s], s, m)
}

/// The number of measures: the longest track's length.
pub open spec fn measure_count(grid: Seq<Seq<Option<usize>>>) -> nat
    decreases grid.len(),
{
    if grid.len() == 0 {
        0
    } else {
        let rest = measure_count(grid.drop_last());
        if grid.last().len() > rest { grid.last().len() } else { rest }
    }
}

/// Measure `m` is the first occupied one when counting `n` measures
/// cyclically from `start`.
pub open spec fn first_occupied_from(grid: Seq<Seq<Option<usize>>>, start: int, n: int, m: int) -> bool {
    &&& 0 <= m < n
    &&& occupied(grid, m)
    &&& forall|k: int|
        0 <= k < n && #[trigger] ((start + k) % n) != m && k < (if m >= start { m - start } else { m + n - start })
            ==> !occupied(grid, (start + k) % n)
}

/// What a cyclic search from `start` finds: the first occupied measure, or
/// nothing when no measure is occupied.
pub open spec fn cyclic_search(grid: Seq<Seq<Option<usize>>>, start: int, found: Option<usize>) -> bool {
    let n = measure_count(grid) as int;
    match found {
        Some(m) => first_occupied_from(grid, start, n, m as int),
        None => forall|m: int| 0 <= m < n ==> !#[trigger] occupied(grid, m),
    }
}

pub open spec fn grid_view(grid: Seq<Vec<Option<usize>>>) -> Seq<Seq<Option<usize>>> {
    grid.map_values(|t: Vec<Option<usize>>| t@)
}

proof fn lemma_measure_count(grid: Seq<Seq<Option<usize>>>)
    ensures
        forall|t: int| 0 <= t < grid.len() ==> #[trigger] grid[t].len() <= measure_count(grid),
        grid.len() > 0 ==> exists|t: int| 0 <= t < grid.len() && grid[t].len() == measure_count(grid),
    decreases grid.len(),
{
    if grid.len() > 0 {
        let init = grid.drop_last();
        lemma_measure_count(init);
        assert forall|t: int| 0 <= t < grid.len() implies #[trigger] grid[t].len() <= measure_count(grid) by {
            if t < init.len() {
                assert(init[t] == grid[t]);
            }
        }
        if init.len() > 0 && grid.last().len() <= measure_count(init) {
            let t = choose|t: int| 0 <= t < init.len() && init[t].len() == measure_count(init);
            assert(grid[t] == init[t]);
        } else {
            assert(grid[grid.len() - 1] == grid.last());
        }
    }
}

/// The number of measures of the arrangement.
pub fn count_measures(grid: &Vec<Vec<Option<usize>>>) -> (n: usize)
    ensures
        n == measure_count(grid_view(grid@)),
{
    let mut n: usize = 0;
    let mut t: usize = 0;
    while t < grid.len()
        invariant
            t <= grid@.len(),
            n == measure_count(grid_view(grid@).subrange(0, t as int)),
        decreases grid@.len() - t,
    {
        proof {
            let g = grid_view(grid@);
            assert(g.subrange(0, t + 1).drop_last() =~= g.subrange(0, t as int));
            assert(g.subrange(0, t + 1).last() == grid@[t as int]@);
        }
        if grid[t].len() > n {
            n = grid[t].len();
        }
        t = t + 1;
    }
    assert(grid_view(grid@).subrange(0, grid@.len() as int) =~= grid_view(grid@));
    n
}

/// Whether a clip sounds during measure `measure`.
pub fn measure_is_occupied(grid: &Vec<Vec<Option<usize>>>, measure: usize) -> (busy: bool)
    ensures
        busy == occupied(grid_view(grid@), measure as int),
{
    let ghost g = grid_view(grid@);
    let mut t: usize = 0;
    while t < grid.len()
        invariant
            g == grid_view(grid@),
            t <= grid@.len(),
            forall|t2: int, s: int|
                #![trigger g[t2][s]]
                0 <= t2 < t && 0 <= s <= measure && s < g[t2].len() ==> !sounds_at(g[t2][s], s, measure as int),
        decreases grid@.len() - t,
    {
        let track = &grid[t];
        assert(track@ == g[t as int]);
        let mut s: usize = 0;
        while s < track.len() && s <= measure
            invariant
                g == grid_view(grid@),
                t < grid@.len(),
                track@ == g[t as int],
                s <= track@.len(),
                forall|s2: int|
                    #![trigger g[t as int][s2]]
                    0 <= s2 < s && s2 <= measure && s2 < g[t as int].len() ==> !sounds_at(
                        g[t as int][s2],
                        s2,
                        measure as int,
                    ),
            decreases track@.len() - s,
        {
            if let Some(span) = track[s] {
                let end = if s > usize::MAX - span { usize::MAX } else { s + span };
                if end > measure {
                    assert(g[t as int][s as int] == Some(span));
                    return true;
                }
            }
            s = s + 1;
        }
        t = t + 1;
    }
    false
}

proof fn lemma_cyclic_index(start: int, n: int, k: int)
    requires
        0 <= start < n,
        0 <= k < n,
    ensures
        (start + k) % n == (if k < n - start { start + k } else { k - (n - start) }),
{
    if k < n - start {
        vstd::arithmetic::div_mod::lemma_small_mod((start + k) as nat, n as nat);
    } else {
        vstd::arithmetic::div_mod::lemma_mod_sub_multiples_vanish(start + k, n);
        vstd::arithmetic::div_mod::lemma_small_mod((k - (n - start)) as nat, n as nat);
    }
}

/// The first occupied measure counting cyclically from `start`.
fn search_from(grid: &Vec<Vec<Option<usize>>>, start: usize, n: usize) -> (found: Option<usize>)
    requires
        n == measure_count(grid_view(grid@)),
        start < n,
    ensures
        cyclic_search(grid_view(grid@), start as int, found),
{
    let ghost g = grid_view(grid@);
    let mut offset: usize = 0;
    while offset < n
        invariant
            g == grid_view(grid@),
            n == measure_count(g),
            start < n,
            offset <= n,
            forall|k: int| 0 <= k < offset ==> !occupied(g, #[trigger] ((start + k) % (n as int))),
        decreases n - offset,
    {
        let measure = if offset < n - start { start + offset } else { offset - (n - start) };
        proof {
            lemma_cyclic_index(start as int, n as int, offset as int);
        }
        if measure_is_occupied(grid, measure) {
            proof {
                let m = measure as int;
                assert forall|k: int|
                    0 <= k < n && #[trigger] ((start + k) % (n as int)) != m && k < (if m >= start {
                        m - start
                    } else {
                        m + n - start
                    }) implies !occupied(g, (start + k) % (n as int)) by {
                    assert(k < offset);
                }
            }
            return Some(measure);
        }
        offset = offset + 1;
    }
    proof {
        assert forall|m: int| 0 <= m < n implies !#[trigger] occupied(g, m) by {
            let k = if m >= start { m - start } else { m + n - start };
            lemma_cyclic_index(start as int, n as int, k);
            assert((start + k) % (n as int) == m);
        }
    }
    None
}

/// The measure after `current` (or the first one) that has a sounding clip,
/// wrapping around the end of the arrangement.
pub fn next_measure(grid: &Vec<Vec<Option<usize>>>, current: Option<usize>) -> (next: Option<usize>)
    ensures
        measure_count(grid_view(grid@)) == 0 ==> next is None,
        measure_count(grid_view(grid@)) > 0 ==> cyclic_search(
            grid_view(grid@),
            match current {
                Some(m) => (m + 1) % (measure_count(grid_view(grid@)) as int),
                None => 0,
            },
            next,
        ),
{
    let n = count_measures(grid);
    if n == 0 {
        return None;
    }
    let start = match current {
        Some(m) => {
            let r = m % n;
            proof {
                vstd::arithmetic::div_mod::lemma_add_mod_noop(m as int, 1, n as int);
                if n > 1 {
                    vstd::arithmetic::div_mod::lemma_small_mod(1, n as nat);
                } else {
                    vstd::arithmetic::div_mod::lemma_mod_bound(m as int + 1, 1);
                    vstd::arithmetic::div_mod::lemma_mod_bound(m as int, 1);
                }
            }
            if r + 1 == n {
                proof {
                    vstd::arithmetic::div_mod::lemma_mod_self_0(n as int);
                }
                0
            } else {
                proof {
                    vstd::arithmetic::div_mod::lemma_small_mod((r + 1) as nat, n as nat);
                }
                r + 1
            }
        },
        None => 0,
    };
    search_from(grid, start, n)
}

/// The first measure at or after `start` (taken cyclically) that has a
/// sounding clip.
pub fn measure_at_or_after(grid: &Vec<Vec<Option<usize>>>, start: usize) -> (found: Option<usize>)
    ensures
        measure_count(grid_view(grid@)) == 0 ==> found is None,
        measure_count(grid_view(grid@)) > 0 ==> cyclic_search(
            grid_view(grid@),
            (start as int) % (measure_count(grid_view(grid@)) as int),
            found,
        ),
{
    let n = count_measures(grid);
    if n == 0 {
        return None;
    }
    search_from(grid, start % n, n)
}

/// Whether the player is paused, the measure playing, and a measure asked
/// to start next.
pub struct TransportState {
    pub paused: bool,
    pub current_measure: Option<usize>,
    pub restart_measure: Option<usize>,
}

impl TransportState {
    /// Playing, nothing started yet.
    pub fn new() -> (state: Self)
        ensures
            !state.paused,
            state.current_measure is None,
            state.restart_measure is None,
    {
        TransportState { paused: false, current_measure: None, restart_measure: None }
    }

    pub fn pause(&mut self)
        ensures
            final(self).paused,
            final(self).current_measure is None,
            final(self).restart_measure is None,
    {
        self.paused = true;
        self.current_measure = None;
        self.restart_measure = None;
    }

    /// Plays again from `measure`.
    pub fn resume_at(&mut self, measure: usize)
        ensures
            !final(self).paused,
            final(self).current_measure is None,
            final(self).restart_measure == Some(measure),
    {
        self.paused = false;
        self.current_measure = None;
        self.restart_measure = Some(measure);
    }

    /// Starts over at `measure` (pausing stays as it is).
    pub fn restart_at(&mut self, measure: usize)
        ensures
            final(self).paused == old(self).paused,
            final(self).current_measure is None,
            final(self).restart_measure == Some(measure),
    {
        self.current_measure = None;
        self.restart_measure = Some(measure);
    }

    /// `measure` started playing.
    pub fn started(&mut self, measure: usize)
        ensures
            final(self).paused == old(self).paused,
            final(self).current_measure == Some(measure),
            final(self).restart_measure == old(self).restart_measure,
    {
        self.current_measure = Some(measure);
    }

    pub fn clear_current(&mut self)
        ensures
            final(self).paused == old(self).paused,
            final(self).current_measure is None,
            final(self).restart_measure == old(self).restart_measure,
    {
        self.current_measure = None;
    }

    pub fn is_paused(&self) -> (paused: bool)
        ensures
            paused == self.paused,
    {
        self.paused
    }

    /// The measure to start next: none while paused; a requested restart
    /// measure (or the first sounding one after it) is taken once; otherwise
    /// the next sounding measure after the current one.
    pub fn next_measure_to_start(&mut self, grid: &Vec<Vec<Option<usize>>>) -> (next: Option<usize>)
        ensures
            old(self).paused ==> next is None && *final(self) == *old(self),
            !old(self).paused ==> final(self).restart_measure is None && final(self).paused == old(
                self,
            ).paused && final(self).current_measure == old(self).current_measure,
            !old(self).paused && measure_count(grid_view(grid@)) == 0 ==> next is None,
            !old(self).paused && measure_count(grid_view(grid@)) > 0 ==> {
                let n = measure_count(grid_view(grid@)) as int;
                let after_current = match old(self).current_measure {
                    Some(m) => (m + 1) % n,
                    None => 0,
                };
                match old(self).restart_measure {
                    Some(r) => if exists|m: int| 0 <= m < n && #[trigger] occupied(grid_view(grid@), m) {
                        cyclic_search(grid_view(grid@), (r as int) % n, next)
                    } else {
                        cyclic_search(grid_view(grid@), after_current, next)
                    },
                    None => cyclic_search(grid_view(grid@), after_current, next),
                }
            },
    {
        if self.paused {
            return None;
        }
        let restart = self.restart_measure.take();
        let from_restart = match restart {
            Some(measure) => measure_at_or_after(grid, measure),
            None => None,
        };
        match from_restart {
            Some(m) => Some(m),
            None => next_measure(grid, self.current_measure),
        }
    }
}

} // verus!
