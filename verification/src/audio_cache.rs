//! The in-memory cache of rendered audio, keyed by the MML line that was
//! rendered. It holds at most its capacity of entries (one when the capacity
//! is zero) and, when full, a new line evicts the least recently used one.
//!
//! Entries are kept from least to most recently used, each line once.
use vstd::prelude::*;
use crate::text::same_text;

verus! {

/// The cache's contents as (line, samples) pairs, least recently used first.
pub open spec fn entries_view<T>(v: Seq<(String, T)>) -> Seq<(Seq<char>, T)> {
    v.map_values(|e: (String, T)| (e.0@, e.1))
}

/// No line occurs twice.
pub open spec fn keys_distinct<T>(s: Seq<(Seq<char>, T)>) -> bool {
    forall|i: int, j: int| 0 <= i < s.len() && 0 <= j < s.len() && i != j ==> s[i].0 != s[j].0
}

pub open spec fn has_key<T>(s: Seq<(Seq<char>, T)>, k: Seq<char>) -> bool {
    exists|i: int| 0 <= i < s.len() && s[i].0 == k
}

/// Where the line `k` stands (meaningful where `has_key`).
pub open spec fn key_index<T>(s: Seq<(Seq<char>, T)>, k: Seq<char>) -> int {
    choose|i: int| 0 <= i < s.len() && s[i].0 == k
}

/// The samples cached for line `k`.
pub open spec fn lookup<T>(s: Seq<(Seq<char>, T)>, k: Seq<char>) -> Option<T> {
    if has_key(s, k) {
        Some(s[key_index(s, k)].1)
    } else {
        None
    }
}

/// How many entries a cache of this capacity may hold.
pub open spec fn entry_limit(capacity: nat) -> nat {
    if capacity == 0 {
        1
    } else {
        capacity
    }
}

/// Marking line `k` as just used moves it to the back; an absent line
/// changes nothing.
pub open spec fn spec_mark_recent<T>(s: Seq<(Seq<char>, T)>, k: Seq<char>) -> Seq<(Seq<char>, T)> {
    if has_key(s, k) {
        let i = key_index(s, k);
        s.remove(i).push(s[i])
    } else {
        s
    }
}

/// Storing samples for line `k`: a cached line gets the new samples and
/// becomes the most recent; a new line first evicts the least recently used
/// entry when the cache holds `capacity` or more.
pub open spec fn spec_insert<T>(s: Seq<(Seq<char>, T)>, capacity: nat, k: Seq<char>, v: T) -> Seq<(Seq<char>, T)> {
    if has_key(s, k) {
        s.remove(key_index(s, k)).push((k, v))
    } else if s.len() >= capacity && s.len() > 0 {
        s.drop_first().push((k, v))
    } else {
        s.push((k, v))
    }
}

proof fn lemma_index_of_key<T>(s: Seq<(Seq<char>, T)>, i: int)
    requires
        keys_distinct(s),
        0 <= i < s.len(),
    ensures
        has_key(s, s[i].0),
        key_index(s, s[i].0) == i,
{
    assert(s[i].0 == s[i].0);
}

proof fn lemma_view_remove<T>(v: Seq<(String, T)>, i: int)
    requires
        0 <= i < v.len(),
    ensures
        entries_view(v.remove(i)) == entries_view(v).remove(i),
{
    assert(entries_view(v.remove(i)) =~= entries_view(v).remove(i));
}

proof fn lemma_view_push<T>(v: Seq<(String, T)>, e: (String, T))
    ensures
        entries_view(v.push(e)) == entries_view(v).push((e.0@, e.1)),
{
    assert(entries_view(v.push(e)) =~= entries_view(v).push((e.0@, e.1)));
}

/// Appending a line that no remaining entry holds keeps the lines distinct.
proof fn lemma_push_fresh<T>(s: Seq<(Seq<char>, T)>, e: (Seq<char>, T))
    requires
        keys_distinct(s),
        !has_key(s, e.0),
    ensures
        keys_distinct(s.push(e)),
{
    assert forall|i: int, j: int|
        0 <= i < s.len() + 1 && 0 <= j < s.len() + 1 && i != j implies #[trigger] s.push(e)[i].0 != #[trigger] s.push(
        e,
    )[j].0 by {
        if i == s.len() {
            assert(s.push(e)[j] == s[j]);
        } else if j == s.len() {
            assert(s.push(e)[i] == s[i]);
        }
    }
}

/// Removing entry `i` leaves its line absent and the others distinct.
proof fn lemma_remove_distinct<T>(s: Seq<(Seq<char>, T)>, i: int)
    requires
        keys_distinct(s),
        0 <= i < s.len(),
    ensures
        keys_distinct(s.remove(i)),
        !has_key(s.remove(i), s[i].0),
        forall|k: Seq<char>| k != s[i].0 ==> (has_key(s.remove(i), k) == has_key(s, k)),
{
    let r = s.remove(i);
    assert forall|a: int, b: int| 0 <= a < r.len() && 0 <= b < r.len() && a != b implies r[a].0 != r[b].0 by {
        let a2 = if a < i { a } else { a + 1 };
        let b2 = if b < i { b } else { b + 1 };
        assert(r[a] == s[a2]);
        assert(r[b] == s[b2]);
    }
    if has_key(r, s[i].0) {
        let j = choose|j: int| 0 <= j < r.len() && r[j].0 == s[i].0;
        let j2 = if j < i { j } else { j + 1 };
        assert(r[j] == s[j2]);
    }
    assert forall|k: Seq<char>| k != s[i].0 implies (has_key(r, k) == has_key(s, k)) by {
        if has_key(s, k) {
            let j = choose|j: int| 0 <= j < s.len() && s[j].0 == k;
            let j2 = if j < i { j } else { j - 1 };
            assert(r[j2] == s[j]);
        }
        if has_key(r, k) {
            let j = choose|j: int| 0 <= j < r.len() && r[j].0 == k;
            let j2 = if j < i { j } else { j + 1 };
            assert(r[j] == s[j2]);
        }
    }
}

proof fn lemma_lookup_push<T>(r: Seq<(Seq<char>, T)>, e: (Seq<char>, T), k: Seq<char>)
    requires
        keys_distinct(r.push(e)),
    ensures
        lookup(r.push(e), k) == if k == e.0 {
            Some(e.1)
        } else {
            lookup(r, k)
        },
{
    let p = r.push(e);
    if k == e.0 {
        lemma_index_of_key(p, r.len() as int);
    } else {
        assert forall|j: int| 0 <= j < r.len() implies p[j] == r[j] by {}
        if has_key(r, k) {
            let j = key_index(r, k);
            assert(keys_distinct(r)) by {
                assert forall|a: int, b: int| 0 <= a < r.len() && 0 <= b < r.len() && a != b implies r[a].0 != r[b].0 by {
                    assert(p[a] == r[a] && p[b] == r[b]);
                }
            }
            lemma_index_of_key(r, j);
            lemma_index_of_key(p, j);
        } else {
            if has_key(p, k) {
                let j = choose|j: int| 0 <= j < p.len() && p[j].0 == k;
                assert(j < r.len());
                assert(p[j] == r[j]);
            }
        }
    }
}

proof fn lemma_lookup_remove<T>(s: Seq<(Seq<char>, T)>, i: int, k: Seq<char>)
    requires
        keys_distinct(s),
        0 <= i < s.len(),
        k != s[i].0,
    ensures
        lookup(s.remove(i), k) == lookup(s, k),
{
    let r = s.remove(i);
    lemma_remove_distinct(s, i);
    if has_key(s, k) {
        let j = key_index(s, k);
        lemma_index_of_key(s, j);
        let j2 = if j < i { j } else { j - 1 };
        assert(r[j2] == s[j]);
        lemma_index_of_key(r, j2);
    }
}

/// Samples stored for a line are what a read of that line gives back.
pub proof fn stored_samples_are_read_back<T>(s: Seq<(Seq<char>, T)>, capacity: nat, k: Seq<char>, v: T)
    requires
        keys_distinct(s),
    ensures
        lookup(spec_insert(s, capacity, k, v), k) == Some(v),
{
    if has_key(s, k) {
        let i = key_index(s, k);
        lemma_remove_distinct(s, i);
        lemma_push_fresh(s.remove(i), (k, v));
        lemma_lookup_push(s.remove(i), (k, v), k);
    } else if s.len() >= capacity && s.len() > 0 {
        lemma_remove_distinct(s, 0);
        assert(s.remove(0) =~= s.drop_first());
        lemma_push_fresh(s.drop_first(), (k, v));
        lemma_lookup_push(s.drop_first(), (k, v), k);
    } else {
        lemma_push_fresh(s, (k, v));
        lemma_lookup_push(s, (k, v), k);
    }
}

/// Storing one line leaves every other cached line as it was, except the
/// least recently used one when a new line arrives at a full cache.
pub proof fn storing_keeps_other_lines<T>(s: Seq<(Seq<char>, T)>, capacity: nat, k: Seq<char>, v: T, other: Seq<char>)
    requires
        keys_distinct(s),
        other != k,
    ensures
        lookup(spec_insert(s, capacity, k, v), other) == if !has_key(s, k) && s.len() >= capacity && s.len() > 0
            && s[0].0 == other {
            None
        } else {
            lookup(s, other)
        },
{
    if has_key(s, k) {
        let i = key_index(s, k);
        lemma_remove_distinct(s, i);
        lemma_push_fresh(s.remove(i), (k, v));
        lemma_lookup_push(s.remove(i), (k, v), other);
        lemma_lookup_remove(s, i, other);
    } else if s.len() >= capacity && s.len() > 0 {
        lemma_remove_distinct(s, 0);
        assert(s.remove(0) =~= s.drop_first());
        lemma_push_fresh(s.drop_first(), (k, v));
        lemma_lookup_push(s.drop_first(), (k, v), other);
        if s[0].0 != other {
            lemma_lookup_remove(s, 0, other);
        }
    } else {
        lemma_push_fresh(s, (k, v));
        lemma_lookup_push(s, (k, v), other);
    }
}

/// Marking a line as used changes no cached samples, and a cached line
/// becomes the most recent.
pub proof fn marking_keeps_the_contents<T>(s: Seq<(Seq<char>, T)>, k: Seq<char>, any: Seq<char>)
    requires
        keys_distinct(s),
    ensures
        lookup(spec_mark_recent(s, k), any) == lookup(s, any),
        has_key(s, k) ==> spec_mark_recent(s, k).last().0 == k,
{
    if has_key(s, k) {
        let i = key_index(s, k);
        lemma_index_of_key(s, i);
        lemma_remove_distinct(s, i);
        lemma_push_fresh(s.remove(i), s[i]);
        lemma_lookup_push(s.remove(i), s[i], any);
        if any != k {
            lemma_lookup_remove(s, i, any);
        }
    }
}

/// Rendered audio by MML line, least recently used first.
pub struct AudioCache<T> {
    entries: Vec<(String, T)>,
    capacity: usize,
}

impl<T> AudioCache<T> {
    pub closed spec fn entries(&self) -> Seq<(Seq<char>, T)> {
        entries_view(self.entries@)
    }

    pub closed spec fn capacity(&self) -> nat {
        self.capacity as nat
    }

    /// Each line once, and no more entries than the capacity allows.
    pub open spec fn wf(&self) -> bool {
        &&& keys_distinct(self.entries())
        &&& self.entries().len() <= entry_limit(self.capacity())
    }

    /// An empty cache that holds at most `capacity` entries.
    pub fn new(capacity: usize) -> (cache: Self)
        ensures
            cache.wf(),
            cache.entries() == Seq::<(Seq<char>, T)>::empty(),
            cache.capacity() == capacity,
    {
        let cache = AudioCache { entries: Vec::new(), capacity };
        assert(cache.entries() =~= Seq::<(Seq<char>, T)>::empty());
        cache
    }

    /// How many lines are cached.
    pub fn len(&self) -> (n: usize)
        ensures
            n == self.entries().len(),
    {
        self.entries.len()
    }

    /// Where line `key` stands.
    fn position(&self, key: &str) -> (pos: Option<usize>)
        requires
            self.wf(),
        ensures
            match pos {
                Some(i) => i < self.entries().len() && self.entries()[i as int].0 == key@ && key_index(
                    self.entries(),
                    key@,
                ) == i && has_key(self.entries(), key@),
                None => !has_key(self.entries(), key@),
            },
    {
        let ghost s = self.entries();
        let mut i: usize = 0;
        while i < self.entries.len()
            invariant
                s == self.entries(),
                keys_distinct(s),
                i <= s.len(),
                s.len() == self.entries@.len(),
                forall|j: int| 0 <= j < i ==> s[j].0 != key@,
            decreases s.len() - i,
        {
            assert(s[i as int].0 == self.entries@[i as int].0@);
            if same_text(self.entries[i].0.as_str(), key) {
                proof {
                    lemma_index_of_key(s, i as int);
                }
                return Some(i);
            }
            i = i + 1;
        }
        None
    }

    /// The samples cached for line `key`.
    pub fn get(&self, key: &str) -> (found: Option<&T>)
        requires
            self.wf(),
        ensures
            match found {
                Some(v) => lookup(self.entries(), key@) == Some(*v),
                None => lookup(self.entries(), key@) is None,
            },
    {
        match self.position(key) {
            Some(i) => Some(&self.entries[i].1),
            None => None,
        }
    }

    /// Marks line `key` as just used.
    pub fn mark_recent(&mut self, key: &str)
        requires
            old(self).wf(),
        ensures
            final(self).wf(),
            final(self).capacity() == old(self).capacity(),
            final(self).entries() == spec_mark_recent(old(self).entries(), key@),
    {
        match self.position(key) {
            Some(i) => {
                let ghost v = self.entries@;
                let ghost s = self.entries();
                let e = self.entries.remove(i);
                proof {
                    lemma_view_remove(v, i as int);
                    lemma_remove_distinct(s, i as int);
                    lemma_view_push(v.remove(i as int), e);
                    assert(s[i as int] == (e.0@, e.1));
                    lemma_push_fresh(s.remove(i as int), (e.0@, e.1));
                }
                self.entries.push(e);
            },
            None => {},
        }
    }

    /// Stores `samples` for line `key`, unless the line was rendered with a
    /// random patch (such audio is never cached).
    pub fn try_insert(&mut self, key: String, samples: T, random_patch: bool)
        requires
            old(self).wf(),
        ensures
            final(self).wf(),
            final(self).capacity() == old(self).capacity(),
            final(self).entries() == if random_patch {
                old(self).entries()
            } else {
                spec_insert(old(self).entries(), old(self).capacity(), key@, samples)
            },
    {
        if random_patch {
            return;
        }
        let ghost v = self.entries@;
        let ghost s = self.entries();
        match self.position(key.as_str()) {
            Some(i) => {
                self.entries.remove(i);
                proof {
                    lemma_view_remove(v, i as int);
                    lemma_remove_distinct(s, i as int);
                    lemma_view_push(v.remove(i as int), (key, samples));
                    lemma_push_fresh(s.remove(i as int), (key@, samples));
                }
                self.entries.push((key, samples));
            },
            None => {
                if self.entries.len() >= self.capacity && self.entries.len() > 0 {
                    self.entries.remove(0);
                    proof {
                        lemma_view_remove(v, 0);
                        lemma_remove_distinct(s, 0);
                        assert(s.remove(0) =~= s.drop_first());
                        lemma_view_push(v.remove(0), (key, samples));
                        lemma_push_fresh(s.drop_first(), (key@, samples));
                    }
                } else {
                    proof {
                        lemma_view_push(v, (key, samples));
                        lemma_push_fresh(s, (key@, samples));
                    }
                }
                self.entries.push((key, samples));
            },
        }
    }
}

} // verus!
