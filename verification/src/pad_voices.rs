//! The voices that the loop player keeps per pad key: a new voice of a pad
//! replaces that pad's voice only.
use vstd::prelude::*;

verus! {

/// The map that a list of (pad, voice) entries with distinct pads stands for.
pub open spec fn entries_map<T>(entries: Seq<(char, T)>) -> Map<char, T>
    decreases entries.len(),
{
    if entries.len() == 0 {
        Map::empty()
    } else {
        entries_map(entries.drop_last()).insert(entries.last().0, entries.last().1)
    }
}

/// No pad occurs twice.
pub open spec fn distinct_pads<T>(entries: Seq<(char, T)>) -> bool {
    forall|a: int, b: int| 0 <= a < b < entries.len() ==> #[trigger] entries[a].0 != #[trigger] entries[b].0
}

proof fn lemma_map_domain<T>(entries: Seq<(char, T)>, pad: char)
    ensures
        entries_map(entries).dom().contains(pad) <==> exists|i: int| 0 <= i < entries.len() && entries[i].0 == pad,
    decreases entries.len(),
{
    if entries.len() > 0 {
        let init = entries.drop_last();
        lemma_map_domain(init, pad);
        if exists|i: int| 0 <= i < init.len() && init[i].0 == pad {
            let i = choose|i: int| 0 <= i < init.len() && init[i].0 == pad;
            assert(entries[i].0 == pad);
        }
        if exists|i: int| 0 <= i < entries.len() && entries[i].0 == pad {
            let i = choose|i: int| 0 <= i < entries.len() && entries[i].0 == pad;
            if i < entries.len() - 1 {
                assert(init[i].0 == pad);
            }
        }
    }
}

proof fn lemma_map_value<T>(entries: Seq<(char, T)>, i: int)
    requires
        distinct_pads(entries),
        0 <= i < entries.len(),
    ensures
        entries_map(entries).dom().contains(entries[i].0),
        entries_map(entries)[entries[i].0] == entries[i].1,
    decreases entries.len(),
{
    let init = entries.drop_last();
    if i < entries.len() - 1 {
        assert(init[i] == entries[i]);
        assert(distinct_pads(init));
        lemma_map_value(init, i);
        assert(entries[i].0 != entries.last().0);
    }
}

proof fn lemma_map_remove<T>(entries: Seq<(char, T)>, i: int)
    requires
        distinct_pads(entries),
        0 <= i < entries.len(),
    ensures
        entries_map(entries.remove(i)) == entries_map(entries).remove(entries[i].0),
        distinct_pads(entries.remove(i)),
    decreases entries.len(),
{
    let init = entries.drop_last();
    let pad = entries[i].0;
    assert(distinct_pads(init));
    if i == entries.len() - 1 {
        assert(entries.remove(i) =~= init);
        lemma_map_domain(init, pad);
        if exists|j: int| 0 <= j < init.len() && init[j].0 == pad {
            let j = choose|j: int| 0 <= j < init.len() && init[j].0 == pad;
            assert(entries[j].0 == pad);
        }
        assert(entries_map(init) =~= entries_map(entries).remove(pad));
    } else {
        lemma_map_remove(init, i);
        let r = entries.remove(i);
        assert(r =~= init.remove(i).push(entries.last()));
        assert(r.drop_last() =~= init.remove(i));
        assert(r.last() == entries.last());
        assert(entries.last().0 != pad);
        assert(entries_map(r) == entries_map(init.remove(i)).insert(entries.last().0, entries.last().1));
        assert(entries_map(r) =~= entries_map(entries).remove(pad));
        assert forall|a: int, b: int| 0 <= a < b < r.len() implies #[trigger] r[a].0 != #[trigger] r[b].0 by {
            let a0 = if a < i { a } else { a + 1 };
            let b0 = if b < i { b } else { b + 1 };
            assert(r[a] == entries[a0] && r[b] == entries[b0]);
        }
    }
}

/// The voice of each pad that has one.
pub struct PadVoices<T> {
    entries: Vec<(char, T)>,
}

impl<T> PadVoices<T> {
    pub closed spec fn wf(&self) -> bool {
        distinct_pads(self.entries@)
    }

    /// The voices by pad.
    pub closed spec fn map(&self) -> Map<char, T> {
        entries_map(self.entries@)
    }

    /// No voices.
    pub fn new() -> (voices: Self)
        ensures
            voices.wf(),
            voices.map() == Map::<char, T>::empty(),
    {
        PadVoices { entries: Vec::new() }
    }

    fn position(&self, pad: char) -> (found: Option<usize>)
        requires
            self.wf(),
        ensures
            match found {
                Some(i) => i < self.entries@.len() && self.entries@[i as int].0 == pad,
                None => !self.map().dom().contains(pad),
            },
    {
        let mut i: usize = 0;
        while i < self.entries.len()
            invariant
                i <= self.entries@.len(),
                forall|j: int| 0 <= j < i ==> self.entries@[j].0 != pad,
            decreases self.entries@.len() - i,
        {
            if self.entries[i].0 == pad {
                return Some(i);
            }
            i = i + 1;
        }
        proof {
            lemma_map_domain(self.entries@, pad);
        }
        None
    }

    /// The voice of `pad`, if it has one.
    pub fn get(&self, pad: char) -> (voice: Option<&T>)
        requires
            self.wf(),
        ensures
            match voice {
                Some(v) => self.map().dom().contains(pad) && self.map()[pad] == *v,
                None => !self.map().dom().contains(pad),
            },
    {
        match self.position(pad) {
            Some(i) => {
                proof {
                    lemma_map_value(self.entries@, i as int);
                }
                Some(&self.entries[i].1)
            },
            None => None,
        }
    }

    /// Takes the voice of `pad` out; the other pads keep theirs.
    pub fn take(&mut self, pad: char) -> (voice: Option<T>)
        requires
            old(self).wf(),
        ensures
            final(self).wf(),
            final(self).map() == old(self).map().remove(pad),
            match voice {
                Some(v) => old(self).map().dom().contains(pad) && old(self).map()[pad] == v,
                None => !old(self).map().dom().contains(pad),
            },
    {
        match self.position(pad) {
            Some(i) => {
                proof {
                    lemma_map_value(self.entries@, i as int);
                    lemma_map_remove(self.entries@, i as int);
                }
                let (_, voice) = self.entries.remove(i);
                Some(voice)
            },
            None => {
                proof {
                    assert(self.map().remove(pad) =~= self.map());
                }
                None
            },
        }
    }

    /// Gives `pad` the voice `voice`, replacing (and returning) its old one.
    pub fn insert(&mut self, pad: char, voice: T) -> (previous: Option<T>)
        requires
            old(self).wf(),
        ensures
            final(self).wf(),
            final(self).map() == old(self).map().insert(pad, voice),
            match previous {
                Some(v) => old(self).map().dom().contains(pad) && old(self).map()[pad] == v,
                None => !old(self).map().dom().contains(pad),
            },
    {
        let previous = self.take(pad);
        let ghost before = self.entries@;
        proof {
            lemma_map_domain(before, pad);
        }
        self.entries.push((pad, voice));
        proof {
            assert(self.entries@.drop_last() =~= before);
            assert forall|a: int, b: int| 0 <= a < b < self.entries@.len() implies #[trigger] self.entries@[a].0
                != #[trigger] self.entries@[b].0 by {
                if b == before.len() {
                    assert(self.entries@[a] == before[a]);
                    if before[a].0 == pad {
                        assert(entries_map(before).dom().contains(pad));
                    }
                } else {
                    assert(self.entries@[a] == before[a] && self.entries@[b] == before[b]);
                }
            }
            assert(self.map() =~= old(self).map().insert(pad, voice));
        }
        previous
    }
}

/// Takes the voice of `pad` out of `voices`.
pub fn take_pad_voice<T>(voices: &mut PadVoices<T>, pad: char) -> (voice: Option<T>)
    requires
        old(voices).wf(),
    ensures
        final(voices).wf(),
        final(voices).map() == old(voices).map().remove(pad),
        match voice {
            Some(v) => old(voices).map().dom().contains(pad) && old(voices).map()[pad] == v,
            None => !old(voices).map().dom().contains(pad),
        },
{
    voices.take(pad)
}

} // verus!
