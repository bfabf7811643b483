use vstd::prelude::*;

verus! {

/// What a deck is, abstractly: how many indices it deals, which are still in
/// the deck, and the order in which the others were dealt.
pub ghost struct DeckView {
    pub total: nat,
    pub remaining: Set<usize>,
    pub dealt: Seq<usize>,
}

impl DeckView {
    /// Every index below `total` is either still in the deck or was dealt exactly once.
    pub open spec fn wf(self) -> bool {
        &&& self.total <= usize::MAX
        &&& self.remaining.finite()
        &&& forall|i: usize| #[trigger] self.remaining.contains(i) ==> i < self.total
        &&& forall|k: int| 0 <= k < self.dealt.len() ==> #[trigger] self.dealt[k] < self.total
        &&& self.dealt.no_duplicates()
        &&& forall|k: int| 0 <= k < self.dealt.len() ==> !self.remaining.contains(#[trigger] self.dealt[k])
        &&& forall|i: usize| i < self.total ==> #[trigger] self.remaining.contains(i) || self.dealt.contains(i)
    }

    /// A full deck of `total` indices.
    pub open spec fn fresh(total: nat) -> DeckView {
        DeckView {
            total,
            remaining: Set::new(|i: usize| i < total),
            dealt: Seq::empty(),
        }
    }

    /// `index` was dealt from `self`, giving `after`.
    pub open spec fn deals(self, index: usize, after: DeckView) -> bool {
        &&& self.remaining.contains(index)
        &&& after == DeckView {
            total: self.total,
            remaining: self.remaining.remove(index),
            dealt: self.dealt.push(index),
        }
    }

    pub open spec fn exhausted(self) -> bool {
        self.remaining.is_empty()
    }
}

/// A shuffled bag of the indices `0..total`: each index is dealt once, in a
/// pseudo-random order, before the bag is exhausted.
pub struct RandomIndexDeck {
    total: usize,
    remaining: Vec<usize>,
    dealt: Ghost<Seq<usize>>,
    rng: u64,
}

impl View for RandomIndexDeck {
    type V = DeckView;

    closed spec fn view(&self) -> DeckView {
        DeckView { total: self.total as nat, remaining: self.remaining@.to_set(), dealt: self.dealt@ }
    }
}

impl RandomIndexDeck {
    pub closed spec fn wf(&self) -> bool {
        &&& self.remaining@.no_duplicates()
        &&& self@.wf()
    }

    /// A well-formed deck has a well-formed view.
    pub proof fn lemma_view_wf(&self)
        requires
            self.wf(),
        ensures
            self@.wf(),
    {
    }

    /// A full deck of `total` indices. `seed` chooses the dealing order.
    pub fn new(total: usize, seed: u64) -> (deck: Self)
        ensures
            deck.wf(),
            deck@ == DeckView::fresh(total as nat),
    {
        let mut remaining: Vec<usize> = Vec::new();
        let mut i: usize = 0;
        while i < total
            invariant
                i <= total,
                remaining@.len() == i,
                forall|k: int| 0 <= k < i ==> #[trigger] remaining@[k] == k,
            decreases total - i,
        {
            remaining.push(i);
            i = i + 1;
        }
        let deck = RandomIndexDeck {
            total,
            remaining,
            dealt: Ghost(Seq::empty()),
            rng: seed | 1,
        };
        proof {
            assert forall|a: int, b: int| 0 <= a < b < deck.remaining@.len() implies deck.remaining@[a]
                != deck.remaining@[b] by {}
            assert(deck.remaining@.to_set() =~= Set::new(|x: usize| x < total)) by {
                assert forall|x: usize| x < total implies deck.remaining@.contains(x) by {
                    assert(deck.remaining@[x as int] == x);
                }
            }
        }
        deck
    }

    /// How many indices this deck deals in all.
    pub fn total(&self) -> (total: usize)
        ensures
            total == self@.total,
    {
        self.total
    }

    /// How many indices were dealt so far.
    pub fn drawn_count(&self) -> (count: usize)
        requires
            self.wf(),
        ensures
            count == self@.dealt.len(),
    {
        proof {
            self.lemma_counts();
        }
        self.total - self.remaining.len()
    }

    /// Whether every index was dealt.
    pub fn is_exhausted(&self) -> (exhausted: bool)
        requires
            self.wf(),
        ensures
            exhausted == self@.exhausted(),
    {
        proof {
            self.lemma_counts();
            if self.remaining.len() > 0 {
                assert(self@.remaining.contains(self.remaining@[0]));
            }
        }
        self.remaining.len() == 0
    }

    proof fn lemma_counts(&self)
        requires
            self.wf(),
        ensures
            self.remaining@.len() + self@.dealt.len() == self.total,
            self.remaining@.to_set().len() == self.remaining@.len(),
            self@.remaining.is_empty() <==> self.remaining@.len() == 0,
    {
        let dealt = self.dealt@;
        let rem = self.remaining@;
        rem.unique_seq_to_set();
        dealt.unique_seq_to_set();
        let all = Set::new(|x: usize| x < self.total);
        assert(rem.to_set() + dealt.to_set() =~= all) by {
            assert forall|x: usize| x < self.total implies (rem.to_set() + dealt.to_set()).contains(x) by {
                assert(self@.remaining.contains(x) || dealt.contains(x));
            }
        }
        assert(rem.to_set().disjoint(dealt.to_set())) by {
            assert forall|x: usize| rem.to_set().contains(x) implies !dealt.to_set().contains(x) by {
                if dealt.contains(x) {
                    let k = choose|k: int| 0 <= k < dealt.len() && dealt[k] == x;
                    assert(!self@.remaining.contains(dealt[k]));
                }
            }
        }
        lemma_range_len(self.total);
        vstd::set_lib::lemma_set_disjoint_lens(rem.to_set(), dealt.to_set());
        if rem.len() > 0 {
            assert(rem.to_set().contains(rem[0]));
        }
    }

    /// Deals the next index. The order is pseudo-random; which indices come out
    /// is fixed: every index still in the deck comes out exactly once.
    pub fn next_index(&mut self) -> (index: usize)
        requires
            old(self).wf(),
            !old(self)@.exhausted(),
        ensures
            final(self).wf(),
            old(self)@.deals(index, final(self)@),
    {
        proof {
            self.lemma_counts();
        }
        let x = self.rng;
        let x = x ^ (x << 13);
        let x = x ^ (x >> 7);
        let x = x ^ (x << 17);
        self.rng = x;
        let len = self.remaining.len();
        let pick: usize = (x % (len as u64)) as usize;
        let ghost before = self.remaining@;
        let index = self.remaining.swap_remove(pick);
        proof {
            let after = self.remaining@;
            self.dealt@ = self.dealt@.push(index);
            assert(after.no_duplicates()) by {
                assert forall|a: int, b: int| 0 <= a < b < after.len() implies after[a] != after[b] by {
                    let a0 = if a == pick as int { before.len() - 1 } else { a };
                    let b0 = if b == pick as int { before.len() - 1 } else { b };
                    assert(after[a] == before[a0]);
                    assert(after[b] == before[b0]);
                }
            }
            assert(after.to_set() =~= before.to_set().remove(index)) by {
                assert forall|y: usize| after.to_set().contains(y) <==> before.to_set().remove(index).contains(y) by {
                    if after.contains(y) {
                        let k = choose|k: int| 0 <= k < after.len() && after[k] == y;
                        let k0 = if k == pick as int { before.len() - 1 } else { k };
                        assert(before[k0] == y);
                        assert(k0 != pick as int);
                    }
                    if before.contains(y) && y != index {
                        let k = choose|k: int| 0 <= k < before.len() && before[k] == y;
                        if k == before.len() - 1 {
                            assert(after[pick as int] == y);
                        } else {
                            assert(after[k] == y);
                        }
                    }
                }
            }
            assert(before.to_set().contains(index)) by {
                assert(before[pick as int] == index);
            }
            let old_view = old(self)@;
            let new_view = self@;
            assert(new_view.remaining == old_view.remaining.remove(index));
            assert(new_view.dealt == old_view.dealt.push(index));
            assert forall|k: int| 0 <= k < new_view.dealt.len() implies !new_view.remaining.contains(
                #[trigger] new_view.dealt[k]) by {
                if k < old_view.dealt.len() {
                    assert(new_view.dealt[k] == old_view.dealt[k]);
                }
            }
            assert forall|k: int| 0 <= k < new_view.dealt.len() implies #[trigger] new_view.dealt[k]
                < new_view.total by {
                if k < old_view.dealt.len() {
                    assert(new_view.dealt[k] == old_view.dealt[k]);
                }
            }
            assert(new_view.dealt.no_duplicates()) by {
                assert forall|a: int, b: int| 0 <= a < b < new_view.dealt.len() implies new_view.dealt[a]
                    != new_view.dealt[b] by {
                    if b == old_view.dealt.len() {
                        assert(!old_view.remaining.contains(old_view.dealt[a]));
                    }
                }
            }
            assert forall|i: usize| i < new_view.total implies #[trigger] new_view.remaining.contains(i)
                || new_view.dealt.contains(i) by {
                if i == index {
                    assert(new_view.dealt[new_view.dealt.len() - 1] == i);
                } else if old_view.dealt.contains(i) {
                    let k = choose|k: int| 0 <= k < old_view.dealt.len() && old_view.dealt[k] == i;
                    assert(new_view.dealt[k] == i);
                }
            }
        }
        index
    }
}

proof fn lemma_range_len(n: usize)
    ensures
        Set::new(|x: usize| x < n).finite(),
        Set::new(|x: usize| x < n).len() == n,
    decreases n,
{
    if n == 0 {
        assert(Set::new(|x: usize| x < n) =~= Set::<usize>::empty());
    } else {
        lemma_range_len((n - 1) as usize);
        assert(Set::new(|x: usize| x < n) =~= Set::new(|x: usize| x < (n - 1) as usize).insert((n - 1) as usize));
    }
}

/// A deck that has dealt all of its `total` indices dealt each of them exactly once.
pub proof fn exhausted_deck_dealt_every_index_once(deck: DeckView)
    requires
        deck.wf(),
        deck.exhausted(),
    ensures
        deck.dealt.no_duplicates(),
        forall|i: usize| i < deck.total ==> #[trigger] deck.dealt.contains(i),
        deck.dealt.len() == deck.total,
{
    assert forall|i: usize| i < deck.total implies #[trigger] deck.dealt.contains(i) by {
        assert(!deck.remaining.contains(i));
    }
    let dealt = deck.dealt;
    dealt.unique_seq_to_set();
    lemma_range_len_u(deck.total);
    assert(dealt.to_set() =~= Set::new(|x: usize| x < deck.total)) by {
        assert forall|x: usize| dealt.to_set().contains(x) implies x < deck.total by {
            let k = choose|k: int| 0 <= k < dealt.len() && dealt[k] == x;
        }
    }
}

proof fn lemma_range_len_u(n: nat)
    requires
        n <= usize::MAX,
    ensures
        Set::new(|x: usize| x < n).len() == n,
{
    lemma_range_len(n as usize);
    assert(Set::new(|x: usize| x < n) =~= Set::new(|x: usize| x < n as usize));
}

} // verus!
