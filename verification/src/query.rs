//! Search queries: a query is split at white space into terms, each term is
//! lowercased, and an item matches when its lowercase form contains every term.
use vstd::prelude::*;
use crate::keyboard_state::{is_whitespace, spec_is_whitespace};
use crate::text::{copy_string, string_of};

verus! {

/// The words of `s`: the maximal runs of characters that are not white space,
/// in order (what `str::split_whitespace` yields).
pub open spec fn words(s: Seq<char>) -> Seq<Seq<char>>
    decreases s.len(),
{
    if s.len() == 0 {
        Seq::empty()
    } else {
        let prev = words(s.drop_last());
        let c = s.last();
        if spec_is_whitespace(c) {
            prev
        } else if s.len() >= 2 && !spec_is_whitespace(s[s.len() - 2]) {
            prev.update(prev.len() - 1, prev.last().push(c))
        } else {
            prev.push(seq![c])
        }
    }
}

/// The views of a list of strings.
pub open spec fn strings_view(strings: Seq<String>) -> Seq<Seq<char>> {
    strings.map_values(|s: String| s@)
}

/// What std's `to_lowercase` gives for a string (Unicode lowercase mapping).
pub uninterp spec fn lowercase(s: Seq<char>) -> Seq<char>;

/// The lowercase form of `s`.
///
/// Trusted: calls `str::to_lowercase`, whose result depends on the characters of
/// `s` alone; the mapping itself (Unicode's lowercase tables) is left unstated.
#[verifier::external_body]
pub(crate) fn to_lowercase(s: &str) -> (lower: String)
    ensures
        lower@ == lowercase(s@),
{
    s.to_lowercase()
}

/// `needle` occurs in `hay` at position `i`.
pub open spec fn occurs_at(hay: Seq<char>, needle: Seq<char>, i: int) -> bool {
    0 <= i && i + needle.len() <= hay.len() && hay.subrange(i, i + needle.len()) == needle
}

/// `needle` occurs somewhere in `hay` (the empty needle always does).
pub open spec fn contains_text(hay: Seq<char>, needle: Seq<char>) -> bool {
    exists|i: int| occurs_at(hay, needle, i)
}

/// Whether `needle` occurs at position `i` of `hay`.
fn occurs_at_index(hay: &Vec<char>, needle: &Vec<char>, i: usize) -> (found: bool)
    requires
        i + needle@.len() <= hay@.len(),
    ensures
        found == occurs_at(hay@, needle@, i as int),
{
    let n = hay.len();
    let mut k: usize = 0;
    while k < needle.len()
        invariant
            n == hay@.len(),
            i + needle@.len() <= hay@.len(),
            k <= needle@.len(),
            forall|m: int| 0 <= m < k ==> hay@[i + m] == needle@[m],
        decreases needle@.len() - k,
    {
        if hay[i + k] != needle[k] {
            assert(hay@.subrange(i as int, i + needle@.len())[k as int] != needle@[k as int]);
            return false;
        }
        k = k + 1;
    }
    assert(hay@.subrange(i as int, i + needle@.len()) =~= needle@);
    true
}

/// Whether `needle` occurs in `hay`.
pub fn contains_chars(hay: &Vec<char>, needle: &Vec<char>) -> (found: bool)
    ensures
        found == contains_text(hay@, needle@),
{
    if needle.len() > hay.len() {
        assert forall|i: int| !occurs_at(hay@, needle@, i) by {}
        return false;
    }
    let last = hay.len() - needle.len();
    let mut i: usize = 0;
    loop
        invariant
            last == hay@.len() - needle@.len(),
            i <= last,
            forall|j: int| 0 <= j < i ==> !#[trigger] occurs_at(hay@, needle@, j),
        ensures
            forall|j: int| 0 <= j <= last ==> !#[trigger] occurs_at(hay@, needle@, j),
        decreases last - i,
    {
        if occurs_at_index(hay, needle, i) {
            assert(occurs_at(hay@, needle@, i as int));
            return true;
        }
        if i == last {
            break;
        }
        i = i + 1;
    }
    assert forall|j: int| !occurs_at(hay@, needle@, j) by {
        if 0 <= j && j + needle@.len() <= hay@.len() {
            assert(j <= last);
        }
    }
    false
}

/// The words of `s`, as `str::split_whitespace` yields them.
pub fn split_whitespace(s: &str) -> (parts: Vec<String>)
    ensures
        strings_view(parts@) == words(s@),
{
    let len = s.unicode_len();
    let mut parts: Vec<String> = Vec::new();
    let mut current: Vec<char> = Vec::new();
    let mut in_word = false;
    let mut i: usize = 0;
    while i < len
        invariant
            len == s@.len(),
            i <= len,
            in_word == (i > 0 && !spec_is_whitespace(s@[i - 1])),
            in_word ==> strings_view(parts@).push(current@) == words(s@.subrange(0, i as int)),
            !in_word ==> strings_view(parts@) == words(s@.subrange(0, i as int)),
            in_word ==> current@.len() > 0,
            !in_word ==> current@.len() == 0,
        decreases len - i,
    {
        let c = s.get_char(i);
        let ghost prefix = s@.subrange(0, i as int);
        let ghost next = s@.subrange(0, i + 1);
        proof {
            assert(next.drop_last() =~= prefix);
            assert(next.last() == c);
            if i > 0 {
                assert(next[next.len() - 2] == s@[i - 1]);
            }
        }
        if is_whitespace(c) {
            if in_word {
                let word = string_of(current.as_slice());
                let ghost before = parts@;
                parts.push(word);
                proof {
                    assert(strings_view(parts@) =~= strings_view(before).push(current@));
                }
                current = Vec::new();
            }
            in_word = false;
        } else {
            let ghost before = current@;
            current.push(c);
            proof {
                let w = words(prefix);
                if in_word {
                    assert(w =~= strings_view(parts@).push(before));
                    assert(words(next) == w.update(w.len() - 1, w.last().push(c)));
                    assert(strings_view(parts@).push(current@) =~= w.update(w.len() - 1, w.last().push(c)));
                } else {
                    assert(current@ =~= seq![c]);
                }
            }
            in_word = true;
        }
        i = i + 1;
    }
    if in_word {
        let word = string_of(current.as_slice());
        let ghost before = parts@;
        parts.push(word);
        proof {
            assert(strings_view(parts@) =~= strings_view(before).push(current@));
        }
    }
    assert(s@.subrange(0, len as int) =~= s@);
    parts
}

/// The terms of a query: its words, lowercased.
pub open spec fn query_terms(query: Seq<char>) -> Seq<Seq<char>> {
    words(query).map_values(|w: Seq<char>| lowercase(w))
}

/// `lower` contains every one of `terms`.
pub open spec fn matches_terms(lower: Seq<char>, terms: Seq<Seq<char>>) -> bool {
    forall|k: int| 0 <= k < terms.len() ==> contains_text(lower, #[trigger] terms[k])
}

/// The items whose lowercase form contains every term of the query, in order.
pub open spec fn filtered_items(items: Seq<Seq<char>>, terms: Seq<Seq<char>>) -> Seq<Seq<char>>
    decreases items.len(),
{
    if items.len() == 0 {
        Seq::empty()
    } else {
        let prev = filtered_items(items.drop_last(), terms);
        if matches_terms(lowercase(items.last()), terms) { prev.push(items.last()) } else { prev }
    }
}

/// The display names of the patches whose precomputed lowercase name contains
/// every term, in order.
pub open spec fn filtered_patches(all: Seq<(Seq<char>, Seq<char>)>, terms: Seq<Seq<char>>) -> Seq<Seq<char>>
    decreases all.len(),
{
    if all.len() == 0 {
        Seq::empty()
    } else {
        let prev = filtered_patches(all.drop_last(), terms);
        if matches_terms(all.last().1, terms) { prev.push(all.last().0) } else { prev }
    }
}

/// The pairs of strings as pairs of views.
pub open spec fn pairs_view(pairs: Seq<(String, String)>) -> Seq<(Seq<char>, Seq<char>)> {
    pairs.map_values(|p: (String, String)| (p.0@, p.1@))
}

/// The lowercase terms of `query`, each as characters.
fn lowercase_terms(query: &str) -> (terms: Vec<Vec<char>>)
    ensures
        terms@.len() == query_terms(query@).len(),
        forall|k: int| 0 <= k < terms@.len() ==> #[trigger] terms@[k]@ == query_terms(query@)[k],
{
    let parts = split_whitespace(query);
    let mut terms: Vec<Vec<char>> = Vec::new();
    let mut k: usize = 0;
    while k < parts.len()
        invariant
            strings_view(parts@) == words(query@),
            k <= parts@.len(),
            terms@.len() == k,
            forall|m: int| 0 <= m < k ==> #[trigger] terms@[m]@ == lowercase(parts@[m]@),
        decreases parts@.len() - k,
    {
        let lower = to_lowercase(parts[k].as_str());
        terms.push(crate::text::chars_of(lower.as_str()));
        k = k + 1;
    }
    proof {
        assert forall|m: int| 0 <= m < terms@.len() implies #[trigger] terms@[m]@ == query_terms(query@)[m] by {
            assert(strings_view(parts@)[m] == parts@[m]@);
        }
    }
    terms
}

/// Whether `lower` contains every one of `terms`.
fn matches_all(lower: &Vec<char>, terms: &Vec<Vec<char>>) -> (found: bool)
    ensures
        found == (forall|k: int| 0 <= k < terms@.len() ==> contains_text(lower@, #[trigger] terms@[k]@)),
{
    let mut k: usize = 0;
    while k < terms.len()
        invariant
            k <= terms@.len(),
            forall|m: int| 0 <= m < k ==> contains_text(lower@, #[trigger] terms@[m]@),
        decreases terms@.len() - k,
    {
        if !contains_chars(lower, &terms[k]) {
            return false;
        }
        k = k + 1;
    }
    true
}

/// The items that match every white-space separated term of `query`, compared
/// without regard to case; an empty query keeps every item
/// (`blank_query_keeps_every_item`), and two queries joined by a space filter
/// in turn (`joined_query_filters_in_turn`).
pub fn filter_items(items: &[String], query: &str) -> (kept: Vec<String>)
    ensures
        strings_view(kept@) == filtered_items(strings_view(items@), query_terms(query@)),
{
    let terms = lowercase_terms(query);
    let ghost t = query_terms(query@);
    let mut kept: Vec<String> = Vec::new();
    let mut i: usize = 0;
    while i < items.len()
        invariant
            i <= items@.len(),
            terms@.len() == t.len(),
            forall|k: int| 0 <= k < terms@.len() ==> #[trigger] terms@[k]@ == t[k],
            strings_view(kept@) == filtered_items(strings_view(items@.subrange(0, i as int)), t),
        decreases items@.len() - i,
    {
        let lower = to_lowercase(items[i].as_str());
        let lower_chars = crate::text::chars_of(lower.as_str());
        let ghost prefix = strings_view(items@.subrange(0, i as int));
        let ghost next = strings_view(items@.subrange(0, i + 1));
        proof {
            assert(next.drop_last() =~= prefix);
            assert(next.last() == items@[i as int]@);
        }
        let found = matches_all(&lower_chars, &terms);
        proof {
            assert(found == matches_terms(lowercase(items@[i as int]@), t)) by {
                if found {
                    assert forall|k: int| 0 <= k < t.len() implies contains_text(
                        lowercase(items@[i as int]@),
                        #[trigger] t[k],
                    ) by {
                        assert(terms@[k]@ == t[k]);
                    }
                } else {
                    let k = choose|k: int| 0 <= k < terms@.len() && !contains_text(lower_chars@, #[trigger] terms@[k]@);
                    assert(terms@[k]@ == t[k]);
                }
            }
        }
        if found {
            let ghost before = kept@;
            kept.push(copy_string(&items[i]));
            proof {
                assert(strings_view(kept@) =~= strings_view(before).push(items@[i as int]@));
            }
        }
        i = i + 1;
    }
    assert(items@.subrange(0, items@.len() as int) =~= items@);
    kept
}

/// The display names of the patches that match every white-space separated
/// term of `query`; each pair holds a display name and its lowercase form.
pub fn filter_patches(all: &[(String, String)], query: &str) -> (kept: Vec<String>)
    ensures
        strings_view(kept@) == filtered_patches(pairs_view(all@), query_terms(query@)),
{
    let terms = lowercase_terms(query);
    let ghost t = query_terms(query@);
    let mut kept: Vec<String> = Vec::new();
    let mut i: usize = 0;
    while i < all.len()
        invariant
            i <= all@.len(),
            terms@.len() == t.len(),
            forall|k: int| 0 <= k < terms@.len() ==> #[trigger] terms@[k]@ == t[k],
            strings_view(kept@) == filtered_patches(pairs_view(all@.subrange(0, i as int)), t),
        decreases all@.len() - i,
    {
        let lower_chars = crate::text::chars_of(all[i].1.as_str());
        let ghost prefix = pairs_view(all@.subrange(0, i as int));
        let ghost next = pairs_view(all@.subrange(0, i + 1));
        proof {
            assert(next.drop_last() =~= prefix);
            assert(next.last() == (all@[i as int].0@, all@[i as int].1@));
        }
        let found = matches_all(&lower_chars, &terms);
        proof {
            assert(found == matches_terms(all@[i as int].1@, t)) by {
                if found {
                    assert forall|k: int| 0 <= k < t.len() implies contains_text(
                        all@[i as int].1@,
                        #[trigger] t[k],
                    ) by {
                        assert(terms@[k]@ == t[k]);
                    }
                } else {
                    let k = choose|k: int| 0 <= k < terms@.len() && !contains_text(lower_chars@, #[trigger] terms@[k]@);
                    assert(terms@[k]@ == t[k]);
                }
            }
        }
        if found {
            let ghost before = kept@;
            kept.push(copy_string(&all[i].0));
            proof {
                assert(strings_view(kept@) =~= strings_view(before).push(all@[i as int].0@));
            }
        }
        i = i + 1;
    }
    assert(all@.subrange(0, all@.len() as int) =~= all@);
    kept
}


/// A query without words (empty, or white space only) keeps every item, in
/// order.
pub proof fn blank_query_keeps_every_item(items: Seq<Seq<char>>, query: Seq<char>)
    requires
        forall|i: int| 0 <= i < query.len() ==> spec_is_whitespace(#[trigger] query[i]),
    ensures
        filtered_items(items, query_terms(query)) == items,
{
    lemma_blank_has_no_words(query);
    assert(query_terms(query) =~= Seq::<Seq<char>>::empty());
    lemma_no_terms_keep_all(items, query_terms(query));
}

proof fn lemma_blank_has_no_words(query: Seq<char>)
    requires
        forall|i: int| 0 <= i < query.len() ==> spec_is_whitespace(#[trigger] query[i]),
    ensures
        words(query).len() == 0,
    decreases query.len(),
{
    if query.len() > 0 {
        let prev = query.drop_last();
        assert forall|i: int| 0 <= i < prev.len() implies spec_is_whitespace(#[trigger] prev[i]) by {
            assert(prev[i] == query[i]);
        }
        lemma_blank_has_no_words(prev);
        assert(spec_is_whitespace(query[query.len() - 1]));
    }
}

proof fn lemma_no_terms_keep_all(items: Seq<Seq<char>>, terms: Seq<Seq<char>>)
    requires
        terms.len() == 0,
    ensures
        filtered_items(items, terms) == items,
    decreases items.len(),
{
    if items.len() > 0 {
        lemma_no_terms_keep_all(items.drop_last(), terms);
        assert(items.drop_last().push(items.last()) =~= items);
    }
}

/// Filtering only keeps items: what it returns is at most as long as the list,
/// and every returned item matches every term and is in the list.
pub proof fn filter_keeps_only_matching_items(items: Seq<Seq<char>>, terms: Seq<Seq<char>>)
    ensures
        filtered_items(items, terms).len() <= items.len(),
        forall|i: int| 0 <= i < filtered_items(items, terms).len() ==> items.contains(
            #[trigger] filtered_items(items, terms)[i],
        ) && matches_terms(lowercase(filtered_items(items, terms)[i]), terms),
    decreases items.len(),
{
    if items.len() > 0 {
        let prev = items.drop_last();
        filter_keeps_only_matching_items(prev, terms);
        let f = filtered_items(items, terms);
        let fp = filtered_items(prev, terms);
        assert forall|i: int| 0 <= i < f.len() implies items.contains(#[trigger] f[i]) && matches_terms(
            lowercase(f[i]),
            terms,
        ) by {
            if i < fp.len() {
                assert(f[i] == fp[i]);
                assert(prev.contains(fp[i]));
                let k = choose|k: int| 0 <= k < prev.len() && prev[k] == fp[i];
                assert(items[k] == prev[k]);
            } else {
                assert(f[i] == items.last());
                assert(items[items.len() - 1] == items.last());
            }
        }
    }
}

proof fn lemma_words_end_in_a_word(s: Seq<char>)
    requires
        s.len() > 0,
        !spec_is_whitespace(s.last()),
    ensures
        words(s).len() > 0,
    decreases s.len(),
{
    if s.len() >= 2 && !spec_is_whitespace(s[s.len() - 2]) {
        let p = s.drop_last();
        assert(p.last() == s[s.len() - 2]);
        lemma_words_end_in_a_word(p);
    }
}

/// The words of two texts joined by a space are the words of the first, then
/// those of the second.
proof fn lemma_words_of_joined(q1: Seq<char>, q2: Seq<char>)
    ensures
        words(q1 + seq![' '] + q2) == words(q1) + words(q2),
    decreases q2.len(),
{
    let s = q1 + seq![' '] + q2;
    if q2.len() == 0 {
        assert(s.drop_last() =~= q1);
        assert(words(q2) =~= Seq::<Seq<char>>::empty());
        assert(words(q1) + words(q2) =~= words(q1));
    } else {
        let p2 = q2.drop_last();
        lemma_words_of_joined(q1, p2);
        assert(s.drop_last() =~= q1 + seq![' '] + p2);
        let c = s.last();
        assert(c == q2.last());
        let prev = words(s.drop_last());
        assert(prev == words(q1) + words(p2));
        if spec_is_whitespace(c) {
        } else if q2.len() >= 2 && !spec_is_whitespace(q2[q2.len() - 2]) {
            assert(s[s.len() - 2] == q2[q2.len() - 2]);
            assert(p2.last() == q2[q2.len() - 2]);
            lemma_words_end_in_a_word(p2);
            let w2 = words(p2);
            assert(words(q2) == w2.update(w2.len() - 1, w2.last().push(c)));
            assert(words(s) == prev.update(prev.len() - 1, prev.last().push(c)));
            assert(prev.last() == w2.last());
            assert(words(s) =~= words(q1) + words(q2));
        } else {
            if q2.len() == 1 {
                assert(s[s.len() - 2] == ' ');
            } else {
                assert(s[s.len() - 2] == q2[q2.len() - 2]);
            }
            assert(words(s) == prev.push(seq![c]));
            assert(words(q2) == words(p2).push(seq![c]));
            assert(words(s) =~= words(q1) + words(q2));
        }
    }
}

proof fn lemma_matches_joined(lower: Seq<char>, t1: Seq<Seq<char>>, t2: Seq<Seq<char>>)
    ensures
        matches_terms(lower, t1 + t2) == (matches_terms(lower, t1) && matches_terms(lower, t2)),
{
    let t = t1 + t2;
    if matches_terms(lower, t) {
        assert forall|k: int| 0 <= k < t1.len() implies contains_text(lower, #[trigger] t1[k]) by {
            assert(t[k] == t1[k]);
        }
        assert forall|k: int| 0 <= k < t2.len() implies contains_text(lower, #[trigger] t2[k]) by {
            assert(t[t1.len() + k] == t2[k]);
        }
    }
    if matches_terms(lower, t1) && matches_terms(lower, t2) {
        assert forall|k: int| 0 <= k < t.len() implies contains_text(lower, #[trigger] t[k]) by {
            if k < t1.len() {
                assert(t[k] == t1[k]);
            } else {
                assert(t[k] == t2[k - t1.len()]);
            }
        }
    }
}

proof fn lemma_filter_joined_terms(items: Seq<Seq<char>>, t1: Seq<Seq<char>>, t2: Seq<Seq<char>>)
    ensures
        filtered_items(items, t1 + t2) == filtered_items(filtered_items(items, t1), t2),
    decreases items.len(),
{
    if items.len() > 0 {
        let prev = items.drop_last();
        lemma_filter_joined_terms(prev, t1, t2);
        lemma_matches_joined(lowercase(items.last()), t1, t2);
        let f1 = filtered_items(items, t1);
        let f1p = filtered_items(prev, t1);
        if matches_terms(lowercase(items.last()), t1) {
            assert(f1 == f1p.push(items.last()));
            assert(f1.drop_last() =~= f1p);
            assert(f1.last() == items.last());
        }
    }
}

/// Filtering by two queries joined with a space is filtering by the first,
/// then by the second.
pub proof fn joined_query_filters_in_turn(items: Seq<Seq<char>>, q1: Seq<char>, q2: Seq<char>)
    ensures
        filtered_items(items, query_terms(q1 + seq![' '] + q2)) == filtered_items(
            filtered_items(items, query_terms(q1)),
            query_terms(q2),
        ),
{
    lemma_words_of_joined(q1, q2);
    assert(query_terms(q1 + seq![' '] + q2) =~= query_terms(q1) + query_terms(q2));
    lemma_filter_joined_terms(items, query_terms(q1), query_terms(q2));
}

} // verus!
