//! The keyboard's MML entry: a typed phrase becomes the notes of the Standard
//! MIDI File it renders to, every sounding note once, in the order it first
//! starts.
use vstd::prelude::*;
use crate::text::{concat, trim, trimmed};

verus! {

/// The key and velocity of a note-on message.
#[derive(Clone, Copy, Debug, PartialEq, Eq, Structural)]
pub struct NoteOn {
    pub key: u8,
    pub velocity: u8,
}

/// An event of an SMF track: its delta time and, for a note-on, its key and
/// velocity.
#[derive(Clone, Copy, Debug, PartialEq, Eq, Structural)]
pub struct SmfEvent {
    pub delta: u32,
    pub note_on: Option<NoteOn>,
}

/// The tracks that midly parses from `bytes` (each event reduced to its delta
/// and note-on), or `None` when the bytes are not an SMF.
pub uninterp spec fn smf_tracks(bytes: Seq<u8>) -> Option<Seq<Seq<SmfEvent>>>;

pub open spec fn tracks_view(tracks: Seq<Vec<SmfEvent>>) -> Seq<Seq<SmfEvent>> {
    tracks.map_values(|t: Vec<SmfEvent>| t@)
}

#[verifier::external_type_specification]
#[verifier::external_body]
pub struct ExSmfError(midly::Error);

/// The tracks of the SMF in `bytes`.
///
/// Trusted: calls `midly::Smf::parse` and keeps, per event, the delta time and
/// the key and velocity of a note-on. What parsing yields is a function of the
/// bytes alone (named `smf_tracks`); the parser itself is not restated.
#[verifier::external_body]
fn parse_smf(bytes: &[u8]) -> (parsed: Result<Vec<Vec<SmfEvent>>, midly::Error>)
    ensures
        match parsed {
            Ok(tracks) => smf_tracks(bytes@) == Some(tracks_view(tracks@)),
            Err(_) => smf_tracks(bytes@) is None,
        },
{
    let smf = midly::Smf::parse(bytes)?;
    Ok(smf.tracks.iter().map(|track| track.iter().map(|event| SmfEvent {
        delta: event.delta.as_int(),
        note_on: match event.kind {
            midly::TrackEventKind::Midi { message: midly::MidiMessage::NoteOn { key, vel }, .. } => Some(
                NoteOn { key: key.as_int(), velocity: vel.as_int() },
            ),
            _ => None,
        },
    }).collect()).collect())
}

/// The text of a parse error.
///
/// Trusted: formats `midly::Error` with its `Display`; nothing is stated of
/// the text.
#[verifier::external_body]
fn smf_error_text(error: &midly::Error) -> String {
    format!("{error}")
}

/// The time of event `e` of a track: the sum of the deltas up to it,
/// saturating at the largest `u64`.
pub open spec fn abs_time(track: Seq<SmfEvent>, e: int) -> nat
    decreases e + 1,
{
    if e < 0 {
        0
    } else {
        let t = abs_time(track, e - 1) + track[e].delta;
        if t > u64::MAX { u64::MAX as nat } else { t as nat }
    }
}

/// Event `e` of track `t` starts a note (a note-on with a velocity).
pub open spec fn is_note_start(tracks: Seq<Seq<SmfEvent>>, t: int, e: int) -> bool {
    &&& 0 <= t < tracks.len()
    &&& 0 <= e < tracks[t].len()
    &&& tracks[t][e].note_on matches Some(n) && n.velocity > 0
}

pub open spec fn start_key(tracks: Seq<Seq<SmfEvent>>, t: int, e: int) -> u8 {
    match tracks[t][e].note_on {
        Some(n) => n.key,
        None => 0,
    }
}

/// Where a note start stands in time: by time, then track, then event.
pub open spec fn start_rank(tracks: Seq<Seq<SmfEvent>>, t: int, e: int) -> (nat, int, int) {
    (abs_time(tracks[t], e), t, e)
}

pub open spec fn rank_lt(a: (nat, int, int), b: (nat, int, int)) -> bool {
    a.0 < b.0 || (a.0 == b.0 && (a.1 < b.1 || (a.1 == b.1 && a.2 < b.2)))
}

/// Some note start plays `key`.
pub open spec fn is_played(tracks: Seq<Seq<SmfEvent>>, key: u8) -> bool {
    exists|t: int, e: int| is_note_start(tracks, t, e) && start_key(tracks, t, e) == key
}

/// `(t, e)` is the earliest start of `key`.
pub open spec fn is_first_start(tracks: Seq<Seq<SmfEvent>>, key: u8, t: int, e: int) -> bool {
    &&& is_note_start(tracks, t, e)
    &&& start_key(tracks, t, e) == key
    &&& forall|t2: int, e2: int|
        #[trigger] is_note_start(tracks, t2, e2) && start_key(tracks, t2, e2) == key ==> !rank_lt(
            start_rank(tracks, t2, e2),
            start_rank(tracks, t, e),
        ) || (t2 == t && e2 == e)
}

/// `notes` lists every played key once, in the order of the keys' first starts.
pub open spec fn in_first_start_order(tracks: Seq<Seq<SmfEvent>>, notes: Seq<u8>) -> bool {
    &&& notes.no_duplicates()
    &&& forall|k: u8| #[trigger] notes.contains(k) <==> is_played(tracks, k)
    &&& forall|i: int, j: int, t1: int, e1: int, t2: int, e2: int|
        #![trigger is_first_start(tracks, notes[i], t1, e1), is_first_start(tracks, notes[j], t2, e2)]
        0 <= i < j < notes.len() && is_first_start(tracks, notes[i], t1, e1) && is_first_start(
            tracks,
            notes[j],
            t2,
            e2,
        ) ==> rank_lt(start_rank(tracks, t1, e1), start_rank(tracks, t2, e2))
}

/// A key has at most one earliest start.
pub proof fn lemma_first_start_unique(tracks: Seq<Seq<SmfEvent>>, key: u8, t: int, e: int, t2: int, e2: int)
    requires
        is_first_start(tracks, key, t, e),
        is_first_start(tracks, key, t2, e2),
    ensures
        t == t2 && e == e2,
{
    assert(is_note_start(tracks, t, e));
    assert(is_note_start(tracks, t2, e2));
}

/// Position `(t, e)` comes before `(ts, es)` in the order tracks are read.
spec fn read_before(t: int, e: int, ts: int, es: int) -> bool {
    t < ts || (t == ts && e < es)
}

/// `(bt, be)` is the earliest start of `key` among the events read before `(ts, es)`.
spec fn first_among(tracks: Seq<Seq<SmfEvent>>, key: u8, bt: int, be: int, ts: int, es: int) -> bool {
    &&& is_note_start(tracks, bt, be)
    &&& start_key(tracks, bt, be) == key
    &&& read_before(bt, be, ts, es)
    &&& forall|t2: int, e2: int|
        #[trigger] is_note_start(tracks, t2, e2) && start_key(tracks, t2, e2) == key && read_before(
            t2,
            e2,
            ts,
            es,
        ) ==> !rank_lt(start_rank(tracks, t2, e2), start_rank(tracks, bt, be)) || (t2 == bt && e2
            == be)
}

/// What the scan keeps for `key` after reading up to `(ts, es)`: its earliest
/// start so far with that start's time, or nothing if no start was read.
spec fn slot_holds(
    tracks: Seq<Seq<SmfEvent>>,
    slot: Option<(u64, usize, usize)>,
    key: u8,
    ts: int,
    es: int,
) -> bool {
    match slot {
        Some((tm, bt, be)) => tm == abs_time(tracks[bt as int], be as int) && first_among(
            tracks,
            key,
            bt as int,
            be as int,
            ts,
            es,
        ),
        None => forall|t2: int, e2: int|
            #[trigger] is_note_start(tracks, t2, e2) && start_key(tracks, t2, e2) == key
                ==> !read_before(t2, e2, ts, es),
    }
}

spec fn slot_time(slot: Option<(u64, usize, usize)>) -> nat {
    match slot {
        Some((tm, _, _)) => tm as nat,
        None => 0,
    }
}

spec fn slot_track(slot: Option<(u64, usize, usize)>) -> int {
    match slot {
        Some((_, bt, _)) => bt as int,
        None => 0,
    }
}

spec fn slot_event(slot: Option<(u64, usize, usize)>) -> int {
    match slot {
        Some((_, _, be)) => be as int,
        None => 0,
    }
}

spec fn slot_rank(slot: Option<(u64, usize, usize)>) -> (nat, int, int) {
    (slot_time(slot), slot_track(slot), slot_event(slot))
}

/// The slot after reading event `(t, e)`.
spec fn next_slot(
    tracks: Seq<Seq<SmfEvent>>,
    slot: Option<(u64, usize, usize)>,
    key: u8,
    t: usize,
    e: usize,
    time: u64,
) -> Option<(u64, usize, usize)> {
    if is_note_start(tracks, t as int, e as int) && start_key(tracks, t as int, e as int) == key && (
    slot is None || time < slot_time(slot)) {
        Some((time, t, e))
    } else {
        slot
    }
}

proof fn lemma_slot_step(
    tracks: Seq<Seq<SmfEvent>>,
    slot: Option<(u64, usize, usize)>,
    key: u8,
    t: usize,
    e: usize,
    time: u64,
)
    requires
        slot_holds(tracks, slot, key, t as int, e as int),
        t < tracks.len(),
        e < tracks[t as int].len(),
        time == abs_time(tracks[t as int], e as int),
    ensures
        slot_holds(tracks, next_slot(tracks, slot, key, t, e, time), key, t as int, e + 1),
{
    let ns = next_slot(tracks, slot, key, t, e, time);
    assert(start_rank(tracks, t as int, e as int) == (time as nat, t as int, e as int));
    match slot {
        Some((tm, bt, be)) => {
            assert(start_rank(tracks, bt as int, be as int) == (tm as nat, bt as int, be as int));
            if ns != slot {
                assert forall|t2: int, e2: int|
                    #[trigger] is_note_start(tracks, t2, e2) && start_key(tracks, t2, e2) == key
                        && read_before(t2, e2, t as int, e + 1) implies !rank_lt(
                    start_rank(tracks, t2, e2),
                    start_rank(tracks, t as int, e as int),
                ) || (t2 == t && e2 == e) by {
                    if !(t2 == t && e2 == e) {
                        assert(read_before(t2, e2, t as int, e as int));
                    }
                }
            } else {
                assert forall|t2: int, e2: int|
                    #[trigger] is_note_start(tracks, t2, e2) && start_key(tracks, t2, e2) == key
                        && read_before(t2, e2, t as int, e + 1) implies !rank_lt(
                    start_rank(tracks, t2, e2),
                    start_rank(tracks, bt as int, be as int),
                ) || (t2 == bt && e2 == be) by {
                    if !(t2 == t && e2 == e) {
                        assert(read_before(t2, e2, t as int, e as int));
                    }
                }
            }
        },
        None => {
            if ns != slot {
                assert forall|t2: int, e2: int|
                    #[trigger] is_note_start(tracks, t2, e2) && start_key(tracks, t2, e2) == key
                        && read_before(t2, e2, t as int, e + 1) implies !rank_lt(
                    start_rank(tracks, t2, e2),
                    start_rank(tracks, t as int, e as int),
                ) || (t2 == t && e2 == e) by {
                    if !(t2 == t && e2 == e) {
                        assert(read_before(t2, e2, t as int, e as int));
                    }
                }
            } else {
                assert forall|t2: int, e2: int|
                    #[trigger] is_note_start(tracks, t2, e2) && start_key(tracks, t2, e2) == key
                        implies !read_before(t2, e2, t as int, e + 1) by {
                    if t2 == t && e2 == e {
                    } else {
                        assert(!read_before(t2, e2, t as int, e as int));
                    }
                }
            }
        },
    }
}

proof fn lemma_slot_next_track(
    tracks: Seq<Seq<SmfEvent>>,
    slot: Option<(u64, usize, usize)>,
    key: u8,
    t: int,
)
    requires
        0 <= t < tracks.len(),
        slot_holds(tracks, slot, key, t, tracks[t].len() as int),
    ensures
        slot_holds(tracks, slot, key, t + 1, 0),
{
    match slot {
        Some((tm, bt, be)) => {
            assert forall|t2: int, e2: int|
                #[trigger] is_note_start(tracks, t2, e2) && start_key(tracks, t2, e2) == key
                    && read_before(t2, e2, t + 1, 0) implies !rank_lt(
                start_rank(tracks, t2, e2),
                start_rank(tracks, bt as int, be as int),
            ) || (t2 == bt && e2 == be) by {
                assert(read_before(t2, e2, t, tracks[t].len() as int));
            }
        },
        None => {
            assert forall|t2: int, e2: int|
                #[trigger] is_note_start(tracks, t2, e2) && start_key(tracks, t2, e2) == key
                    implies !read_before(t2, e2, t + 1, 0) by {
                assert(!read_before(t2, e2, t, tracks[t].len() as int));
            }
        },
    }
}

/// After every track is read, a slot holds the key's earliest start, or
/// nothing if the key is never played.
proof fn lemma_slot_final(
    tracks: Seq<Seq<SmfEvent>>,
    slot: Option<(u64, usize, usize)>,
    key: u8,
)
    requires
        slot_holds(tracks, slot, key, tracks.len() as int, 0),
    ensures
        slot is Some ==> is_first_start(tracks, key, slot_track(slot), slot_event(slot))
            && slot_rank(slot) == start_rank(tracks, slot_track(slot), slot_event(slot)),
        slot is None <==> !is_played(tracks, key),
{
    match slot {
        Some((tm, bt, be)) => {
            assert forall|t2: int, e2: int|
                #[trigger] is_note_start(tracks, t2, e2) && start_key(tracks, t2, e2) == key
                    implies !rank_lt(start_rank(tracks, t2, e2), start_rank(tracks, bt as int, be as int))
                    || (t2 == bt && e2 == be) by {
                assert(read_before(t2, e2, tracks.len() as int, 0));
            }
            assert(is_note_start(tracks, bt as int, be as int));
        },
        None => {
            if is_played(tracks, key) {
                let (t2, e2) = choose|t2: int, e2: int|
                    is_note_start(tracks, t2, e2) && start_key(tracks, t2, e2) == key;
                assert(read_before(t2, e2, tracks.len() as int, 0));
            }
        },
    }
}

/// Number of `false` entries among the first `n` of `s`.
spec fn count_false(s: Seq<bool>, n: int) -> nat
    decreases n,
{
    if n <= 0 {
        0
    } else {
        count_false(s, n - 1) + if !s[n - 1] {
            1nat
        } else {
            0nat
        }
    }
}

proof fn lemma_count_false_set(s: Seq<bool>, n: int, m: int)
    requires
        0 <= m < n <= s.len(),
        !s[m],
    ensures
        count_false(s.update(m, true), n) + 1 == count_false(s, n),
    decreases n,
{
    if n - 1 > m {
        lemma_count_false_set(s, n - 1, m);
    } else {
        lemma_count_false_same(s, s.update(m, true), m);
    }
}

proof fn lemma_count_false_same(s: Seq<bool>, r: Seq<bool>, n: int)
    requires
        0 <= n <= s.len(),
        n <= r.len(),
        forall|i: int| 0 <= i < n ==> s[i] == r[i],
    ensures
        count_false(s, n) == count_false(r, n),
    decreases n,
{
    if n > 0 {
        lemma_count_false_same(s, r, n - 1);
    }
}


/// The earliest start of every key over all tracks, by key.
fn earliest_starts(tracks: &Vec<Vec<SmfEvent>>) -> (best: Vec<Option<(u64, usize, usize)>>)
    ensures
        best@.len() == 256,
        forall|k: int|
            0 <= k < 256 ==> #[trigger] slot_holds(
                tracks_view(tracks@),
                best@[k],
                k as u8,
                tracks@.len() as int,
                0,
            ),
{
    let ghost tv = tracks_view(tracks@);
    let mut best: Vec<Option<(u64, usize, usize)>> = Vec::new();
    let mut k: usize = 0;
    while k < 256
        invariant
            k <= 256,
            best@.len() == k,
            forall|j: int| 0 <= j < k ==> best@[j] is None,
        decreases 256 - k,
    {
        best.push(None);
        k = k + 1;
    }
    assert forall|j: int| 0 <= j < 256 implies #[trigger] slot_holds(tv, best@[j], j as u8, 0, 0) by {
        assert forall|t2: int, e2: int|
            #[trigger] is_note_start(tv, t2, e2) && start_key(tv, t2, e2) == j as u8
                implies !read_before(t2, e2, 0, 0) by {}
    }
    let mut t: usize = 0;
    while t < tracks.len()
        invariant
            tv == tracks_view(tracks@),
            tv.len() == tracks@.len(),
            t <= tracks@.len(),
            best@.len() == 256,
            forall|j: int| 0 <= j < 256 ==> #[trigger] slot_holds(tv, best@[j], j as u8, t as int, 0),
        decreases tracks.len() - t,
    {
        let track = &tracks[t];
        assert(track@ == tv[t as int]);
        let mut time: u64 = 0;
        let mut e: usize = 0;
        while e < track.len()
            invariant
                tv == tracks_view(tracks@),
                tv.len() == tracks@.len(),
                t < tracks@.len(),
                track@ == tv[t as int],
                e <= track@.len(),
                best@.len() == 256,
                time == abs_time(tv[t as int], e - 1),
                forall|j: int|
                    0 <= j < 256 ==> #[trigger] slot_holds(tv, best@[j], j as u8, t as int, e as int),
            decreases track.len() - e,
        {
            let event = track[e];
            let delta: u64 = event.delta as u64;
            if time > u64::MAX - delta {
                time = u64::MAX;
            } else {
                time = time + delta;
            }
            let ghost before = best@;
            if let Some(NoteOn { key, velocity }) = event.note_on {
                if velocity > 0 {
                    let replace = match best[key as usize] {
                        None => true,
                        Some((tm, _, _)) => time < tm,
                    };
                    if replace {
                        best.set(key as usize, Some((time, t, e)));
                    }
                }
            }
            assert forall|j: int| 0 <= j < 256 implies #[trigger] slot_holds(
                tv,
                best@[j],
                j as u8,
                t as int,
                e + 1,
            ) by {
                lemma_slot_step(tv, before[j], j as u8, t, e, time);
                assert(best@[j] == next_slot(tv, before[j], j as u8, t, e, time));
            }
            e = e + 1;
        }
        assert forall|j: int| 0 <= j < 256 implies #[trigger] slot_holds(tv, best@[j], j as u8, t + 1, 0) by {
            lemma_slot_next_track(tv, best@[j], j as u8, t as int);
        }
        t = t + 1;
    }
    best
}

spec fn rank_before_slot(a: Option<(u64, usize, usize)>, b: Option<(u64, usize, usize)>) -> bool {
    rank_lt(slot_rank(a), slot_rank(b))
}

/// Every played key once, in the order of the keys' first starts.
pub fn keys_in_start_order(tracks: &Vec<Vec<SmfEvent>>) -> (notes: Vec<u8>)
    ensures
        in_first_start_order(tracks_view(tracks@), notes@),
{
    let ghost tv = tracks_view(tracks@);
    let best = earliest_starts(tracks);
    assert forall|j: int| 0 <= j < 256 implies (#[trigger] best@[j] is Some ==> is_first_start(
        tv,
        j as u8,
        slot_track(best@[j]),
        slot_event(best@[j]),
    ) && slot_rank(best@[j]) == start_rank(tv, slot_track(best@[j]), slot_event(best@[j]))) && (
    best@[j] is None <==> !is_played(tv, j as u8)) by {
        lemma_slot_final(tv, best@[j], j as u8);
    }
    let mut done: Vec<bool> = Vec::new();
    let mut k: usize = 0;
    while k < 256
        invariant
            k <= 256,
            done@.len() == k,
            forall|j: int| 0 <= j < k ==> !done@[j],
        decreases 256 - k,
    {
        done.push(false);
        k = k + 1;
    }
    let mut notes: Vec<u8> = Vec::new();
    loop
        invariant
            best@.len() == 256,
            done@.len() == 256,
            forall|j: int| 0 <= j < 256 ==> (#[trigger] best@[j] is Some ==> is_first_start(
                tv,
                j as u8,
                slot_track(best@[j]),
                slot_event(best@[j]),
            ) && slot_rank(best@[j]) == start_rank(tv, slot_track(best@[j]), slot_event(best@[j])))
                && (best@[j] is None <==> !is_played(tv, j as u8)),
            forall|j: int| 0 <= j < 256 ==> (#[trigger] done@[j] ==> best@[j] is Some),
            forall|j: int| 0 <= j < 256 ==> (#[trigger] done@[j] <==> notes@.contains(j as u8)),
            notes@.no_duplicates(),
            forall|i: int, j: int|
                0 <= i < j < notes@.len() ==> rank_before_slot(
                    best@[notes@[i] as int],
                    best@[notes@[j] as int],
                ),
            forall|i: int, j: int|
                0 <= i < notes@.len() && 0 <= j < 256 && !done@[j] && best@[j] is Some
                    ==> rank_before_slot(best@[notes@[i] as int], best@[j]),
        ensures
            forall|j: int| 0 <= j < 256 ==> (#[trigger] best@[j] is Some ==> is_first_start(
                tv,
                j as u8,
                slot_track(best@[j]),
                slot_event(best@[j]),
            ) && slot_rank(best@[j]) == start_rank(tv, slot_track(best@[j]), slot_event(best@[j])))
                && (best@[j] is None <==> !is_played(tv, j as u8)),
            forall|j: int| 0 <= j < 256 ==> (#[trigger] done@[j] <==> notes@.contains(j as u8)),
            forall|j: int| 0 <= j < 256 ==> (#[trigger] done@[j] <==> best@[j] is Some),
            notes@.no_duplicates(),
            forall|i: int, j: int|
                0 <= i < j < notes@.len() ==> rank_before_slot(
                    best@[notes@[i] as int],
                    best@[notes@[j] as int],
                ),
        decreases count_false(done@, 256),
    {
        let mut cand: Option<(usize, u64, usize, usize)> = None;
        let mut k: usize = 0;
        while k < 256
            invariant
                k <= 256,
                best@.len() == 256,
                done@.len() == 256,
                match cand {
                    None => forall|j: int| 0 <= j < k ==> done@[j] || best@[j] is None,
                    Some((m, tm, bt, be)) => m < k && !done@[m as int] && best@[m as int] == Some(
                        (tm, bt, be),
                    ) && forall|j: int|
                        0 <= j < k && !done@[j] && best@[j] is Some ==> !rank_before_slot(
                            best@[j],
                            best@[m as int],
                        ),
                },
            decreases 256 - k,
        {
            if !done[k] {
                if let Some((tm, bt, be)) = best[k] {
                    let better = match cand {
                        None => true,
                        Some((_, ctm, cbt, cbe)) => tm < ctm || (tm == ctm && (bt < cbt || (bt
                            == cbt && be < cbe))),
                    };
                    if better {
                        cand = Some((k, tm, bt, be));
                    }
                }
            }
            k = k + 1;
        }
        match cand {
            None => {
                break;
            },
            Some((m, _, _, _)) => {
                let ghost old_done = done@;
                let ghost old_notes = notes@;
                proof {
                    lemma_count_false_set(done@, 256, m as int);
                    assert forall|j: int| 0 <= j < 256 && j != m && !done@[j] && best@[j] is Some
                        implies rank_before_slot(best@[m as int], best@[j]) by {
                        let sm = best@[m as int];
                        let sj = best@[j];
                        if slot_rank(sm) == slot_rank(sj) {
                            assert(start_key(tv, slot_track(sm), slot_event(sm)) == m as u8);
                            assert(start_key(tv, slot_track(sj), slot_event(sj)) == j as u8);
                        }
                    }
                }
                done.set(m, true);
                notes.push(m as u8);
                proof {
                    assert(!old_notes.contains(m as u8));
                    assert forall|j: int| 0 <= j < 256 implies (#[trigger] done@[j] <==> notes@.contains(
                        j as u8,
                    )) by {
                        if j == m {
                            assert(notes@[old_notes.len() as int] == m as u8);
                        } else {
                            if notes@.contains(j as u8) {
                                let i = choose|i: int| 0 <= i < notes@.len() && notes@[i] == j as u8;
                                if i < old_notes.len() {
                                    assert(old_notes[i] == j as u8);
                                }
                            }
                            if old_notes.contains(j as u8) {
                                let i = choose|i: int| 0 <= i < old_notes.len() && old_notes[i] == j as u8;
                                assert(notes@[i] == j as u8);
                            }
                        }
                    }
                    assert forall|a: int, b: int| 0 <= a < b < notes@.len() implies notes@[a] != notes@[b] by {
                        if b == old_notes.len() {
                            assert(old_notes[a] == notes@[a]);
                            if notes@[a] == m as u8 {
                                assert(old_notes.contains(m as u8));
                            }
                        } else {
                            assert(old_notes[a] != old_notes[b]);
                        }
                    }
                }
            },
        }
    }
    proof {
        assert forall|k: u8| #[trigger] notes@.contains(k) <==> is_played(tv, k) by {
            assert(done@[k as int] <==> notes@.contains((k as int) as u8));
        }
        assert forall|i: int, j: int, t1: int, e1: int, t2: int, e2: int|
            #![trigger is_first_start(tv, notes@[i], t1, e1), is_first_start(tv, notes@[j], t2, e2)]
            0 <= i < j < notes@.len() && is_first_start(tv, notes@[i], t1, e1) && is_first_start(
                tv,
                notes@[j],
                t2,
                e2,
            ) implies rank_lt(start_rank(tv, t1, e1), start_rank(tv, t2, e2)) by {
            let a = notes@[i] as int;
            let b = notes@[j] as int;
            assert(notes@.contains(notes@[i]));
            assert(notes@.contains(notes@[j]));
            assert(a as u8 == notes@[i] && b as u8 == notes@[j]);
            assert(done@[a] <==> notes@.contains(a as u8));
            assert(done@[b] <==> notes@.contains(b as u8));
            assert(best@[a] is Some && best@[b] is Some);
            assert(rank_before_slot(best@[a], best@[b]));
            assert(is_first_start(tv, a as u8, slot_track(best@[a]), slot_event(best@[a])));
            lemma_first_start_unique(tv, notes@[i], t1, e1, slot_track(best@[a]), slot_event(best@[a]));
            lemma_first_start_unique(tv, notes@[j], t2, e2, slot_track(best@[b]), slot_event(best@[b]));
        }
    }
    notes
}

/// What reading the notes of the SMF in `bytes` gives: the played keys in
/// the order of their first starts, or the parse error, or the error for an
/// SMF in which no note sounds.
pub open spec fn smf_notes_outcome(bytes: Seq<u8>, result: Result<Vec<u8>, String>) -> bool {
    match result {
        Ok(notes) => smf_tracks(bytes) matches Some(tracks) && in_first_start_order(tracks, notes@)
            && notes@.len() > 0,
        Err(message) => match smf_tracks(bytes) {
            None => exists|detail: Seq<char>| message@ == "SMF解析に失敗しました: "@ + detail,
            Some(tracks) => (forall|k: u8| !is_played(tracks, k)) && message@
                == "MMLに発音ノートがありません"@,
        },
    }
}

/// The keys that the SMF in `bytes` plays, each once, in the order of their
/// first note-on with a velocity (by time, then track, then event). Fails
/// when the bytes are not an SMF, or when no note sounds.
pub fn extract_note_numbers_from_smf(bytes: &[u8]) -> (result: Result<Vec<u8>, String>)
    ensures
        smf_notes_outcome(bytes@, result),
{
    match parse_smf(bytes) {
        Err(error) => {
            let detail = smf_error_text(&error);
            Err(concat("SMF解析に失敗しました: ", detail.as_str()))
        },
        Ok(tracks) => {
            let notes = keys_in_start_order(&tracks);
            if notes.len() == 0 {
                proof {
                    assert forall|k: u8| !is_played(tracks_view(tracks@), k) by {
                        if is_played(tracks_view(tracks@), k) {
                            assert(notes@.contains(k));
                        }
                    }
                }
                Err("MMLに発音ノートがありません".to_string())
            } else {
                Ok(notes)
            }
        },
    }
}


/// The notes of the MML phrase `mml`, given what rendering it to an SMF gave
/// (`rendered`: the file's bytes, or the renderer's error text). A blank
/// phrase is refused before anything else.
pub fn extract_note_numbers(mml: &str, rendered: Result<Vec<u8>, String>) -> (result: Result<
    Vec<u8>,
    String,
>)
    ensures
        trimmed(mml@).len() == 0 ==> (result matches Err(message) && message@
            == "MMLを入力してください"@),
        trimmed(mml@).len() > 0 ==> match rendered {
            Err(error) => (result matches Err(message) && message@ == "MML変換に失敗しました: "@
                + error@),
            Ok(bytes) => smf_notes_outcome(bytes@, result),
        },
{
    let content = trim(mml);
    if content.unicode_len() == 0 {
        return Err("MMLを入力してください".to_string());
    }
    match rendered {
        Err(error) => Err(concat("MML変換に失敗しました: ", error.as_str())),
        Ok(bytes) => extract_note_numbers_from_smf(bytes.as_slice()),
    }
}

/// The MML entry line of the keyboard screen (its text is edited outside).
pub struct KeyboardMmlInput {
    pub active: bool,
    /// The last phrase whose notes were taken; the line reopens with it.
    pub last_confirmed: String,
    pub error: Option<String>,
}

impl KeyboardMmlInput {
    /// A closed line with nothing confirmed yet.
    pub fn new() -> (input: Self)
        ensures
            !input.active,
            input.last_confirmed@.len() == 0,
            input.error is None,
    {
        KeyboardMmlInput { active: false, last_confirmed: String::new(), error: None }
    }

    pub fn is_active(&self) -> (active: bool)
        ensures
            active == self.active,
    {
        self.active
    }

    /// The error shown under the line, if any.
    pub fn error(&self) -> (error: Option<&str>)
        ensures
            match error {
                Some(e) => self.error matches Some(own) && e@ == own@,
                None => self.error is None,
            },
    {
        match &self.error {
            Some(e) => Some(e.as_str()),
            None => None,
        }
    }

    /// Opens the line; it starts with the last confirmed phrase, which is
    /// returned for the text field.
    pub fn open(&mut self) -> (text: String)
        ensures
            final(self).active,
            final(self).error is None,
            final(self).last_confirmed@ == old(self).last_confirmed@,
            text@ == old(self).last_confirmed@,
    {
        self.error = None;
        self.active = true;
        self.last_confirmed.clone()
    }

    /// Closes the line without taking its notes.
    pub fn cancel(&mut self)
        ensures
            !final(self).active,
            final(self).error is None,
            final(self).last_confirmed@ == old(self).last_confirmed@,
    {
        self.active = false;
        self.error = None;
    }

    /// A key edits the text: the error is cleared.
    pub fn input(&mut self)
        ensures
            final(self).active == old(self).active,
            final(self).error is None,
            final(self).last_confirmed@ == old(self).last_confirmed@,
    {
        self.error = None;
    }

    /// `Enter`: the notes of `mml` (rendered as `rendered`). On success the
    /// phrase is remembered and the line closes; on failure it stays open and
    /// shows the error.
    pub fn confirm(&mut self, mml: &str, rendered: Result<Vec<u8>, String>) -> (notes: Option<Vec<u8>>)
        ensures
            match notes {
                Some(n) => !final(self).active && final(self).error is None
                    && final(self).last_confirmed@ == mml@,
                None => final(self).active == old(self).active && final(self).error is Some
                    && final(self).last_confirmed@ == old(self).last_confirmed@,
            },
            trimmed(mml@).len() == 0 ==> (final(self).error matches Some(e) && e@
                == "MMLを入力してください"@ && notes is None),
            trimmed(mml@).len() > 0 ==> match rendered {
                Err(error) => (final(self).error matches Some(e) && e@
                    == "MML変換に失敗しました: "@ + error@ && notes is None),
                Ok(bytes) => match notes {
                    Some(n) => smf_notes_outcome(bytes@, Ok(n)),
                    None => (final(self).error matches Some(e) && smf_notes_outcome(bytes@, Err(e))),
                },
            },
    {
        match extract_note_numbers(mml, rendered) {
            Ok(notes) => {
                self.last_confirmed = mml.to_string();
                self.error = None;
                self.active = false;
                Some(notes)
            },
            Err(error) => {
                self.error = Some(error);
                None
            },
        }
    }
}

} // verus!
