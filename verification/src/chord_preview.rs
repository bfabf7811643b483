//! Small decisions of the chord chart preview: whether the sender is sounding
//! the last command, the key token of a chart prefix, and the lines logged.
use vstd::prelude::*;
use crate::query::{split_whitespace, strings_view, words};
use crate::text::{ascii_lowercase, concat, copy_string, decimal, decimal_string, spec_ascii_lowercase};

verus! {

/// Whether the sender's playback is the one the chart asked for: a command id
/// was sent, and the sender reports that very id as sounding.
pub open spec fn spec_preview_command_sounding(expected: Option<u64>, playback: Option<(u64, bool)>) -> bool {
    match (expected, playback) {
        (Some(id), Some((actual, sounding))) => sounding && id == actual,
        _ => false,
    }
}

pub fn preview_command_sounding(expected_command_id: Option<u64>, playback: Option<(u64, bool)>) -> (sounding:
    bool)
    ensures
        sounding == spec_preview_command_sounding(expected_command_id, playback),
{
    match (expected_command_id, playback) {
        (Some(expected), Some((actual, true))) => expected == actual,
        _ => false,
    }
}

/// The patch shown for a layer: its own, else the fallback.
pub fn patch_name<'a>(patch: Option<&'a str>, fallback: &'a str) -> (name: &'a str)
    ensures
        name@ == match patch {
            Some(p) => p@,
            None => fallback@,
        },
{
    match patch {
        Some(p) => p,
        None => fallback,
    }
}

/// A token names the key when it starts with `key`, in any ASCII case.
pub open spec fn is_key_token(w: Seq<char>) -> bool {
    &&& w.len() >= 3
    &&& spec_ascii_lowercase(w[0]) == 'k'
    &&& spec_ascii_lowercase(w[1]) == 'e'
    &&& spec_ascii_lowercase(w[2]) == 'y'
}

/// `i` is the first word of `ws` that names the key.
pub open spec fn is_first_key_word(ws: Seq<Seq<char>>, i: int) -> bool {
    &&& 0 <= i < ws.len()
    &&& is_key_token(ws[i])
    &&& forall|k: int| 0 <= k < i ==> !is_key_token(#[trigger] ws[k])
}

/// The position of the first word of `ws` that names the key, or -1.
pub open spec fn first_key_word(ws: Seq<Seq<char>>) -> int {
    if exists|i: int| is_first_key_word(ws, i) {
        choose|i: int| is_first_key_word(ws, i)
    } else {
        -1
    }
}

/// The first white-space separated token of `prefix` that names the key.
pub open spec fn spec_key_token(prefix: Seq<char>) -> Option<Seq<char>> {
    let i = first_key_word(words(prefix));
    if i < 0 {
        None
    } else {
        Some(words(prefix)[i])
    }
}

proof fn lemma_first_key_word(ws: Seq<Seq<char>>, i: int)
    requires
        is_first_key_word(ws, i),
    ensures
        first_key_word(ws) == i,
{
    let j = choose|j: int| is_first_key_word(ws, j);
    assert(is_first_key_word(ws, j));
    if j < i {
        assert(!is_key_token(ws[j]));
    } else if i < j {
        assert(!is_key_token(ws[i]));
    }
}

proof fn lemma_no_key_word(ws: Seq<Seq<char>>)
    requires
        forall|k: int| 0 <= k < ws.len() ==> !is_key_token(#[trigger] ws[k]),
    ensures
        first_key_word(ws) == -1,
{
    if exists|i: int| is_first_key_word(ws, i) {
        let j = choose|j: int| is_first_key_word(ws, j);
        assert(!is_key_token(ws[j]));
    }
}

/// Whether `w` starts with `key` in any ASCII case.
fn names_key(w: &str) -> (key: bool)
    ensures
        key == is_key_token(w@),
{
    if w.unicode_len() < 3 {
        return false;
    }
    ascii_lowercase(w.get_char(0)) == 'k' && ascii_lowercase(w.get_char(1)) == 'e' && ascii_lowercase(
        w.get_char(2),
    ) == 'y'
}

/// The key token of a chart prefix such as `key=C 4/4`, if it has one.
pub fn key_token(prefix: &str) -> (token: Option<String>)
    ensures
        match token {
            Some(t) => spec_key_token(prefix@) == Some(t@),
            None => spec_key_token(prefix@) is None,
        },
{
    let parts = split_whitespace(prefix);
    let ghost ws = words(prefix@);
    let mut i: usize = 0;
    while i < parts.len()
        invariant
            ws == words(prefix@),
            strings_view(parts@) == ws,
            i <= parts@.len(),
            forall|k: int| 0 <= k < i ==> !is_key_token(#[trigger] ws[k]),
        decreases parts@.len() - i,
    {
        assert(ws[i as int] == parts@[i as int]@);
        if names_key(parts[i].as_str()) {
            proof {
                assert(is_first_key_word(ws, i as int));
                lemma_first_key_word(ws, i as int);
            }
            return Some(copy_string(&parts[i]));
        }
        i = i + 1;
    }
    proof {
        lemma_no_key_word(ws);
    }
    None
}

/// The line shown for a chart: its key token, a space and the degrees, or the
/// degrees alone.
pub open spec fn spec_preview_line(prefix: Seq<char>, degrees: Seq<char>) -> Seq<char> {
    match spec_key_token(prefix) {
        Some(key) => key + seq![' '] + degrees,
        None => degrees,
    }
}

pub fn preview_line(prefix: &str, degrees: &str) -> (line: String)
    ensures
        line@ == spec_preview_line(prefix@, degrees@),
{
    match key_token(prefix) {
        Some(key) => {
            let with_space = concat(key.as_str(), " ");
            proof {
                reveal_strlit(" ");
            }
            let line = concat(with_space.as_str(), degrees);
            line
        },
        None => degrees.to_owned(),
    }
}

/// The smallest of `notes`.
pub open spec fn seq_min(notes: Seq<u8>) -> u8
    recommends
        notes.len() > 0,
    decreases notes.len(),
{
    if notes.len() <= 1 {
        notes[0]
    } else {
        let m = seq_min(notes.drop_last());
        if notes.last() < m { notes.last() } else { m }
    }
}

/// The largest of `notes`.
pub open spec fn seq_max(notes: Seq<u8>) -> u8
    recommends
        notes.len() > 0,
    decreases notes.len(),
{
    if notes.len() <= 1 {
        notes[0]
    } else {
        let m = seq_max(notes.drop_last());
        if notes.last() > m { notes.last() } else { m }
    }
}

/// How a list of note numbers is logged: `none`, or `min..=max(span=max-min)`.
pub open spec fn spec_note_number_range(notes: Seq<u8>) -> Seq<char> {
    if notes.len() == 0 {
        seq!['n', 'o', 'n', 'e']
    } else {
        decimal(seq_min(notes) as nat) + seq!['.', '.', '='] + decimal(seq_max(notes) as nat) + seq![
            '(',
            's',
            'p',
            'a',
            'n',
            '=',
        ] + decimal((seq_max(notes) - seq_min(notes)) as nat) + seq![')']
    }
}

proof fn lemma_min_le_max(notes: Seq<u8>)
    requires
        notes.len() > 0,
    ensures
        seq_min(notes) <= seq_max(notes),
    decreases notes.len(),
{
    if notes.len() > 1 {
        lemma_min_le_max(notes.drop_last());
    }
}

pub fn note_number_range(notes: &[u8]) -> (text: String)
    ensures
        text@ == spec_note_number_range(notes@),
{
    if notes.len() == 0 {
        let none = "none".to_owned();
        proof {
            reveal_strlit("none");
        }
        return none;
    }
    let mut min: u8 = notes[0];
    let mut max: u8 = notes[0];
    let mut i: usize = 1;
    while i < notes.len()
        invariant
            1 <= i <= notes@.len(),
            min == seq_min(notes@.subrange(0, i as int)),
            max == seq_max(notes@.subrange(0, i as int)),
        decreases notes@.len() - i,
    {
        let ghost next = notes@.subrange(0, i + 1);
        assert(next.drop_last() =~= notes@.subrange(0, i as int));
        if notes[i] < min {
            min = notes[i];
        }
        if notes[i] > max {
            max = notes[i];
        }
        i = i + 1;
    }
    assert(notes@.subrange(0, notes@.len() as int) =~= notes@);
    proof {
        lemma_min_le_max(notes@);
    }
    let mut text = decimal_string(min as u64);
    text = concat(text.as_str(), "..=");
    text = concat(text.as_str(), decimal_string(max as u64).as_str());
    text = concat(text.as_str(), "(span=");
    text = concat(text.as_str(), decimal_string((max - min) as u64).as_str());
    text = concat(text.as_str(), ")");
    proof {
        reveal_strlit("..=");
        reveal_strlit("(span=");
        reveal_strlit(")");
        assert(text@ =~= spec_note_number_range(notes@));
    }
    text
}

} // verus!
