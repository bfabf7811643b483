use cmrt_tui::mml_input::{extract_note_numbers, extract_note_numbers_from_smf, KeyboardMmlInput};
use midly::{Format, Header, MetaMessage, MidiMessage, Smf, Timing, TrackEvent, TrackEventKind};

fn note_on(delta: u32, key: u8, velocity: u8) -> TrackEvent<'static> {
    TrackEvent {
        delta: delta.into(),
        kind: TrackEventKind::Midi {
            channel: 0.into(),
            message: MidiMessage::NoteOn {
                key: key.into(),
                vel: velocity.into(),
            },
        },
    }
}

fn end_of_track() -> TrackEvent<'static> {
    TrackEvent {
        delta: 0.into(),
        kind: TrackEventKind::Meta(MetaMessage::EndOfTrack),
    }
}

fn smf_bytes(tracks: Vec<Vec<TrackEvent<'static>>>) -> Vec<u8> {
    let header = Header::new(Format::Parallel, Timing::Metrical(480.into()));
    let mut bytes = Vec::new();
    Smf { header, tracks }.write_std(&mut bytes).unwrap();
    bytes
}

#[test]
fn smf_tracks_are_merged_by_absolute_time_and_zero_velocity_is_ignored() {
    let bytes = smf_bytes(vec![
        vec![note_on(20, 67, 100), note_on(0, 69, 0), end_of_track()],
        vec![note_on(10, 60, 100), note_on(20, 67, 100), end_of_track()],
    ]);

    assert_eq!(extract_note_numbers_from_smf(&bytes).unwrap(), vec![60, 67]);
}

#[test]
fn notes_at_the_same_time_keep_track_order() {
    let bytes = smf_bytes(vec![
        vec![note_on(5, 64, 90), end_of_track()],
        vec![note_on(5, 60, 90), note_on(0, 64, 90), end_of_track()],
    ]);

    assert_eq!(extract_note_numbers_from_smf(&bytes).unwrap(), vec![64, 60]);
}

#[test]
fn repeated_keys_are_listed_once_at_their_first_start() {
    let bytes = smf_bytes(vec![vec![
        note_on(0, 60, 90),
        note_on(10, 64, 90),
        note_on(10, 60, 90),
        note_on(10, 67, 90),
        end_of_track(),
    ]]);

    assert_eq!(extract_note_numbers_from_smf(&bytes).unwrap(), vec![60, 64, 67]);
}

#[test]
fn smf_without_sounding_notes_is_rejected() {
    let bytes = smf_bytes(vec![vec![note_on(0, 60, 0), end_of_track()]]);

    assert_eq!(
        extract_note_numbers_from_smf(&bytes).unwrap_err(),
        "MMLに発音ノートがありません"
    );
}

#[test]
fn bytes_that_are_not_an_smf_are_rejected_with_the_parse_error() {
    let error = extract_note_numbers_from_smf(b"not a midi file").unwrap_err();

    assert!(error.starts_with("SMF解析に失敗しました: "));
    assert!(error.len() > "SMF解析に失敗しました: ".len());
}

#[test]
fn blank_mml_is_rejected_before_rendering() {
    let bytes = smf_bytes(vec![vec![note_on(0, 60, 90), end_of_track()]]);

    assert_eq!(
        extract_note_numbers(" ", Ok(bytes)).unwrap_err(),
        "MMLを入力してください"
    );
}

#[test]
fn a_rendering_error_is_reported_with_its_text() {
    assert_eq!(
        extract_note_numbers("c", Err("bad token".to_string())).unwrap_err(),
        "MML変換に失敗しました: bad token"
    );
}

/// "cec" as the renderer writes it: c, e and c again, one after another.
#[test]
fn mml_notes_are_extracted_in_order_and_deduplicated() {
    let bytes = smf_bytes(vec![vec![note_on(0, 60, 90), note_on(10, 64, 90), note_on(10, 60, 90), end_of_track()]]);

    assert_eq!(extract_note_numbers("cec", Ok(bytes)).unwrap(), vec![60, 64]);
}

/// A rest renders to a track with no note.
#[test]
fn empty_and_rest_only_mml_are_rejected() {
    let silent = smf_bytes(vec![vec![end_of_track()]]);
    assert_eq!(extract_note_numbers(" ", Ok(silent.clone())).unwrap_err(), "MMLを入力してください");
    assert_eq!(extract_note_numbers("r", Ok(silent)).unwrap_err(), "MMLに発音ノートがありません");
}

#[test]
fn the_entry_line_remembers_the_last_confirmed_phrase() {
    let mut input = KeyboardMmlInput::new();
    assert_eq!(input.open(), "");
    assert!(input.is_active());
    assert_eq!(input.confirm(" ", Err("unused".to_string())), None);
    assert_eq!(input.error(), Some("MMLを入力してください"));
    assert!(input.is_active());
    input.input();
    assert_eq!(input.error(), None);

    let bytes = smf_bytes(vec![vec![note_on(0, 62, 90), end_of_track()]]);
    assert_eq!(input.confirm("d", Ok(bytes)), Some(vec![62]));
    assert!(!input.is_active());
    assert_eq!(input.open(), "d");
    input.cancel();
    assert!(!input.is_active());
    assert_eq!(input.error(), None);
}
