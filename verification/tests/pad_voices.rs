use cmrt_tui::pad_voices::{take_pad_voice, PadVoices};

#[test]
fn pad_voices_replace_only_the_same_pad() {
    let mut voices = PadVoices::new();
    voices.insert('c', "first-c");
    voices.insert('d', "first-d");

    assert_eq!(take_pad_voice(&mut voices, 'c'), Some("first-c"));
    voices.insert('c', "second-c");
    assert_eq!(voices.get('c'), Some(&"second-c"));
    assert_eq!(voices.get('d'), Some(&"first-d"));
}

#[test]
fn a_new_voice_returns_the_one_it_replaces() {
    let mut voices = PadVoices::new();
    assert_eq!(voices.insert('a', 1), None);
    assert_eq!(voices.insert('a', 2), Some(1));
    assert_eq!(voices.get('a'), Some(&2));
    assert_eq!(take_pad_voice(&mut voices, 'b'), None);
    assert_eq!(voices.take('a'), Some(2));
    assert_eq!(voices.get('a'), None);
}
