# cmrt_tui

The decision logic of a terminal music workstation, written in Verus: each
public function states what it does in its `requires`/`ensures`, and Verus
proves the code against it.

Layout:

- `src/` — the verified library.
  - `tui_app.rs`: the notepad (normal and insert mode, yank/paste, playback
    effects handed to the runtime).
  - `patch_select.rs`, `query.rs`: the patch list overlay, its filter and its
    two panes; the bass patch of the chord chart.
  - `keyboard_*.rs`, `midi_message.rs`, `navigation.rs`, `numeric_input.rs`:
    the realtime keyboard screen, its MIDI messages, count prefixes, numeric
    entry, the patch catalog and the connection status.
  - `mml_input.rs`: the keyboard's MML entry and the notes of a rendered
    Standard MIDI File (parsed with `midly`).
  - `loop_browser.rs`, `loop_tree.rs`, `random_deck.rs`: the loop browser's
    track grid, its folder tree and its random deck.
  - `transport.rs`, `pad_voices.rs`: which measure the loop player starts
    next, and the voice kept per pad.
  - `sender_plan.rs`: how the MIDI sender's worker carries out each
    command (the calls, their order, and the outcome it records).
  - `audio_cache.rs`: the cache of rendered audio by MML line, evicting the
    least recently used line when full.
  - `chord_preview.rs`, `text.rs`: small text helpers.
- `tests/` — tests that run the library with the real outside crates.
- `app/` — the terminal side: key conversion, the text fields, and the MIDI
  sender's worker loop.
