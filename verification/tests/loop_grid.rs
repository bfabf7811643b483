use cmrt_tui::loop_browser::{
    previous_measure_repeat_clip, BrowserOutcome, LoopBrowser, LoopBrowserAction, LoopBrowserPane, LoopGridChange,
    LoopIndex, LoopRootIndex, LoopTrackClip, LoopWavAnalysis, LoopWavId, LoopWavIndex,
};
use cmrt_tui::loop_tree::{TreeKey, TreeKeyCode};

const PAD_KEYS: [char; 7] = ['c', 'd', 'e', 'f', 'g', 'a', 'b'];

fn plain(c: char) -> TreeKey {
    TreeKey { code: TreeKeyCode::Char(c), shift: false, other_modifiers: false }
}

fn browser_with_direct_wavs(count: usize) -> LoopBrowser {
    LoopBrowser::from_index(LoopIndex {
        roots: vec![LoopRootIndex {
            path: "/loops".to_string(),
            wav_files: (0..count).map(|i| indexed(&format!("{i}.wav"))).collect(),
        }],
    })
}

fn indexed_with_measures(relative: &str, measures: usize) -> LoopWavIndex {
    LoopWavIndex { relative: relative.to_string(), analysis: LoopWavAnalysis { measures } }
}

fn indexed(relative: &str) -> LoopWavIndex {
    indexed_with_measures(relative, 1)
}

fn browser_with_spanning_wavs() -> LoopBrowser {
    LoopBrowser::from_index(LoopIndex {
        roots: vec![LoopRootIndex {
            path: "/loops".to_string(),
            wav_files: vec![indexed_with_measures("long.wav", 2), indexed("short.wav")],
        }],
    })
}

#[test]
fn track_random_replacement_grows_span_and_removes_overlapping_clip() {
    let mut browser = browser_with_spanning_wavs();
    let long = browser.wav_analyses[0].0.clone();
    let short = browser.wav_analyses[1].0.clone();
    browser.track_grid[0] =
        vec![Some(LoopTrackClip::explicit(short.clone(), 1)), Some(LoopTrackClip::explicit(short, 1))];
    browser.focus = LoopBrowserPane::Tracks;

    assert_eq!(browser.replace_current_clip(long), Some(0));

    assert_eq!(browser.track_grid[0][0].as_ref().unwrap().span_measures, 2);
    assert!(browser.track_grid[0][1].is_none());
}

#[test]
fn empty_track_insertion_grows_span_and_removes_overlapping_clip() {
    let mut browser = browser_with_spanning_wavs();
    let long = browser.wav_analyses[0].0.clone();
    let short = browser.wav_analyses[1].0.clone();
    browser.track_grid[0] = vec![None, Some(LoopTrackClip::explicit(short, 1))];
    browser.focus = LoopBrowserPane::Tracks;

    assert_eq!(browser.insert_current_clip(long), Some(0));

    assert_eq!(browser.track_grid[0][0].as_ref().unwrap().span_measures, 2);
    assert!(browser.track_grid[0][1].is_none());
}

#[test]
fn a_written_clip_is_found_on_every_measure_it_spans() {
    let mut browser = browser_with_spanning_wavs();
    let long = browser.wav_analyses[0].0.clone();
    assert_eq!(browser.insert_current_clip(long.clone()), Some(0));
    assert_eq!(browser.track_grid[0].len(), 2);
    assert_eq!(browser.clip_at(0, 1).map(|(start, clip)| (start, clip.wav)), Some((0, long)));
    assert_eq!(browser.effective_measure_count(), 2);
    assert!(browser.clip_at(0, 2).is_none());
    assert!(browser.clip_at(3, 0).is_none());
}

#[test]
fn an_empty_measure_repeats_a_one_measure_clip_before_it() {
    let wav = LoopWavId::new("/loops", "a.wav");
    let track = vec![Some(LoopTrackClip::explicit(wav.clone(), 1)), None, None];
    assert_eq!(previous_measure_repeat_clip(&track, 2, 3).map(|clip| clip.wav), Some(wav.clone()));
    assert!(previous_measure_repeat_clip(&track, 0, 3).is_none());
    assert!(previous_measure_repeat_clip(&track, 3, 3).is_none());
    let long = vec![Some(LoopTrackClip::explicit(wav, 2)), None, None];
    assert!(previous_measure_repeat_clip(&long, 2, 3).is_none());
}

#[test]
fn moving_right_past_the_end_adds_measures_unless_read_only() {
    let mut browser = browser_with_spanning_wavs();
    browser.move_track_cursor_right(3);
    assert_eq!(browser.measure_cursor, 3);
    assert_eq!(browser.track_grid[0].len(), 4);
    browser.track_grid_writable = false;
    browser.move_track_cursor_right(5);
    assert_eq!(browser.measure_cursor, 3);
    assert_eq!(browser.displayed_measure_count(), 4);
}

#[test]
fn moving_down_adds_tracks_with_volumes_and_solo() {
    let mut browser = browser_with_spanning_wavs();
    browser.move_track_cursor_down(2);
    assert_eq!(browser.track_cursor, 2);
    assert_eq!(browser.track_grid.len(), 3);
    assert_eq!(browser.track_volumes_db(), &[0, 0, 0]);
    assert_eq!(browser.solo_tracks(), &[false, false, false]);
    assert_eq!(browser.track_volume_db(7), 0);
}

#[test]
fn tracks_move_with_their_volume_and_solo() {
    let mut browser = browser_with_spanning_wavs();
    browser.move_track_cursor_down(1);
    browser.track_volumes_db = vec![-3, 2];
    browser.solo_tracks = vec![false, true];
    let action = browser.move_current_track(-1);
    assert!(matches!(
        action,
        LoopBrowserAction::TrackLayoutChanged { start_measure: 0, ref track_volumes_db, ref solo_tracks }
            if track_volumes_db == &vec![2, -3] && solo_tracks == &vec![true, false]
    ));
    assert_eq!(browser.track_cursor, 0);
    assert!(matches!(browser.move_current_track(-1), LoopBrowserAction::Continue));
}

#[test]
fn solo_first_isolates_then_toggles() {
    let mut browser = browser_with_spanning_wavs();
    browser.move_track_cursor_down(2);
    assert!(!browser.solo_mode_active());
    assert!(browser.track_is_audible(0));
    browser.toggle_current_track_solo();
    assert_eq!(browser.solo_tracks(), &[false, false, true]);
    assert!(browser.track_is_soloed(2));
    assert!(!browser.track_is_audible(0));
    browser.toggle_current_track_solo();
    assert!(!browser.solo_mode_active());
}

#[test]
fn a_pad_places_replaces_and_removes_its_wav() {
    let mut browser = browser_with_spanning_wavs();
    let long = browser.wav_analyses[0].0.clone();
    let short = browser.wav_analyses[1].0.clone();
    browser.pads = vec![('c', short.clone()), ('d', long.clone())];
    assert!(matches!(
        browser.toggle_current_cell('c'),
        LoopBrowserAction::GridRefresh { reason: LoopGridChange::Pad('c') }
    ));
    assert!(matches!(
        browser.toggle_current_cell('d'),
        LoopBrowserAction::GridReplaced { start_measure: 0, reason: LoopGridChange::Pad('d') }
    ));
    assert_eq!(browser.track_grid[0][0].as_ref().unwrap().wav, long);
    assert!(matches!(browser.toggle_current_cell('d'), LoopBrowserAction::GridRefresh { .. }));
    assert!(browser.track_grid[0][0].is_none());
    assert!(matches!(browser.toggle_current_cell('e'), LoopBrowserAction::Continue));
}

#[test]
fn a_failed_save_restores_the_grid_and_reports_it() {
    let mut browser = browser_with_spanning_wavs();
    browser.track_grid_path = Some("/tmp/grid.json".to_string());
    let short = browser.wav_analyses[1].0.clone();
    assert_eq!(browser.insert_current_clip(short), Some(0));
    assert!(browser.pending_save.is_some());
    browser.restore_after_failed_save("disk full");
    assert!(browser.track_grid[0][0].is_none());
    assert_eq!(browser.track_grid_error.as_deref(), Some("track listを保存できません: disk full"));
}

#[test]
fn a_pad_key_whose_save_fails_answers_continue() {
    let mut browser = browser_with_spanning_wavs();
    browser.track_grid_path = Some("/tmp/grid.json".to_string());
    let short = browser.wav_analyses[1].0.clone();
    browser.pads = vec![('c', short)];
    let action = browser.toggle_current_cell('c');
    assert!(matches!(action, LoopBrowserAction::GridRefresh { .. }));
    let answer = browser.settle_save(Err("disk full".to_string()), action);
    assert!(matches!(answer, LoopBrowserAction::Continue));
    assert!(browser.track_grid[0][0].is_none());
    assert!(browser.pending_save.is_none());
    assert_eq!(browser.track_grid_error.as_deref(), Some("track listを保存できません: disk full"));

    let action = browser.toggle_current_cell('c');
    let answer = browser.settle_save(Ok(()), action);
    assert!(matches!(answer, LoopBrowserAction::GridRefresh { reason: LoopGridChange::Pad('c') }));
    assert!(browser.track_grid[0][0].is_some());
    assert!(browser.pending_save.is_none());
    assert_eq!(browser.track_grid_error, None);
}

#[test]
fn a_placement_whose_save_fails_counts_as_none() {
    let mut browser = browser_with_spanning_wavs();
    browser.track_grid_path = Some("/tmp/grid.json".to_string());
    let long = browser.wav_analyses[0].0.clone();
    let placed = browser.insert_current_clip(long);
    assert_eq!(placed, Some(0));
    assert_eq!(browser.settle_placement(Err("read-only".to_string()), placed), None);
    assert!(browser.track_grid[0][0].is_none());
    assert_eq!(browser.track_grid[0].len(), 1);
}

#[test]
fn grid_change_labels_name_the_pad() {
    assert_eq!(LoopGridChange::Pad('e').label(), "pad-e");
    assert_eq!(LoopGridChange::BatchRandom.label(), "batch-random");
    assert_eq!(LoopGridChange::Initial.label(), "initial");
}

#[test]
fn an_empty_browser_has_one_empty_measure_and_no_rows() {
    let browser = LoopBrowser::default();
    assert_eq!(browser.track_grid.len(), 1);
    assert_eq!(browser.track_grid[0].len(), 1);
    assert!(browser.track_grid[0][0].is_none());
    assert!(browser.tree.visible.is_empty());
    assert!(browser.track_grid_writable);
}

#[test]
fn every_pad_key_places_and_removes_without_audition() {
    for pad in PAD_KEYS {
        let mut browser = browser_with_direct_wavs(1);
        let wav = browser.wav_analyses[0].0.clone();
        browser.pads = vec![(pad, wav)];
        browser.focus = LoopBrowserPane::Tracks;

        assert!(matches!(
            browser.handle_track_key(plain(pad)),
            BrowserOutcome::Grid(LoopBrowserAction::GridRefresh { .. })
        ));
        assert!(browser.track_grid[0][0].is_some());
        assert!(matches!(
            browser.handle_track_key(plain(pad)),
            BrowserOutcome::Grid(LoopBrowserAction::GridRefresh { .. })
        ));
        assert!(browser.track_grid[0][0].is_none());
    }
}

#[test]
fn every_pad_key_replacement_uses_the_clip_start_without_audition() {
    for pad in PAD_KEYS {
        let mut browser = browser_with_spanning_wavs();
        let original = browser.wav_analyses[0].0.clone();
        let replacement = browser.wav_analyses[1].0.clone();
        browser.track_grid[0].resize(2, None);
        browser.track_grid[0][0] = Some(LoopTrackClip::explicit(original, 2));
        browser.pads = vec![(pad, replacement)];
        browser.focus = LoopBrowserPane::Tracks;
        browser.measure_cursor = 1;

        let outcome = browser.handle_track_key(plain(pad));
        assert!(matches!(
            outcome,
            BrowserOutcome::Grid(LoopBrowserAction::GridReplaced { start_measure: 0, reason: LoopGridChange::Pad(p) })
                if p == pad
        ));
        assert_eq!(browser.track_grid[0][0].as_ref().unwrap().wav.relative, "short.wav");
        assert_eq!(browser.effective_measure_count(), 1);
    }
}

#[test]
fn spanning_clip_occupies_continuations_and_overlap_replaces_whole_clip() {
    let mut browser = browser_with_spanning_wavs();
    let long = browser.wav_analyses[0].0.clone();
    let short = browser.wav_analyses[1].0.clone();
    browser.pads = vec![('c', long), ('d', short)];
    browser.focus = LoopBrowserPane::Tracks;

    browser.handle_track_key(plain('c'));
    assert_eq!(browser.track_grid[0].len(), 2);
    assert_eq!(browser.track_grid[0][0].as_ref().unwrap().span_measures, 2);
    assert_eq!(browser.clip_at(0, 1).unwrap().0, 0);

    browser.handle_track_key(plain('l'));
    browser.handle_track_key(plain('d'));
    assert_eq!(browser.track_grid[0][0].as_ref().unwrap().wav.relative, "short.wav");
    assert!(browser.track_grid[0][1].is_none());

    browser.handle_track_key(plain('h'));
    browser.handle_track_key(plain('c'));
    browser.handle_track_key(plain('l'));
    browser.handle_track_key(plain('c'));
    assert!(browser.track_grid[0].iter().all(Option::is_none));
}

fn press(browser: &mut LoopBrowser, c: char) -> BrowserOutcome {
    browser.handle_key_event(plain(c), false, 10)
}

#[test]
fn track_solo_key_supports_multiple_solos_and_restores_all_tracks() {
    let mut browser = browser_with_direct_wavs(1);
    browser.focus = LoopBrowserPane::Tracks;

    assert!(matches!(
        press(&mut browser, 's'),
        BrowserOutcome::Grid(LoopBrowserAction::TrackSoloChanged { solo_tracks }) if solo_tracks == vec![true]
    ));
    assert!(browser.track_is_audible(0));

    press(&mut browser, 'j');
    assert_eq!(browser.solo_tracks, vec![true, false]);
    assert!(!browser.track_is_audible(1));
    assert!(matches!(
        press(&mut browser, 's'),
        BrowserOutcome::Grid(LoopBrowserAction::TrackSoloChanged { solo_tracks }) if solo_tracks == vec![true, true]
    ));

    press(&mut browser, 'k');
    press(&mut browser, 's');
    assert_eq!(browser.solo_tracks, vec![false, true]);
    assert!(!browser.track_is_audible(0));
    assert!(browser.track_is_audible(1));

    press(&mut browser, 'j');
    press(&mut browser, 's');
    assert_eq!(browser.solo_tracks, vec![false, false]);
    assert!(browser.track_is_audible(0));
    assert!(browser.track_is_audible(1));
}

#[test]
fn p_toggles_loop_playback_from_both_panes_and_resumes_at_selected_measure() {
    let mut browser = browser_with_direct_wavs(1);
    browser.move_track_cursor_right(5);
    browser.measure_cursor = 3;

    assert!(matches!(
        browser.handle_key_event(plain('p'), false, 10),
        BrowserOutcome::Grid(LoopBrowserAction::SetPlaybackPaused { paused: true, start_measure: 3 })
    ));
    assert!(browser.playback_paused);

    browser.focus = LoopBrowserPane::Tracks;
    browser.measure_cursor = 5;
    assert!(matches!(
        browser.handle_key_event(plain('p'), false, 10),
        BrowserOutcome::Grid(LoopBrowserAction::SetPlaybackPaused { paused: false, start_measure: 5 })
    ));
    assert!(!browser.playback_paused);
}

fn tab_key() -> TreeKey {
    TreeKey { code: TreeKeyCode::Other, shift: false, other_modifiers: false }
}

#[test]
fn question_mark_opens_help_for_the_focused_pane() {
    let mut browser = browser_with_spanning_wavs();

    assert!(matches!(
        browser.handle_key_event(plain('?'), false, 10),
        BrowserOutcome::Grid(LoopBrowserAction::Continue)
    ));
    assert_eq!(browser.help_overlay, Some(LoopBrowserPane::Tree));

    browser.handle_key_event(plain('?'), false, 10);
    browser.handle_key_event(tab_key(), true, 10);
    browser.handle_key_event(plain('?'), false, 10);

    assert_eq!(browser.focus, LoopBrowserPane::Tracks);
    assert_eq!(browser.help_overlay, Some(LoopBrowserPane::Tracks));
}

#[test]
fn escape_q_and_question_mark_close_help_without_leaving_loop_browser() {
    let esc = TreeKey { code: TreeKeyCode::Esc, shift: false, other_modifiers: false };
    for close_key in [esc, plain('q'), plain('?')] {
        let mut browser = browser_with_spanning_wavs();
        browser.handle_key_event(plain('?'), false, 10);

        assert!(matches!(
            browser.handle_key_event(close_key, false, 10),
            BrowserOutcome::Grid(LoopBrowserAction::Continue)
        ));
        assert_eq!(browser.help_overlay, None);
        assert_eq!(browser.focus, LoopBrowserPane::Tree);
    }
}

#[test]
fn help_blocks_keys_from_reaching_the_underlying_pane() {
    let mut browser = browser_with_spanning_wavs();
    let cursor = browser.tree.cursor;
    browser.handle_key_event(plain('?'), false, 10);

    browser.handle_key_event(plain('j'), false, 10);
    browser.handle_key_event(tab_key(), true, 10);

    assert_eq!(browser.tree.cursor, cursor);
    assert_eq!(browser.focus, LoopBrowserPane::Tree);
    assert_eq!(browser.help_overlay, Some(LoopBrowserPane::Tree));
}

#[test]
fn track_pane_toggles_one_wav_per_cell_and_auto_extends_right_and_down() {
    let mut browser = LoopBrowser::from_index(LoopIndex {
        roots: vec![LoopRootIndex { path: "/loops".to_string(), wav_files: vec![indexed("bass/a.wav")] }],
    });
    let wav = browser.wav_analyses[0].0.clone();
    browser.pads = vec![('c', wav)];
    browser.focus = LoopBrowserPane::Tracks;

    assert!(matches!(
        browser.handle_track_key(plain('c')),
        BrowserOutcome::Grid(LoopBrowserAction::GridRefresh { .. })
    ));
    assert!(browser.track_grid[0][0].as_ref().is_some_and(|clip| clip.wav.relative.ends_with("a.wav")));
    browser.handle_track_key(plain('l'));
    browser.handle_track_key(plain('j'));
    assert_eq!((browser.track_cursor, browser.measure_cursor), (1, 1));
    assert_eq!(browser.track_grid.len(), 2);
    assert!(browser.track_grid.iter().all(|track| track.len() == 2));

    browser.handle_track_key(plain('h'));
    browser.handle_track_key(plain('k'));
    assert_eq!((browser.track_cursor, browser.measure_cursor), (0, 0));
    assert!(matches!(
        browser.handle_track_key(plain('c')),
        BrowserOutcome::Grid(LoopBrowserAction::GridRefresh { .. })
    ));
    assert!(browser.track_grid[0][0].is_none());
}

#[test]
fn playback_clips_repeat_one_measure_clips_over_the_longest_content() {
    let mut browser = browser_with_spanning_wavs();
    let long = browser.wav_analyses[0].0.clone();
    let short = browser.wav_analyses[1].0.clone();
    browser.track_grid = vec![
        vec![Some(LoopTrackClip::explicit(short.clone(), 1)), None, None, None, None],
        vec![Some(LoopTrackClip::explicit(long, 4)), None, None, None, None],
        vec![Some(LoopTrackClip::explicit(short.clone(), 1)), None, Some(LoopTrackClip::explicit(short, 1)), None, None],
    ];

    let clips = browser.playback_clips();

    assert_eq!(clips.len(), 3);
    assert!(clips.iter().all(|track| track.len() == 4));
    assert!(clips[0].iter().all(Option::is_some));
    assert!(clips[1][0].is_some());
    assert!(clips[1][1..].iter().all(Option::is_none));
    assert!(clips[2].iter().all(Option::is_some));
}

#[test]
fn track_hjkl_prefix_moves_and_extends_by_the_requested_count() {
    let mut browser = browser_with_direct_wavs(3);
    browser.focus = LoopBrowserPane::Tracks;
    browser.handle_key_event(plain('3'), false, 10);
    browser.handle_key_event(plain('l'), false, 10);
    assert_eq!(browser.measure_cursor, 3);
    assert!(browser.track_grid.iter().all(|track| track.len() == 4));

    browser.handle_key_event(plain('2'), false, 10);
    browser.handle_key_event(plain('j'), false, 10);
    assert_eq!(browser.track_cursor, 2);
    assert_eq!(browser.track_grid.len(), 3);

    browser.handle_key_event(plain('2'), false, 10);
    browser.handle_key_event(plain('h'), false, 10);
    browser.handle_key_event(plain('2'), false, 10);
    browser.handle_key_event(plain('k'), false, 10);
    assert_eq!((browser.track_cursor, browser.measure_cursor), (0, 1));
}

fn arrow(code: TreeKeyCode) -> TreeKey {
    TreeKey { code, shift: false, other_modifiers: false }
}

fn selected_name(browser: &LoopBrowser) -> String {
    browser.tree.visible[browser.tree.cursor].name.clone()
}

#[test]
fn track_navigation_reveals_start_continuation_and_repeat_wavs_in_the_tree() {
    let mut browser = browser_with_spanning_wavs();
    let long = browser.wav_analyses[0].0.clone();
    let short = browser.wav_analyses[1].0.clone();
    browser.track_grid = vec![
        vec![Some(LoopTrackClip::explicit(long, 2)), None, None],
        vec![Some(LoopTrackClip::explicit(short, 1)), None, None],
    ];
    browser.track_volumes_db = vec![0, 0];
    browser.solo_tracks = vec![false, false];
    browser.focus = LoopBrowserPane::Tracks;

    browser.sync_tree_to_current_cell();
    assert_eq!(selected_name(&browser), "long.wav");

    browser.handle_key_event(arrow(TreeKeyCode::Right), false, 10);
    assert_eq!(selected_name(&browser), "long.wav");

    browser.handle_key_event(arrow(TreeKeyCode::Down), false, 10);
    assert_eq!(selected_name(&browser), "short.wav");
}

#[test]
fn tab_into_tracks_reveals_the_current_wav_without_moving_focus_back_to_tree() {
    let mut browser = browser_with_direct_wavs(1);
    let wav = browser.wav_analyses[0].0.clone();
    browser.track_grid[0][0] = Some(LoopTrackClip::explicit(wav, 1));

    browser.handle_key_event(tab_key(), true, 10);

    assert_eq!(browser.focus, LoopBrowserPane::Tracks);
    assert_eq!(selected_name(&browser), "0.wav");
}

#[test]
fn allocated_empty_columns_do_not_extend_playback_or_normal_display() {
    let mut browser = browser_with_direct_wavs(1);
    let wav = browser.wav_analyses[0].0.clone();
    browser.track_grid[0] = vec![Some(LoopTrackClip::explicit(wav, 1)), None, None, None, None, None];

    assert_eq!(browser.playback_clips()[0].len(), 1);
    assert_eq!(browser.displayed_measure_count(), 1);
    assert!(browser.clip_at(0, 1).is_none());

    browser.measure_cursor = 5;
    assert_eq!(browser.displayed_measure_count(), 6);
    assert!(browser.clip_at(0, 5).is_none());
}

#[test]
fn a_loaded_grid_takes_the_browsers_place_and_asks_to_be_saved_when_migrated() {
    let mut browser = browser_with_spanning_wavs();
    let short = browser.wav_analyses[1].0.clone();
    let grid = vec![vec![Some(LoopTrackClip::explicit(short, 1)), None], vec![None, None]];
    let save = browser.install_loaded_grid(
        grid,
        vec![-6, 0],
        Some("/tmp/grid.json".to_string()),
        true,
        None,
        true,
        false,
    );
    assert!(save);
    assert_eq!(browser.track_grid.len(), 2);
    assert_eq!(browser.track_grid[0].len(), 2);
    assert_eq!(browser.track_volumes_db, vec![-6, 0]);
    assert_eq!(browser.solo_tracks, vec![false, false]);
    assert_eq!((browser.track_cursor, browser.measure_cursor), (0, 0));
    browser.migration_save_failed("read-only");
    assert_eq!(browser.track_grid_error.as_deref(), Some("track grid migrationを保存できません: read-only"));

    let read_only = browser.install_loaded_grid(vec![vec![None]], vec![0], Some("/tmp/grid.json".to_string()), false, None, true, true);
    assert!(!read_only);
    assert_eq!(browser.solo_tracks, vec![false]);
    let unchanged = browser.install_loaded_grid(vec![vec![None]], vec![0], Some("/tmp/grid.json".to_string()), true, None, false, false);
    assert!(!unchanged);
}
