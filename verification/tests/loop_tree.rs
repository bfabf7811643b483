use cmrt_tui::loop_browser::{
    BrowserOutcome, LoopBrowser, LoopBrowserAction, LoopBrowserPane, LoopIndex, LoopRootIndex, LoopWavAnalysis,
    LoopWavId, LoopWavIndex,
};
use cmrt_tui::loop_tree::{
    components_of, text_less, TreeKey, TreeKeyCode, TreeKeyOutcome,
};

fn indexed(relative: &str) -> LoopWavIndex {
    LoopWavIndex { relative: relative.to_string(), analysis: LoopWavAnalysis { measures: 1 } }
}

fn browser() -> LoopBrowser {
    LoopBrowser::from_index(LoopIndex {
        roots: vec![LoopRootIndex {
            path: "/loops".to_string(),
            wav_files: vec![indexed("Pack/Bass/B.wav"), indexed("Pack/Bass/a.wav"), indexed("Pack/Drums/Kick.wav")],
        }],
    })
}

fn browser_with_direct_wavs(count: usize) -> LoopBrowser {
    LoopBrowser::from_index(LoopIndex {
        roots: vec![LoopRootIndex {
            path: "/loops".to_string(),
            wav_files: (0..count).map(|index| indexed(&format!("{index:02}.wav"))).collect(),
        }],
    })
}

fn key(code: TreeKeyCode) -> TreeKey {
    TreeKey { code, shift: false, other_modifiers: false }
}

fn ch(c: char) -> TreeKey {
    key(TreeKeyCode::Char(c))
}

fn names(browser: &LoopBrowser) -> Vec<String> {
    browser.tree.visible.iter().map(|node| node.name.clone()).collect()
}

#[test]
fn root_is_expanded_and_directories_sort_before_wavs() {
    let browser = browser();
    assert_eq!(browser.tree.visible.len(), 2);
    assert_eq!(browser.tree.visible[0].name, "/loops");
    assert_eq!(browser.tree.visible[1].name, "Pack");
}

#[test]
fn hjkl_expand_navigate_play_and_select_parent() {
    let mut browser = browser();
    assert!(matches!(browser.tree.handle_tree_key(ch('j'), 10), TreeKeyOutcome::Continue));
    browser.tree.handle_tree_key(ch('l'), 10);
    assert_eq!(browser.tree.visible.len(), 4);
    browser.tree.handle_tree_key(ch('j'), 10);
    browser.tree.handle_tree_key(ch('l'), 10);
    assert_eq!(browser.tree.visible[3].name, "a.wav");
    match browser.tree.handle_tree_key(ch('j'), 10) {
        TreeKeyOutcome::Preview(node) => assert_eq!(node.components.last().unwrap(), "a.wav"),
        _ => panic!("a WAV row previews"),
    }
    browser.tree.handle_tree_key(ch('h'), 10);
    assert_eq!(browser.tree.visible[browser.tree.cursor].name, "Bass");
}

#[test]
fn page_keys_move_ten_rows_and_preview_only_the_destination() {
    let mut browser = browser_with_direct_wavs(15);

    assert!(matches!(browser.tree.handle_tree_key(key(TreeKeyCode::PageDown), 10), TreeKeyOutcome::Preview(_)));
    assert_eq!(browser.tree.cursor, 10);
    assert!(matches!(browser.tree.handle_tree_key(key(TreeKeyCode::PageUp), 10), TreeKeyOutcome::Continue));
    assert_eq!(browser.tree.cursor, 0);
}

#[test]
fn indexed_files_are_wav_rows_with_their_analysis() {
    let browser = LoopBrowser::from_index(LoopIndex {
        roots: vec![LoopRootIndex {
            path: "/loops".to_string(),
            wav_files: vec![
                LoopWavIndex { relative: "Long.wav".to_string(), analysis: LoopWavAnalysis { measures: 4 } },
                LoopWavIndex { relative: "Kit/Short.wav".to_string(), analysis: LoopWavAnalysis { measures: 2 } },
            ],
        }],
    });
    let rows = &browser.tree.visible;
    assert_eq!(names(&browser), vec!["/loops", "Kit", "Long.wav"]);
    assert!(!rows[0].is_wav && rows[0].analysis.is_none());
    assert!(!rows[1].is_wav && rows[1].analysis.is_none());
    assert!(rows[2].is_wav);
    assert_eq!(rows[2].analysis.map(|analysis| analysis.measures), Some(4));
}

#[test]
fn folders_come_before_wavs_and_names_ignore_case() {
    let browser = LoopBrowser::from_index(LoopIndex {
        roots: vec![LoopRootIndex {
            path: "/loops".to_string(),
            wav_files: vec![indexed("b.wav"), indexed("Zed/x.wav"), indexed("A.wav"), indexed("alpha/y.wav")],
        }],
    });
    assert_eq!(names(&browser), vec!["/loops", "alpha", "Zed", "A.wav", "b.wav"]);
}

#[test]
fn collapsing_an_expanded_folder_hides_its_rows() {
    let mut browser = browser();
    browser.tree.handle_tree_key(ch('j'), 10);
    browser.tree.handle_tree_key(ch('l'), 10);
    assert_eq!(names(&browser), vec!["/loops", "Pack", "Bass", "Drums"]);
    browser.tree.handle_tree_key(key(TreeKeyCode::Left), 10);
    assert_eq!(names(&browser), vec!["/loops", "Pack"]);
    assert_eq!(browser.tree.cursor, 1);
    browser.tree.handle_tree_key(ch('h'), 10);
    assert_eq!(browser.tree.cursor, 0);
}

#[test]
fn pad_keys_and_metadata_keys_are_left_to_the_browser() {
    let mut browser = browser();
    assert!(matches!(browser.tree.handle_tree_key(ch('c'), 10), TreeKeyOutcome::TriggerPad('c')));
    let shifted = TreeKey { code: TreeKeyCode::Char('D'), shift: true, other_modifiers: false };
    assert!(matches!(browser.tree.handle_tree_key(shifted, 10), TreeKeyOutcome::TogglePad('d')));
    let shifted_v = TreeKey { code: TreeKeyCode::Char('V'), shift: true, other_modifiers: false };
    assert!(matches!(browser.tree.handle_tree_key(shifted_v, 10), TreeKeyOutcome::ToggleFavoritesOnly));
    assert!(matches!(browser.tree.handle_tree_key(ch('v'), 10), TreeKeyOutcome::ToggleFavorite));
    assert!(matches!(browser.tree.handle_tree_key(ch('t'), 10), TreeKeyOutcome::OpenCategoryOverlay));
    assert!(matches!(browser.tree.handle_tree_key(key(TreeKeyCode::Esc), 10), TreeKeyOutcome::Return));
    assert!(matches!(browser.tree.handle_tree_key(ch('q'), 10), TreeKeyOutcome::Quit));
}

#[test]
fn selected_targets_name_the_wav_and_its_folder() {
    let mut browser = browser();
    browser.tree.handle_tree_key(ch('j'), 10);
    browser.tree.handle_tree_key(ch('l'), 10);
    browser.tree.handle_tree_key(ch('j'), 10);
    browser.tree.handle_tree_key(ch('l'), 10);
    browser.tree.handle_tree_key(ch('j'), 10);
    let (root, wav) = browser.tree.selected_wav_path().unwrap();
    assert_eq!(root, "/loops");
    assert_eq!(wav, vec!["Pack", "Bass", "a.wav"]);
    let (_, dir) = browser.tree.selected_target_dir().unwrap();
    assert_eq!(dir, vec!["Pack", "Bass"]);
    browser.tree.handle_tree_key(ch('k'), 10);
    assert!(browser.tree.selected_wav_path().is_none());
}

#[test]
fn relative_paths_split_into_names() {
    assert_eq!(components_of("Pack//./Bass/../a.wav"), vec!["Pack", "Bass", "a.wav"]);
    assert_eq!(components_of(""), Vec::<String>::new());
}

#[test]
fn text_order_is_by_character() {
    assert!(text_less("a", "b"));
    assert!(text_less("ab", "abc"));
    assert!(!text_less("b", "a"));
    assert!(!text_less("a", "a"));
    assert!(text_less("B", "a"));
}

#[test]
fn the_selected_wav_is_named_by_its_root_and_relative_path() {
    let mut browser = browser();
    for c in ['j', 'l', 'j', 'l', 'j'] {
        browser.tree.handle_tree_key(ch(c), 10);
    }
    let wav = browser.tree.selected_wav_id().unwrap();
    assert_eq!(wav.root, "/loops");
    assert_eq!(wav.relative, "Pack/Bass/a.wav");
    browser.tree.rebuild_visible_for_path(None);
    assert_eq!(browser.tree.cursor, 3);
}

#[test]
fn revealing_a_wav_expands_its_folders_and_selects_it() {
    let mut browser = browser();
    browser.tree.reveal_wav(&LoopWavId::new("/loops", "Pack/Drums/Kick.wav"));
    assert_eq!(names(&browser), vec!["/loops", "Pack", "Bass", "Drums", "Kick.wav"]);
    assert_eq!(browser.tree.cursor, 4);

    browser.tree.reveal_wav(&LoopWavId::new("/elsewhere", "x.wav"));
    assert_eq!(browser.tree.cursor, 4);
}

#[test]
fn tab_switches_panes_and_the_track_grid_takes_its_keys() {
    let mut browser = browser();
    assert!(matches!(browser.handle_key_event(ch('j'), false, 10), BrowserOutcome::Tree(TreeKeyOutcome::Continue)));
    assert_eq!(browser.tree.cursor, 1);
    browser.handle_key_event(key(TreeKeyCode::Other), true, 10);
    assert_eq!(browser.focus, LoopBrowserPane::Tracks);
    assert!(matches!(
        browser.handle_key_event(ch('l'), false, 10),
        BrowserOutcome::Grid(LoopBrowserAction::Continue)
    ));
    assert_eq!(browser.measure_cursor, 1);
    assert_eq!(browser.track_grid[0].len(), 2);
    browser.handle_key_event(key(TreeKeyCode::Left), false, 10);
    assert_eq!(browser.measure_cursor, 0);
    browser.handle_key_event(ch('h'), false, 10);
    assert_eq!(browser.measure_cursor, 0);
    assert_eq!(browser.tree.cursor, 1);
    assert!(matches!(browser.handle_key_event(ch('q'), false, 10), BrowserOutcome::Quit));
    assert!(matches!(browser.handle_key_event(key(TreeKeyCode::Esc), false, 10), BrowserOutcome::Return));
}

fn press(browser: &mut LoopBrowser, key: TreeKey) -> BrowserOutcome {
    browser.handle_key_event(key, false, 10)
}

#[test]
fn tree_hjkl_accepts_vim_style_numeric_prefixes() {
    let mut browser = browser_with_direct_wavs(15);

    press(&mut browser, ch('1'));
    press(&mut browser, ch('0'));
    assert!(matches!(press(&mut browser, ch('j')), BrowserOutcome::Tree(TreeKeyOutcome::Preview(_))));
    assert_eq!(browser.tree.cursor, 10);

    press(&mut browser, ch('2'));
    press(&mut browser, ch('k'));
    assert_eq!(browser.tree.cursor, 8);

    press(&mut browser, ch('3'));
    press(&mut browser, key(TreeKeyCode::Down));
    assert_eq!(browser.tree.cursor, 9);
    assert_eq!(browser.navigation_count.value(), None);
}

#[test]
fn prefixed_tree_h_repeats_parent_and_collapse_operations() {
    let mut browser = browser();
    for c in ['j', 'l', 'j', 'l', 'j'] {
        press(&mut browser, ch(c));
    }
    assert_eq!(browser.tree.visible[browser.tree.cursor].name, "a.wav");

    press(&mut browser, ch('2'));
    press(&mut browser, ch('h'));

    assert_eq!(browser.tree.visible[browser.tree.cursor].name, "Bass");
    assert!(!browser.tree.visible.iter().any(|node| node.name == "a.wav"));
}

#[test]
fn a_leading_zero_is_not_a_count_and_tab_drops_the_count() {
    let mut browser = browser_with_direct_wavs(15);
    press(&mut browser, ch('0'));
    assert_eq!(browser.navigation_count.value(), None);
    press(&mut browser, ch('4'));
    assert_eq!(browser.navigation_count.value(), Some(4));
    browser.handle_key_event(key(TreeKeyCode::Other), true, 10);
    assert_eq!(browser.navigation_count.value(), None);
    assert!(matches!(browser.focus, LoopBrowserPane::Tracks));
}
