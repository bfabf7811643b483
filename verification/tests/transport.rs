use cmrt_tui::transport::{measure_at_or_after, next_measure, TransportState};

fn clip(span_measures: usize) -> Option<usize> {
    Some(span_measures)
}

#[test]
fn next_measure_skips_empty_columns_and_wraps() {
    let grid = vec![vec![clip(1), None, clip(1)], vec![clip(1), None, None]];
    assert_eq!(next_measure(&grid, None), Some(0));
    assert_eq!(next_measure(&grid, Some(0)), Some(2));
    assert_eq!(next_measure(&grid, Some(2)), Some(0));
}

#[test]
fn next_measure_returns_none_for_empty_grid() {
    assert_eq!(next_measure(&vec![vec![None, None]], None), None);
    assert_eq!(next_measure(&Vec::new(), Some(3)), None);
}

#[test]
fn a_spanning_clip_keeps_its_following_measures_busy() {
    let grid = vec![vec![clip(2), None, None]];
    assert_eq!(next_measure(&grid, Some(0)), Some(1));
    assert_eq!(next_measure(&grid, Some(1)), Some(0));
}

#[test]
fn restart_measure_is_selected_immediately_instead_of_the_following_measure() {
    let grid = vec![vec![clip(1), clip(1), clip(1)]];

    assert_eq!(measure_at_or_after(&grid, 1), Some(1));
    assert_eq!(next_measure(&grid, Some(1)), Some(2));
}

#[test]
fn restart_measure_skips_forward_over_an_empty_requested_column() {
    let grid = vec![vec![clip(1), None, clip(1)]];

    assert_eq!(measure_at_or_after(&grid, 1), Some(2));
    assert_eq!(measure_at_or_after(&grid, 4), Some(2));
}

#[test]
fn the_transport_restarts_once_and_stops_while_paused() {
    let grid = vec![vec![clip(1), None, clip(1)]];
    let mut transport = TransportState::new();
    assert_eq!(transport.next_measure_to_start(&grid), Some(0));
    transport.started(0);
    transport.restart_at(1);
    assert_eq!(transport.next_measure_to_start(&grid), Some(2));
    assert_eq!(transport.restart_measure, None);
    assert_eq!(transport.current_measure, None);
    assert_eq!(transport.next_measure_to_start(&grid), Some(0));
    transport.pause();
    assert!(transport.is_paused());
    assert_eq!(transport.next_measure_to_start(&grid), None);
    transport.resume_at(2);
    assert_eq!(transport.next_measure_to_start(&grid), Some(2));
    transport.started(2);
    assert_eq!(transport.next_measure_to_start(&grid), Some(0));
    transport.clear_current();
    assert_eq!(transport.current_measure, None);
}

#[test]
fn continuation_measure_waits_and_can_start_another_track() {
    let grid = vec![vec![clip(2), None], vec![None, clip(1)]];
    assert_eq!(next_measure(&grid, None), Some(0));
    assert_eq!(next_measure(&grid, Some(0)), Some(1));
}

#[test]
fn updated_grid_is_used_when_the_next_measure_is_selected() {
    let before = vec![vec![clip(1), None, clip(1)]];
    assert_eq!(next_measure(&before, Some(0)), Some(2));

    let after = vec![vec![clip(1), clip(1), None]];
    assert_eq!(next_measure(&after, Some(0)), Some(1));
}
