use finder::generation::next_generation;
use finder::outcome::{PathWithPosition, Point};
use finder::preview::{
    buffer_source, match_location_for_position, BufferSource, MatchLocation, PositionedPreview,
    PreviewStep,
};

const TEXT: &str = "one\ntwo\nthree\n";

fn position(row: u32, column: u32) -> PathWithPosition {
    PathWithPosition { path: "multi.rs".into(), row: Some(row), column: Some(column) }
}

fn clip(point: Point) -> Point {
    let last = TEXT.split('\n').count() as u32 - 1;
    let row = point.row.min(last);
    Point { row, column: point.column.min(line_len(row)) }
}

fn line_len(row: u32) -> u32 {
    TEXT.split('\n').nth(row as usize).map(|line| line.len()).unwrap_or(0) as u32
}

fn offset(point: Point) -> usize {
    let before: usize = TEXT.split('\n').take(point.row as usize).map(|line| line.len() + 1).sum();
    before + point.column as usize
}

fn highlighted(position: &PathWithPosition) -> (usize, usize) {
    let MatchLocation { start, end } = match_location_for_position(position, clip, line_len);
    (offset(start), offset(end))
}

#[test]
fn positioned_preview_highlights_the_requested_line() {
    assert_eq!(highlighted(&position(2, 2)), (4, 7));
}

#[test]
fn a_position_past_the_end_highlights_the_last_line() {
    assert_eq!(highlighted(&position(99, 1)), (14, 14));
    assert_eq!(highlighted(&position(0, 0)), (0, 3));
    let nowhere = PathWithPosition { path: "multi.rs".into(), row: None, column: None };
    assert_eq!(highlighted(&nowhere), (0, 3));
}

#[test]
fn positioned_preview_loads_the_file_before_forwarding_the_highlight() {
    let mut preview = PositionedPreview::new();
    let PreviewStep::Load { generation } = preview.update(true, Some(position(2, 2))) else {
        panic!("expected the path to be loaded first");
    };
    let shown = preview.loaded(generation).expect("the load is current");
    assert_eq!(shown.as_ref().map(highlighted), Some((4, 7)));
    assert!(preview.loaded(generation).is_none(), "a load is shown once");
}

#[test]
fn an_older_path_cannot_overwrite_a_newer_one() {
    let mut preview = PositionedPreview::new();
    let PreviewStep::Load { generation: older } = preview.update(true, Some(position(1, 1))) else {
        panic!("expected a load");
    };
    let PreviewStep::Load { generation: newer } = preview.update(true, None) else {
        panic!("expected a load");
    };
    assert!(preview.loaded(older).is_none());
    assert_eq!(preview.loaded(newer), Some(None));
}

#[test]
fn what_is_no_path_is_shown_as_it_is_and_ends_a_load() {
    let mut preview = PositionedPreview::new();
    let PreviewStep::Load { generation } = preview.update(true, None) else {
        panic!("expected a load");
    };
    assert_eq!(preview.update(false, Some(position(1, 1))), PreviewStep::Forward);
    assert!(preview.loaded(generation).is_none());
    assert!(preview.loaded(next_generation(generation)).is_none());
}

#[test]
fn a_cleared_preview_shows_nothing_late() {
    let mut preview = PositionedPreview::new();
    let PreviewStep::Load { generation } = preview.update(true, None) else {
        panic!("expected a load");
    };
    preview.clear();
    assert!(preview.loaded(generation).is_none());
}

#[test]
fn generations_wrap_around() {
    assert_eq!(next_generation(0), 1);
    assert_eq!(next_generation(u64::MAX), 0);
}

#[test]
fn a_buffer_that_is_open_is_not_loaded_again() {
    assert_eq!(buffer_source(true, true), BufferSource::Open);
    assert_eq!(buffer_source(true, false), BufferSource::Project);
    assert_eq!(buffer_source(false, true), BufferSource::Local);
}
