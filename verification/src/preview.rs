//! The Preview of a path: which load is current, and which line it highlights.
use vstd::prelude::*;

use crate::generation::{next_generation, Generation};
use crate::outcome::{point_of, PathWithPosition, Point};

verus! {

/// Where the text of a previewed path comes from.
#[derive(Debug, Clone, Copy, PartialEq, Eq, Structural)]
pub enum BufferSource {
    /// A buffer of the project that is open already.
    Open,
    /// A file of the project.
    Project,
    /// A file outside every worktree.
    Local,
}

/// Decides where the text of a previewed path comes from.
pub fn buffer_source(in_project: bool, open: bool) -> (source: BufferSource)
    ensures
        source == (if !in_project {
            BufferSource::Local
        } else if open {
            BufferSource::Open
        } else {
            BufferSource::Project
        }),
{
    if !in_project {
        BufferSource::Local
    } else if open {
        BufferSource::Open
    } else {
        BufferSource::Project
    }
}

/// What the Preview does with an update.
#[derive(Debug, Clone, Copy, PartialEq, Eq, Structural)]
pub enum PreviewStep {
    /// Show it as it is.
    Forward,
    /// Load the path; the answer carries the generation.
    Load { generation: Generation },
}

/// The load that is under way, with the position to highlight once it is done.
pub struct PreviewView {
    pub generation: Generation,
    pub loading: Option<Option<crate::outcome::PathWithPositionView>>,
}

impl PreviewView {
    /// A Preview that has shown nothing.
    pub open spec fn new() -> PreviewView {
        PreviewView { generation: 0, loading: None }
    }

    /// After an update, which replaces any load that is under way.
    pub open spec fn updated(
        self,
        is_path: bool,
        position: Option<crate::outcome::PathWithPositionView>,
    ) -> PreviewView {
        PreviewView {
            generation: crate::generation::following(self.generation),
            loading: if is_path {
                Some(position)
            } else {
                None
            },
        }
    }

    /// Whether the answer to a load is still wanted.
    pub open spec fn wants(self, generation: Generation) -> bool {
        self.loading is Some && self.generation == generation
    }

    /// After the Preview was cleared.
    pub open spec fn cleared(self) -> PreviewView {
        PreviewView {
            generation: crate::generation::following(self.generation),
            loading: None,
        }
    }
}

/// A Preview that loads every Finder path itself, so that an older path cannot
/// overwrite a newer one.
pub struct PositionedPreview {
    generation: Generation,
    loading: Option<Option<PathWithPosition>>,
}

impl View for PositionedPreview {
    type V = PreviewView;

    closed spec fn view(&self) -> PreviewView {
        PreviewView { generation: self.generation, loading: self.loading.deep_view() }
    }
}

impl PositionedPreview {
    /// A Preview that has shown nothing.
    pub fn new() -> (preview: PositionedPreview)
        ensures
            preview@ == PreviewView::new(),
    {
        PositionedPreview { generation: 0, loading: None }
    }

    /// Takes in an update, with the position that was left for it.
    pub fn update(&mut self, is_path: bool, position: Option<PathWithPosition>) -> (step:
        PreviewStep)
        ensures
            final(self)@ == old(self)@.updated(is_path, position.deep_view()),
            step == (if is_path {
                PreviewStep::Load { generation: final(self)@.generation }
            } else {
                PreviewStep::Forward
            }),
    {
        self.generation = next_generation(self.generation);
        if is_path {
            self.loading = Some(position);
            PreviewStep::Load { generation: self.generation }
        } else {
            self.loading = None;
            PreviewStep::Forward
        }
    }

    /// Takes in that a load is done. Returns the position to highlight in what
    /// was loaded, where there is one, or nothing where the load was replaced.
    pub fn loaded(&mut self, generation: Generation) -> (show: Option<Option<PathWithPosition>>)
        ensures
            show.deep_view() == (if old(self)@.wants(generation) {
                old(self)@.loading
            } else {
                None
            }),
            final(self)@ == (if old(self)@.wants(generation) {
                PreviewView { loading: None, ..old(self)@ }
            } else {
                old(self)@
            }),
    {
        if self.generation != generation {
            return None;
        }
        let mut show: Option<Option<PathWithPosition>> = None;
        std::mem::swap(&mut show, &mut self.loading);
        show
    }

    /// Forgets any load that is under way.
    pub fn clear(&mut self)
        ensures
            final(self)@ == old(self)@.cleared(),
    {
        self.generation = next_generation(self.generation);
        self.loading = None;
    }
}

/// The line that is highlighted, from its start to its end.
#[derive(Debug, Clone, Copy, PartialEq, Eq, Structural)]
pub struct MatchLocation {
    pub start: Point,
    pub end: Point,
}

/// Whether `clip` may move `place` to `point`, on a line that `line_len` may say
/// is `len` long, and `location` is all of that line.
pub open spec fn is_line_at<C: Fn(Point) -> Point, L: Fn(u32) -> u32>(
    place: Point,
    clip: C,
    line_len: L,
    location: MatchLocation,
    point: Point,
    len: u32,
) -> bool {
    &&& call_ensures(clip, (place,), point)
    &&& call_ensures(line_len, (point.row,), len)
    &&& location == (MatchLocation {
        start: Point { row: point.row, column: 0 },
        end: Point { row: point.row, column: len },
    })
}

/// Whether `location` is the whole line on which the position lies, once
/// `clip` has moved the position into the text.
pub open spec fn is_line_of<C: Fn(Point) -> Point, L: Fn(u32) -> u32>(
    position: crate::outcome::PathWithPositionView,
    clip: C,
    line_len: L,
    location: MatchLocation,
) -> bool {
    let place = crate::outcome::external_point(position.row, position.column);
    exists|point: Point, len: u32| #[trigger]
        is_line_at(place, clip, line_len, location, point, len)
}

/// Finds the line to highlight. `clip` moves a place into the text of the
/// buffer, and `line_len` is the length of one of its lines.
pub fn match_location_for_position<C: Fn(Point) -> Point, L: Fn(u32) -> u32>(
    position: &PathWithPosition,
    clip: C,
    line_len: L,
) -> (location: MatchLocation)
    requires
        forall|point: Point| #[trigger] call_requires(clip, (point,)),
        forall|row: u32| #[trigger] call_requires(line_len, (row,)),
    ensures
        is_line_of(position.deep_view(), clip, line_len, location),
{
    let point = clip(point_of(position.row, position.column));
    let len: u32 = line_len(point.row);
    let location = MatchLocation {
        start: Point { row: point.row, column: 0 },
        end: Point { row: point.row, column: len },
    };
    proof {
        let place = crate::outcome::external_point(position.row, position.column);
        assert(is_line_at(place, clip, line_len, location, point, len));
    }
    location
}

// ---------------------------------------------------------------------------
// Laws
// ---------------------------------------------------------------------------
/// The state after a number of further updates, each with its own position.
pub open spec fn updated_again(
    preview: PreviewView,
    updates: Seq<(bool, Option<crate::outcome::PathWithPositionView>)>,
) -> PreviewView
    decreases updates.len(),
{
    if updates.len() == 0 {
        preview
    } else {
        updated_again(preview, updates.drop_last()).updated(updates.last().0, updates.last().1)
    }
}

proof fn lemma_updated_generation(
    preview: PreviewView,
    updates: Seq<(bool, Option<crate::outcome::PathWithPositionView>)>,
)
    ensures
        updated_again(preview, updates).generation == crate::generation::later(
            preview.generation,
            updates.len(),
        ),
    decreases updates.len(),
{
    if updates.len() > 0 {
        lemma_updated_generation(preview, updates.drop_last());
    }
}

/// The answer to a load that was replaced is not shown, so an older path
/// cannot overwrite a newer one. The number of updates in between is bounded by
/// the numbers that generations have.
pub proof fn law_replaced_load_is_not_shown(
    preview: PreviewView,
    updates: Seq<(bool, Option<crate::outcome::PathWithPositionView>)>,
)
    requires
        0 < updates.len() < 0x1_0000_0000_0000_0000,
    ensures
        !updated_again(preview, updates).wants(preview.generation),
{
    lemma_updated_generation(preview, updates);
    crate::generation::law_later_generations_differ(preview.generation, updates.len());
}

/// The line that the Preview highlights is the one on which Confirm puts the
/// cursor: both move the same place into the text.
pub proof fn law_highlight_is_where_the_cursor_goes<C: Fn(Point) -> Point, L: Fn(u32) -> u32>(
    target: crate::outcome::PathWithPositionView,
    clip: C,
    line_len: L,
    location: MatchLocation,
)
    requires
        target.row is Some,
        is_line_of(target, clip, line_len, location),
    ensures
        crate::outcome::cursor_point(target, true) is Some,
        exists|point: Point| #[trigger]
            call_ensures(clip, (crate::outcome::cursor_point(target, true)->0,), point)
                && location.start == (Point { row: point.row, column: 0 }) && location.end.row
                == point.row,
{
    let cursor = crate::outcome::external_point(target.row, target.column);
    let (point, len) = choose|point: Point, len: u32| #[trigger]
        is_line_at(cursor, clip, line_len, location, point, len);
    assert(call_ensures(clip, (crate::outcome::cursor_point(target, true)->0,), point));
}

/// The answer to the newest load is wanted, with the position that was left for
/// it, until something replaces it; a message and a cleared Preview want none.
pub proof fn law_newest_load_is_wanted(
    preview: PreviewView,
    position: Option<crate::outcome::PathWithPositionView>,
)
    ensures
        preview.updated(true, position).wants(preview.updated(true, position).generation),
        preview.updated(true, position).loading == Some(position),
        forall|generation: Generation|
            !#[trigger] preview.updated(false, position).wants(generation),
        forall|generation: Generation| !#[trigger] preview.cleared().wants(generation),
        forall|generation: Generation|
            preview.updated(true, position).wants(generation) ==> generation as int == (
            preview.generation + 1) % 0x1_0000_0000_0000_0000,
        preview.cleared().generation == preview.updated(true, position).generation,
        preview.updated(false, position).generation == preview.updated(true, position).generation,
        !PreviewView::new().wants(0),
{
}

/// The whole line is highlighted, from its first column to its length, where
/// `clip` and `line_len` have one answer each.
pub proof fn law_the_whole_line_is_highlighted<C: Fn(Point) -> Point, L: Fn(u32) -> u32>(
    target: crate::outcome::PathWithPositionView,
    clip: C,
    line_len: L,
    location: MatchLocation,
    point: Point,
    len: u32,
)
    requires
        is_line_of(target, clip, line_len, location),
        forall|answer: Point|
            #[trigger] call_ensures(
                clip,
                (crate::outcome::external_point(target.row, target.column),),
                answer,
            ) ==> answer == point,
        forall|answer: u32|
            #[trigger] call_ensures(line_len, (point.row,), answer) ==> answer == len,
    ensures
        location.start.row == point.row,
        location.start.column == 0,
        location.end.row == point.row,
        location.end.column == len,
{
}

} // verus!
