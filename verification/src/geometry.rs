//! Terminal rectangles and the split of the workspace into transcript and composer areas.

use vstd::prelude::*;

verus! {

/// A terminal rectangle: top-left corner and size, in cells.
#[derive(Clone, Copy, Debug, PartialEq, Eq, Structural)]
pub struct Rect {
    pub x: u16,
    pub y: u16,
    pub width: u16,
    pub height: u16,
}

/// The rectangle that `Rect::new` builds: the size is clamped so that the right and bottom edges
/// stay within `u16`.
pub open spec fn rect_new_spec(x: u16, y: u16, width: u16, height: u16) -> Rect {
    Rect {
        x,
        y,
        width: if width > u16::MAX - x {
            (u16::MAX - x) as u16
        } else {
            width
        },
        height: if height > u16::MAX - y {
            (u16::MAX - y) as u16
        } else {
            height
        },
    }
}

pub open spec fn sat_add_u16(a: u16, b: u16) -> u16 {
    if a + b > u16::MAX {
        u16::MAX
    } else {
        (a + b) as u16
    }
}

pub open spec fn sat_sub_u16(a: u16, b: u16) -> u16 {
    if a >= b {
        (a - b) as u16
    } else {
        0
    }
}

impl Rect {
    pub fn new(x: u16, y: u16, width: u16, height: u16) -> (r: Rect)
        ensures
            r == rect_new_spec(x, y, width, height),
    {
        let max_width = u16::MAX - x;
        let max_height = u16::MAX - y;
        let width = if width > max_width {
            max_width
        } else {
            width
        };
        let height = if height > max_height {
            max_height
        } else {
            height
        };
        Rect { x, y, width, height }
    }

    /// The first column to the right of the rectangle.
    pub fn right(self) -> (r: u16)
        ensures
            r == sat_add_u16(self.x, self.width),
    {
        self.x.saturating_add(self.width)
    }

    /// The first row below the rectangle.
    pub fn bottom(self) -> (r: u16)
        ensures
            r == sat_add_u16(self.y, self.height),
    {
        self.y.saturating_add(self.height)
    }
}

/// The transcript area above and the composer area below it.
#[derive(Clone, Copy, Debug, PartialEq, Eq, Structural)]
pub struct TranscriptWorkspaceLayout {
    pub transcript: Rect,
    pub composer: Rect,
}

pub open spec fn min_u16(a: u16, b: u16) -> u16 {
    if a <= b {
        a
    } else {
        b
    }
}

pub open spec fn workspace_layout_spec(area: Rect, composer_height: u16) -> TranscriptWorkspaceLayout {
    let composer_height = min_u16(composer_height, area.height);
    let transcript_height = sat_sub_u16(area.height, composer_height);
    TranscriptWorkspaceLayout {
        transcript: rect_new_spec(area.x, area.y, area.width, transcript_height),
        composer: rect_new_spec(
            area.x,
            sat_add_u16(area.y, transcript_height),
            area.width,
            composer_height,
        ),
    }
}

impl TranscriptWorkspaceLayout {
    /// Keeps the composer at the bottom of `area`, clamped to the area's height, and gives the
    /// rest to the transcript.
    pub fn new(area: Rect, composer_height: u16) -> (r: Self)
        ensures
            r == workspace_layout_spec(area, composer_height),
    {
        let composer_height = if composer_height <= area.height {
            composer_height
        } else {
            area.height
        };
        let transcript_height = area.height.saturating_sub(composer_height);
        TranscriptWorkspaceLayout {
            transcript: Rect::new(area.x, area.y, area.width, transcript_height),
            composer: Rect::new(
                area.x,
                area.y.saturating_add(transcript_height),
                area.width,
                composer_height,
            ),
        }
    }
}

/// Computes the workspace geometry from the composer's height at the instant it is needed.
pub fn transcript_workspace_layout(area: Rect, composer_desired_height: u16) -> (r:
    TranscriptWorkspaceLayout)
    ensures
        r == workspace_layout_spec(area, composer_desired_height),
{
    TranscriptWorkspaceLayout::new(area, composer_desired_height)
}

/// For an area that fits in the terminal, the composer sits directly below the transcript, both
/// span the area's width, and together they cover the area's height.
pub proof fn law_workspace_layout_partitions_area(area: Rect, composer_height: u16)
    requires
        area.x + area.width <= u16::MAX,
        area.y + area.height <= u16::MAX,
    ensures
        ({
            let l = workspace_layout_spec(area, composer_height);
            &&& l.transcript.x == area.x && l.composer.x == area.x
            &&& l.transcript.width == area.width && l.composer.width == area.width
            &&& l.transcript.y == area.y
            &&& l.composer.y == area.y + l.transcript.height
            &&& l.transcript.height + l.composer.height == area.height
            &&& l.composer.height == min_u16(composer_height, area.height)
        }),
{
}

} // verus!
