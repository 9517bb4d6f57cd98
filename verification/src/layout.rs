use vstd::prelude::*;

use crate::rules::{GRID_STEP, SCREEN_HEIGHT, SCREEN_WIDTH};

verus! {

/// `1` for a held key, `0` for a released one.
pub open spec fn held(key: bool) -> int {
    if key {
        1
    } else {
        0
    }
}

/// A held key counts one, a released key nothing.
pub proof fn lemma_held_counts(key: bool)
    ensures
        held(true) == 1,
        held(false) == 0,
        0 <= held(key) <= 1,
{
}

/// The unit step, along each axis, that the held direction keys ask for:
/// right and down count positive, left and up negative, opposite keys
/// cancel.
pub fn move_direction(up: bool, down: bool, left: bool, right: bool) -> (dir: (i32, i32))
    ensures
        dir.0 == held(right) - held(left),
        dir.1 == held(down) - held(up),
{
    let mut dx: i32 = 0;
    let mut dy: i32 = 0;
    if up {
        dy = dy - 1;
    }
    if down {
        dy = dy + 1;
    }
    if left {
        dx = dx - 1;
    }
    if right {
        dx = dx + 1;
    }
    (dx, dy)
}

/// Where text `text_width` pixels wide, in a font `font_size` pixels high,
/// starts so that it stands in the middle of the screen.
pub fn centered_text_origin(text_width: i32, font_size: i32) -> (origin: (i32, i32))
    requires
        i32::MIN <= SCREEN_WIDTH - text_width <= i32::MAX,
        i32::MIN <= SCREEN_HEIGHT - font_size <= i32::MAX,
    ensures
        origin.0 == crate::rules::trunc_div(SCREEN_WIDTH - text_width, 2),
        origin.1 == crate::rules::trunc_div(SCREEN_HEIGHT - font_size, 2),
{
    ((SCREEN_WIDTH - text_width) / 2, (SCREEN_HEIGHT - font_size) / 2)
}

/// The offsets of the background grid lines across an extent of `extent`
/// pixels: every multiple of the grid step from zero up to, not including,
/// `extent`.
pub fn grid_lines(extent: i32) -> (lines: Vec<i32>)
    ensures
        forall|i: int|
            0 <= i < lines@.len() ==> #[trigger] lines@[i] == GRID_STEP * i && lines@[i] < extent,
        GRID_STEP * lines@.len() >= extent,
{
    let mut lines: Vec<i32> = Vec::new();
    let mut x: i64 = 0;
    while x < extent as i64
        invariant
            x == GRID_STEP * lines@.len(),
            0 <= x,
            lines@.len() > 0 ==> x - GRID_STEP < extent,
            extent <= i32::MAX,
            forall|i: int|
                0 <= i < lines@.len() ==> #[trigger] lines@[i] == GRID_STEP * i && lines@[i]
                    < extent,
        decreases extent + GRID_STEP - x,
    {
        lines.push(x as i32);
        x = x + GRID_STEP as i64;
    }
    lines
}

} // verus!
