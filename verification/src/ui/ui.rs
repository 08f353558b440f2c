//! Layout rules of the screens that do not depend on the drawing library.
use vstd::prelude::*;

verus! {

/// The width of the error toast, in cells.
pub const TOAST_WIDTH: u16 = 40;

/// The height of the error toast, in cells.
pub const TOAST_HEIGHT: u16 = 3;

/// Where the error toast is drawn: a cell rectangle.
#[derive(Debug, Clone, Copy, PartialEq, Eq, Structural)]
pub struct ToastArea {
    pub x: u16,
    pub y: u16,
    pub width: u16,
    pub height: u16,
}

/// The error toast's place on a screen `area_width` cells wide: in the top
/// right corner, as wide as the toast or the screen, whichever is narrower.
pub fn toast_area(area_width: u16) -> (r: ToastArea)
    ensures
        r.x == (if area_width >= TOAST_WIDTH {
            area_width - TOAST_WIDTH
        } else {
            0
        }),
        r.y == 0,
        r.width == (if area_width < TOAST_WIDTH {
            area_width
        } else {
            TOAST_WIDTH
        }),
        r.height == TOAST_HEIGHT,
{
    let width = if area_width < TOAST_WIDTH {
        area_width
    } else {
        TOAST_WIDTH
    };
    ToastArea { x: area_width.saturating_sub(TOAST_WIDTH), y: 0, width, height: TOAST_HEIGHT }
}

/// The toast never reaches past the right edge of the screen.
pub proof fn law_toast_inside(area_width: u16)
    ensures
        ({
            let x: int = if area_width >= TOAST_WIDTH {
                area_width - TOAST_WIDTH
            } else {
                0
            };
            let w: int = if area_width < TOAST_WIDTH {
                area_width as int
            } else {
                TOAST_WIDTH as int
            };
            x + w <= area_width
        }),
{
}

} // verus!
