//! The mouse cursor: a small picture drawn at a fixed place.

use vstd::prelude::*;
use crate::graphics::painted;
use crate::graphics::showing;
use crate::graphics::Graphics;
use crate::graphics::PixelColor;
use crate::graphics::Screen;

verus! {

/// Rows in the picture of the mouse cursor.
pub const MOUSE_CURSOR_HEIGHT: usize = 24;

/// Column of the screen at which the cursor's left edge is drawn.
pub const MOUSE_CURSOR_X: usize = 200;

/// Row of the screen at which the cursor's top edge is drawn.
pub const MOUSE_CURSOR_Y: usize = 100;

/// The picture of the mouse cursor: `@` is its outline, `.` its inside.
pub const MOUSE_CURSOR_SHAPE: [&'static str; 24] = [
    "@              ",
    "@@             ",
    "@.@            ",
    "@..@           ",
    "@...@          ",
    "@....@         ",
    "@.....@        ",
    "@......@       ",
    "@.......@      ",
    "@........@     ",
    "@.........@    ",
    "@..........@   ",
    "@...........@  ",
    "@............@ ",
    "@......@@@@@@@@",
    "@......@       ",
    "@....@@.@      ",
    "@...@ @.@      ",
    "@..@   @.@     ",
    "@.@    @.@     ",
    "@@      @.@    ",
    "@       @.@    ",
    "         @.@   ",
    "         @@@   ",
];

/// The colour that a character of a picture stands for, if it stands for
/// one: `@` is black, `.` is white.
pub open spec fn ink(c: char) -> Option<PixelColor> {
    if c == '@' {
        Some(PixelColor(0, 0, 0))
    } else if c == '.' {
        Some(PixelColor(255, 255, 255))
    } else {
        None
    }
}

/// The frame buffer after characters `from..` of one row of a picture were
/// drawn, the row's first character at (`x`, `y`).
pub open spec fn picture_row_drawn(
    screen: Screen,
    line: Seq<char>,
    x: int,
    y: int,
    from: int,
) -> Seq<u8>
    decreases line.len() - from,
{
    if from < 0 || from >= line.len() {
        screen.bytes
    } else {
        let next = match ink(line[from]) {
            Some(color) => showing(screen, painted(screen, x + from, y, color)),
            None => screen,
        };
        picture_row_drawn(next, line, x, y, from + 1)
    }
}

/// The frame buffer after rows `from..` of a picture were drawn with the
/// picture's top left corner at (`x`, `y`).
pub open spec fn picture_drawn(
    screen: Screen,
    shape: Seq<&str>,
    x: int,
    y: int,
    from: int,
) -> Seq<u8>
    decreases shape.len() - from,
{
    if from < 0 || from >= shape.len() {
        screen.bytes
    } else {
        picture_drawn(
            showing(screen, picture_row_drawn(screen, shape[from]@, x, y + from, 0)),
            shape,
            x,
            y,
            from + 1,
        )
    }
}

/// Draws a picture with its top left corner at (`x`, `y`).
pub fn draw_shape(graphics: &mut Graphics, shape: &[&str], x: usize, y: usize)
    ensures
        final(graphics)@ == showing(
            old(graphics)@,
            picture_drawn(old(graphics)@, shape@, x as int, y as int, 0),
        ),
{
    let ghost target = picture_drawn(old(graphics)@, shape@, x as int, y as int, 0);
    let rows: usize = shape.len();
    let mut dy: usize = 0;
    while dy < rows
        invariant
            dy <= rows,
            rows == shape@.len(),
            graphics@ == showing(old(graphics)@, graphics@.bytes),
            target == picture_drawn(graphics@, shape@, x as int, y as int, dy as int),
        decreases rows - dy,
    {
        let line: &str = shape[dy];
        let columns: usize = line.unicode_len();
        let ghost row_target = picture_row_drawn(graphics@, line@, x as int, y + dy, 0);
        let mut dx: usize = 0;
        while dx < columns
            invariant
                dx <= columns,
                columns == line@.len(),
                dy < rows,
                graphics@ == showing(old(graphics)@, graphics@.bytes),
                row_target == picture_row_drawn(graphics@, line@, x as int, y + dy, dx as int),
            decreases columns - dx,
        {
            let c = line.get_char(dx);
            match (x.checked_add(dx), y.checked_add(dy)) {
                (Some(px), Some(py)) => {
                    if c == '@' {
                        graphics.write_pixel(px, py, &PixelColor(0, 0, 0));
                    } else if c == '.' {
                        graphics.write_pixel(px, py, &PixelColor(255, 255, 255));
                    }
                },
                _ => {},
            }
            dx += 1;
        }
        dy += 1;
    }
}

/// Draws the mouse cursor at its place.
pub fn draw_mouse_cursor(graphics: &mut Graphics)
    ensures
        final(graphics)@ == showing(
            old(graphics)@,
            picture_drawn(
                old(graphics)@,
                MOUSE_CURSOR_SHAPE@,
                MOUSE_CURSOR_X as int,
                MOUSE_CURSOR_Y as int,
                0,
            ),
        ),
{
    let shape = MOUSE_CURSOR_SHAPE;
    draw_shape(graphics, shape.as_slice(), MOUSE_CURSOR_X, MOUSE_CURSOR_Y);
}

} // verus!
