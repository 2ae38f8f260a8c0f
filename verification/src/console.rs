//! A scrolling text console drawn with the glyph writer.
//!
//! The console remembers what it has written, row by row, in a ring of
//! rows. When the cursor stands in the last row, a line break turns the
//! ring by one row and draws the remembered rows anew, one row higher.

use vstd::prelude::*;
use crate::graphics::ascii_drawn;
use crate::graphics::painted_rows;
use crate::graphics::showing;
use crate::graphics::Graphics;
use crate::graphics::PixelColor;
use crate::graphics::Screen;
use crate::graphics::GLYPHS;
use crate::graphics::GLYPH_HEIGHT;

verus! {

/// Rows of text on the console.
pub const ROWS: usize = 25;

/// Columns of text on the console.
pub const COLUMNS: usize = 80;

/// Characters kept for each row: its columns and one to spare.
pub const ROW_LENGTH: usize = 81;

/// Pixel rows from one row of text to the next.
pub const LINE_HEIGHT: usize = 18;

/// Pixel columns from one character to the next.
pub const CELL_WIDTH: usize = 8;

/// Code of the first character that the console shows.
pub const FIRST_SHOWN: u32 = 0x20;

/// What a [`Console`] holds.
pub struct Text {
    /// The ring of remembered rows.
    pub buffer: Seq<Seq<char>>,
    pub fg_color: PixelColor,
    pub bg_color: PixelColor,
    /// Row of the cursor on the screen.
    pub cursor_row: usize,
    /// Column of the cursor on the screen.
    pub cursor_column: usize,
    /// Place in the ring of the row shown topmost.
    pub buffer_row_offset: usize,
}

/// The cursor lies on the console and the ring has its shape.
pub open spec fn in_shape(text: Text) -> bool {
    &&& text.cursor_row < ROWS
    &&& text.cursor_column <= COLUMNS
    &&& text.buffer_row_offset < ROWS
    &&& text.buffer.len() == ROWS
    &&& forall|row: int| 0 <= row < ROWS ==> (#[trigger] text.buffer[row]).len() == ROW_LENGTH
}

/// Place in the ring of the row shown as row `row`.
pub open spec fn ring_row(text: Text, row: int) -> int {
    (row + text.buffer_row_offset) % (ROWS as int)
}

/// A row with nothing written in it.
pub open spec fn blank_row() -> Seq<char> {
    Seq::new(ROW_LENGTH as nat, |column: int| '\0')
}

/// The frame buffer after columns `from..79` of a remembered row were drawn
/// as row `row` of the screen.
pub open spec fn row_redrawn(
    screen: Screen,
    font: Seq<[u8; GLYPH_HEIGHT]>,
    line: Seq<char>,
    row: int,
    from: int,
    color: PixelColor,
) -> Seq<u8>
    decreases COLUMNS - 1 - from,
{
    if from >= COLUMNS - 1 {
        screen.bytes
    } else {
        row_redrawn(
            showing(
                screen,
                ascii_drawn(screen, font, CELL_WIDTH * from, LINE_HEIGHT * row, line[from], color),
            ),
            font,
            line,
            row,
            from + 1,
            color,
        )
    }
}

/// The frame buffer after rows `from..24` of the console were drawn from
/// what is remembered of them.
pub open spec fn rows_redrawn(
    screen: Screen,
    font: Seq<[u8; GLYPH_HEIGHT]>,
    text: Text,
    from: int,
) -> Seq<u8>
    decreases ROWS - 1 - from,
{
    if from >= ROWS - 1 {
        screen.bytes
    } else {
        rows_redrawn(
            showing(
                screen,
                row_redrawn(
                    screen,
                    font,
                    text.buffer[ring_row(text, from)],
                    from,
                    0,
                    text.fg_color,
                ),
            ),
            font,
            text,
            from + 1,
        )
    }
}

/// Console and frame buffer after a line break. Above the last row the
/// cursor moves to the start of the next row and nothing is drawn. In the
/// last row the console scrolls: its area is painted in the background
/// colour, the ring turns by one row, the rows above the last are drawn
/// anew, and the row that the cursor is in is forgotten.
pub open spec fn line_broken(text: Text, screen: Screen, font: Seq<[u8; GLYPH_HEIGHT]>) -> (
    Text,
    Seq<u8>,
) {
    if text.cursor_row < ROWS - 1 {
        (
            Text { cursor_column: 0, cursor_row: (text.cursor_row + 1) as usize, ..text },
            screen.bytes,
        )
    } else {
        let cleared = showing(
            screen,
            painted_rows(
                screen,
                (COLUMNS * CELL_WIDTH) as int,
                0,
                (ROWS * LINE_HEIGHT) as int,
                text.bg_color,
            ),
        );
        let turned = Text {
            cursor_column: 0,
            buffer_row_offset: ((text.buffer_row_offset + 1) % (ROWS as int)) as usize,
            ..text
        };
        (
            Text {
                buffer: turned.buffer.update(
                    ring_row(turned, turned.cursor_row as int),
                    blank_row(),
                ),
                ..turned
            },
            rows_redrawn(cleared, font, turned, 0),
        )
    }
}

/// Console and frame buffer after one character was put. A line feed breaks
/// the line. A character from the space on is drawn at the cursor and
/// remembered, and the cursor moves one column on, unless the row is full.
pub open spec fn char_put(text: Text, screen: Screen, font: Seq<[u8; GLYPH_HEIGHT]>, c: char) -> (
    Text,
    Seq<u8>,
) {
    let (broken, bytes) = if c == '\n' {
        line_broken(text, screen, font)
    } else {
        (text, screen.bytes)
    };
    if broken.cursor_column < COLUMNS && c as u32 >= FIRST_SHOWN {
        let row = ring_row(broken, broken.cursor_row as int);
        (
            Text {
                buffer: broken.buffer.update(
                    row,
                    broken.buffer[row].update(broken.cursor_column as int, c),
                ),
                cursor_column: (broken.cursor_column + 1) as usize,
                ..broken
            },
            ascii_drawn(
                showing(screen, bytes),
                font,
                CELL_WIDTH * broken.cursor_column,
                LINE_HEIGHT * broken.cursor_row,
                c,
                broken.fg_color,
            ),
        )
    } else {
        (broken, bytes)
    }
}

/// Console and frame buffer after characters `from..` of `s` were put.
pub open spec fn string_put(
    text: Text,
    screen: Screen,
    font: Seq<[u8; GLYPH_HEIGHT]>,
    s: Seq<char>,
    from: int,
) -> (Text, Seq<u8>)
    decreases s.len() - from,
{
    if from < 0 || from >= s.len() {
        (text, screen.bytes)
    } else {
        let (after, bytes) = char_put(text, screen, font, s[from]);
        string_put(after, showing(screen, bytes), font, s, from + 1)
    }
}

/// A console of [`ROWS`] rows of [`COLUMNS`] characters.
#[derive(Debug, Copy, Clone)]
pub struct Console {
    buffer: [[char; ROW_LENGTH]; ROWS],
    fg_color: PixelColor,
    bg_color: PixelColor,
    cursor_row: usize,
    cursor_column: usize,
    buffer_row_offset: usize,
}

impl View for Console {
    type V = Text;

    closed spec fn view(&self) -> Text {
        Text {
            buffer: Seq::new(ROWS as nat, |row: int| self.buffer@[row]@),
            fg_color: self.fg_color,
            bg_color: self.bg_color,
            cursor_row: self.cursor_row,
            cursor_column: self.cursor_column,
            buffer_row_offset: self.buffer_row_offset,
        }
    }
}

impl Console {
    #[verifier::type_invariant]
    spec fn cursor_on_console(self) -> bool {
        &&& self.cursor_row < ROWS
        &&& self.cursor_column <= COLUMNS
        &&& self.buffer_row_offset < ROWS
    }

    /// An empty console with the cursor in its top left corner.
    pub fn new(fg_color: &PixelColor, bg_color: &PixelColor) -> (console: Self)
        ensures
            in_shape(console@),
            console@ == (Text {
                buffer: Seq::new(ROWS as nat, |row: int| blank_row()),
                fg_color: *fg_color,
                bg_color: *bg_color,
                cursor_row: 0,
                cursor_column: 0,
                buffer_row_offset: 0,
            }),
    {
        let console = Console {
            buffer: [['\0';ROW_LENGTH];ROWS],
            fg_color: *fg_color,
            bg_color: *bg_color,
            cursor_row: 0,
            cursor_column: 0,
            buffer_row_offset: 0,
        };
        proof {
            assert forall|row: int| 0 <= row < ROWS implies (#[trigger] console@.buffer[row])
                == blank_row() by {
                assert(console.buffer@[row]@ =~= blank_row());
            }
            assert(console@.buffer =~= Seq::new(ROWS as nat, |row: int| blank_row()));
        }
        console
    }

    /// Place in the ring of the row shown as row `row`.
    pub fn actual_row(&self, row: usize) -> (place: usize)
        ensures
            place == ring_row(self@, row as int),
            place < ROWS,
    {
        proof {
            use_type_invariant(self);
        }
        (row % ROWS + self.buffer_row_offset) % ROWS
    }

    /// Place in the ring of the row that the cursor is in.
    pub fn actual_cursor_row(&self) -> (place: usize)
        ensures
            place == ring_row(self@, self@.cursor_row as int),
            place < ROWS,
    {
        self.actual_row(self.cursor_row)
    }

    /// Row and column of the cursor; both lie on the console.
    pub fn cursor(&self) -> (at: (usize, usize))
        ensures
            at == (self@.cursor_row, self@.cursor_column),
            in_shape(self@),
    {
        proof {
            use_type_invariant(self);
        }
        (self.cursor_row, self.cursor_column)
    }

    /// Breaks the line. See [`line_broken`].
    pub fn newline(&mut self, graphics: &mut Graphics, font: &[[u8; GLYPH_HEIGHT]; GLYPHS])
        ensures
            (final(self)@, final(graphics)@.bytes) == line_broken(
                old(self)@,
                old(graphics)@,
                font@,
            ),
            final(graphics)@ == showing(old(graphics)@, final(graphics)@.bytes),
            in_shape(final(self)@),
    {
        proof {
            use_type_invariant(&*self);
        }
        self.cursor_column = 0;
        if self.cursor_row < ROWS - 1 {
            self.cursor_row += 1;
            proof {
                assert(self@.buffer =~= old(self)@.buffer);
            }
        } else {
            let bg_color = self.bg_color;
            let fg_color = self.fg_color;
            graphics.fill(COLUMNS * CELL_WIDTH, ROWS * LINE_HEIGHT, &bg_color);
            self.buffer_row_offset = (self.buffer_row_offset + 1) % ROWS;
            let ghost turned = self@;
            let ghost cleared = graphics@;
            let ghost target = rows_redrawn(cleared, font@, turned, 0);
            proof {
                assert(turned.buffer =~= old(self)@.buffer);
            }
            let mut row: usize = 0;
            while row < ROWS - 1
                invariant
                    row <= ROWS - 1,
                    self@ == turned,
                    fg_color == turned.fg_color,
                    self.buffer_row_offset < ROWS,
                    graphics@ == showing(old(graphics)@, graphics@.bytes),
                    target == rows_redrawn(graphics@, font@, turned, row as int),
                decreases ROWS - 1 - row,
            {
                let place: usize = self.actual_row(row);
                let line: [char; ROW_LENGTH] = self.buffer[place];
                proof {
                    assert(turned.buffer[ring_row(turned, row as int)] == line@);
                }
                let ghost row_target = row_redrawn(
                    graphics@,
                    font@,
                    line@,
                    row as int,
                    0,
                    fg_color,
                );
                let mut column: usize = 0;
                while column < COLUMNS - 1
                    invariant
                        column <= COLUMNS - 1,
                        row < ROWS - 1,
                        graphics@ == showing(old(graphics)@, graphics@.bytes),
                        row_target == row_redrawn(
                            graphics@,
                            font@,
                            line@,
                            row as int,
                            column as int,
                            fg_color,
                        ),
                    decreases COLUMNS - 1 - column,
                {
                    graphics.write_ascii(
                        font,
                        CELL_WIDTH * column,
                        LINE_HEIGHT * row,
                        line[column],
                        &fg_color,
                    );
                    column += 1;
                }
                row += 1;
            }
            let cursor: usize = self.actual_cursor_row();
            self.buffer[cursor] = ['\0';ROW_LENGTH];
            proof {
                assert(self.buffer@[cursor as int]@ =~= blank_row());
                assert(self@.buffer =~= turned.buffer.update(cursor as int, blank_row()));
            }
        }
        proof {
            use_type_invariant(&*self);
        }
    }

    /// Puts a string on the console, character by character. See
    /// [`char_put`].
    pub fn put_string(
        &mut self,
        graphics: &mut Graphics,
        font: &[[u8; GLYPH_HEIGHT]; GLYPHS],
        s: &str,
    )
        ensures
            (final(self)@, final(graphics)@.bytes) == string_put(
                old(self)@,
                old(graphics)@,
                font@,
                s@,
                0,
            ),
            final(graphics)@ == showing(old(graphics)@, final(graphics)@.bytes),
            in_shape(final(self)@),
    {
        let count: usize = s.unicode_len();
        let ghost target = string_put(old(self)@, old(graphics)@, font@, s@, 0);
        let mut index: usize = 0;
        while index < count
            invariant
                index <= count,
                count == s@.len(),
                graphics@ == showing(old(graphics)@, graphics@.bytes),
                target == string_put(self@, graphics@, font@, s@, index as int),
            decreases count - index,
        {
            let c = s.get_char(index);
            let ghost before = self@;
            let ghost shown = graphics@;
            if c == '\n' {
                self.newline(graphics, font);
            }
            proof {
                use_type_invariant(&*self);
            }
            let ghost broken = self@;
            if self.cursor_column < COLUMNS && c as u32 >= FIRST_SHOWN {
                graphics.write_ascii(
                    font,
                    CELL_WIDTH * self.cursor_column,
                    LINE_HEIGHT * self.cursor_row,
                    c,
                    &self.fg_color,
                );
                let place: usize = self.actual_cursor_row();
                let mut line: [char; ROW_LENGTH] = self.buffer[place];
                line[self.cursor_column] = c;
                self.buffer[place] = line;
                self.cursor_column += 1;
                proof {
                    assert(self@.buffer =~= broken.buffer.update(
                        place as int,
                        broken.buffer[place as int].update(broken.cursor_column as int, c),
                    ));
                }
            }
            proof {
                assert((self@, graphics@.bytes) == char_put(before, shown, font@, c));
            }
            index += 1;
        }
        proof {
            use_type_invariant(&*self);
        }
    }
}

} // verus!
