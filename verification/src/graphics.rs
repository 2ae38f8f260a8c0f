//! Drawing into a frame buffer: pixels, glyphs and text.
//!
//! The frame buffer is held as bytes. Every pixel takes four of them, of
//! which the first three carry the colour; a row takes `stride` pixels. A
//! write that would fall outside the buffer is dropped.

use vstd::prelude::*;

verus! {

/// Bytes that one pixel takes in the frame buffer.
pub const BYTES_PER_PIXEL: usize = 4;

/// Rows in a glyph.
pub const GLYPH_HEIGHT: usize = 16;

/// Columns in a glyph.
pub const GLYPH_WIDTH: usize = 8;

/// Glyphs in a font: one for each ASCII code.
pub const GLYPHS: usize = 128;

/// Columns by which text advances per character.
pub const ADVANCE: usize = 8;

/// Rows by which text written with `write_string` advances per line.
pub const LINE_FEED: usize = 20;

/// How a pixel's colour is laid out in memory.
#[derive(Debug, Copy, Clone, PartialEq, Eq, Structural)]
pub enum PixelFormat {
    Rgb,
    Bgr,
    Bitmask,
    BltOnly,
}

/// Which bits of a pixel carry which colour, for the `Bitmask` format.
#[derive(Debug, Copy, Clone, PartialEq, Eq, Structural)]
pub struct PixelBitmask {
    pub red: u32,
    pub green: u32,
    pub blue: u32,
    pub reserved: u32,
}

/// The display mode.
#[derive(Debug, Copy, Clone, PartialEq, Eq, Structural)]
pub struct ModeInfo {
    pub version: u32,
    pub hor_res: u32,
    pub ver_res: u32,
    pub format: PixelFormat,
    pub mask: PixelBitmask,
    pub stride: u32,
}

impl ModeInfo {
    /// Width and height of the display in pixels.
    pub fn resolution(&self) -> (size: (usize, usize))
        ensures
            size == (self.hor_res as usize, self.ver_res as usize),
    {
        (self.hor_res as usize, self.ver_res as usize)
    }
}

/// A colour: red, green, blue.
#[derive(Debug, Copy, Clone, PartialEq, Eq, Structural)]
pub struct PixelColor(pub u8, pub u8, pub u8);

/// The bytes of the frame buffer.
pub struct FrameBuffer {
    bytes: Vec<u8>,
}

impl View for FrameBuffer {
    type V = Seq<u8>;

    closed spec fn view(&self) -> Seq<u8> {
        self.bytes@
    }
}

impl FrameBuffer {
    /// A frame buffer holding `bytes`.
    pub fn new(bytes: Vec<u8>) -> (fb: Self)
        ensures
            fb@ == bytes@,
    {
        FrameBuffer { bytes }
    }

    /// Number of bytes in the frame buffer.
    pub fn size(&self) -> (size: usize)
        ensures
            size == self@.len(),
    {
        self.bytes.len()
    }

    /// The bytes, first row first.
    pub fn as_slice(&self) -> (bytes: &[u8])
        ensures
            bytes@ == self@,
    {
        self.bytes.as_slice()
    }

    /// Writes the `index`-th byte of the frame buffer.
    pub fn write_byte(&mut self, index: usize, val: u8)
        requires
            index < old(self)@.len(),
        ensures
            final(self)@ == old(self)@.update(index as int, val),
    {
        self.bytes[index] = val;
    }

    /// Writes three bytes of the frame buffer, from the `index`-th on.
    pub fn write_value(&mut self, index: usize, value: [u8; 3])
        requires
            index + 3 <= old(self)@.len(),
        ensures
            final(self)@ == old(self)@.update(index as int, value[0]).update(
                index + 1,
                value[1],
            ).update(index + 2, value[2]),
    {
        let size: usize = self.bytes.len();
        self.bytes[index] = value[0];
        self.bytes[index + 1] = value[1];
        self.bytes[index + 2] = value[2];
    }
}

/// The three colour bytes of a pixel in memory order. Formats other than
/// `Bgr` are written red first.
pub open spec fn colour_bytes(format: PixelFormat, color: PixelColor) -> Seq<u8> {
    if format == PixelFormat::Bgr {
        seq![color.2, color.1, color.0]
    } else {
        seq![color.0, color.1, color.2]
    }
}

/// Index of the first byte of the pixel in column `x` of row `y`.
pub open spec fn pixel_offset(stride: u32, x: int, y: int) -> int {
    BYTES_PER_PIXEL * (y * stride + x)
}

/// The frame buffer with the pixel in column `x` of row `y` set to `color`,
/// or unchanged if that pixel does not lie within it.
pub open spec fn plotted(
    bytes: Seq<u8>,
    stride: u32,
    format: PixelFormat,
    x: int,
    y: int,
    color: PixelColor,
) -> Seq<u8> {
    let base = pixel_offset(stride, x, y);
    let value = colour_bytes(format, color);
    if 0 <= base && base + 3 <= bytes.len() {
        bytes.update(base, value[0]).update(base + 1, value[1]).update(base + 2, value[2])
    } else {
        bytes
    }
}

/// What a [`Graphics`] holds.
pub struct Screen {
    pub bytes: Seq<u8>,
    pub mi: ModeInfo,
    /// The display is mounted on its side.
    pub rotated: bool,
    /// Every pixel drawn covers two by two pixels of the display.
    pub double_scaled: bool,
}

/// Width and height of the drawing area: the display's, swapped if it is
/// mounted on its side, halved if pixels are doubled.
pub open spec fn drawing_area(screen: Screen) -> (int, int) {
    let across = if screen.rotated {
        screen.mi.ver_res as int
    } else {
        screen.mi.hor_res as int
    };
    let down = if screen.rotated {
        screen.mi.hor_res as int
    } else {
        screen.mi.ver_res as int
    };
    if screen.double_scaled {
        (across / 2, down / 2)
    } else {
        (across, down)
    }
}

/// The frame buffer after the pixel at (`x`, `y`) of the drawing area was
/// painted. A pixel beyond the area's width or height is not painted. On a
/// display mounted on its side the pixel lands in column `height - y` of row
/// `x`; with doubled pixels it covers the two by two pixels at twice its
/// coordinates.
pub open spec fn painted(screen: Screen, x: int, y: int, color: PixelColor) -> Seq<u8> {
    let (width, height) = drawing_area(screen);
    if x < 0 || y < 0 || x > width || y > height {
        screen.bytes
    } else {
        let column = if screen.rotated {
            height - y
        } else {
            x
        };
        let row = if screen.rotated {
            x
        } else {
            y
        };
        let stride = screen.mi.stride;
        let format = screen.mi.format;
        if screen.double_scaled {
            let first = plotted(screen.bytes, stride, format, 2 * column, 2 * row, color);
            let second = plotted(first, stride, format, 2 * column + 1, 2 * row, color);
            let third = plotted(second, stride, format, 2 * column, 2 * row + 1, color);
            plotted(third, stride, format, 2 * column + 1, 2 * row + 1, color)
        } else {
            plotted(screen.bytes, stride, format, column, row, color)
        }
    }
}

/// The screen with other bytes in its frame buffer.
pub open spec fn showing(screen: Screen, bytes: Seq<u8>) -> Screen {
    Screen { bytes, ..screen }
}

/// The frame buffer after pixels `from..to` of row `y` were painted, left to
/// right.
pub open spec fn painted_row(
    screen: Screen,
    y: int,
    from: int,
    to: int,
    color: PixelColor,
) -> Seq<u8>
    decreases to - from,
{
    if from >= to {
        screen.bytes
    } else {
        painted_row(showing(screen, painted(screen, from, y, color)), y, from + 1, to, color)
    }
}

/// The frame buffer after the first `width` pixels of rows `from..to` were
/// painted, top to bottom.
pub open spec fn painted_rows(
    screen: Screen,
    width: int,
    from: int,
    to: int,
    color: PixelColor,
) -> Seq<u8>
    decreases to - from,
{
    if from >= to {
        screen.bytes
    } else {
        painted_rows(
            showing(screen, painted_row(screen, from, 0, width, color)),
            width,
            from + 1,
            to,
            color,
        )
    }
}

/// Whether column `dx` of a glyph row is inked: the row's most significant
/// bit is its leftmost column.
pub open spec fn inked(line: u8, dx: int) -> bool {
    (line << dx) & 0x80 != 0
}

/// The frame buffer after columns `from..8` of one glyph row were drawn
/// with the glyph's left edge at `x`.
pub open spec fn line_drawn(
    screen: Screen,
    line: u8,
    x: int,
    y: int,
    from: int,
    color: PixelColor,
) -> Seq<u8>
    decreases GLYPH_WIDTH - from,
{
    if from >= GLYPH_WIDTH {
        screen.bytes
    } else {
        let next = if inked(line, from) {
            showing(screen, painted(screen, x + from, y, color))
        } else {
            screen
        };
        line_drawn(next, line, x, y, from + 1, color)
    }
}

/// The frame buffer after rows `from..16` of a glyph were drawn with the
/// glyph's top left corner at (`x`, `y`).
pub open spec fn glyph_drawn(
    screen: Screen,
    glyph: Seq<u8>,
    x: int,
    y: int,
    from: int,
    color: PixelColor,
) -> Seq<u8>
    decreases GLYPH_HEIGHT - from,
{
    if from >= GLYPH_HEIGHT {
        screen.bytes
    } else {
        glyph_drawn(
            showing(screen, line_drawn(screen, glyph[from], x, y + from, 0, color)),
            glyph,
            x,
            y,
            from + 1,
            color,
        )
    }
}

/// The frame buffer after character `c` was drawn at (`x`, `y`). Only ASCII
/// characters have a glyph; others draw nothing.
pub open spec fn ascii_drawn(
    screen: Screen,
    font: Seq<[u8; GLYPH_HEIGHT]>,
    x: int,
    y: int,
    c: char,
    color: PixelColor,
) -> Seq<u8> {
    if c as u32 > 0x7f {
        screen.bytes
    } else {
        glyph_drawn(screen, font[c as u32 as int]@, x, y, 0, color)
    }
}

/// Where text continues after a character was written at (`x`, `y`): eight
/// columns on, or, if that is beyond the drawing area, at column `first_x`
/// of the line twenty rows down.
pub open spec fn advanced(screen: Screen, first_x: int, x: int, y: int) -> (int, int) {
    if x + ADVANCE > drawing_area(screen).0 {
        (
            first_x,
            if y + LINE_FEED > usize::MAX {
                usize::MAX as int
            } else {
                y + LINE_FEED
            },
        )
    } else {
        (x + ADVANCE, y)
    }
}

/// The frame buffer after characters `from..` of `text` were written from
/// (`x`, `y`) on, and where text would continue. Writing stops with the
/// first character after which the text has left the drawing area
/// downwards.
pub open spec fn text_written(
    screen: Screen,
    font: Seq<[u8; GLYPH_HEIGHT]>,
    text: Seq<char>,
    from: int,
    first_x: int,
    x: int,
    y: int,
    color: PixelColor,
) -> (Seq<u8>, int, int)
    decreases text.len() - from,
{
    if from < 0 || from >= text.len() {
        (screen.bytes, x, y)
    } else {
        let drawn = showing(screen, ascii_drawn(screen, font, x, y, text[from], color));
        let (next_x, next_y) = advanced(screen, first_x, x, y);
        if next_y > drawing_area(screen).1 {
            (drawn.bytes, next_x, next_y)
        } else {
            text_written(drawn, font, text, from + 1, first_x, next_x, next_y, color)
        }
    }
}

/// A frame buffer together with what is needed to draw into it.
pub struct Graphics {
    fb: FrameBuffer,
    mi: ModeInfo,
    rotated: bool,
    double_scaled: bool,
}

impl View for Graphics {
    type V = Screen;

    closed spec fn view(&self) -> Screen {
        Screen {
            bytes: self.fb@,
            mi: self.mi,
            rotated: self.rotated,
            double_scaled: self.double_scaled,
        }
    }
}

impl Graphics {
    /// Prepares drawing into `fb` in mode `mi`. A display of 1200 by 1920
    /// pixels is taken to be mounted on its side and is drawn with doubled
    /// pixels.
    pub fn new(fb: FrameBuffer, mi: ModeInfo) -> (graphics: Self)
        requires
            mi.format == PixelFormat::Rgb || mi.format == PixelFormat::Bgr,
        ensures
            graphics@ == (Screen {
                bytes: fb@,
                mi,
                rotated: mi.hor_res == 1200 && mi.ver_res == 1920,
                double_scaled: mi.hor_res == 1200 && mi.ver_res == 1920,
            }),
    {
        let (width, height) = mi.resolution();
        let rotated = width == 1200 && height == 1920;
        let double_scaled = width == 1200 && height == 1920;
        Graphics { fb, mi, rotated, double_scaled }
    }

    /// Width and height of the drawing area.
    pub fn resolution(&self) -> (size: (usize, usize))
        ensures
            (size.0 as int, size.1 as int) == drawing_area(self@),
    {
        let r = self.mi.resolution();
        let r = if self.rotated {
            (r.1, r.0)
        } else {
            r
        };
        if self.double_scaled {
            (r.0 / 2, r.1 / 2)
        } else {
            r
        }
    }

    /// The frame buffer.
    pub fn fb(&self) -> (fb: &FrameBuffer)
        ensures
            fb@ == self@.bytes,
    {
        &self.fb
    }

    /// The display mode.
    pub fn mi(&self) -> (mi: ModeInfo)
        ensures
            mi == self@.mi,
    {
        self.mi
    }

    /// Sets the pixel in column `x` of row `y` of the display, if it lies
    /// within the frame buffer.
    pub fn write_actual_pixel(&mut self, x: usize, y: usize, color: &PixelColor)
        ensures
            final(self)@ == showing(
                old(self)@,
                plotted(
                    old(self)@.bytes,
                    old(self)@.mi.stride,
                    old(self)@.mi.format,
                    x as int,
                    y as int,
                    *color,
                ),
            ),
    {
        let size: usize = self.fb.size();
        let rows = match y.checked_mul(self.mi.stride as usize) {
            Some(rows) => rows,
            None => {
                return ;
            },
        };
        let pixel_index = match rows.checked_add(x) {
            Some(pixel_index) => pixel_index,
            None => {
                return ;
            },
        };
        let base = match pixel_index.checked_mul(BYTES_PER_PIXEL) {
            Some(base) => base,
            None => {
                return ;
            },
        };
        if size < 3 || base > size - 3 {
            return ;
        }
        let value: [u8; 3] = match self.mi.format {
            PixelFormat::Bgr => [color.2, color.1, color.0],
            _ => [color.0, color.1, color.2],
        };
        self.fb.write_value(base, value);
    }

    /// Paints the pixel at (`x`, `y`) of the drawing area.
    pub fn write_pixel(&mut self, x: usize, y: usize, color: &PixelColor)
        ensures
            final(self)@ == showing(old(self)@, painted(old(self)@, x as int, y as int, *color)),
    {
        let (width, height) = self.resolution();
        if x > width {
            return ;
        }
        if y > height {
            return ;
        }
        let mut column: usize = x;
        let mut row: usize = y;
        if self.rotated {
            column = height - y;
            row = x;
        }
        if self.double_scaled {
            column = column * 2;
            row = row * 2;
            self.write_actual_pixel(column, row, color);
            self.write_actual_pixel(column + 1, row, color);
            self.write_actual_pixel(column, row + 1, color);
            self.write_actual_pixel(column + 1, row + 1, color);
        } else {
            self.write_actual_pixel(column, row, color);
        }
    }

    /// A writer that starts at (`first_x`, `first_y`).
    pub fn text_writer(
        &self,
        first_x: usize,
        first_y: usize,
        color: &PixelColor,
    ) -> (writer: TextWriter)
        ensures
            writer@ == (Pen { first_x, first_y, x: first_x, y: first_y, color: *color }),
    {
        TextWriter::new(first_x, first_y, color)
    }

    /// Draws character `c` in `color` with the top left corner of its glyph
    /// at (`x`, `y`). Characters beyond ASCII are not drawn.
    pub fn write_ascii(
        &mut self,
        font: &[[u8; GLYPH_HEIGHT]; GLYPHS],
        x: usize,
        y: usize,
        c: char,
        color: &PixelColor,
    )
        ensures
            final(self)@ == showing(
                old(self)@,
                ascii_drawn(old(self)@, font@, x as int, y as int, c, *color),
            ),
    {
        if (c as u32) > 0x7f {
            return ;
        }
        let glyph: [u8; GLYPH_HEIGHT] = font[c as usize];
        let ghost target = glyph_drawn(old(self)@, glyph@, x as int, y as int, 0, *color);
        let mut dy: usize = 0;
        while dy < GLYPH_HEIGHT
            invariant
                dy <= GLYPH_HEIGHT,
                self@ == showing(old(self)@, self@.bytes),
                target == glyph_drawn(self@, glyph@, x as int, y as int, dy as int, *color),
            decreases GLYPH_HEIGHT - dy,
        {
            let line: u8 = glyph[dy];
            let ghost row_target = line_drawn(self@, line, x as int, y + dy, 0, *color);
            let mut dx: usize = 0;
            while dx < GLYPH_WIDTH
                invariant
                    dx <= GLYPH_WIDTH,
                    dy < GLYPH_HEIGHT,
                    self@ == showing(old(self)@, self@.bytes),
                    row_target == line_drawn(self@, line, x as int, y + dy, dx as int, *color),
                decreases GLYPH_WIDTH - dx,
            {
                if (line << dx) & 0x80 != 0 {
                    match (x.checked_add(dx), y.checked_add(dy)) {
                        (Some(px), Some(py)) => {
                            self.write_pixel(px, py, color);
                        },
                        _ => {},
                    }
                }
                dx += 1;
            }
            dy += 1;
        }
    }

    /// Writes `str` from (`x`, `y`) on and returns where text would
    /// continue. See [`text_written`].
    pub fn write_string(
        &mut self,
        font: &[[u8; GLYPH_HEIGHT]; GLYPHS],
        x: usize,
        y: usize,
        str: &str,
        color: &PixelColor,
    ) -> (end: (usize, usize))
        ensures
            (final(self)@.bytes, end.0 as int, end.1 as int) == text_written(
                old(self)@,
                font@,
                str@,
                0,
                x as int,
                x as int,
                y as int,
                *color,
            ),
            final(self)@ == showing(old(self)@, final(self)@.bytes),
    {
        let mut column: usize = x;
        let mut row: usize = y;
        let (width, height) = self.resolution();
        let count: usize = str.unicode_len();
        let ghost target = text_written(
            old(self)@,
            font@,
            str@,
            0,
            x as int,
            x as int,
            y as int,
            *color,
        );
        let mut index: usize = 0;
        while index < count
            invariant
                index <= count,
                count == str@.len(),
                (width as int, height as int) == drawing_area(self@),
                self@ == showing(old(self)@, self@.bytes),
                target == text_written(
                    old(self)@,
                    font@,
                    str@,
                    0,
                    x as int,
                    x as int,
                    y as int,
                    *color,
                ),
                target == text_written(
                    self@,
                    font@,
                    str@,
                    index as int,
                    x as int,
                    column as int,
                    row as int,
                    *color,
                ),
            decreases count - index,
        {
            let c = str.get_char(index);
            self.write_ascii(font, column, row, c, color);
            let fits = match column.checked_add(ADVANCE) {
                Some(next) => next <= width,
                None => false,
            };
            if fits {
                column = column + ADVANCE;
            } else {
                column = x;
                row = row.saturating_add(LINE_FEED);
            }
            if row > height {
                return (column, row);
            }
            index += 1;
        }
        (column, row)
    }

    /// Paints the whole drawing area in one colour, row by row.
    pub fn clear(&mut self, color: &PixelColor)
        ensures
            final(self)@ == showing(
                old(self)@,
                painted_rows(
                    old(self)@,
                    drawing_area(old(self)@).0,
                    0,
                    drawing_area(old(self)@).1,
                    *color,
                ),
            ),
    {
        let (width, height) = self.resolution();
        self.fill(width, height, color);
    }

    /// Paints the first `width` pixels of the first `height` rows of the
    /// drawing area in one colour, row by row.
    pub fn fill(&mut self, width: usize, height: usize, color: &PixelColor)
        ensures
            final(self)@ == showing(
                old(self)@,
                painted_rows(old(self)@, width as int, 0, height as int, *color),
            ),
    {
        let ghost target = painted_rows(old(self)@, width as int, 0, height as int, *color);
        let mut y: usize = 0;
        while y < height
            invariant
                y <= height,
                self@ == showing(old(self)@, self@.bytes),
                target == painted_rows(self@, width as int, y as int, height as int, *color),
            decreases height - y,
        {
            let ghost row_target = painted_row(self@, y as int, 0, width as int, *color);
            let mut x: usize = 0;
            while x < width
                invariant
                    x <= width,
                    y < height,
                    self@ == showing(old(self)@, self@.bytes),
                    row_target == painted_row(self@, y as int, x as int, width as int, *color),
                decreases width - x,
            {
                self.write_pixel(x, y, color);
                x += 1;
            }
            y += 1;
        }
    }
}

/// What a [`TextWriter`] holds.
pub struct Pen {
    /// Where the writer started.
    pub first_x: usize,
    pub first_y: usize,
    /// Where the next string is written.
    pub x: usize,
    pub y: usize,
    pub color: PixelColor,
}

/// A place on the screen at which text is written, one string after the
/// other.
pub struct TextWriter {
    first_x: usize,
    first_y: usize,
    x: usize,
    y: usize,
    color: PixelColor,
}

impl View for TextWriter {
    type V = Pen;

    closed spec fn view(&self) -> Pen {
        Pen {
            first_x: self.first_x,
            first_y: self.first_y,
            x: self.x,
            y: self.y,
            color: self.color,
        }
    }
}

impl TextWriter {
    /// A writer that starts at (`first_x`, `first_y`).
    pub fn new(first_x: usize, first_y: usize, color: &PixelColor) -> (writer: Self)
        ensures
            writer@ == (Pen { first_x, first_y, x: first_x, y: first_y, color: *color }),
    {
        TextWriter { first_x, first_y, x: first_x, y: first_y, color: *color }
    }

    /// Goes back to where the writer started.
    pub fn reset_coord(&mut self)
        ensures
            final(self)@ == (Pen { x: old(self)@.first_x, y: old(self)@.first_y, ..old(self)@ }),
    {
        self.x = self.first_x;
        self.y = self.first_y;
    }

    /// Writes in another colour from now on.
    pub fn change_color(&mut self, color: &PixelColor)
        ensures
            final(self)@ == (Pen { color: *color, ..old(self)@ }),
    {
        self.color = *color;
    }

    /// Writes `s` where the last string ended, wrapping to the column of the
    /// writer's start.
    pub fn write_str(
        &mut self,
        graphics: &mut Graphics,
        font: &[[u8; GLYPH_HEIGHT]; GLYPHS],
        s: &str,
    )
        ensures
            (final(graphics)@.bytes, final(self)@.x as int, final(self)@.y as int) == text_written(
                old(graphics)@,
                font@,
                s@,
                0,
                old(self)@.x as int,
                old(self)@.x as int,
                old(self)@.y as int,
                old(self)@.color,
            ),
            final(graphics)@ == showing(old(graphics)@, final(graphics)@.bytes),
            final(self)@ == (Pen { x: final(self)@.x, y: final(self)@.y, ..old(self)@ }),
    {
        let (x, y) = graphics.write_string(font, self.x, self.y, s, &self.color);
        self.x = x;
        self.y = y;
    }
}

/// Setting a pixel changes the three colour bytes of that pixel and nothing
/// else: the frame buffer keeps its length, the pixel shows the colour in
/// the order of the format, and every other byte is as it was.
pub proof fn lemma_plotted_changes_one_pixel(
    bytes: Seq<u8>,
    stride: u32,
    format: PixelFormat,
    x: int,
    y: int,
    color: PixelColor,
    other: int,
)
    requires
        0 <= x,
        0 <= y,
        0 <= other < bytes.len(),
    ensures
        plotted(bytes, stride, format, x, y, color).len() == bytes.len(),
        pixel_offset(stride, x, y) + 3 <= bytes.len() ==> plotted(
            bytes,
            stride,
            format,
            x,
            y,
            color,
        ).subrange(pixel_offset(stride, x, y), pixel_offset(stride, x, y) + 3) == colour_bytes(
            format,
            color,
        ),
        !(pixel_offset(stride, x, y) <= other < pixel_offset(stride, x, y) + 3) ==> plotted(
            bytes,
            stride,
            format,
            x,
            y,
            color,
        )[other] == bytes[other],
{
    let base = pixel_offset(stride, x, y);
    assert(0 <= y * stride) by (nonlinear_arith)
        requires
            0 <= y,
            0 <= stride,
    ;
    if base + 3 <= bytes.len() {
        assert(plotted(bytes, stride, format, x, y, color).subrange(base, base + 3)
            =~= colour_bytes(format, color));
    }
}

/// Painting never changes the length of the frame buffer.
pub proof fn lemma_painted_keeps_length(screen: Screen, x: int, y: int, color: PixelColor)
    ensures
        painted(screen, x, y, color).len() == screen.bytes.len(),
{
}

} // verus!
