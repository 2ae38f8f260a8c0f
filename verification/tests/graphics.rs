use laranja_kernel::console::Console;
use laranja_kernel::console::COLUMNS;
use laranja_kernel::console::ROWS;
use laranja_kernel::graphics::FrameBuffer;
use laranja_kernel::graphics::Graphics;
use laranja_kernel::graphics::ModeInfo;
use laranja_kernel::graphics::PixelBitmask;
use laranja_kernel::graphics::PixelColor;
use laranja_kernel::graphics::PixelFormat;
use laranja_kernel::graphics::TextWriter;
use laranja_kernel::mouse::draw_mouse_cursor;
use laranja_kernel::mouse::draw_shape;

const RED: PixelColor = PixelColor(0xf0, 0x02, 0x03);
const INK: PixelColor = PixelColor(0x11, 0x22, 0x33);
const PAPER: PixelColor = PixelColor(0x00, 0x50, 0x50);

fn mode(hor_res: u32, ver_res: u32, stride: u32, format: PixelFormat) -> ModeInfo {
    ModeInfo {
        version: 0,
        hor_res,
        ver_res,
        format,
        mask: PixelBitmask { red: 0, green: 0, blue: 0, reserved: 0 },
        stride,
    }
}

fn screen(hor_res: u32, ver_res: u32, stride: u32, format: PixelFormat) -> Graphics {
    let bytes = vec![0u8; 4 * stride as usize * (ver_res as usize + 1)];
    Graphics::new(FrameBuffer::new(bytes), mode(hor_res, ver_res, stride, format))
}

fn pixel(graphics: &Graphics, stride: usize, x: usize, y: usize) -> [u8; 4] {
    let bytes = graphics.fb().as_slice();
    let base = 4 * (y * stride + x);
    [bytes[base], bytes[base + 1], bytes[base + 2], bytes[base + 3]]
}

fn lit(graphics: &Graphics) -> usize {
    graphics.fb().as_slice().chunks_exact(4).filter(|p| p[0] != 0 || p[1] != 0 || p[2] != 0).count()
}

/// A font whose glyph for a character has that character's code as its top
/// row and 0x81 as its bottom row.
fn code_font() -> [[u8; 16]; 128] {
    let mut font = [[0u8; 16]; 128];
    for code in 0..128 {
        font[code][0] = code as u8;
        font[code][15] = 0x81;
    }
    font
}

#[test]
fn mode_resolution_is_width_then_height() {
    assert_eq!(mode(800, 600, 800, PixelFormat::Rgb).resolution(), (800, 600));
    assert_eq!(mode(1200, 1920, 1200, PixelFormat::Bgr).resolution(), (1200, 1920));
}

#[test]
fn frame_buffer_writes_bytes_in_place() {
    let mut fb = FrameBuffer::new(vec![0; 8]);
    assert_eq!(fb.size(), 8);
    fb.write_byte(7, 0xaa);
    fb.write_value(2, [1, 2, 3]);
    assert_eq!(fb.as_slice(), &[0, 0, 1, 2, 3, 0, 0, 0xaa]);
    fb.write_value(5, [4, 5, 6]);
    assert_eq!(fb.as_slice(), &[0, 0, 1, 2, 3, 4, 5, 6]);
}

#[test]
fn drawing_area_of_upright_display() {
    let graphics = screen(800, 600, 800, PixelFormat::Rgb);
    assert_eq!(graphics.resolution(), (800, 600));
    assert_eq!(graphics.mi().stride, 800);
    assert_eq!(graphics.fb().size(), 4 * 800 * 601);
}

#[test]
fn drawing_area_of_display_on_its_side() {
    let graphics = screen(1200, 1920, 1200, PixelFormat::Bgr);
    assert_eq!(graphics.resolution(), (960, 600));
    let upright = screen(1920, 1200, 1920, PixelFormat::Bgr);
    assert_eq!(upright.resolution(), (1920, 1200));
}

#[test]
fn pixel_is_written_red_first_in_rgb() {
    let mut graphics = screen(16, 8, 20, PixelFormat::Rgb);
    graphics.write_pixel(3, 2, &RED);
    assert_eq!(pixel(&graphics, 20, 3, 2), [0xf0, 0x02, 0x03, 0]);
    assert_eq!(lit(&graphics), 1);
    assert_eq!(graphics.fb().as_slice()[4 * (2 * 20 + 3)], 0xf0);
}

#[test]
fn pixel_is_written_blue_first_in_bgr() {
    let mut graphics = screen(16, 8, 16, PixelFormat::Bgr);
    graphics.write_pixel(0, 0, &RED);
    graphics.write_pixel(15, 7, &INK);
    assert_eq!(pixel(&graphics, 16, 0, 0), [0x03, 0x02, 0xf0, 0]);
    assert_eq!(pixel(&graphics, 16, 15, 7), [0x33, 0x22, 0x11, 0]);
    assert_eq!(lit(&graphics), 2);
}

#[test]
fn pixel_beyond_the_area_is_not_written() {
    let mut graphics = screen(16, 8, 20, PixelFormat::Rgb);
    graphics.write_pixel(17, 0, &RED);
    graphics.write_pixel(0, 9, &RED);
    graphics.write_pixel(usize::MAX, 0, &RED);
    graphics.write_pixel(0, usize::MAX, &RED);
    assert_eq!(lit(&graphics), 0);
    graphics.write_pixel(16, 8, &RED);
    assert_eq!(pixel(&graphics, 20, 16, 8), [0xf0, 0x02, 0x03, 0]);
}

#[test]
fn pixel_beyond_the_buffer_is_dropped() {
    let mode = mode(16, 8, 16, PixelFormat::Rgb);
    let mut graphics = Graphics::new(FrameBuffer::new(vec![0; 4 * 16 * 2 + 2]), mode);
    graphics.write_pixel(0, 2, &RED);
    graphics.write_pixel(5, 7, &RED);
    assert_eq!(lit(&graphics), 0);
    graphics.write_pixel(15, 1, &RED);
    assert_eq!(pixel(&graphics, 16, 15, 1), [0xf0, 0x02, 0x03, 0]);
    graphics.write_actual_pixel(usize::MAX, usize::MAX, &RED);
    assert_eq!(lit(&graphics), 1);
}

#[test]
fn pixel_on_sideways_display_is_turned_and_doubled() {
    let mut graphics = screen(1200, 1920, 1200, PixelFormat::Rgb);
    graphics.write_pixel(10, 20, &RED);
    let column = 2 * (600 - 20);
    let row = 2 * 10;
    for (dx, dy) in [(0, 0), (1, 0), (0, 1), (1, 1)] {
        assert_eq!(pixel(&graphics, 1200, column + dx, row + dy), [0xf0, 0x02, 0x03, 0]);
    }
    assert_eq!(lit(&graphics), 4);
}

#[test]
fn clear_paints_every_pixel_of_the_area() {
    let mut graphics = screen(6, 4, 8, PixelFormat::Rgb);
    graphics.clear(&INK);
    for y in 0..4 {
        for x in 0..6 {
            assert_eq!(pixel(&graphics, 8, x, y), [0x11, 0x22, 0x33, 0]);
        }
        assert_eq!(pixel(&graphics, 8, 6, y), [0, 0, 0, 0]);
    }
    assert_eq!(lit(&graphics), 24);
}

#[test]
fn fill_paints_the_top_left_rectangle() {
    let mut graphics = screen(6, 4, 8, PixelFormat::Rgb);
    graphics.fill(2, 3, &RED);
    assert_eq!(lit(&graphics), 6);
    assert_eq!(pixel(&graphics, 8, 1, 2), [0xf0, 0x02, 0x03, 0]);
    assert_eq!(pixel(&graphics, 8, 2, 2), [0, 0, 0, 0]);
}

#[test]
fn glyph_rows_are_drawn_most_significant_bit_leftmost() {
    let font = code_font();
    let mut graphics = screen(64, 32, 64, PixelFormat::Rgb);
    graphics.write_ascii(&font, 10, 5, 'A', &INK);
    let top: Vec<bool> = (0..8).map(|dx| pixel(&graphics, 64, 10 + dx, 5)[0] != 0).collect();
    assert_eq!(top, vec![false, true, false, false, false, false, false, true]);
    let bottom: Vec<bool> = (0..8).map(|dx| pixel(&graphics, 64, 10 + dx, 20)[0] != 0).collect();
    assert_eq!(bottom, vec![true, false, false, false, false, false, false, true]);
    assert_eq!(lit(&graphics), 4);
}

#[test]
fn characters_beyond_ascii_are_not_drawn() {
    let font = code_font();
    let mut graphics = screen(64, 32, 64, PixelFormat::Rgb);
    graphics.write_ascii(&font, 0, 0, '\u{80}', &INK);
    graphics.write_ascii(&font, 0, 0, 'é', &INK);
    assert_eq!(lit(&graphics), 0);
    graphics.write_ascii(&font, 0, 0, '\u{7f}', &INK);
    assert_eq!(lit(&graphics), 7 + 2);
}

#[test]
fn string_advances_eight_columns_per_character() {
    let font = code_font();
    let mut graphics = screen(64, 64, 64, PixelFormat::Rgb);
    assert_eq!(graphics.write_string(&font, 3, 4, "", &INK), (3, 4));
    assert_eq!(graphics.write_string(&font, 3, 4, "ab", &INK), (19, 4));
    assert_eq!(pixel(&graphics, 64, 3 + 1, 4)[0], 0x11);
    assert_eq!(pixel(&graphics, 64, 11 + 6, 4)[0], 0x11);
    assert_eq!(pixel(&graphics, 64, 11 + 7, 4)[0], 0);
}

#[test]
fn string_wraps_to_its_first_column() {
    let font = code_font();
    let mut graphics = screen(64, 64, 64, PixelFormat::Rgb);
    assert_eq!(graphics.write_string(&font, 40, 0, "abc", &INK), (64, 0));
    assert_eq!(graphics.write_string(&font, 40, 0, "abcd", &INK), (40, 20));
    assert_eq!(graphics.write_string(&font, 40, 0, "abcde", &INK), (48, 20));
    assert_eq!(graphics.write_string(&font, 56, 0, "a", &INK), (64, 0));
    assert_eq!(graphics.write_string(&font, 57, 0, "a", &INK), (57, 20));
}

#[test]
fn string_stops_below_the_area() {
    let font = code_font();
    let mut graphics = screen(16, 30, 16, PixelFormat::Rgb);
    assert_eq!(graphics.write_string(&font, 0, 0, "abcdefgh", &INK), (0, 40));
    assert_eq!(graphics.write_string(&font, 0, 31, "abc", &INK), (8, 31));
    assert_eq!(graphics.write_string(&font, 9, usize::MAX - 5, "ab", &INK), (9, usize::MAX));
}

#[test]
fn writer_continues_where_it_stopped() {
    let font = code_font();
    let mut graphics = screen(64, 64, 64, PixelFormat::Rgb);
    let mut writer = graphics.text_writer(8, 2, &INK);
    writer.write_str(&mut graphics, &font, "ab");
    writer.write_str(&mut graphics, &font, "c");
    assert_eq!(pixel(&graphics, 64, 8 + 16 + 1, 2), [0x11, 0x22, 0x33, 0]);
    writer.change_color(&RED);
    writer.write_str(&mut graphics, &font, "d");
    assert_eq!(pixel(&graphics, 64, 8 + 24 + 1, 2), [0xf0, 0x02, 0x03, 0]);
    writer.reset_coord();
    writer.write_str(&mut graphics, &font, "e");
    assert_eq!(pixel(&graphics, 64, 8 + 1, 2), [0xf0, 0x02, 0x03, 0]);
    let mut other = TextWriter::new(0, 30, &INK);
    other.write_str(&mut graphics, &font, "f");
    assert_eq!(pixel(&graphics, 64, 1, 30), [0x11, 0x22, 0x33, 0]);
}

#[test]
fn new_console_has_cursor_at_origin() {
    let console = Console::new(&INK, &PAPER);
    assert_eq!(console.cursor(), (0, 0));
    assert_eq!(console.actual_cursor_row(), 0);
    assert_eq!(console.actual_row(0), 0);
    assert_eq!(console.actual_row(24), 24);
    assert_eq!(console.actual_row(25), 0);
    assert_eq!(console.actual_row(usize::MAX), usize::MAX % 25);
}

#[test]
fn console_draws_characters_in_cells() {
    let font = code_font();
    let mut graphics = screen(800, 600, 800, PixelFormat::Rgb);
    let mut console = Console::new(&INK, &PAPER);
    console.put_string(&mut graphics, &font, "ab");
    assert_eq!(console.cursor(), (0, 2));
    assert_eq!(pixel(&graphics, 800, 1, 0), [0x11, 0x22, 0x33, 0]);
    assert_eq!(pixel(&graphics, 800, 8 + 6, 0), [0x11, 0x22, 0x33, 0]);
    assert_eq!(lit(&graphics), 3 + 2 + 3 + 2);
    console.put_string(&mut graphics, &font, "\nc");
    assert_eq!(console.cursor(), (1, 1));
    assert_eq!(pixel(&graphics, 800, 1, 18), [0x11, 0x22, 0x33, 0]);
    assert_eq!(pixel(&graphics, 800, 0, 18 + 15), [0x11, 0x22, 0x33, 0]);
}

#[test]
fn console_ignores_control_characters() {
    let font = code_font();
    let mut graphics = screen(800, 600, 800, PixelFormat::Rgb);
    let mut console = Console::new(&INK, &PAPER);
    console.put_string(&mut graphics, &font, "\t\r\u{1f}");
    assert_eq!(console.cursor(), (0, 0));
    assert_eq!(lit(&graphics), 0);
    console.put_string(&mut graphics, &font, " ");
    assert_eq!(console.cursor(), (0, 1));
}

#[test]
fn console_row_holds_eighty_characters() {
    let font = code_font();
    let mut graphics = screen(800, 600, 800, PixelFormat::Rgb);
    let mut console = Console::new(&INK, &PAPER);
    let long = "x".repeat(100);
    console.put_string(&mut graphics, &font, &long);
    assert_eq!(console.cursor(), (0, COLUMNS));
    assert_eq!(pixel(&graphics, 800, 8 * 79 + 1, 0), [0x11, 0x22, 0x33, 0]);
    assert_eq!(pixel(&graphics, 800, 8 * 80 + 1, 0), [0, 0, 0, 0]);
}

#[test]
fn console_scrolls_in_its_last_row() {
    let font = code_font();
    let mut graphics = screen(800, 600, 800, PixelFormat::Rgb);
    let mut console = Console::new(&INK, &PAPER);
    for _ in 0..ROWS - 1 {
        console.newline(&mut graphics, &font);
    }
    assert_eq!(console.cursor(), (24, 0));
    assert_eq!(console.actual_cursor_row(), 24);
    assert_eq!(lit(&graphics), 0);
    console.put_string(&mut graphics, &font, "a");
    assert_eq!(pixel(&graphics, 800, 1, 18 * 24), [0x11, 0x22, 0x33, 0]);
    console.newline(&mut graphics, &font);
    assert_eq!(console.cursor(), (24, 0));
    assert_eq!(console.actual_row(0), 1);
    assert_eq!(console.actual_cursor_row(), 0);
    assert_eq!(pixel(&graphics, 800, 1, 18 * 23), [0x11, 0x22, 0x33, 0]);
    assert_eq!(pixel(&graphics, 800, 1, 18 * 24), [0x00, 0x50, 0x50, 0]);
    assert_eq!(pixel(&graphics, 800, 639, 449), [0x00, 0x50, 0x50, 0]);
    assert_eq!(pixel(&graphics, 800, 640, 449), [0, 0, 0, 0]);
    assert_eq!(pixel(&graphics, 800, 0, 450), [0, 0, 0, 0]);
}

#[test]
fn console_ring_comes_round() {
    let font = code_font();
    let mut graphics = screen(800, 600, 800, PixelFormat::Rgb);
    let mut console = Console::new(&INK, &PAPER);
    for _ in 0..ROWS - 1 + ROWS {
        console.newline(&mut graphics, &font);
    }
    assert_eq!(console.cursor(), (24, 0));
    assert_eq!(console.actual_row(0), 0);
    assert_eq!(console.actual_cursor_row(), 24);
}

#[test]
fn picture_is_drawn_in_black_and_white() {
    let mut graphics = screen(16, 8, 16, PixelFormat::Rgb);
    graphics.clear(&PAPER);
    draw_shape(&mut graphics, &["@. ", " x@"], 2, 3);
    assert_eq!(pixel(&graphics, 16, 2, 3), [0, 0, 0, 0]);
    assert_eq!(pixel(&graphics, 16, 3, 3), [255, 255, 255, 0]);
    assert_eq!(pixel(&graphics, 16, 4, 3), [0x00, 0x50, 0x50, 0]);
    assert_eq!(pixel(&graphics, 16, 2, 4), [0x00, 0x50, 0x50, 0]);
    assert_eq!(pixel(&graphics, 16, 3, 4), [0x00, 0x50, 0x50, 0]);
    assert_eq!(pixel(&graphics, 16, 4, 4), [0, 0, 0, 0]);
}

#[test]
fn mouse_cursor_is_drawn_at_its_place() {
    let mut graphics = screen(800, 600, 800, PixelFormat::Rgb);
    graphics.clear(&PAPER);
    draw_mouse_cursor(&mut graphics);
    assert_eq!(pixel(&graphics, 800, 200, 100), [0, 0, 0, 0]);
    assert_eq!(pixel(&graphics, 800, 201, 100), [0x00, 0x50, 0x50, 0]);
    assert_eq!(pixel(&graphics, 800, 201, 102), [255, 255, 255, 0]);
    assert_eq!(pixel(&graphics, 800, 214, 114), [0, 0, 0, 0]);
    assert_eq!(pixel(&graphics, 800, 211, 123), [0, 0, 0, 0]);
    assert_eq!(pixel(&graphics, 800, 199, 100), [0x00, 0x50, 0x50, 0]);
    assert_eq!(pixel(&graphics, 800, 200, 124), [0x00, 0x50, 0x50, 0]);
}
