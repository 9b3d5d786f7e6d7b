use enigma_kernel::vga::{
    print_to_vga, Color, ColorCode, ScreenChar, Writer, BUFFER_HEIGHT, BUFFER_WIDTH,
};

fn white_on_black() -> Writer {
    Writer::new(ColorCode::new(Color::White, Color::Black))
}

fn row_text(writer: &Writer, row: usize) -> String {
    (0..BUFFER_WIDTH).map(|col| char::from(writer.char_at(row, col).ascii_character)).collect()
}

#[test]
fn color_numbers() {
    let all = [
        Color::Black,
        Color::Blue,
        Color::Green,
        Color::Cyan,
        Color::Red,
        Color::Magenta,
        Color::Brown,
        Color::LightGray,
        Color::DarkGray,
        Color::LightBlue,
        Color::LightGreen,
        Color::LightCyan,
        Color::LightRed,
        Color::Pink,
        Color::Yellow,
        Color::White,
    ];
    for (number, color) in all.iter().enumerate() {
        assert_eq!(color.as_u8() as usize, number);
    }
}

#[test]
fn color_code_packs_background_and_foreground() {
    assert_eq!(ColorCode::new(Color::White, Color::Black), ColorCode(0x0f));
    assert_eq!(ColorCode::new(Color::Yellow, Color::Blue), ColorCode(0x1e));
    assert_eq!(ColorCode::new(Color::Black, Color::White), ColorCode(0xf0));
    assert_eq!(ColorCode::new(Color::White, Color::White), ColorCode(0xff));
    assert_eq!(ColorCode::new(Color::Black, Color::Black), ColorCode(0));
}

#[test]
fn new_writer_shows_a_blank_screen() {
    let writer = white_on_black();
    assert_eq!(writer.column_position(), 0);
    for row in 0..BUFFER_HEIGHT {
        for col in 0..BUFFER_WIDTH {
            assert_eq!(
                writer.char_at(row, col),
                ScreenChar { ascii_character: b' ', color_code: ColorCode(0x0f) }
            );
        }
    }
}

#[test]
fn bytes_go_to_the_last_row() {
    let mut writer = white_on_black();
    writer.write_byte(b'H');
    writer.write_byte(b'i');
    assert_eq!(writer.column_position(), 2);
    assert_eq!(
        writer.char_at(BUFFER_HEIGHT - 1, 0),
        ScreenChar { ascii_character: b'H', color_code: ColorCode(0x0f) }
    );
    assert_eq!(writer.char_at(BUFFER_HEIGHT - 1, 1).ascii_character, b'i');
    assert_eq!(writer.char_at(BUFFER_HEIGHT - 1, 2).ascii_character, b' ');
    assert_eq!(writer.char_at(BUFFER_HEIGHT - 2, 0).ascii_character, b' ');
}

#[test]
fn test_println_output() {
    let s = "Some test string that fits on a single line";
    let mut writer = white_on_black();
    writer.write_string("\n");
    writer.write_string(s);
    writer.write_string("\n");
    for (i, c) in s.chars().enumerate() {
        let screen_char = writer.char_at(BUFFER_HEIGHT - 2, i);
        assert_eq!(char::from(screen_char.ascii_character), c);
    }
    assert_eq!(writer.column_position(), 0);
    assert_eq!(row_text(&writer, BUFFER_HEIGHT - 1), " ".repeat(BUFFER_WIDTH));
}

#[test]
fn test_print_simple() {
    let mut writer = white_on_black();
    writer.write_string("test_print_simple output\n");
    assert_eq!(row_text(&writer, BUFFER_HEIGHT - 2).trim_end(), "test_print_simple output");
    assert_eq!(writer.column_position(), 0);
}

#[test]
fn test_print_many() {
    let mut writer = white_on_black();
    for _ in 0..255 {
        writer.write_string("test_print_many output\n");
    }
    for row in 0..BUFFER_HEIGHT - 1 {
        assert_eq!(row_text(&writer, row).trim_end(), "test_print_many output");
    }
    assert_eq!(row_text(&writer, BUFFER_HEIGHT - 1).trim_end(), "");
}

#[test]
fn a_full_row_wraps_to_the_next_line() {
    let mut writer = white_on_black();
    for _ in 0..BUFFER_WIDTH {
        writer.write_byte(b'a');
    }
    assert_eq!(writer.column_position(), BUFFER_WIDTH);
    assert_eq!(row_text(&writer, BUFFER_HEIGHT - 1), "a".repeat(BUFFER_WIDTH));
    writer.write_byte(b'b');
    assert_eq!(writer.column_position(), 1);
    assert_eq!(row_text(&writer, BUFFER_HEIGHT - 2), "a".repeat(BUFFER_WIDTH));
    assert_eq!(row_text(&writer, BUFFER_HEIGHT - 1).trim_end(), "b");
}

#[test]
fn lines_scroll_up_and_off_the_top() {
    let mut writer = white_on_black();
    for line in 0..30u8 {
        writer.write_byte(b'A' + line);
        writer.write_byte(b'\n');
    }
    // Lines 6 to 29 are on rows 0 to 23; the last row is blank.
    for row in 0..BUFFER_HEIGHT - 1 {
        assert_eq!(writer.char_at(row, 0).ascii_character, b'A' + 6 + row as u8);
        assert_eq!(writer.char_at(row, 1).ascii_character, b' ');
    }
    assert_eq!(writer.char_at(BUFFER_HEIGHT - 1, 0).ascii_character, b' ');
}

#[test]
fn bytes_that_cannot_be_shown_become_boxes() {
    let mut writer = white_on_black();
    writer.write_string("a\tb\u{e9}~ \u{7f}");
    let shown: Vec<u8> =
        (0..8).map(|col| writer.char_at(BUFFER_HEIGHT - 1, col).ascii_character).collect();
    // The tab is one byte, the accented letter two, and 0x7f is not printable.
    assert_eq!(shown, vec![b'a', 0xfe, b'b', 0xfe, 0xfe, b'~', b' ', 0xfe]);
    assert_eq!(writer.column_position(), 8);
}

#[test]
fn write_byte_writes_any_byte_as_it_is() {
    let mut writer = Writer::new(ColorCode::new(Color::Yellow, Color::Blue));
    writer.write_byte(0x01);
    writer.write_byte(0xfe);
    assert_eq!(
        writer.char_at(BUFFER_HEIGHT - 1, 0),
        ScreenChar { ascii_character: 0x01, color_code: ColorCode(0x1e) }
    );
    assert_eq!(writer.char_at(BUFFER_HEIGHT - 1, 1).ascii_character, 0xfe);
}

#[test]
fn early_message_is_light_red() {
    let mut screen = [0x77u8; 10];
    print_to_vga(b"Hi!", &mut screen);
    assert_eq!(screen, [b'H', 0xc, b'i', 0xc, b'!', 0xc, 0x77, 0x77, 0x77, 0x77]);
    print_to_vga(b"", &mut screen);
    assert_eq!(screen, [b'H', 0xc, b'i', 0xc, b'!', 0xc, 0x77, 0x77, 0x77, 0x77]);
    let message = b"Framebuffer not found, system stopped!";
    let mut screen = vec![0u8; BUFFER_HEIGHT * BUFFER_WIDTH * 2];
    print_to_vga(message, &mut screen);
    for (i, byte) in message.iter().enumerate() {
        assert_eq!(screen[2 * i], *byte);
        assert_eq!(screen[2 * i + 1], 0xc);
    }
    assert!(screen[2 * message.len()..].iter().all(|byte| *byte == 0));
}
