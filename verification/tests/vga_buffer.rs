use rust_os::vga_buffer::{
    shown, Color, ColorCode, ScreenChar, Writer, BUFFER_CELLS, BUFFER_HEIGHT, BUFFER_WIDTH,
    LAST_ROW,
};

const PALETTE: [Color; 16] = [
    Color::Black,
    Color::Blue,
    Color::Green,
    Color::Cyan,
    Color::Red,
    Color::Magenta,
    Color::Brown,
    Color::LightGray,
    Color::DarkGray,
    Color::LightBlue,
    Color::LightGreen,
    Color::LightCyan,
    Color::LightRed,
    Color::Pink,
    Color::Yellow,
    Color::White,
];

#[test]
fn colors_are_numbered_in_palette_order() {
    for (number, color) in PALETTE.iter().enumerate() {
        assert_eq!(color.code() as usize, number);
    }
}

#[test]
fn color_code_packs_background_over_foreground() {
    assert_eq!(ColorCode::new(Color::Yellow, Color::Black).bits(), 0x0E);
    assert_eq!(ColorCode::new(Color::White, Color::Blue).bits(), 0x1F);
    assert_eq!(ColorCode::new(Color::Black, Color::White).bits(), 0xF0);
    for foreground in PALETTE {
        for background in PALETTE {
            assert_eq!(
                ColorCode::new(foreground, background).bits(),
                (background.code() << 4) | foreground.code()
            );
        }
    }
}

#[test]
fn color_codes_compare_by_their_byte() {
    assert_eq!(ColorCode::new(Color::Red, Color::Green), ColorCode::new(Color::Red, Color::Green));
    assert_ne!(ColorCode::new(Color::Red, Color::Green), ColorCode::new(Color::Green, Color::Red));
}

fn row_text(writer: &Writer, row: usize) -> Vec<u8> {
    (0..BUFFER_WIDTH).map(|col| writer.char_at(row, col).ascii_character).collect()
}

fn row_starts_with(writer: &Writer, row: usize, text: &[u8]) -> bool {
    row_text(writer, row).starts_with(text)
}

#[test]
fn screen_dimensions() {
    assert_eq!(BUFFER_HEIGHT, 25);
    assert_eq!(BUFFER_WIDTH, 80);
    assert_eq!(BUFFER_CELLS, BUFFER_HEIGHT * BUFFER_WIDTH);
    assert_eq!(LAST_ROW, (BUFFER_HEIGHT - 1) * BUFFER_WIDTH);
}

#[test]
fn a_new_screen_is_all_zero() {
    let writer = Writer::new();
    assert_eq!(writer.current_pos(), (24, 0));
    assert_eq!(writer.cmd_start(), (0, 0));
    for row in 0..BUFFER_HEIGHT {
        for col in 0..BUFFER_WIDTH {
            let cell = writer.char_at(row, col);
            assert_eq!(cell.ascii_character, 0);
            assert_eq!(cell.color_code.bits(), 0);
        }
    }
}

#[test]
fn bytes_go_to_the_last_row_in_yellow_on_black() {
    let mut writer = Writer::new();
    writer.write_byte(b'H');
    writer.write_byte(b'i');
    assert_eq!(writer.current_pos(), (24, 2));
    assert_eq!(
        writer.char_at(24, 0),
        ScreenChar {
            ascii_character: b'H',
            color_code: ColorCode::new(Color::Yellow, Color::Black)
        }
    );
    assert_eq!(writer.char_at(24, 1).ascii_character, b'i');
    assert_eq!(writer.char_at(24, 2).ascii_character, 0);
    assert_eq!(writer.last_char(), b'i');
}

#[test]
fn newline_scrolls_up_and_blanks_the_last_row() {
    let mut writer = Writer::new();
    writer.write_string(b"first\nsecond");
    assert!(row_starts_with(&writer, 23, b"first"));
    assert!(row_starts_with(&writer, 24, b"second"));
    assert_eq!(writer.char_at(24, 6).ascii_character, b' ');
    assert_eq!(writer.char_at(24, 79).ascii_character, b' ');
    assert_eq!(writer.current_pos(), (24, 6));
    writer.write_byte(b'\n');
    assert!(row_starts_with(&writer, 22, b"first"));
    assert!(row_starts_with(&writer, 23, b"second"));
    assert_eq!(row_text(&writer, 24), vec![b' '; 80]);
    assert_eq!(writer.current_pos(), (24, 0));
}

#[test]
fn a_full_row_wraps_on_the_next_byte() {
    let mut writer = Writer::new();
    for _ in 0..80 {
        writer.write_byte(b'x');
    }
    assert_eq!(writer.current_pos(), (24, 80));
    assert_eq!(row_text(&writer, 24), vec![b'x'; 80]);
    writer.write_byte(b'y');
    assert_eq!(writer.current_pos(), (24, 1));
    assert_eq!(row_text(&writer, 23), vec![b'x'; 80]);
    assert!(row_starts_with(&writer, 24, b"y "));
}

#[test]
fn unprintable_bytes_show_as_a_square() {
    assert_eq!(shown(b'a'), b'a');
    assert_eq!(shown(b' '), b' ');
    assert_eq!(shown(b'~'), b'~');
    assert_eq!(shown(b'\n'), b'\n');
    assert_eq!(shown(0x7f), 0xfe);
    assert_eq!(shown(0x1f), 0xfe);
    assert_eq!(shown(0xc3), 0xfe);
    let mut writer = Writer::new();
    writer.write_string("a\u{e9}b\tc".as_bytes());
    assert!(row_starts_with(&writer, 24, &[b'a', 0xfe, 0xfe, b'b', 0xfe, b'c']));
}

#[test]
fn write_byte_writes_any_byte_as_it_is() {
    let mut writer = Writer::new();
    writer.write_byte(0x01);
    writer.write_byte(0xff);
    assert!(row_starts_with(&writer, 24, &[0x01, 0xff]));
}

#[test]
fn scrolling_moves_the_command_start_up() {
    let mut writer = Writer::new();
    writer.write_string(b"$> ");
    writer.reset_cmd_start();
    assert_eq!(writer.cmd_start(), (24, 3));
    writer.write_byte(b'\n');
    assert_eq!(writer.cmd_start(), (23, 3));
    for _ in 0..30 {
        writer.write_byte(b'\n');
    }
    assert_eq!(writer.cmd_start(), (0, 3));
}

#[test]
fn clear_row_fills_one_row_with_spaces() {
    let mut writer = Writer::new();
    writer.write_string(b"one\ntwo\nthree");
    writer.set_color(ColorCode::new(Color::White, Color::Blue));
    writer.clear_row(23);
    assert_eq!(row_text(&writer, 23), vec![b' '; 80]);
    assert_eq!(writer.char_at(23, 5).color_code.bits(), 0x1F);
    assert!(row_starts_with(&writer, 22, b"one"));
    assert!(row_starts_with(&writer, 24, b"three"));
    assert_eq!(writer.char_at(24, 0).color_code.bits(), 0x0E);
    assert_eq!(writer.current_pos(), (24, 5));
}

#[test]
fn reset_screen_blanks_everything() {
    let mut writer = Writer::new();
    writer.write_string(b"one\ntwo\nthree");
    writer.reset_screen();
    for row in 0..BUFFER_HEIGHT {
        assert_eq!(row_text(&writer, row), vec![b' '; 80]);
    }
    assert_eq!(writer.current_pos(), (24, 0));
}

#[test]
fn backspace_in_the_row_wipes_the_last_character() {
    let mut writer = Writer::new();
    writer.write_string(b"abc");
    assert!(writer.can_backspace());
    writer.backspace();
    assert_eq!(writer.current_pos(), (24, 2));
    assert_eq!(writer.char_at(24, 2).ascii_character, 0);
    assert_eq!(writer.char_at(24, 1).ascii_character, b'b');
    writer.write_byte(b'd');
    assert!(row_starts_with(&writer, 24, b"abd"));
}

#[test]
fn backspace_at_the_start_of_the_row_brings_the_row_above_back() {
    let mut writer = Writer::new();
    writer.write_string(b"\nabove\n");
    assert_eq!(writer.current_pos(), (24, 0));
    assert!(writer.can_backspace());
    writer.backspace();
    // the rows moved down; the row above ended in spaces
    assert!(row_starts_with(&writer, 24, b"above"));
    assert_eq!(row_text(&writer, 0), vec![b' '; 80]);
    assert_eq!(writer.current_pos(), (24, 79));
    assert_eq!(writer.char_at(24, 79).ascii_character, 0);
    assert_eq!(writer.char_at(24, 78).ascii_character, b' ');
}

#[test]
fn backspace_at_the_start_of_the_row_takes_the_last_character_above() {
    let mut writer = Writer::new();
    // the first row of a new screen is zero behind its text
    writer.write_string(b"above\n");
    assert!(writer.can_backspace());
    writer.backspace();
    assert_eq!(writer.current_pos(), (24, 4));
    assert!(row_starts_with(&writer, 24, &[b'a', b'b', b'o', b'v', 0, 0]));
}

#[test]
fn backspace_at_the_start_seeks_back_over_cells_that_are_zero() {
    let mut writer = Writer::new();
    writer.write_string(b"ab");
    // a scroll by hand: the row above keeps its zeros behind the text
    for _ in 0..78 {
        writer.write_byte(b' ');
    }
    for _ in 0..70 {
        writer.backspace();
    }
    assert_eq!(writer.current_pos(), (24, 10));
    writer.write_byte(b'\n');
    assert!(writer.can_backspace());
    writer.backspace();
    assert_eq!(writer.current_pos(), (24, 9));
    assert_eq!(writer.char_at(24, 9).ascii_character, 0);
    assert!(row_starts_with(&writer, 24, b"ab       "));
}

#[test]
fn backspace_cannot_start_from_an_empty_screen() {
    let writer = Writer::new();
    assert!(!writer.can_backspace());
    let mut writer = Writer::new();
    writer.write_byte(b'\n');
    // the row above is all zero still
    assert!(!writer.can_backspace());
    writer.write_byte(b'x');
    assert!(writer.can_backspace());
}

#[test]
fn scan_cmd_reads_the_command_back() {
    let mut writer = Writer::new();
    writer.write_string(b"$> ");
    writer.reset_cmd_start();
    writer.write_string(b"color 1 2");
    assert_eq!(writer.scan_cmd(), b"color 1 2".to_vec());
    writer.write_byte(b'\n');
    // the last row is blank now, and its first cell belongs to the command
    assert_eq!(writer.scan_cmd(), b"color 1 2 ".to_vec());
}

#[test]
fn scan_cmd_reads_over_the_end_of_a_row() {
    let mut writer = Writer::new();
    writer.write_string(b"\n$> ");
    writer.reset_cmd_start();
    writer.write_string(b"echo");
    writer.write_byte(b'\n');
    // the row was blanked before the command was typed: its spaces are read too
    let mut line = b"echo".to_vec();
    line.extend(vec![b' '; 80 - 7]);
    line.push(b' ');
    assert_eq!(writer.scan_cmd(), line);
}

#[test]
fn scan_cmd_leaves_out_cells_that_are_zero() {
    let mut writer = Writer::new();
    writer.write_string(b"$> ");
    writer.reset_cmd_start();
    writer.write_string(b"echo hi");
    writer.backspace();
    writer.backspace();
    writer.write_byte(b'o');
    assert_eq!(writer.scan_cmd(), b"echo o".to_vec());
}

#[test]
fn scan_cmd_is_empty_when_the_command_starts_behind_the_cursor() {
    let mut writer = Writer::new();
    writer.write_string(b"hello");
    writer.reset_cmd_start();
    writer.backspace();
    writer.backspace();
    assert_eq!(writer.current_pos(), (24, 3));
    assert_eq!(writer.cmd_start(), (24, 5));
    assert_eq!(writer.scan_cmd(), Vec::<u8>::new());
}

#[test]
fn scan_until_or_all_stops_at_the_last_match() {
    let mut writer = Writer::new();
    writer.write_string(b"a>b>cd");
    assert_eq!(writer.scan_until_or_all('>'), b"cd".to_vec());
    assert_eq!(writer.scan_until_or_all('a'), b">b>cd".to_vec());
    assert_eq!(writer.scan_until_or_all('d'), Vec::<u8>::new());
}

#[test]
fn scan_until_or_all_takes_the_whole_screen_when_nothing_matches() {
    let mut writer = Writer::new();
    writer.write_string(b"\none\ntwo");
    let all = writer.scan_until_or_all('#');
    let mut expected = b"one".to_vec();
    expected.extend(vec![b' '; 77]);
    expected.extend(b"two");
    assert_eq!(all, expected);
    // a character that no byte can be matches nothing
    assert_eq!(writer.scan_until_or_all('\u{20AC}'), expected);
}

#[test]
fn set_color_changes_the_colour_of_what_follows() {
    let mut writer = Writer::new();
    writer.write_byte(b'a');
    writer.set_color(ColorCode::new(Color::Red, Color::White));
    writer.write_byte(b'b');
    assert_eq!(writer.char_at(24, 0).color_code.bits(), 0x0E);
    assert_eq!(writer.char_at(24, 1).color_code.bits(), 0xF4);
}
