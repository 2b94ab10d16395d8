use hedr::editor::Editor;
use hedr::file::File;
use hedr::keys::{KEY_ARROW_DOWN, KEY_CTRL_R};
use hedr::screen::{
    clear_eol, clear_screen, push_dec, push_hex, reset_color, set_color, show_cursor, Color,
    Screen,
};

fn contains(hay: &[u8], needle: &[u8]) -> bool {
    hay.windows(needle.len()).any(|w| w == needle)
}

fn editor_with(data: Vec<u8>, h: u16) -> Editor {
    let mut ed = Editor::new();
    assert!(ed.screen.init(80, h));
    ed.add_file(File::from_data(data, b"t.bin".to_vec()));
    ed
}

#[test]
fn escape_primitives_emit_exact_bytes() {
    let mut out = Vec::new();
    reset_color(&mut out);
    assert_eq!(out, b"\x1b[0m".to_vec());

    out.clear();
    clear_eol(&mut out);
    assert_eq!(out, b"\x1b[K".to_vec());

    out.clear();
    clear_screen(&mut out);
    assert_eq!(out, b"\x1b[2J\x1b[H".to_vec());

    out.clear();
    show_cursor(&mut out, true);
    assert_eq!(out, b"\x1b[?25h".to_vec());
    out.clear();
    show_cursor(&mut out, false);
    assert_eq!(out, b"\x1b[?25l".to_vec());

    out.clear();
    set_color(&mut out, Color::FGBlack, Color::BGGray);
    assert_eq!(out, b"\x1b[30m\x1b[47m".to_vec());

    out.clear();
    set_color(&mut out, Color::Unset, Color::FGRed);
    assert_eq!(out, b"\x1b[31m".to_vec());
}

#[test]
fn decimal_and_hex_digits_render() {
    let mut out = Vec::new();
    push_dec(&mut out, 0);
    assert_eq!(out, b"0".to_vec());
    out.clear();
    push_dec(&mut out, 65535);
    assert_eq!(out, b"65535".to_vec());
    out.clear();
    push_hex(&mut out, 0x1a2b, 8);
    assert_eq!(out, b"00001a2b".to_vec());
    out.clear();
    push_hex(&mut out, 0xfe, 2);
    assert_eq!(out, b"fe".to_vec());
}

#[test]
fn move_cursor_clamps_to_screen() {
    let mut scr = Screen::new();
    assert!(scr.init(80, 24));
    let mut out = Vec::new();
    scr.move_cursor(&mut out, 5, 7);
    assert_eq!(out, b"\x1b[7;5H".to_vec());
    out.clear();
    scr.move_cursor(&mut out, -3, 100);
    assert_eq!(out, b"\x1b[24;1H".to_vec());
    out.clear();
    scr.move_cursor(&mut out, 200, 0);
    assert_eq!(out, b"\x1b[1;80H".to_vec());
}

#[test]
fn twenty_byte_file_renders_two_rows() {
    let mut ed = editor_with((0..20).collect(), 15);
    let out = ed.render_main_screen();
    assert!(!ed.screen.redraw_needed);
    let hay = out.as_slice();
    assert!(contains(hay, b"00000000 | "));
    assert!(contains(hay, b"00000010 | "));
    assert!(!contains(hay, b"00000020"));
    // the byte at the cursor (offset 0, row 3 column 11) is drawn in
    // inverse video in the hex column
    assert!(contains(hay, b"\x1b[3;11H\x1b[30m\x1b[47m 00 \x1b[0m"));
    assert!(contains(hay, b"t.bin"));
    assert!(contains(hay, b" hedx v0.1"));
    assert!(contains(hay, b"Get Help"));
    assert!(contains(hay, b"Read File"));
}

#[test]
fn cursor_highlight_follows_cursor() {
    let mut ed = editor_with((0..20).collect(), 15);
    ed.process_input(KEY_ARROW_DOWN);
    let out = ed.render_main_screen();
    let hay = out.as_slice();
    // offset 16 is the first byte of the second body row (row 4)
    assert!(contains(hay, b"\x1b[4;11H\x1b[30m\x1b[47m 10 \x1b[0m"));
    assert!(!contains(hay, b"\x1b[3;11H\x1b[30m\x1b[47m"));
}

#[test]
fn ascii_column_substitutes_dots() {
    let mut ed = editor_with(vec![0x41, 0x42, 0x00, 0x7f, 0x20], 15);
    let out = ed.render_main_screen();
    let hay = out.as_slice();
    assert!(contains(hay, b"| \x1b[30m\x1b[47mA\x1b[0mB.. "));
}

#[test]
fn empty_file_renders_no_body_row() {
    let mut ed = editor_with(Vec::new(), 15);
    let out = ed.render_main_screen();
    let hay = out.as_slice();
    // no offset column at all: nothing is highlighted
    assert!(!contains(hay, b" | "));
    assert!(contains(hay, b"t.bin"));
}

#[test]
fn fresh_editor_shows_placeholder_name() {
    let mut ed = Editor::new();
    assert!(ed.screen.init(80, 15));
    ed.add_file(File::new());
    let out = ed.render_main_screen();
    assert!(contains(out.as_slice(), b"NO FILE"));
}

#[test]
fn prompt_line_renders_label_text_and_cursor() {
    let mut ed = editor_with(vec![1], 15);
    ed.process_input(KEY_CTRL_R);
    ed.process_input(b'h' as u32);
    ed.process_input(b'i' as u32);
    let out = ed.render_prompt_line();
    let hay = out.as_slice();
    // footer status row is h - 2 = 13
    assert!(contains(hay, b"\x1b[13;1H Read file: hi\x1b[K"));
    // label of 9 bytes: the terminal cursor lands at column 9 + 4 + 2
    assert!(contains(hay, b"\x1b[13;15H"));
}

#[test]
fn footer_legend_changes_with_mode() {
    let mut ed = editor_with(vec![1], 15);
    ed.process_input(KEY_CTRL_R);
    let out = ed.render_main_screen();
    let hay = out.as_slice();
    assert!(contains(hay, b"To Files"));
    assert!(contains(hay, b"Cancel"));
    assert!(!contains(hay, b"Get Help"));
}

#[test]
fn screen_init_rejects_tiny_terminal() {
    let mut scr = Screen::new();
    assert!(!scr.init(80, 5));
    assert!(!scr.init(0, 24));
    assert!(scr.init(1, 6));
}

#[test]
fn status_message_appears_in_footer() {
    let mut ed = editor_with(vec![1], 15);
    ed.show_msg(b"hello status".to_vec());
    let out = ed.render_main_screen();
    assert!(contains(out.as_slice(), b"\x1b[13;1H\x1b[30m\x1b[47m hello status\x1b[K"));
}

#[test]
fn yes_no_prompt_line_shows_label() {
    let mut ed = editor_with(vec![1], 15);
    ed.begin_yes_no_prompt(b"Overwrite?".to_vec());
    let out = ed.render_prompt_line();
    assert!(contains(out.as_slice(), b"\x1b[13;1H Overwrite?\x1b[K"));
    let frame = ed.render_main_screen();
    assert!(contains(frame.as_slice(), b"Yes"));
    assert!(contains(frame.as_slice(), b"No"));
    assert!(contains(frame.as_slice(), b"Cancel"));
}
