use hedr::editor::{Action, Editor, EditorMode};
use hedr::file::File;
use hedr::keys::{
    KEY_ARROW_DOWN, KEY_ARROW_LEFT, KEY_ARROW_RIGHT, KEY_ARROW_UP, KEY_CTRL_A, KEY_CTRL_E,
    KEY_CTRL_END, KEY_CTRL_G, KEY_CTRL_HOME, KEY_CTRL_X, KEY_END, KEY_HOME, KEY_PAGE_DOWN,
    KEY_PAGE_UP, KEY_ALT_PERIOD, KEY_ALT_COMMA,
};

fn editor_with(data: Vec<u8>, h: u16) -> Editor {
    let mut ed = Editor::new();
    assert!(ed.screen.init(80, h));
    ed.add_file(File::from_data(data, b"t.bin".to_vec()));
    ed
}

fn cursor(ed: &Editor) -> usize {
    ed.cur_file().unwrap().cursor_pos
}

fn top(ed: &Editor) -> usize {
    ed.cur_file().unwrap().top_line
}

#[test]
fn arrows_clamp_at_buffer_edges() {
    // h = 15 gives body_lines = 10
    let mut ed = editor_with((0..20).collect(), 15);
    assert_eq!(cursor(&ed), 0);
    ed.process_input(KEY_ARROW_LEFT);
    assert_eq!(cursor(&ed), 0);
    ed.process_input(KEY_ARROW_RIGHT);
    assert_eq!(cursor(&ed), 1);
    ed.process_input(KEY_ARROW_UP);
    assert_eq!(cursor(&ed), 1);
    ed.process_input(KEY_ARROW_DOWN);
    assert_eq!(cursor(&ed), 17);
    ed.process_input(KEY_ARROW_DOWN);
    assert_eq!(cursor(&ed), 17);
    ed.process_input(KEY_ARROW_UP);
    assert_eq!(cursor(&ed), 1);
}

#[test]
fn end_to_end_twenty_byte_scenario() {
    // 20-byte file, body_lines = 10: cursor starts at 0, Down moves to
    // offset 16 on the second row, another Down is clamped to the last
    // valid offset 19.
    let mut ed = editor_with((0..20).collect(), 15);
    assert_eq!(cursor(&ed), 0);
    ed.process_input(KEY_ARROW_DOWN);
    assert_eq!(cursor(&ed), 16);
    ed.process_input(KEY_ARROW_DOWN);
    assert_eq!(cursor(&ed), 16);
    ed.process_input(KEY_END);
    assert_eq!(cursor(&ed), 19);
    ed.process_input(KEY_ARROW_DOWN);
    assert_eq!(cursor(&ed), 19);
}

#[test]
fn home_and_end_snap_within_row() {
    let mut ed = editor_with((0..100).collect(), 15);
    for _ in 0..20 {
        ed.process_input(KEY_ARROW_RIGHT);
    }
    assert_eq!(cursor(&ed), 20);
    ed.process_input(KEY_HOME);
    assert_eq!(cursor(&ed), 16);
    ed.process_input(KEY_END);
    assert_eq!(cursor(&ed), 31);
    ed.process_input(KEY_CTRL_A);
    assert_eq!(cursor(&ed), 16);
    ed.process_input(KEY_CTRL_E);
    assert_eq!(cursor(&ed), 31);
}

#[test]
fn row_end_clamps_to_last_byte() {
    let mut ed = editor_with((0..20).collect(), 15);
    ed.process_input(KEY_ARROW_DOWN);
    ed.process_input(KEY_END);
    assert_eq!(cursor(&ed), 19);
}

#[test]
fn file_start_then_home_is_noop_on_cursor() {
    let mut ed = editor_with((0..100).collect(), 15);
    for _ in 0..50 {
        ed.process_input(KEY_ARROW_RIGHT);
    }
    ed.process_input(KEY_CTRL_HOME);
    assert_eq!(cursor(&ed), 0);
    assert_eq!(top(&ed), 0);
    ed.process_input(KEY_HOME);
    assert_eq!(cursor(&ed), 0);
}

#[test]
fn file_end_twice_gives_same_cursor() {
    let mut ed = editor_with((0..1000).map(|i| (i % 256) as u8).collect(), 15);
    ed.process_input(KEY_CTRL_END);
    let c1 = cursor(&ed);
    let t1 = top(&ed);
    ed.process_input(KEY_CTRL_END);
    assert_eq!(cursor(&ed), c1);
    assert_eq!(top(&ed), t1);
    assert_eq!(c1, 999);
}

#[test]
fn paging_moves_one_page_and_clamps() {
    // 1000 bytes = 63 rows, body = 10
    let mut ed = editor_with((0..1000).map(|i| (i % 256) as u8).collect(), 15);
    ed.process_input(KEY_PAGE_DOWN);
    assert_eq!(cursor(&ed), 160);
    assert_eq!(top(&ed), 10);
    ed.process_input(KEY_PAGE_UP);
    assert_eq!(cursor(&ed), 0);
    assert_eq!(top(&ed), 0);
    ed.process_input(KEY_PAGE_UP);
    assert_eq!(cursor(&ed), 0);
    for _ in 0..20 {
        ed.process_input(KEY_PAGE_DOWN);
    }
    assert_eq!(cursor(&ed), 999);
    // the window never scrolls the last data row above the bottom
    assert!(top(&ed) + 10 <= 63);
    // and the cursor's row stays visible
    assert!(top(&ed) <= 999 / 16 && 999 / 16 < top(&ed) + 10);
}

#[test]
fn cursor_stays_in_bounds_under_key_mixture() {
    let keys = [
        KEY_ARROW_DOWN, KEY_ARROW_RIGHT, KEY_PAGE_DOWN, KEY_END, KEY_ARROW_UP, KEY_PAGE_UP,
        KEY_ARROW_LEFT, KEY_HOME, KEY_CTRL_END, KEY_ARROW_DOWN, KEY_PAGE_DOWN, KEY_CTRL_HOME,
    ];
    for len in [0usize, 1, 15, 16, 17, 159, 160, 161, 1000] {
        let mut ed = editor_with((0..len).map(|i| (i % 256) as u8).collect(), 15);
        for _ in 0..3 {
            for k in keys {
                ed.process_input(k);
                let c = cursor(&ed);
                assert!(c < len.max(1), "len {} cursor {}", len, c);
                if len > 16 * 10 {
                    let row = c / 16;
                    assert!(top(&ed) <= row && row < top(&ed) + 10);
                }
            }
        }
    }
}

#[test]
fn empty_file_keys_are_noops() {
    let mut ed = editor_with(Vec::new(), 15);
    assert_eq!(cursor(&ed), 0);
    ed.process_input(KEY_END);
    assert_eq!(cursor(&ed), 0);
    ed.process_input(KEY_PAGE_DOWN);
    assert_eq!(cursor(&ed), 0);
    ed.process_input(KEY_ARROW_DOWN);
    assert_eq!(cursor(&ed), 0);
    ed.process_input(KEY_CTRL_END);
    assert_eq!(cursor(&ed), 0);
    assert_eq!(top(&ed), 0);
}

#[test]
fn quit_key_sets_quit_flag() {
    let mut ed = editor_with(vec![1, 2, 3], 15);
    assert!(!ed.quit);
    ed.process_input(KEY_CTRL_X);
    assert!(ed.quit);
}

#[test]
fn help_key_sets_status_message() {
    let mut ed = editor_with(vec![1, 2, 3], 15);
    ed.process_input(KEY_CTRL_G);
    assert_eq!(
        ed.screen.msg.as_deref(),
        Some(b"Help is not available just yet".as_slice())
    );
    // any other key clears the message again
    ed.process_input(KEY_ARROW_RIGHT);
    assert!(ed.screen.msg.is_none());
}

#[test]
fn file_switching_wraps_around() {
    let mut ed = Editor::new();
    assert!(ed.screen.init(80, 15));
    ed.add_file(File::from_data(vec![1], b"a".to_vec()));
    ed.add_file(File::from_data(vec![2], b"b".to_vec()));
    ed.add_file(File::from_data(vec![3], b"c".to_vec()));
    assert_eq!(ed.cur_file().unwrap().filename.as_deref(), Some(b"c".as_slice()));
    ed.process_input(KEY_ALT_PERIOD);
    assert_eq!(ed.cur_file().unwrap().filename.as_deref(), Some(b"a".as_slice()));
    ed.process_input(KEY_ALT_COMMA);
    assert_eq!(ed.cur_file().unwrap().filename.as_deref(), Some(b"c".as_slice()));
    ed.process_input(KEY_ALT_COMMA);
    assert_eq!(ed.cur_file().unwrap().filename.as_deref(), Some(b"b".as_slice()));
}

#[test]
fn add_file_replaces_untouched_empty_buffer() {
    let mut ed = Editor::new();
    assert!(ed.screen.init(80, 15));
    ed.add_file(File::new());
    assert_eq!(ed.file_count(), 1);
    ed.add_file(File::from_data(vec![9], b"x".to_vec()));
    assert_eq!(ed.file_count(), 1);
    assert_eq!(ed.cur_file().unwrap().filename.as_deref(), Some(b"x".as_slice()));
}

#[test]
fn remove_cur_file_drops_current() {
    let mut ed = Editor::new();
    assert!(ed.screen.init(80, 15));
    ed.add_file(File::from_data(vec![1], b"a".to_vec()));
    ed.add_file(File::from_data(vec![2], b"b".to_vec()));
    ed.remove_cur_file();
    assert_eq!(ed.file_count(), 1);
    assert_eq!(ed.cur_file().unwrap().filename.as_deref(), Some(b"a".as_slice()));
    ed.remove_cur_file();
    assert_eq!(ed.file_count(), 0);
    assert!(ed.cur_file().is_none());
}

#[test]
fn unknown_keys_are_ignored_in_default_mode() {
    let mut ed = editor_with(vec![1, 2, 3], 15);
    let r = ed.process_input(hedr::keys::KEY_UNKNOWN);
    assert!(matches!(r, Action::Nothing));
    assert_eq!(cursor(&ed), 0);
    assert!(!ed.quit);
    assert!(matches!(ed.mode, EditorMode::Default));
}

#[test]
fn cur_file_mut_reaches_current_document() {
    let mut ed = editor_with(vec![1, 2, 3], 15);
    assert_eq!(ed.cur_file_mut().unwrap().data, vec![1, 2, 3]);
    let mut empty = Editor::new();
    assert!(empty.cur_file_mut().is_none());
}

#[test]
fn clear_msg_drops_status_message() {
    let mut ed = editor_with(vec![1], 15);
    ed.show_msg(b"note".to_vec());
    assert!(ed.screen.msg.is_some());
    ed.clear_msg();
    assert!(ed.screen.msg.is_none());
    assert!(ed.screen.redraw_needed);
}
