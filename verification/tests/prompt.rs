use hedr::editor::{Action, Editor, EditorMode};
use hedr::file::File;
use hedr::keys::{
    KEY_ARROW_LEFT, KEY_ARROW_RIGHT, KEY_BACKSPACE, KEY_CTRL_A, KEY_CTRL_C, KEY_CTRL_E,
    KEY_CTRL_R, KEY_CTRL_T, KEY_END, KEY_ENTER, KEY_HOME,
};

fn editor() -> Editor {
    let mut ed = Editor::new();
    assert!(ed.screen.init(80, 15));
    ed.add_file(File::from_data(vec![0], b"t".to_vec()));
    ed
}

fn type_str(ed: &mut Editor, s: &str) {
    for b in s.bytes() {
        ed.process_input(b as u32);
    }
}

#[test]
fn ctrl_r_opens_read_file_prompt() {
    let mut ed = editor();
    ed.process_input(KEY_CTRL_R);
    assert!(matches!(ed.mode, EditorMode::ReadFilename));
    assert_eq!(ed.prompt_label, b"Read file".to_vec());
    assert_eq!(ed.prompt_text, Vec::<u8>::new());
    assert_eq!(ed.prompt_cursor, 0);
}

#[test]
fn typed_filename_is_submitted_on_enter() {
    let mut ed = editor();
    ed.process_input(KEY_CTRL_R);
    type_str(&mut ed, "notes.txt");
    match ed.process_input(KEY_ENTER) {
        Action::ReadFile(name) => assert_eq!(name, b"notes.txt".to_vec()),
        _ => panic!("expected a read-file action"),
    }
    assert!(matches!(ed.mode, EditorMode::Default));
}

#[test]
fn prompt_insert_at_cursor_shifts_text() {
    let mut ed = editor();
    ed.process_input(KEY_CTRL_R);
    type_str(&mut ed, "ac");
    ed.process_input(KEY_ARROW_LEFT);
    type_str(&mut ed, "b");
    assert_eq!(ed.prompt_text, b"abc".to_vec());
    assert_eq!(ed.prompt_cursor, 2);
}

#[test]
fn prompt_backspace_removes_before_cursor() {
    let mut ed = editor();
    ed.process_input(KEY_CTRL_R);
    type_str(&mut ed, "abc");
    ed.process_input(KEY_BACKSPACE);
    assert_eq!(ed.prompt_text, b"ab".to_vec());
    ed.process_input(KEY_HOME);
    ed.process_input(KEY_BACKSPACE);
    assert_eq!(ed.prompt_text, b"ab".to_vec());
    ed.process_input(127);
    assert_eq!(ed.prompt_text, b"ab".to_vec());
}

#[test]
fn prompt_cursor_moves_clamp() {
    let mut ed = editor();
    ed.process_input(KEY_CTRL_R);
    type_str(&mut ed, "xy");
    ed.process_input(KEY_ARROW_RIGHT);
    assert_eq!(ed.prompt_cursor, 2);
    ed.process_input(KEY_CTRL_A);
    assert_eq!(ed.prompt_cursor, 0);
    ed.process_input(KEY_ARROW_LEFT);
    assert_eq!(ed.prompt_cursor, 0);
    ed.process_input(KEY_CTRL_E);
    assert_eq!(ed.prompt_cursor, 2);
    ed.process_input(KEY_END);
    assert_eq!(ed.prompt_cursor, 2);
}

#[test]
fn prompt_cancel_returns_to_default_mode() {
    let mut ed = editor();
    ed.process_input(KEY_CTRL_R);
    type_str(&mut ed, "zz");
    let r = ed.process_input(KEY_CTRL_C);
    assert!(matches!(r, Action::Cancelled));
    assert!(matches!(ed.mode, EditorMode::Default));
}

#[test]
fn ctrl_t_jumps_to_file_selector_only_from_filename_prompt() {
    let mut ed = editor();
    ed.process_input(KEY_CTRL_R);
    let r = ed.process_input(KEY_CTRL_T);
    assert!(matches!(r, Action::OpenFileSelector));
    // a free-text prompt has no jump key
    ed.process_input(KEY_CTRL_C);
    ed.begin_string_prompt(b"Search".to_vec());
    let r2 = ed.process_input(KEY_CTRL_T);
    assert!(matches!(r2, Action::Nothing));
}

#[test]
fn selector_result_is_submitted_as_filename() {
    let mut ed = editor();
    ed.process_input(KEY_CTRL_R);
    assert!(matches!(ed.process_input(KEY_CTRL_T), Action::OpenFileSelector));
    match ed.file_selected(b"/tmp/pick.bin".to_vec()) {
        Action::ReadFile(name) => assert_eq!(name, b"/tmp/pick.bin".to_vec()),
        _ => panic!("expected a read-file action"),
    }
    assert!(matches!(ed.mode, EditorMode::Default));
}

#[test]
fn string_prompt_submits_text() {
    let mut ed = editor();
    ed.begin_string_prompt(b"Search".to_vec());
    assert!(matches!(ed.mode, EditorMode::ReadString));
    type_str(&mut ed, "hello");
    match ed.process_input(KEY_ENTER) {
        Action::Submitted(t) => assert_eq!(t, b"hello".to_vec()),
        _ => panic!("expected submitted text"),
    }
}

#[test]
fn yes_no_prompt_answers() {
    let mut ed = editor();
    ed.begin_yes_no_prompt(b"Save changes?".to_vec());
    assert!(matches!(ed.mode, EditorMode::ReadYesNo));
    // an unrelated key is ignored
    assert!(matches!(ed.process_input(b'q' as u32), Action::Nothing));
    assert!(matches!(ed.mode, EditorMode::ReadYesNo));
    assert!(matches!(ed.process_input(b'y' as u32), Action::Answered(true)));
    assert!(matches!(ed.mode, EditorMode::Default));

    ed.begin_yes_no_prompt(b"Save changes?".to_vec());
    assert!(matches!(ed.process_input(b'Y' as u32), Action::Answered(true)));

    ed.begin_yes_no_prompt(b"Save changes?".to_vec());
    assert!(matches!(ed.process_input(b'n' as u32), Action::Answered(false)));

    ed.begin_yes_no_prompt(b"Save changes?".to_vec());
    assert!(matches!(ed.process_input(b'N' as u32), Action::Answered(false)));

    ed.begin_yes_no_prompt(b"Save changes?".to_vec());
    assert!(matches!(ed.process_input(KEY_CTRL_C), Action::Cancelled));
    assert!(matches!(ed.mode, EditorMode::Default));
}
