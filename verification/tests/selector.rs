use hedr::file_sel::{FileEntry, FileSel, SelAction};
use hedr::keys::{KEY_ARROW_DOWN, KEY_ARROW_UP, KEY_CTRL_C, KEY_ENTER};

fn entry(name: &str, is_dir: bool) -> FileEntry {
    FileEntry { name: name.as_bytes().to_vec(), is_dir }
}

fn names(sel: &FileSel) -> Vec<Vec<u8>> {
    sel.files.iter().map(|e| e.name.clone()).collect()
}

#[test]
fn listing_sorts_dirs_first_then_lexicographic() {
    let mut sel = FileSel::new();
    sel.set_entries(vec![entry("b.txt", false), entry("a", true), entry("c", true)]);
    assert_eq!(
        names(&sel),
        vec![b"..".to_vec(), b"a".to_vec(), b"c".to_vec(), b"b.txt".to_vec()]
    );
    assert_eq!(sel.sel_index, 0);
    assert_eq!(sel.top_index, 0);
}

#[test]
fn listing_sorts_names_bytewise() {
    let mut sel = FileSel::new();
    sel.set_entries(vec![
        entry("zz", false),
        entry("aa", false),
        entry("ab", false),
        entry("a", false),
    ]);
    assert_eq!(
        names(&sel),
        vec![
            b"..".to_vec(),
            b"a".to_vec(),
            b"aa".to_vec(),
            b"ab".to_vec(),
            b"zz".to_vec()
        ]
    );
}

#[test]
fn selection_moves_and_clamps() {
    let mut sel = FileSel::new();
    sel.set_entries(vec![entry("x", false), entry("y", false)]);
    // entries: "..", "x", "y"
    assert!(matches!(sel.handle_key(KEY_ARROW_UP, 10), SelAction::Ignore));
    assert_eq!(sel.sel_index, 0);
    sel.handle_key(KEY_ARROW_DOWN, 10);
    assert_eq!(sel.sel_index, 1);
    sel.handle_key(KEY_ARROW_DOWN, 10);
    sel.handle_key(KEY_ARROW_DOWN, 10);
    assert_eq!(sel.sel_index, 2);
    sel.handle_key(KEY_ARROW_UP, 10);
    assert_eq!(sel.sel_index, 1);
}

#[test]
fn selection_scrolls_to_stay_visible() {
    let mut sel = FileSel::new();
    let mut es = Vec::new();
    for i in 0..30 {
        es.push(entry(&format!("f{:02}", i), false));
    }
    sel.set_entries(es);
    // body of 5 rows
    for _ in 0..10 {
        sel.handle_key(KEY_ARROW_DOWN, 5);
    }
    assert_eq!(sel.sel_index, 10);
    assert!(sel.top_index <= 10 && 10 < sel.top_index + 5);
}

#[test]
fn enter_on_directory_asks_to_list_it() {
    let mut sel = FileSel::new();
    sel.set_entries(vec![entry("sub", true), entry("f.bin", false)]);
    // entries: "..", "sub", "f.bin"
    sel.handle_key(KEY_ARROW_DOWN, 10);
    match sel.handle_key(KEY_ENTER, 10) {
        SelAction::EnterDir(name) => assert_eq!(name, b"sub".to_vec()),
        _ => panic!("expected a directory entry"),
    }
    // the confirmed entry was taken out of the list
    assert_eq!(names(&sel), vec![b"..".to_vec(), b"f.bin".to_vec()]);
}

#[test]
fn enter_on_file_selects_it() {
    let mut sel = FileSel::new();
    sel.set_entries(vec![entry("sub", true), entry("f.bin", false)]);
    sel.handle_key(KEY_ARROW_DOWN, 10);
    sel.handle_key(KEY_ARROW_DOWN, 10);
    match sel.handle_key(KEY_ENTER, 10) {
        SelAction::Selected(name) => assert_eq!(name, b"f.bin".to_vec()),
        _ => panic!("expected a file entry"),
    }
}

#[test]
fn cancel_leaves_selector() {
    let mut sel = FileSel::new();
    sel.set_entries(vec![entry("x", false)]);
    assert!(matches!(sel.handle_key(KEY_CTRL_C, 10), SelAction::Cancel));
}

#[test]
fn selector_render_lists_entries() {
    let mut sel = FileSel::new();
    sel.set_entries(vec![entry("alpha", true), entry("beta.bin", false)]);
    let mut scr = hedr::screen::Screen::new();
    assert!(scr.init(80, 10));
    let out = sel.render(&scr);
    let hay = out.as_slice();
    assert!(contains(hay, b" Select File"));
    assert!(contains(hay, b" hedx v0.1"));
    assert!(contains(hay, b"Cancel"));
    assert!(contains(hay, b"alpha"));
    assert!(contains(hay, b"(dir)"));
    assert!(contains(hay, b"beta.bin"));
    assert!(contains(hay, b"0 bytes"));
    assert!(contains(hay, b".."));
}

fn contains(hay: &[u8], needle: &[u8]) -> bool {
    hay.windows(needle.len()).any(|w| w == needle)
}

#[test]
fn selector_render_truncates_long_names() {
    let mut sel = FileSel::new();
    sel.set_entries(vec![entry("abcdefghijklmno", false)]);
    let mut scr = hedr::screen::Screen::new();
    // 30 columns leave a 10-byte name column before the kind tag
    assert!(scr.init(30, 10));
    let out = sel.render(&scr);
    assert!(contains(out.as_slice(), b"abcdefgh..."));
    assert!(!contains(out.as_slice(), b"abcdefghi..."));
}

#[test]
fn selector_render_narrow_terminal_shows_no_rows() {
    let mut sel = FileSel::new();
    sel.set_entries(vec![entry("somefile", false)]);
    let mut scr = hedr::screen::Screen::new();
    assert!(scr.init(19, 10));
    let out = sel.render(&scr);
    assert!(contains(out.as_slice(), b" Select File"));
    assert!(!contains(out.as_slice(), b"somefile"));
}
