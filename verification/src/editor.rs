//! The editor controller: the set of open documents, the current input
//! mode, and the navigation commands that move the cursor and the scroll
//! anchor while keeping the cursor visible.

use vstd::prelude::*;

use crate::file::{File, spec_last_line, spec_row};
use crate::keys::{
    KEY_ARROW_UP, KEY_ARROW_DOWN, KEY_ARROW_LEFT, KEY_ARROW_RIGHT, KEY_HOME, KEY_END,
    KEY_CTRL_HOME, KEY_CTRL_END, KEY_PAGE_UP, KEY_PAGE_DOWN, KEY_ENTER, KEY_BACKSPACE,
    KEY_DEL_BYTE, KEY_CTRL_A, KEY_CTRL_C, KEY_CTRL_E, KEY_CTRL_G, KEY_CTRL_L, KEY_CTRL_O,
    KEY_CTRL_R, KEY_CTRL_T, KEY_CTRL_X, KEY_ALT_COMMA, KEY_ALT_PERIOD,
};
use crate::screen::{
    Screen, Color, push_str, push_hex, push_spaces, set_color, reset_color, clear_eol,
    spec_move_cursor, spec_set_color, spec_reset_color, spec_clear_eol, spec_hex, spec_spaces,
};

verus! {

use vstd::string::StringSliceAdditionalSpecFns;

/// Number of terminal rows above the hex body.
pub const HEADER_LINES: i32 = 2;

/// Number of terminal rows below the hex body.
pub const FOOTER_LINES: i32 = 3;

/// Rows of the terminal not available to the hex body.
pub const BORDER_LINES: i32 = 5;

/// Column width of one key-legend cell in the footer.
pub const SHORTCUT_SPACING: i32 = 16;

/// Which kind of input the editor is currently reading: plain navigation,
/// or one of the modal prompts layered over the footer.
#[derive(Copy, Clone, PartialEq, Eq, Structural)]
pub enum EditorMode {
    Default,
    ReadFilename,
    ReadString,
    ReadYesNo,
}

/// The editor: screen state, open documents, and the modal input state.
pub struct Editor {
    pub screen: Screen,
    pub quit: bool,
    pub files: Vec<File>,
    pub cur_file: usize,
    pub mode: EditorMode,
    pub prompt_label: Vec<u8>,
    pub prompt_text: Vec<u8>,
    pub prompt_cursor: usize,
}

/// Cursor offset after moving one byte left: clamps at 0.
pub open spec fn spec_move_left(c: int) -> int {
    if c > 0 {
        c - 1
    } else {
        c
    }
}

/// Cursor offset after moving one byte right: clamps at the last byte.
pub open spec fn spec_move_right(c: int, len: int) -> int {
    if c + 1 < len {
        c + 1
    } else if len > 0 {
        len - 1
    } else {
        0
    }
}

/// Cursor offset after moving one row up: a no-op on the first row.
pub open spec fn spec_move_up(c: int) -> int {
    if c >= 16 {
        c - 16
    } else {
        c
    }
}

/// Cursor offset after moving one row down: a no-op when no byte exists
/// one row below.
pub open spec fn spec_move_down(c: int, len: int) -> int {
    if c + 16 < len {
        c + 16
    } else {
        c
    }
}

/// Cursor offset after snapping to the start of its row.
pub open spec fn spec_home(c: int) -> int {
    (c / 16) * 16
}

/// Cursor offset after snapping to the end of its row, clamped to the
/// last byte of the buffer.
pub open spec fn spec_row_end(c: int, len: int) -> int {
    let e = (c / 16) * 16 + 15;
    if len == 0 {
        0
    } else if e >= len {
        len - 1
    } else {
        e
    }
}

/// Cursor offset after jumping to the last byte (0 when empty).
pub open spec fn spec_end_of_file(len: int) -> int {
    if len > 0 {
        len - 1
    } else {
        0
    }
}

/// Cursor offset after moving one page up: clamps at 0.
pub open spec fn spec_page_up_cursor(c: int, body: int) -> int {
    if c >= 16 * body {
        c - 16 * body
    } else {
        0
    }
}

/// Scroll anchor after moving one page up: shifts with the cursor,
/// clamping at the first row.
pub open spec fn spec_page_up_top(c: int, t: int, body: int) -> int {
    if c >= 16 * body {
        if t > body {
            t - body
        } else {
            0
        }
    } else {
        t
    }
}

/// Cursor offset after moving one page down: a full page when one fits,
/// else a jump to the last byte.
pub open spec fn spec_page_down_cursor(c: int, len: int, body: int) -> int {
    if c + 16 * body < len {
        c + 16 * body
    } else if len > 0 {
        len - 1
    } else {
        0
    }
}

/// Scroll anchor after moving one page down: shifts with the cursor but
/// never scrolls the last data row above the window bottom.
pub open spec fn spec_page_down_top(c: int, t: int, len: int, body: int) -> int {
    let last = spec_last_line(len);
    if c + 16 * body < len {
        if t + body + body > last {
            if last > body {
                last - body
            } else {
                0
            }
        } else {
            t + body
        }
    } else {
        t
    }
}

/// The recentering rule: if the cursor's row (or the row of the byte
/// `vla` past it, the look-ahead) has left the window of `body` rows at
/// anchor `t`, pick a new anchor: the top for a cursor in the first
/// half-page, else half a page above the cursor's row, clamped so the
/// window never runs past the last data row.
pub open spec fn spec_ensure_visible(c: int, t: int, len: int, body: int, vla: int) -> int {
    let last = spec_last_line(len);
    if !(spec_row(c) >= t && spec_row(c + vla) >= t && spec_row(c) < t + body && spec_row(c + vla)
        < t + body) {
        if spec_row(c) < body / 2 {
            0
        } else {
            let t2 = spec_row(c) - body / 2;
            if t2 + body > last {
                last - body
            } else {
                t2
            }
        }
    } else {
        t
    }
}

/// Everything a navigation command leaves alone: the document list shape,
/// the current-document index, the mode and prompt, the screen geometry
/// and message, and the bytes and name of every document. The screen is
/// marked dirty.
pub open spec fn spec_nav_keeps_rest(pre: Editor, post: Editor) -> bool {
    &&& post.files().len() == pre.files().len()
    &&& post.cur() == pre.cur()
    &&& post.quit == pre.quit
    &&& post.mode() == pre.mode()
    &&& post.prompt_label() == pre.prompt_label()
    &&& post.prompt_text() == pre.prompt_text()
    &&& post.prompt_cursor() == pre.prompt_cursor()
    &&& post.screen.w == pre.screen.w
    &&& post.screen.h == pre.screen.h
    &&& post.screen.msg == pre.screen.msg
    &&& post.screen.msg_was_set == pre.screen.msg_was_set
    &&& post.screen.redraw_needed
    &&& forall|i: int|
        0 <= i < pre.files().len() && i != pre.cur() ==> post.files()[i] == pre.files()[i]
    &&& pre.files().len() > 0 ==> {
        let f = pre.files()[pre.cur()];
        let g = post.files()[pre.cur()];
        g.data == f.data && g.filename == f.filename && g.modified == f.modified
    }
    &&& pre.files().len() == 0 ==> post.files() == pre.files()
}

/// What a key press asks of the caller, beyond the state change: nothing,
/// wipe the terminal, open a named file, hand back submitted text, note a
/// cancelled prompt, run the directory selector, or a yes/no answer.
pub enum Action {
    Nothing,
    ClearTerminal,
    ReadFile(Vec<u8>),
    Submitted(Vec<u8>),
    Cancelled,
    OpenFileSelector,
    Answered(bool),
}

/// A navigation key in default mode: the current document's cursor moves
/// to `c2` and its anchor to `t2`, the status message is cleared, the
/// screen is marked dirty, and nothing else changes.
pub open spec fn spec_nav_key_step(pre: Editor, post: Editor, c2: int, t2: int) -> bool {
    &&& post.files().len() == pre.files().len()
    &&& post.cur() == pre.cur()
    &&& post.quit == pre.quit
    &&& post.mode() == pre.mode()
    &&& post.prompt_label() == pre.prompt_label()
    &&& post.prompt_text() == pre.prompt_text()
    &&& post.prompt_cursor() == pre.prompt_cursor()
    &&& post.screen.w == pre.screen.w
    &&& post.screen.h == pre.screen.h
    &&& post.screen.msg is None
    &&& post.screen.msg_was_set
    &&& post.screen.redraw_needed
    &&& forall|i: int|
        0 <= i < pre.files().len() && i != pre.cur() ==> post.files()[i] == pre.files()[i]
    &&& pre.files().len() > 0 ==> {
        let f = pre.files()[pre.cur()];
        let g = post.files()[pre.cur()];
        &&& g.cursor_pos == c2
        &&& g.top_line == t2
        &&& g.data == f.data && g.filename == f.filename && g.modified == f.modified
    }
    &&& pre.files().len() == 0 ==> post.files() == pre.files()
}

/// A file-switching key in default mode: only the current-document index
/// changes (to `newcur`), the message is cleared, and the screen marked
/// dirty.
pub open spec fn spec_switch_file_step(pre: Editor, post: Editor, newcur: int) -> bool {
    &&& post.files() == pre.files()
    &&& post.cur() == newcur
    &&& post.quit == pre.quit
    &&& post.mode() == pre.mode()
    &&& post.prompt_label() == pre.prompt_label()
    &&& post.prompt_text() == pre.prompt_text()
    &&& post.prompt_cursor() == pre.prompt_cursor()
    &&& post.screen.w == pre.screen.w
    &&& post.screen.h == pre.screen.h
    &&& post.screen.msg is None
    &&& post.screen.msg_was_set
    &&& post.screen.redraw_needed
}

/// A key that only shows a status message: the message becomes `text`,
/// the screen is marked dirty, and nothing else changes.
pub open spec fn spec_msg_key_step(pre: Editor, post: Editor, text: Seq<u8>) -> bool {
    &&& (post.screen.msg matches Some(m) && m@ == text)
    &&& post == Editor {
        screen: Screen { msg: post.screen.msg, msg_was_set: true, redraw_needed: true, ..pre.screen },
        ..pre
    }
}

/// The full transition of one key in default (navigation) mode.
pub open spec fn spec_default_step(pre: Editor, post: Editor, key: u32, r: Action) -> bool {
    let f = pre.cur_doc();
    let c = f.cursor_pos as int;
    let t = f.top_line as int;
    let len = f.data@.len() as int;
    let body = pre.body_lines();
    let nfiles = pre.files().len() as int;
    if key == KEY_CTRL_X {
        &&& post == Editor {
            quit: true,
            screen: Screen { msg_was_set: false, ..pre.screen },
            ..pre
        }
        &&& r == Action::Nothing
    } else if key == KEY_CTRL_L {
        &&& post == Editor {
            screen: Screen { msg: None, msg_was_set: true, redraw_needed: true, ..pre.screen },
            ..pre
        }
        &&& r == Action::ClearTerminal
    } else if key == KEY_CTRL_G {
        &&& spec_msg_key_step(pre, post, "Help is not available just yet".spec_bytes())
        &&& r == Action::Nothing
    } else if key == KEY_CTRL_O {
        &&& spec_msg_key_step(pre, post, "Writing files not implemented".spec_bytes())
        &&& r == Action::Nothing
    } else if key == KEY_CTRL_R {
        &&& post.mode() == EditorMode::ReadFilename
        &&& post.prompt_label() == "Read file".spec_bytes()
        &&& post.prompt_text().len() == 0
        &&& post.prompt_cursor() == 0
        &&& post.files() == pre.files()
        &&& post.cur() == pre.cur()
        &&& post.quit == pre.quit
        &&& post.screen.w == pre.screen.w
        &&& post.screen.h == pre.screen.h
        &&& post.screen.msg is None
        &&& post.screen.msg_was_set
        &&& post.screen.redraw_needed
        &&& r == Action::Nothing
    } else if key == KEY_CTRL_A || key == KEY_HOME {
        &&& spec_nav_key_step(pre, post, spec_home(c), t)
        &&& r == Action::Nothing
    } else if key == KEY_CTRL_E || key == KEY_END {
        &&& spec_nav_key_step(pre, post, spec_row_end(c, len), t)
        &&& r == Action::Nothing
    } else if key == KEY_ARROW_UP {
        &&& spec_nav_key_step(
            pre,
            post,
            spec_move_up(c),
            spec_ensure_visible(spec_move_up(c), t, len, body, 0),
        )
        &&& r == Action::Nothing
    } else if key == KEY_ARROW_DOWN {
        &&& spec_nav_key_step(
            pre,
            post,
            spec_move_down(c, len),
            spec_ensure_visible(spec_move_down(c, len), t, len, body, 0),
        )
        &&& r == Action::Nothing
    } else if key == KEY_ARROW_LEFT {
        &&& spec_nav_key_step(
            pre,
            post,
            spec_move_left(c),
            spec_ensure_visible(spec_move_left(c), t, len, body, 0),
        )
        &&& r == Action::Nothing
    } else if key == KEY_ARROW_RIGHT {
        &&& spec_nav_key_step(
            pre,
            post,
            spec_move_right(c, len),
            spec_ensure_visible(spec_move_right(c, len), t, len, body, 0),
        )
        &&& r == Action::Nothing
    } else if key == KEY_CTRL_HOME {
        &&& spec_nav_key_step(pre, post, 0, 0)
        &&& r == Action::Nothing
    } else if key == KEY_CTRL_END {
        &&& spec_nav_key_step(
            pre,
            post,
            spec_end_of_file(len),
            spec_ensure_visible(spec_end_of_file(len), t, len, body, 1),
        )
        &&& r == Action::Nothing
    } else if key == KEY_PAGE_UP {
        &&& spec_nav_key_step(
            pre,
            post,
            spec_page_up_cursor(c, body),
            spec_ensure_visible(
                spec_page_up_cursor(c, body),
                spec_page_up_top(c, t, body),
                len,
                body,
                0,
            ),
        )
        &&& r == Action::Nothing
    } else if key == KEY_PAGE_DOWN {
        &&& spec_nav_key_step(
            pre,
            post,
            spec_page_down_cursor(c, len, body),
            spec_ensure_visible(
                spec_page_down_cursor(c, len, body),
                spec_page_down_top(c, t, len, body),
                len,
                body,
                0,
            ),
        )
        &&& r == Action::Nothing
    } else if key == KEY_ALT_COMMA {
        &&& spec_switch_file_step(
            pre,
            post,
            if nfiles > 0 {
                (pre.cur() + nfiles - 1) % nfiles
            } else {
                pre.cur()
            },
        )
        &&& r == Action::Nothing
    } else if key == KEY_ALT_PERIOD {
        &&& spec_switch_file_step(
            pre,
            post,
            if nfiles > 0 {
                (pre.cur() + 1) % nfiles
            } else {
                pre.cur()
            },
        )
        &&& r == Action::Nothing
    } else {
        &&& post == Editor {
            screen: Screen { msg: None, msg_was_set: true, redraw_needed: true, ..pre.screen },
            ..pre
        }
        &&& r == Action::Nothing
    }
}

/// The full transition of one key while a text prompt (filename or free
/// string) is active.
pub open spec fn spec_prompt_step(pre: Editor, post: Editor, key: u32, r: Action) -> bool {
    let text = pre.prompt_text();
    let cur = pre.prompt_cursor();
    if key == KEY_CTRL_C {
        &&& post == Editor {
            mode: EditorMode::Default,
            screen: Screen { redraw_needed: true, ..pre.screen },
            ..pre
        }
        &&& r == Action::Cancelled
    } else if key == KEY_ENTER {
        &&& post == Editor {
            mode: EditorMode::Default,
            screen: Screen { redraw_needed: true, ..pre.screen },
            ..pre
        }
        &&& if pre.mode() == EditorMode::ReadFilename {
            r matches Action::ReadFile(t) && t@ == text
        } else {
            r matches Action::Submitted(t) && t@ == text
        }
    } else if 32 <= key && key < 127 {
        &&& post.prompt_text() == text.insert(cur, key as u8)
        &&& post.prompt_cursor() == cur + 1
        &&& post == Editor {
            prompt_text: post.prompt_text,
            prompt_cursor: post.prompt_cursor,
            ..pre
        }
        &&& r == Action::Nothing
    } else if key == KEY_BACKSPACE || key == KEY_DEL_BYTE {
        &&& if cur > 0 {
            post.prompt_text() == text.remove(cur - 1) && post.prompt_cursor() == cur - 1
        } else {
            post.prompt_text() == text && post.prompt_cursor() == cur
        }
        &&& post == Editor {
            prompt_text: post.prompt_text,
            prompt_cursor: post.prompt_cursor,
            ..pre
        }
        &&& r == Action::Nothing
    } else if key == KEY_CTRL_A || key == KEY_HOME {
        &&& post == Editor { prompt_cursor: 0, ..pre }
        &&& r == Action::Nothing
    } else if key == KEY_CTRL_E || key == KEY_END {
        &&& post.prompt_cursor() == text.len()
        &&& post == Editor { prompt_cursor: post.prompt_cursor, ..pre }
        &&& r == Action::Nothing
    } else if key == KEY_CTRL_T && pre.mode() == EditorMode::ReadFilename {
        &&& post == pre
        &&& r == Action::OpenFileSelector
    } else if key == KEY_ARROW_LEFT {
        &&& post.prompt_cursor() == if cur > 0 {
            cur - 1
        } else {
            0int
        }
        &&& post == Editor { prompt_cursor: post.prompt_cursor, ..pre }
        &&& r == Action::Nothing
    } else if key == KEY_ARROW_RIGHT {
        &&& post.prompt_cursor() == if cur < text.len() {
            cur + 1
        } else {
            cur
        }
        &&& post == Editor { prompt_cursor: post.prompt_cursor, ..pre }
        &&& r == Action::Nothing
    } else {
        &&& post == pre
        &&& r == Action::Nothing
    }
}

/// The full transition of one key while the yes/no prompt is active:
/// `Y`/`y` answers yes, `N`/`n` answers no, `ctrl-C` cancels, anything
/// else is ignored.
pub open spec fn spec_yes_no_step(pre: Editor, post: Editor, key: u32, r: Action) -> bool {
    if key == KEY_CTRL_C {
        &&& post == Editor {
            mode: EditorMode::Default,
            screen: Screen { redraw_needed: true, ..pre.screen },
            ..pre
        }
        &&& r == Action::Cancelled
    } else if key == 89 || key == 121 {
        &&& post == Editor {
            mode: EditorMode::Default,
            screen: Screen { redraw_needed: true, ..pre.screen },
            ..pre
        }
        &&& r == Action::Answered(true)
    } else if key == 78 || key == 110 {
        &&& post == Editor {
            mode: EditorMode::Default,
            screen: Screen { redraw_needed: true, ..pre.screen },
            ..pre
        }
        &&& r == Action::Answered(false)
    } else {
        &&& post == pre
        &&& r == Action::Nothing
    }
}

/// If the cursor's row or its look-ahead row has left the window, the
/// data spans at least one full page: for a buffer short of one page
/// whose anchor sits at the top, every row of data is already visible.
proof fn lemma_violation_needs_full_page(c: int, t: int, len: int, body: int, vla: int)
    requires
        0 <= vla <= 1,
        body >= 1,
        len >= 0,
        len == 0 ==> c == 0,
        len > 0 ==> 0 <= c < len,
        if spec_last_line(len) > body {
            t + body <= spec_last_line(len)
        } else {
            t == 0
        },
        !(spec_row(c) >= t && spec_row(c + vla) >= t && spec_row(c) < t + body && spec_row(c + vla)
            < t + body),
    ensures
        spec_last_line(len) >= body,
        len > 0,
{
    let last = spec_last_line(len);
    crate::file::lemma_last_line_bounds(len);
    vstd::arithmetic::div_mod::lemma_div_pos_is_pos(c, 16);
    if len == 0 {
        vstd::arithmetic::div_mod::lemma_basic_div(c, 16);
        vstd::arithmetic::div_mod::lemma_basic_div(c + vla, 16);
        assert(false);
    }
    if last < body {
        crate::file::lemma_row_monotone(c, c + vla);
        crate::file::lemma_row_monotone(c + vla, len);
        assert(false);
    }
}

/// Everything the recentering step leaves alone: all editor state except
/// the scroll anchor of the current document.
pub open spec fn spec_keeps_all_but_top(pre: Editor, post: Editor) -> bool {
    &&& post.screen == pre.screen
    &&& post.quit == pre.quit
    &&& post.mode() == pre.mode()
    &&& post.prompt_label() == pre.prompt_label()
    &&& post.prompt_text() == pre.prompt_text()
    &&& post.prompt_cursor() == pre.prompt_cursor()
    &&& post.files().len() == pre.files().len()
    &&& post.cur() == pre.cur()
    &&& forall|i: int|
        0 <= i < pre.files().len() && i != pre.cur() ==> post.files()[i] == pre.files()[i]
    &&& pre.files().len() > 0 ==> {
        let f = pre.cur_doc();
        let g = post.cur_doc();
        g.cursor_pos == f.cursor_pos && g.data == f.data && g.filename == f.filename && g.modified
            == f.modified
    }
    &&& pre.files().len() == 0 ==> post.files() == pre.files()
}

/// A step that changes only the current document, leaving it with its
/// view invariant, keeps the whole editor well formed.
proof fn lemma_nav_wf(pre: Editor, post: Editor)
    requires
        pre.wf(),
        post.screen.wf(),
        post.files().len() == pre.files().len(),
        post.cur() == pre.cur(),
        post.body_lines() == pre.body_lines(),
        post.prompt_text() == pre.prompt_text(),
        post.prompt_cursor() == pre.prompt_cursor(),
        forall|i: int|
            0 <= i < pre.files().len() && i != pre.cur() ==> post.files()[i] == pre.files()[i],
        pre.files().len() > 0 ==> post.cur_doc().inv(post.body_lines()),
    ensures
        post.wf(),
{
    assert forall|i: int| 0 <= i < post.files().len() implies #[trigger] post.files()[i].inv(
        post.body_lines(),
    ) by {
        if i != pre.cur() {
            assert(pre.files()[i].inv(pre.body_lines()));
        }
    }
}

/// A navigation or message command that leaves the document list, the
/// screen geometry, and the body height alone preserves every document's
/// view invariant.
proof fn lemma_files_ok_preserved(pre: Editor, post: Editor)
    requires
        pre.files_ok(),
        post.files() == pre.files(),
        post.body_lines() == pre.body_lines(),
    ensures
        post.files_ok(),
{
    assert forall|i: int| 0 <= i < post.files().len() implies #[trigger] post.files()[i].inv(
        post.body_lines(),
    ) by {
        assert(pre.files()[i].inv(pre.body_lines()));
    }
}

impl Editor {
    /// The open documents.
    pub open spec fn files(&self) -> Seq<File> {
        self.files@
    }

    /// Index of the current document.
    pub open spec fn cur(&self) -> int {
        self.cur_file as int
    }

    /// The current input mode.
    pub open spec fn mode(&self) -> EditorMode {
        self.mode
    }

    /// The label of the active prompt.
    pub open spec fn prompt_label(&self) -> Seq<u8> {
        self.prompt_label@
    }

    /// The text entered into the active prompt.
    pub open spec fn prompt_text(&self) -> Seq<u8> {
        self.prompt_text@
    }

    /// The insertion position inside the prompt text.
    pub open spec fn prompt_cursor(&self) -> int {
        self.prompt_cursor as int
    }

    /// The current document, when one is open.
    pub open spec fn cur_doc(&self) -> File {
        self.files()[self.cur()]
    }

    /// Rows available to the hex body.
    pub open spec fn body_lines(&self) -> int {
        self.screen.h - BORDER_LINES
    }

    /// The current-document index stays inside the list (0 when empty).
    pub open spec fn idx_ok(&self) -> bool {
        if self.files().len() > 0 {
            self.cur() < self.files().len()
        } else {
            self.cur() == 0
        }
    }

    /// Every open document satisfies the view invariant for this screen.
    pub open spec fn files_ok(&self) -> bool {
        forall|i: int|
            0 <= i < self.files().len() ==> #[trigger] self.files()[i].inv(self.body_lines())
    }

    /// The editor invariant: a well-formed screen, a valid current-file
    /// index, every document's view invariant, and a prompt cursor inside
    /// the prompt text.
    pub open spec fn wf(&self) -> bool {
        &&& self.screen.wf()
        &&& self.idx_ok()
        &&& self.files_ok()
        &&& self.prompt_cursor() <= self.prompt_text().len()
    }

    /// A fresh editor: no documents, default mode, a blank screen model.
    pub fn new() -> (r: Editor)
        ensures
            r.files().len() == 0,
            r.cur() == 0,
            !r.quit,
            r.mode() == EditorMode::Default,
            r.prompt_text().len() == 0,
            r.prompt_cursor() == 0,
            r.screen.w == 0,
            r.screen.h == 0,
            !r.screen.redraw_needed,
            r.screen.msg is None,
    {
        Editor {
            screen: Screen::new(),
            quit: false,
            files: Vec::new(),
            cur_file: 0,
            mode: EditorMode::Default,
            prompt_label: Vec::new(),
            prompt_text: Vec::new(),
            prompt_cursor: 0,
        }
    }

    /// Number of open documents.
    pub fn file_count(&self) -> (r: usize)
        ensures
            r == self.files().len(),
    {
        self.files.len()
    }

    /// The current document, when one is open.
    pub fn cur_file(&self) -> (r: Option<&File>)
        requires
            self.idx_ok(),
        ensures
            self.files().len() > 0 ==> (r matches Some(f) && *f == self.cur_doc()),
            self.files().len() == 0 ==> r is None,
    {
        self.files.get(self.cur_file)
    }

    /// The current document, mutably, when one is open.
    pub fn cur_file_mut(&mut self) -> (r: Option<&mut File>)
        requires
            old(self).idx_ok(),
        ensures
            old(self).files().len() == 0 ==> r is None && *final(self) == *old(self),
            old(self).files().len() > 0 ==> (r matches Some(f) && *f == old(self).cur_doc()
                && final(self).files() == old(self).files().update(old(self).cur(), *final(f))
                && final(self).cur() == old(self).cur() && final(self).screen == old(self).screen
                && final(self).quit == old(self).quit && final(self).mode() == old(self).mode()
                && final(self).prompt_label == old(self).prompt_label
                && final(self).prompt_text == old(self).prompt_text
                && final(self).prompt_cursor == old(self).prompt_cursor),
    {
        if self.cur_file < self.files.len() {
            Some(&mut self.files[self.cur_file])
        } else {
            None
        }
    }

    /// Open a document and make it current; a single untouched empty
    /// initial buffer is replaced rather than kept alongside.
    pub fn add_file(&mut self, file: File)
        requires
            old(self).idx_ok(),
            file.cursor_pos == 0,
            file.top_line == 0,
        ensures
            final(self).files() == if old(self).files().len() == 1 && old(self).files()[0].data@.len()
                == 0 {
                seq![file]
            } else {
                old(self).files() + seq![file]
            },
            final(self).cur() == final(self).files().len() - 1,
            final(self).idx_ok(),
            old(self).wf() ==> final(self).wf(),
            final(self).screen == old(self).screen,
            final(self).quit == old(self).quit,
            final(self).mode() == old(self).mode(),
            final(self).prompt_label() == old(self).prompt_label(),
            final(self).prompt_text() == old(self).prompt_text(),
            final(self).prompt_cursor() == old(self).prompt_cursor(),
    {
        if self.files.len() == 1 && self.files[0].data.len() == 0 {
            // replace the initial empty buffer
            self.files.pop();
        }
        self.files.push(file);
        self.cur_file = self.files.len() - 1;
        proof {
            if old(self).wf() {
                let body = self.body_lines();
                assert forall|i: int| 0 <= i < self.files@.len() implies #[trigger] self.files@[i].inv(
                    body,
                ) by {
                    if i < self.files@.len() - 1 {
                        assert(old(self).files()[i].inv(old(self).body_lines()));
                    } else {
                        crate::file::lemma_fresh_file_inv(self.files@[i], body);
                    }
                }
            }
        }
    }

    /// Close the current document. The first remaining document (if any)
    /// becomes current.
    pub fn remove_cur_file(&mut self)
        requires
            old(self).idx_ok(),
        ensures
            final(self).files() == if old(self).files().len() > 0 {
                old(self).files().remove(old(self).cur())
            } else {
                old(self).files()
            },
            final(self).cur() == 0,
            final(self).idx_ok(),
            old(self).wf() ==> final(self).wf(),
            final(self).screen == old(self).screen,
            final(self).quit == old(self).quit,
            final(self).mode() == old(self).mode(),
            final(self).prompt_label() == old(self).prompt_label(),
            final(self).prompt_text() == old(self).prompt_text(),
            final(self).prompt_cursor() == old(self).prompt_cursor(),
    {
        if self.cur_file < self.files.len() {
            self.files.remove(self.cur_file);
            if self.cur_file > 0 {
                if self.cur_file > self.files.len() {
                    self.cur_file -= 1;
                } else {
                    self.cur_file = 0;
                }
            }
        }
        proof {
            if old(self).wf() {
                let body = self.body_lines();
                assert forall|i: int| 0 <= i < self.files@.len() implies #[trigger] self.files@[i].inv(
                    body,
                ) by {
                    if i < old(self).cur() {
                        assert(self.files@[i] == old(self).files()[i]);
                        assert(old(self).files()[i].inv(old(self).body_lines()));
                    } else {
                        assert(self.files@[i] == old(self).files()[i + 1]);
                        assert(old(self).files()[i + 1].inv(old(self).body_lines()));
                    }
                }
            }
        }
    }

    /// Make the next document current, wrapping around at the end.
    pub fn go_to_next_file(&mut self)
        requires
            old(self).idx_ok(),
        ensures
            final(self).files() == old(self).files(),
            old(self).files().len() > 0 ==> final(self).cur() == (old(self).cur() + 1) % (old(
                self,
            ).files().len() as int),
            old(self).files().len() == 0 ==> final(self).cur() == old(self).cur(),
            final(self).idx_ok(),
            old(self).wf() ==> final(self).wf(),
            final(self).screen == old(self).screen,
            final(self).quit == old(self).quit,
            final(self).mode() == old(self).mode(),
            final(self).prompt_label() == old(self).prompt_label(),
            final(self).prompt_text() == old(self).prompt_text(),
            final(self).prompt_cursor() == old(self).prompt_cursor(),
    {
        let n = self.files.len();
        proof {
            assert(self.cur_file == 0 || self.cur_file < n);
        }
        if self.cur_file + 1 < n {
            self.cur_file += 1;
            proof {
                vstd::arithmetic::div_mod::lemma_small_mod(
                    self.cur_file as nat,
                    self.files@.len() as nat,
                );
            }
        } else if n > 0 {
            self.cur_file = (self.cur_file + 1) % n;
            proof {
                vstd::arithmetic::div_mod::lemma_mod_division_less_than_divisor(
                    old(self).cur() + 1,
                    self.files@.len() as int,
                );
            }
        }
        proof {
            if old(self).wf() {
                lemma_files_ok_preserved(*old(self), *self);
            }
        }
    }

    /// Make the previous document current, wrapping around at the start.
    pub fn go_to_prev_file(&mut self)
        requires
            old(self).idx_ok(),
        ensures
            final(self).files() == old(self).files(),
            old(self).files().len() > 0 ==> final(self).cur() == (old(self).cur() + old(
                self,
            ).files().len() - 1) % (old(self).files().len() as int),
            old(self).files().len() == 0 ==> final(self).cur() == old(self).cur(),
            final(self).idx_ok(),
            old(self).wf() ==> final(self).wf(),
            final(self).screen == old(self).screen,
            final(self).quit == old(self).quit,
            final(self).mode() == old(self).mode(),
            final(self).prompt_label() == old(self).prompt_label(),
            final(self).prompt_text() == old(self).prompt_text(),
            final(self).prompt_cursor() == old(self).prompt_cursor(),
    {
        if self.cur_file > 0 {
            self.cur_file -= 1;
            proof {
                let len = self.files@.len() as int;
                vstd::arithmetic::div_mod::lemma_mod_multiples_vanish(1, self.cur_file as int, len);
                vstd::arithmetic::div_mod::lemma_small_mod(self.cur_file as nat, len as nat);
                assert(old(self).cur() + len - 1 == len * 1 + self.cur_file as int);
            }
        } else if self.files.len() > 0 {
            self.cur_file = (self.cur_file + self.files.len() - 1) % self.files.len();
            proof {
                vstd::arithmetic::div_mod::lemma_mod_division_less_than_divisor(
                    old(self).cur() + self.files@.len() - 1,
                    self.files@.len() as int,
                );
            }
        }
        proof {
            if old(self).wf() {
                lemma_files_ok_preserved(*old(self), *self);
            }
        }
    }

    /// Recenter the view so the cursor's row (and the row of the byte
    /// `visible_len_after` past it) is on screen; a no-op when it already
    /// is. Restores the whole view invariant of the current document from
    /// a state where only the cursor was moved.
    pub fn ensure_cursor_visible(&mut self, visible_len_after: usize)
        requires
            old(self).screen.wf(),
            old(self).idx_ok(),
            visible_len_after <= 1,
            old(self).files().len() > 0 ==> old(self).cur_doc().cursor_ok() && old(
                self,
            ).cur_doc().top_ok(old(self).body_lines()),
        ensures
            spec_keeps_all_but_top(*old(self), *final(self)),
            final(self).idx_ok(),
            old(self).files().len() > 0 ==> {
                let f = old(self).cur_doc();
                &&& final(self).cur_doc().top_line == spec_ensure_visible(
                    f.cursor_pos as int,
                    f.top_line as int,
                    f.data@.len() as int,
                    old(self).body_lines(),
                    visible_len_after as int,
                )
                &&& final(self).cur_doc().inv(old(self).body_lines())
            },
    {
        let n_page_lines = (self.screen.h - BORDER_LINES) as usize;
        let idx = self.cur_file;
        if idx < self.files.len() {
            let ghost body = old(self).body_lines();
            let f = &mut self.files[idx];
            let ghost c = f.cursor_pos as int;
            let ghost t0 = f.top_line as int;
            let ghost glen = f.data@.len() as int;
            let ghost vla = visible_len_after as int;
            let len = f.data.len();
            let last_line = len / 16 + if len % 16 != 0 {
                1
            } else {
                0
            };
            proof {
                crate::file::lemma_last_line_bounds(glen);
                vstd::arithmetic::div_mod::lemma_div_pos_is_pos(c, 16);
                vstd::arithmetic::div_mod::lemma_div_is_ordered(glen, usize::MAX as int, 16);
                vstd::arithmetic::div_mod::lemma_fundamental_div_mod(body, 2);
                vstd::arithmetic::div_mod::lemma_mod_division_less_than_divisor(body, 2);
                if glen > 0 {
                    crate::file::lemma_row_in_rows(c, glen);
                }
                crate::file::lemma_row_monotone(c, c + vla);
            }
            let crow = f.cursor_pos / 16;
            let larow = (f.cursor_pos + visible_len_after) / 16;
            if !(crow >= f.top_line && larow >= f.top_line && crow < f.top_line + n_page_lines
                && larow < f.top_line + n_page_lines) {
                proof {
                    lemma_violation_needs_full_page(c, t0, glen, body, vla);
                }
                if crow < n_page_lines / 2 {
                    f.top_line = 0;
                } else {
                    f.top_line = crow - n_page_lines / 2;
                    if f.top_line + n_page_lines > last_line {
                        f.top_line = last_line - n_page_lines;
                    }
                }
            }
        }
    }

    /// Jump to the first byte and scroll to the top.
    pub fn move_cursor_start_of_file(&mut self)
        requires
            old(self).wf(),
        ensures
            final(self).wf(),
            spec_nav_keeps_rest(*old(self), *final(self)),
            old(self).files().len() > 0 ==> final(self).cur_doc().cursor_pos == 0
                && final(self).cur_doc().top_line == 0,
    {
        proof {
            if old(self).files@.len() > 0 {
                assert(old(self).files()[old(self).cur()].inv(old(self).body_lines()));
            }
        }
        let idx = self.cur_file;
        if idx < self.files.len() {
            let f = &mut self.files[idx];
            f.cursor_pos = 0;
            f.top_line = 0;
        }
        self.screen.redraw_needed = true;
        proof {
            if self.files@.len() > 0 {
                crate::file::lemma_fresh_file_inv(self.cur_doc(), self.body_lines());
            }
            lemma_nav_wf(*old(self), *self);
        }
    }

    /// Jump to the last byte (the first when empty), recentering with one
    /// row of look-ahead.
    pub fn move_cursor_end_of_file(&mut self)
        requires
            old(self).wf(),
        ensures
            final(self).wf(),
            spec_nav_keeps_rest(*old(self), *final(self)),
            old(self).files().len() > 0 ==> {
                let f = old(self).cur_doc();
                let c2 = spec_end_of_file(f.data@.len() as int);
                &&& final(self).cur_doc().cursor_pos == c2
                &&& final(self).cur_doc().top_line == spec_ensure_visible(
                    c2,
                    f.top_line as int,
                    f.data@.len() as int,
                    old(self).body_lines(),
                    1,
                )
            },
    {
        proof {
            if old(self).files@.len() > 0 {
                assert(old(self).files()[old(self).cur()].inv(old(self).body_lines()));
            }
        }
        let idx = self.cur_file;
        if idx < self.files.len() {
            let f = &mut self.files[idx];
            if f.data.len() > 0 {
                f.cursor_pos = f.data.len() - 1;
            } else {
                f.cursor_pos = 0;
            }
        }
        self.ensure_cursor_visible(1);
        self.screen.redraw_needed = true;
        proof {
            lemma_nav_wf(*old(self), *self);
        }
    }

    /// Snap the cursor to the start of its row.
    pub fn move_cursor_home(&mut self)
        requires
            old(self).wf(),
        ensures
            final(self).wf(),
            spec_nav_keeps_rest(*old(self), *final(self)),
            old(self).files().len() > 0 ==> {
                let f = old(self).cur_doc();
                &&& final(self).cur_doc().cursor_pos == spec_home(f.cursor_pos as int)
                &&& final(self).cur_doc().top_line == f.top_line
            },
    {
        proof {
            if old(self).files@.len() > 0 {
                assert(old(self).files()[old(self).cur()].inv(old(self).body_lines()));
            }
        }
        let idx = self.cur_file;
        if idx < self.files.len() {
            let f = &mut self.files[idx];
            proof {
                crate::file::lemma_home_row(f.cursor_pos as int);
            }
            f.cursor_pos = f.cursor_pos / 16 * 16;
        }
        self.screen.redraw_needed = true;
        proof {
            if self.files@.len() > 0 {
                crate::file::lemma_home_row(old(self).cur_doc().cursor_pos as int);
            }
            lemma_nav_wf(*old(self), *self);
        }
    }

    /// Snap the cursor to the end of its row, clamped to the last byte.
    pub fn move_cursor_end(&mut self)
        requires
            old(self).wf(),
        ensures
            final(self).wf(),
            spec_nav_keeps_rest(*old(self), *final(self)),
            old(self).files().len() > 0 ==> {
                let f = old(self).cur_doc();
                &&& final(self).cur_doc().cursor_pos == spec_row_end(
                    f.cursor_pos as int,
                    f.data@.len() as int,
                )
                &&& final(self).cur_doc().top_line == f.top_line
            },
    {
        proof {
            if old(self).files@.len() > 0 {
                assert(old(self).files()[old(self).cur()].inv(old(self).body_lines()));
            }
        }
        let idx = self.cur_file;
        if idx < self.files.len() {
            let f = &mut self.files[idx];
            let len = f.data.len();
            proof {
                crate::file::lemma_home_row(f.cursor_pos as int);
            }
            let q16 = f.cursor_pos / 16 * 16;
            if len == 0 {
                f.cursor_pos = 0;
            } else if len - q16 <= 15 {
                f.cursor_pos = len - 1;
                proof {
                    vstd::arithmetic::div_mod::lemma_fundamental_div_mod_converse(
                        len as int - 1,
                        16,
                        old(self).cur_doc().cursor_pos as int / 16,
                        len as int - 1 - q16 as int,
                    );
                }
            } else {
                f.cursor_pos = q16 + 15;
            }
        }
        self.screen.redraw_needed = true;
        proof {
            if self.files@.len() > 0 {
                crate::file::lemma_home_row(old(self).cur_doc().cursor_pos as int);
            }
            lemma_nav_wf(*old(self), *self);
        }
    }

    /// Move the cursor one row up; a no-op on the first row.
    pub fn move_cursor_up(&mut self)
        requires
            old(self).wf(),
        ensures
            final(self).wf(),
            spec_nav_keeps_rest(*old(self), *final(self)),
            old(self).files().len() > 0 ==> {
                let f = old(self).cur_doc();
                let c2 = spec_move_up(f.cursor_pos as int);
                &&& final(self).cur_doc().cursor_pos == c2
                &&& final(self).cur_doc().top_line == spec_ensure_visible(
                    c2,
                    f.top_line as int,
                    f.data@.len() as int,
                    old(self).body_lines(),
                    0,
                )
            },
    {
        proof {
            if old(self).files@.len() > 0 {
                assert(old(self).files()[old(self).cur()].inv(old(self).body_lines()));
            }
        }
        let idx = self.cur_file;
        if idx < self.files.len() {
            let f = &mut self.files[idx];
            if f.cursor_pos >= 16 {
                f.cursor_pos -= 16;
            }
        }
        self.ensure_cursor_visible(0);
        self.screen.redraw_needed = true;
        proof {
            lemma_nav_wf(*old(self), *self);
        }
    }

    /// Move the cursor one row down; a no-op when no byte lies one row
    /// below.
    pub fn move_cursor_down(&mut self)
        requires
            old(self).wf(),
        ensures
            final(self).wf(),
            spec_nav_keeps_rest(*old(self), *final(self)),
            old(self).files().len() > 0 ==> {
                let f = old(self).cur_doc();
                let c2 = spec_move_down(f.cursor_pos as int, f.data@.len() as int);
                &&& final(self).cur_doc().cursor_pos == c2
                &&& final(self).cur_doc().top_line == spec_ensure_visible(
                    c2,
                    f.top_line as int,
                    f.data@.len() as int,
                    old(self).body_lines(),
                    0,
                )
            },
    {
        proof {
            if old(self).files@.len() > 0 {
                assert(old(self).files()[old(self).cur()].inv(old(self).body_lines()));
            }
        }
        let idx = self.cur_file;
        if idx < self.files.len() {
            let f = &mut self.files[idx];
            let len = f.data.len();
            if len > 16 && f.cursor_pos < len - 16 {
                f.cursor_pos += 16;
            }
        }
        self.ensure_cursor_visible(0);
        self.screen.redraw_needed = true;
        proof {
            lemma_nav_wf(*old(self), *self);
        }
    }

    /// Move the cursor one byte left; a no-op on the first byte.
    pub fn move_cursor_left(&mut self)
        requires
            old(self).wf(),
        ensures
            final(self).wf(),
            spec_nav_keeps_rest(*old(self), *final(self)),
            old(self).files().len() > 0 ==> {
                let f = old(self).cur_doc();
                let c2 = spec_move_left(f.cursor_pos as int);
                &&& final(self).cur_doc().cursor_pos == c2
                &&& final(self).cur_doc().top_line == spec_ensure_visible(
                    c2,
                    f.top_line as int,
                    f.data@.len() as int,
                    old(self).body_lines(),
                    0,
                )
            },
    {
        proof {
            if old(self).files@.len() > 0 {
                assert(old(self).files()[old(self).cur()].inv(old(self).body_lines()));
            }
        }
        let idx = self.cur_file;
        if idx < self.files.len() {
            let f = &mut self.files[idx];
            if f.cursor_pos > 0 {
                f.cursor_pos -= 1;
            }
        }
        self.ensure_cursor_visible(0);
        self.screen.redraw_needed = true;
        proof {
            lemma_nav_wf(*old(self), *self);
        }
    }

    /// Move the cursor one byte right; clamps at the last byte.
    pub fn move_cursor_right(&mut self)
        requires
            old(self).wf(),
        ensures
            final(self).wf(),
            spec_nav_keeps_rest(*old(self), *final(self)),
            old(self).files().len() > 0 ==> {
                let f = old(self).cur_doc();
                let c2 = spec_move_right(f.cursor_pos as int, f.data@.len() as int);
                &&& final(self).cur_doc().cursor_pos == c2
                &&& final(self).cur_doc().top_line == spec_ensure_visible(
                    c2,
                    f.top_line as int,
                    f.data@.len() as int,
                    old(self).body_lines(),
                    0,
                )
            },
    {
        proof {
            if old(self).files@.len() > 0 {
                assert(old(self).files()[old(self).cur()].inv(old(self).body_lines()));
            }
        }
        let idx = self.cur_file;
        if idx < self.files.len() {
            let f = &mut self.files[idx];
            let len = f.data.len();
            if len > 1 && f.cursor_pos < len - 1 {
                f.cursor_pos += 1;
            } else if len > 0 {
                f.cursor_pos = len - 1;
            } else {
                f.cursor_pos = 0;
            }
        }
        self.ensure_cursor_visible(0);
        self.screen.redraw_needed = true;
        proof {
            lemma_nav_wf(*old(self), *self);
        }
    }

    /// Move the cursor and the scroll anchor one page up, clamping both
    /// at the start.
    pub fn move_cursor_page_up(&mut self)
        requires
            old(self).wf(),
        ensures
            final(self).wf(),
            spec_nav_keeps_rest(*old(self), *final(self)),
            old(self).files().len() > 0 ==> {
                let f = old(self).cur_doc();
                let body = old(self).body_lines();
                let c2 = spec_page_up_cursor(f.cursor_pos as int, body);
                let t2 = spec_page_up_top(f.cursor_pos as int, f.top_line as int, body);
                &&& final(self).cur_doc().cursor_pos == c2
                &&& final(self).cur_doc().top_line == spec_ensure_visible(
                    c2,
                    t2,
                    f.data@.len() as int,
                    body,
                    0,
                )
            },
    {
        let n_page_lines = (self.screen.h - BORDER_LINES) as usize;
        proof {
            if old(self).files@.len() > 0 {
                assert(old(self).files()[old(self).cur()].inv(old(self).body_lines()));
            }
        }
        let idx = self.cur_file;
        if idx < self.files.len() {
            let f = &mut self.files[idx];
            let page = 16 * n_page_lines;
            if f.cursor_pos >= page {
                f.cursor_pos -= page;
                if f.top_line > n_page_lines {
                    f.top_line -= n_page_lines;
                } else {
                    f.top_line = 0;
                }
            } else {
                f.cursor_pos = 0;
            }
        }
        self.ensure_cursor_visible(0);
        self.screen.redraw_needed = true;
        proof {
            lemma_nav_wf(*old(self), *self);
        }
    }

    /// Move the cursor and the scroll anchor one page down; the cursor
    /// clamps at the last byte and the anchor never scrolls the last data
    /// row above the window bottom.
    pub fn move_cursor_page_down(&mut self)
        requires
            old(self).wf(),
        ensures
            final(self).wf(),
            spec_nav_keeps_rest(*old(self), *final(self)),
            old(self).files().len() > 0 ==> {
                let f = old(self).cur_doc();
                let body = old(self).body_lines();
                let len = f.data@.len() as int;
                let c2 = spec_page_down_cursor(f.cursor_pos as int, len, body);
                let t2 = spec_page_down_top(f.cursor_pos as int, f.top_line as int, len, body);
                &&& final(self).cur_doc().cursor_pos == c2
                &&& final(self).cur_doc().top_line == spec_ensure_visible(c2, t2, len, body, 0)
            },
    {
        let n_page_lines = (self.screen.h - BORDER_LINES) as usize;
        proof {
            if old(self).files@.len() > 0 {
                assert(old(self).files()[old(self).cur()].inv(old(self).body_lines()));
            }
        }
        let idx = self.cur_file;
        if idx < self.files.len() {
            let ghost body = old(self).body_lines();
            let f = &mut self.files[idx];
            let ghost c = f.cursor_pos as int;
            let ghost t0 = f.top_line as int;
            let ghost glen = f.data@.len() as int;
            let len = f.data.len();
            let page = 16 * n_page_lines;
            let last_line = len / 16 + if len % 16 != 0 {
                1
            } else {
                0
            };
            proof {
                crate::file::lemma_last_line_bounds(glen);
                vstd::arithmetic::div_mod::lemma_div_is_ordered(glen, usize::MAX as int, 16);
            }
            if page < len && f.cursor_pos < len - page {
                proof {
                    vstd::arithmetic::div_mod::lemma_div_is_ordered(16 * body, glen, 16);
                    vstd::arithmetic::div_mod::lemma_div_multiples_vanish(body, 16);
                }
                f.cursor_pos += page;
                f.top_line += n_page_lines;
                if f.top_line + n_page_lines > last_line {
                    if last_line > n_page_lines {
                        f.top_line = last_line - n_page_lines;
                    } else {
                        f.top_line = 0;
                    }
                }
            } else if len > 0 {
                f.cursor_pos = len - 1;
            } else {
                f.cursor_pos = 0;
            }
        }
        self.ensure_cursor_visible(0);
        self.screen.redraw_needed = true;
        proof {
            lemma_nav_wf(*old(self), *self);
        }
    }

    /// Show a status message.
    pub fn show_msg(&mut self, msg: Vec<u8>)
        ensures
            final(self).screen.msg == Some(msg),
            final(self).screen.msg_was_set,
            final(self).screen.redraw_needed,
            final(self).screen.w == old(self).screen.w,
            final(self).screen.h == old(self).screen.h,
            final(self).files() == old(self).files(),
            final(self).cur() == old(self).cur(),
            final(self).quit == old(self).quit,
            final(self).mode() == old(self).mode(),
            final(self).prompt_label() == old(self).prompt_label(),
            final(self).prompt_text() == old(self).prompt_text(),
            final(self).prompt_cursor() == old(self).prompt_cursor(),
            final(self).files == old(self).files,
            final(self).prompt_label == old(self).prompt_label,
            final(self).prompt_text == old(self).prompt_text,
            old(self).wf() ==> final(self).wf(),
    {
        self.screen.show_msg(msg);
        proof {
            if old(self).wf() {
                lemma_files_ok_preserved(*old(self), *self);
            }
        }
    }

    /// Clear the status message.
    pub fn clear_msg(&mut self)
        ensures
            final(self).screen.msg is None,
            final(self).screen.msg_was_set,
            final(self).screen.redraw_needed,
            final(self).screen.w == old(self).screen.w,
            final(self).screen.h == old(self).screen.h,
            final(self).files() == old(self).files(),
            final(self).cur() == old(self).cur(),
            final(self).quit == old(self).quit,
            final(self).mode() == old(self).mode(),
            final(self).prompt_label() == old(self).prompt_label(),
            final(self).prompt_text() == old(self).prompt_text(),
            final(self).prompt_cursor() == old(self).prompt_cursor(),
            final(self).files == old(self).files,
            final(self).prompt_label == old(self).prompt_label,
            final(self).prompt_text == old(self).prompt_text,
            old(self).wf() ==> final(self).wf(),
    {
        self.screen.clear_msg();
        proof {
            if old(self).wf() {
                lemma_files_ok_preserved(*old(self), *self);
            }
        }
    }

    /// Enter the filename prompt under the given label, with empty text,
    /// a cleared message, and a dirty screen.
    pub fn begin_filename_prompt(&mut self, label: Vec<u8>)
        requires
            old(self).wf(),
        ensures
            final(self).wf(),
            final(self).mode() == EditorMode::ReadFilename,
            final(self).prompt_label() == label@,
            final(self).prompt_text().len() == 0,
            final(self).prompt_cursor() == 0,
            final(self).files() == old(self).files(),
            final(self).cur() == old(self).cur(),
            final(self).quit == old(self).quit,
            final(self).screen.w == old(self).screen.w,
            final(self).screen.h == old(self).screen.h,
            final(self).screen.msg is None,
            final(self).screen.msg_was_set,
            final(self).screen.redraw_needed,
    {
        self.mode = EditorMode::ReadFilename;
        self.prompt_label = label;
        self.prompt_text = Vec::new();
        self.prompt_cursor = 0;
        self.clear_msg();
        self.screen.redraw_needed = true;
        proof {
            lemma_files_ok_preserved(*old(self), *self);
        }
    }

    /// Enter the free-text prompt under the given label.
    pub fn begin_string_prompt(&mut self, label: Vec<u8>)
        requires
            old(self).wf(),
        ensures
            final(self).wf(),
            final(self).mode() == EditorMode::ReadString,
            final(self).prompt_label() == label@,
            final(self).prompt_text().len() == 0,
            final(self).prompt_cursor() == 0,
            final(self).files() == old(self).files(),
            final(self).cur() == old(self).cur(),
            final(self).quit == old(self).quit,
            final(self).screen.w == old(self).screen.w,
            final(self).screen.h == old(self).screen.h,
            final(self).screen.msg is None,
            final(self).screen.msg_was_set,
            final(self).screen.redraw_needed,
    {
        self.mode = EditorMode::ReadString;
        self.prompt_label = label;
        self.prompt_text = Vec::new();
        self.prompt_cursor = 0;
        self.clear_msg();
        self.screen.redraw_needed = true;
        proof {
            lemma_files_ok_preserved(*old(self), *self);
        }
    }

    /// Enter the yes/no prompt under the given label.
    pub fn begin_yes_no_prompt(&mut self, label: Vec<u8>)
        requires
            old(self).wf(),
        ensures
            final(self).wf(),
            final(self).mode() == EditorMode::ReadYesNo,
            final(self).prompt_label() == label@,
            final(self).prompt_text().len() == 0,
            final(self).prompt_cursor() == 0,
            final(self).files() == old(self).files(),
            final(self).cur() == old(self).cur(),
            final(self).quit == old(self).quit,
            final(self).screen.w == old(self).screen.w,
            final(self).screen.h == old(self).screen.h,
            final(self).screen.msg is None,
            final(self).screen.msg_was_set,
            final(self).screen.redraw_needed,
    {
        self.mode = EditorMode::ReadYesNo;
        self.prompt_label = label;
        self.prompt_text = Vec::new();
        self.prompt_cursor = 0;
        self.clear_msg();
        self.screen.redraw_needed = true;
        proof {
            lemma_files_ok_preserved(*old(self), *self);
        }
    }

    /// Begin the "Read file" filename prompt (the `ctrl-R` command).
    pub fn prompt_read_file(&mut self)
        requires
            old(self).wf(),
        ensures
            final(self).wf(),
            final(self).mode() == EditorMode::ReadFilename,
            final(self).prompt_label() == "Read file".spec_bytes(),
            final(self).prompt_text().len() == 0,
            final(self).prompt_cursor() == 0,
            final(self).files() == old(self).files(),
            final(self).cur() == old(self).cur(),
            final(self).quit == old(self).quit,
            final(self).screen.w == old(self).screen.w,
            final(self).screen.h == old(self).screen.h,
            final(self).screen.msg is None,
            final(self).screen.msg_was_set,
            final(self).screen.redraw_needed,
    {
        let label = bytes_of("Read file");
        self.begin_filename_prompt(label);
    }

    /// The selector picked a path while the filename prompt was up: leave
    /// the prompt and hand the path on as the submitted filename.
    pub fn file_selected(&mut self, path: Vec<u8>) -> (r: Action)
        requires
            old(self).wf(),
        ensures
            final(self).wf(),
            old(self).mode() == EditorMode::ReadFilename ==> {
                &&& *final(self) == (Editor {
                    mode: EditorMode::Default,
                    screen: Screen { redraw_needed: true, ..old(self).screen },
                    ..*old(self)
                })
                &&& (r matches Action::ReadFile(t) && t == path)
            },
            old(self).mode() != EditorMode::ReadFilename ==> *final(self) == *old(self) && r
                == Action::Nothing,
    {
        if matches!(self.mode, EditorMode::ReadFilename) {
            self.mode = EditorMode::Default;
            self.screen.redraw_needed = true;
            proof {
                lemma_files_ok_preserved(*old(self), *self);
            }
            Action::ReadFile(path)
        } else {
            Action::Nothing
        }
    }

    /// Dispatch one decoded key according to the current mode, mutate the
    /// editor, and report what the caller must do.
    pub fn process_input(&mut self, key: u32) -> (r: Action)
        requires
            old(self).wf(),
        ensures
            final(self).wf(),
            old(self).mode() == EditorMode::Default ==> spec_default_step(
                *old(self),
                *final(self),
                key,
                r,
            ),
            old(self).mode() == EditorMode::ReadFilename || old(self).mode()
                == EditorMode::ReadString ==> spec_prompt_step(*old(self), *final(self), key, r),
            old(self).mode() == EditorMode::ReadYesNo ==> spec_yes_no_step(
                *old(self),
                *final(self),
                key,
                r,
            ),
    {
        match self.mode {
            EditorMode::Default => self.process_default_key(key),
            EditorMode::ReadFilename => self.process_prompt_key(key),
            EditorMode::ReadString => self.process_prompt_key(key),
            EditorMode::ReadYesNo => self.process_yes_no_key(key),
        }
    }

    /// Append one key-legend cell at `(x, y)`.
    pub fn draw_key_help(&self, out: &mut Vec<u8>, x: i32, y: i32, key: &str, help: &str)
        requires
            self.screen.wf(),
        ensures
            final(out)@ == old(out)@ + spec_key_help(
                self.screen.w as int,
                self.screen.h as int,
                x as int,
                y as int,
                key.spec_bytes(),
                help.spec_bytes(),
            ),
    {
        emit_key_help(&self.screen, out, x, y, key, help);
    }

    /// Append an empty key-legend cell at `(x, y)`.
    pub fn void_key_help(&self, out: &mut Vec<u8>, x: i32, y: i32)
        requires
            self.screen.wf(),
        ensures
            final(out)@ == old(out)@ + spec_void_help(
                self.screen.w as int,
                self.screen.h as int,
                x as int,
                y as int,
            ),
    {
        emit_void_help(&self.screen, out, x, y);
    }

    /// Append the header bar and its spacer line.
    fn emit_header(&self, out: &mut Vec<u8>)
        requires
            self.wf(),
        ensures
            final(out)@ == old(out)@ + spec_header(*self),
    {
        self.screen.move_cursor(out, 1, 1);
        set_color(out, Color::FGBlack, Color::BGGray);
        out.push(32);
        if self.cur_file < self.files.len() {
            let f = &self.files[self.cur_file];
            match &f.filename {
                Some(name) => crate::screen::push_bytes(out, name.as_slice()),
                None => push_str(out, "NO FILE"),
            }
        }
        clear_eol(out);
        self.screen.move_cursor(out, self.screen.w - 11, 1);
        push_str(out, " hedx v0.1");
        clear_eol(out);
        self.screen.move_cursor(out, 1, HEADER_LINES);
        reset_color(out);
        clear_eol(out);
        assert(out@ =~= old(out)@ + spec_header(*self));
    }

    /// Append the mode's two key-legend lines.
    #[verifier::rlimit(100)]
    fn emit_footer_cells(&self, out: &mut Vec<u8>)
        requires
            self.wf(),
        ensures
            final(out)@ == old(out)@ + spec_footer_cells(*self),
    {
        let h = self.screen.h;
        match self.mode {
            EditorMode::Default => {
                self.draw_key_help(out, 1, h - 1, "^G", "Get Help");
                self.draw_key_help(out, 1, h, "^X", "Exit");
                self.draw_key_help(out, 17, h - 1, "^O", "Write File");
                self.draw_key_help(out, 17, h, "^R", "Read File");
                self.void_key_help(out, 33, h - 1);
                self.void_key_help(out, 33, h);
                assert(out@ =~= old(out)@ + spec_footer_cells(*self));
            },
            EditorMode::ReadFilename => {
                self.draw_key_help(out, 1, h - 1, "^T", "To Files");
                self.draw_key_help(out, 1, h, "^C", "Cancel");
                self.void_key_help(out, 17, h - 1);
                self.void_key_help(out, 17, h);
                assert(out@ =~= old(out)@ + spec_footer_cells(*self));
            },
            EditorMode::ReadString => {
                self.void_key_help(out, 1, h - 1);
                self.draw_key_help(out, 1, h, "^C", "Cancel");
                self.void_key_help(out, 17, h - 1);
                self.void_key_help(out, 17, h);
                assert(out@ =~= old(out)@ + spec_footer_cells(*self));
            },
            EditorMode::ReadYesNo => {
                self.draw_key_help(out, 1, h - 1, " Y", "Yes");
                self.draw_key_help(out, 1, h, " N", "No");
                self.void_key_help(out, 17, h - 1);
                self.draw_key_help(out, 17, h, "^C", "Cancel");
                self.void_key_help(out, 33, h - 1);
                self.void_key_help(out, 33, h);
                assert(out@ =~= old(out)@ + spec_footer_cells(*self));
            },
        }
    }

    /// Append the footer: the mode's key legend and the status line.
    #[verifier::rlimit(100)]
    fn emit_footer(&self, out: &mut Vec<u8>)
        requires
            self.wf(),
        ensures
            final(out)@ == old(out)@ + spec_footer(*self),
    {
        reset_color(out);
        self.emit_footer_cells(out);
        let h = self.screen.h;
        self.screen.move_cursor(out, 1, h - FOOTER_LINES + 1);
        match &self.screen.msg {
            Some(m) => {
                set_color(out, Color::FGBlack, Color::BGGray);
                out.push(32);
                crate::screen::push_bytes(out, m.as_slice());
            },
            None => {},
        }
        clear_eol(out);
        assert(out@ =~= old(out)@ + spec_footer(*self));
    }

    /// Render the whole frame to a byte buffer and mark the screen clean.
    /// The caller writes the buffer to the terminal in one batch.
    #[verifier::rlimit(100)]
    pub fn render_main_screen(&mut self) -> (out: Vec<u8>)
        requires
            old(self).wf(),
        ensures
            final(self).wf(),
            out@ == spec_main_screen(*old(self)),
            *final(self) == (Editor {
                screen: Screen { redraw_needed: false, ..old(self).screen },
                ..*old(self)
            }),
    {
        let mut out: Vec<u8> = Vec::new();
        self.emit_header(&mut out);
        self.emit_footer(&mut out);
        let mut line: i32 = HEADER_LINES + 1;
        if self.cur_file < self.files.len() {
            proof {
                assert(self.files()[self.cur()].inv(self.body_lines()));
            }
            let f = &self.files[self.cur_file];
            let ghost gdata = f.data@;
            let ghost gtop = f.top_line as int;
            let ghost gcursor = f.cursor_pos as int;
            let ghost w = self.screen.w as int;
            let ghost h = self.screen.h as int;
            let ghost body = self.body_lines();
            let ghost base = out@;
            let len = f.data.len();
            proof {
                crate::file::lemma_last_line_bounds(len as int);
                vstd::arithmetic::div_mod::lemma_fundamental_div_mod(len as int, 16);
                vstd::arithmetic::div_mod::lemma_mod_division_less_than_divisor(len as int, 16);
            }
            let mut off: usize = 16 * f.top_line;
            let mut k: usize = 0;
            while off < len && line <= self.screen.h - FOOTER_LINES
                invariant
                    self.wf(),
                    self.cur_file < self.files@.len(),
                    f == &self.files@[self.cur_file as int],
                    gdata == f.data@,
                    gtop == f.top_line as int,
                    gcursor == f.cursor_pos as int,
                    w == self.screen.w as int,
                    h == self.screen.h as int,
                    body == self.body_lines(),
                    len == f.data@.len(),
                    line == 3 + k,
                    k <= spec_rows_shown(len as int, gtop, body),
                    off as int == if 16 * (gtop + k) < len as int {
                        16 * (gtop + k)
                    } else {
                        len as int
                    },
                    out@ == base + spec_body_rows(gdata, gtop, gcursor, w, h, k as int),
                decreases len - off,
            {
                proof {
                    crate::file::lemma_row_in_rows(off as int, len as int);
                    vstd::arithmetic::div_mod::lemma_div_is_ordered(
                        16 * (gtop + k),
                        len as int - 1,
                        16,
                    );
                    vstd::arithmetic::div_mod::lemma_div_multiples_vanish(gtop + k, 16);
                }
                emit_body_row(&self.screen, &f.data, off, line, f.cursor_pos, &mut out);
                line += 1;
                k += 1;
                if len - off > 16 {
                    off += 16;
                } else {
                    off = len;
                }
                assert(out@ =~= base + spec_body_rows(gdata, gtop, gcursor, w, h, k as int));
            }
            proof {
                if 16 * (gtop + k) < len as int {
                    crate::file::lemma_row_in_rows(16 * (gtop + k), len as int);
                    vstd::arithmetic::div_mod::lemma_div_multiples_vanish(gtop + k, 16);
                }
                assert(k as int == spec_rows_shown(len as int, gtop, body));
            }
        }
        reset_color(&mut out);
        let ghost base4 = out@;
        let ghost start = line as int;
        let mut i2: i32 = line;
        while i2 < self.screen.h - FOOTER_LINES + 1
            invariant
                self.wf(),
                start <= i2 as int <= vstd::math::max(start, self.screen.h - FOOTER_LINES + 1),
                out@ == base4 + spec_blank_lines(
                    self.screen.w as int,
                    self.screen.h as int,
                    start,
                    i2 as int - start,
                ),
            decreases self.screen.h - FOOTER_LINES + 1 - i2,
        {
            self.screen.move_cursor(&mut out, 1, i2);
            clear_eol(&mut out);
            i2 += 1;
            assert(out@ =~= base4 + spec_blank_lines(
                self.screen.w as int,
                self.screen.h as int,
                start,
                i2 as int - start,
            ));
        }
        self.screen.redraw_needed = false;
        proof {
            lemma_files_ok_preserved(*old(self), *self);
        }
        assert(out@ =~= spec_main_screen(*old(self)));
        out
    }

    /// Render the modal prompt line (text or yes/no) over the status row.
    pub fn render_prompt_line(&self) -> (out: Vec<u8>)
        requires
            self.wf(),
        ensures
            out@ == spec_prompt_line(*self),
    {
        let mut out: Vec<u8> = Vec::new();
        match self.mode {
            EditorMode::ReadYesNo => {
                reset_color(&mut out);
                set_color(&mut out, Color::FGBlack, Color::BGGray);
                self.screen.move_cursor(&mut out, 1, self.screen.h - FOOTER_LINES + 1);
                out.push(32);
                crate::screen::push_bytes(&mut out, self.prompt_label.as_slice());
                clear_eol(&mut out);
            },
            EditorMode::ReadFilename | EditorMode::ReadString => {
                reset_color(&mut out);
                set_color(&mut out, Color::FGBlack, Color::BGGray);
                self.screen.move_cursor(&mut out, 1, self.screen.h - FOOTER_LINES + 1);
                out.push(32);
                crate::screen::push_bytes(&mut out, self.prompt_label.as_slice());
                push_str(&mut out, ": ");
                crate::screen::push_bytes(&mut out, self.prompt_text.as_slice());
                clear_eol(&mut out);
                let ll = self.prompt_label.len();
                let pc = self.prompt_cursor;
                let col: i32 = if ll < 70000 && pc < 70000 {
                    (ll + 4 + pc) as i32
                } else {
                    i32::MAX
                };
                self.screen.move_cursor(&mut out, col, self.screen.h - FOOTER_LINES + 1);
                proof {
                    assert(crate::screen::spec_clamp_coord(col as int, self.screen.w as int)
                        == crate::screen::spec_clamp_coord(
                        self.prompt_label@.len() + 4 + self.prompt_cursor as int,
                        self.screen.w as int,
                    ));
                }
            },
            EditorMode::Default => {},
        }
        assert(out@ =~= spec_prompt_line(*self));
        out
    }

    fn process_default_key(&mut self, key: u32) -> (r: Action)
        requires
            old(self).wf(),
            old(self).mode() == EditorMode::Default,
        ensures
            final(self).wf(),
            spec_default_step(*old(self), *final(self), key, r),
    {
        self.screen.msg_was_set = false;
        proof {
            lemma_files_ok_preserved(*old(self), *self);
        }
        if key == KEY_CTRL_X {
            self.quit = true;
            proof {
                lemma_files_ok_preserved(*old(self), *self);
            }
            return Action::Nothing;
        }
        let mut act = Action::Nothing;
        if key == KEY_CTRL_L {
            self.screen.redraw_needed = true;
            proof {
                lemma_files_ok_preserved(*old(self), *self);
            }
            act = Action::ClearTerminal;
        } else if key == KEY_CTRL_G {
            self.show_msg(bytes_of("Help is not available just yet"));
        } else if key == KEY_CTRL_O {
            self.show_msg(bytes_of("Writing files not implemented"));
        } else if key == KEY_CTRL_R {
            self.prompt_read_file();
        } else if key == KEY_CTRL_A || key == KEY_HOME {
            self.move_cursor_home();
        } else if key == KEY_CTRL_E || key == KEY_END {
            self.move_cursor_end();
        } else if key == KEY_ARROW_UP {
            self.move_cursor_up();
        } else if key == KEY_ARROW_DOWN {
            self.move_cursor_down();
        } else if key == KEY_ARROW_LEFT {
            self.move_cursor_left();
        } else if key == KEY_ARROW_RIGHT {
            self.move_cursor_right();
        } else if key == KEY_CTRL_HOME {
            self.move_cursor_start_of_file();
        } else if key == KEY_CTRL_END {
            self.move_cursor_end_of_file();
        } else if key == KEY_PAGE_UP {
            self.move_cursor_page_up();
        } else if key == KEY_PAGE_DOWN {
            self.move_cursor_page_down();
        } else if key == KEY_ALT_COMMA {
            self.go_to_prev_file();
        } else if key == KEY_ALT_PERIOD {
            self.go_to_next_file();
        }
        if !self.screen.msg_was_set {
            self.clear_msg();
        }
        act
    }

    fn process_prompt_key(&mut self, key: u32) -> (r: Action)
        requires
            old(self).wf(),
            old(self).mode() == EditorMode::ReadFilename || old(self).mode()
                == EditorMode::ReadString,
        ensures
            final(self).wf(),
            spec_prompt_step(*old(self), *final(self), key, r),
    {
        if key == KEY_CTRL_C {
            self.mode = EditorMode::Default;
            self.screen.redraw_needed = true;
            proof {
                lemma_files_ok_preserved(*old(self), *self);
            }
            return Action::Cancelled;
        }
        if key == KEY_ENTER {
            let text = copy_bytes(&self.prompt_text);
            let was_filename = matches!(self.mode, EditorMode::ReadFilename);
            self.mode = EditorMode::Default;
            self.screen.redraw_needed = true;
            proof {
                lemma_files_ok_preserved(*old(self), *self);
            }
            if was_filename {
                return Action::ReadFile(text);
            } else {
                return Action::Submitted(text);
            }
        }
        if 32 <= key && key < 127 {
            let b = key as u8;
            if self.prompt_cursor >= self.prompt_text.len() {
                self.prompt_text.push(b);
                assert(self.prompt_text@ =~= old(self).prompt_text@.insert(
                    old(self).prompt_cursor(),
                    b,
                ));
            } else {
                self.prompt_text.insert(self.prompt_cursor, b);
            }
            let n = self.prompt_text.len();
            assert(self.prompt_cursor < n);
            self.prompt_cursor += 1;
            proof {
                lemma_files_ok_preserved(*old(self), *self);
            }
            return Action::Nothing;
        }
        if key == KEY_BACKSPACE || key == KEY_DEL_BYTE {
            if self.prompt_cursor > 0 {
                self.prompt_cursor -= 1;
                self.prompt_text.remove(self.prompt_cursor);
            }
            proof {
                lemma_files_ok_preserved(*old(self), *self);
            }
            return Action::Nothing;
        }
        if key == KEY_CTRL_A || key == KEY_HOME {
            self.prompt_cursor = 0;
            proof {
                lemma_files_ok_preserved(*old(self), *self);
            }
            return Action::Nothing;
        }
        if key == KEY_CTRL_E || key == KEY_END {
            self.prompt_cursor = self.prompt_text.len();
            proof {
                lemma_files_ok_preserved(*old(self), *self);
            }
            return Action::Nothing;
        }
        if key == KEY_CTRL_T && matches!(self.mode, EditorMode::ReadFilename) {
            return Action::OpenFileSelector;
        }
        if key == KEY_ARROW_LEFT {
            if self.prompt_cursor > 0 {
                self.prompt_cursor -= 1;
            }
            proof {
                lemma_files_ok_preserved(*old(self), *self);
            }
            return Action::Nothing;
        }
        if key == KEY_ARROW_RIGHT {
            if self.prompt_cursor < self.prompt_text.len() {
                self.prompt_cursor += 1;
            }
            proof {
                lemma_files_ok_preserved(*old(self), *self);
            }
            return Action::Nothing;
        }
        Action::Nothing
    }

    fn process_yes_no_key(&mut self, key: u32) -> (r: Action)
        requires
            old(self).wf(),
            old(self).mode() == EditorMode::ReadYesNo,
        ensures
            final(self).wf(),
            spec_yes_no_step(*old(self), *final(self), key, r),
    {
        if key == KEY_CTRL_C {
            self.mode = EditorMode::Default;
            self.screen.redraw_needed = true;
            proof {
                lemma_files_ok_preserved(*old(self), *self);
            }
            return Action::Cancelled;
        }
        if key == 89 || key == 121 {
            self.mode = EditorMode::Default;
            self.screen.redraw_needed = true;
            proof {
                lemma_files_ok_preserved(*old(self), *self);
            }
            return Action::Answered(true);
        }
        if key == 78 || key == 110 {
            self.mode = EditorMode::Default;
            self.screen.redraw_needed = true;
            proof {
                lemma_files_ok_preserved(*old(self), *self);
            }
            return Action::Answered(false);
        }
        Action::Nothing
    }
}

/// Display name of a document: its filename, or the placeholder when it
/// has none.
pub open spec fn spec_display_name(f: File) -> Seq<u8> {
    match f.filename {
        Some(n) => n@,
        None => "NO FILE".spec_bytes(),
    }
}

/// Byte shown in the ASCII column: the byte itself when printable, else
/// a dot.
pub open spec fn spec_display_byte(b: u8) -> u8 {
    if 32 <= b && b < 127 {
        b
    } else {
        46u8
    }
}

/// The header: an inverse-video bar with the file name at the left and
/// the version tag at the right, then a cleared spacer line.
pub open spec fn spec_header(ed: Editor) -> Seq<u8> {
    let w = ed.screen.w as int;
    let h = ed.screen.h as int;
    spec_move_cursor(w, h, 1, 1) + spec_set_color(Color::FGBlack, Color::BGGray) + seq![32u8] + (
    if ed.files().len() > 0 {
        spec_display_name(ed.cur_doc())
    } else {
        Seq::<u8>::empty()
    }) + spec_clear_eol() + spec_move_cursor(w, h, w - 11, 1) + " hedx v0.1".spec_bytes()
        + spec_clear_eol() + spec_move_cursor(w, h, 1, 2) + spec_reset_color() + spec_clear_eol()
}

/// One key-legend cell: the key in inverse video, then its description,
/// padded to the fixed cell width.
pub open spec fn spec_key_help(w: int, h: int, x: int, y: int, key: Seq<u8>, help: Seq<u8>) -> Seq<
    u8,
> {
    spec_move_cursor(w, h, x, y) + spec_set_color(Color::FGBlack, Color::BGGray) + key
        + spec_reset_color() + seq![32u8] + help + spec_spaces(16 - help.len())
}

/// An empty key-legend cell: just clear the rest of the line.
pub open spec fn spec_void_help(w: int, h: int, x: int, y: int) -> Seq<u8> {
    spec_move_cursor(w, h, x, y) + spec_reset_color() + spec_clear_eol()
}

/// The two key-legend lines of the footer, depending on the mode.
pub open spec fn spec_footer_cells(ed: Editor) -> Seq<u8> {
    let w = ed.screen.w as int;
    let h = ed.screen.h as int;
    match ed.mode() {
        EditorMode::Default => spec_key_help(
            w,
            h,
            1,
            h - 1,
            "^G".spec_bytes(),
            "Get Help".spec_bytes(),
        ) + spec_key_help(w, h, 1, h, "^X".spec_bytes(), "Exit".spec_bytes()) + spec_key_help(
            w,
            h,
            17,
            h - 1,
            "^O".spec_bytes(),
            "Write File".spec_bytes(),
        ) + spec_key_help(w, h, 17, h, "^R".spec_bytes(), "Read File".spec_bytes())
            + spec_void_help(w, h, 33, h - 1) + spec_void_help(w, h, 33, h),
        EditorMode::ReadFilename => spec_key_help(
            w,
            h,
            1,
            h - 1,
            "^T".spec_bytes(),
            "To Files".spec_bytes(),
        ) + spec_key_help(w, h, 1, h, "^C".spec_bytes(), "Cancel".spec_bytes()) + spec_void_help(
            w,
            h,
            17,
            h - 1,
        ) + spec_void_help(w, h, 17, h),
        EditorMode::ReadString => spec_void_help(w, h, 1, h - 1) + spec_key_help(
            w,
            h,
            1,
            h,
            "^C".spec_bytes(),
            "Cancel".spec_bytes(),
        ) + spec_void_help(w, h, 17, h - 1) + spec_void_help(w, h, 17, h),
        EditorMode::ReadYesNo => spec_key_help(
            w,
            h,
            1,
            h - 1,
            " Y".spec_bytes(),
            "Yes".spec_bytes(),
        ) + spec_key_help(w, h, 1, h, " N".spec_bytes(), "No".spec_bytes()) + spec_void_help(
            w,
            h,
            17,
            h - 1,
        ) + spec_key_help(w, h, 17, h, "^C".spec_bytes(), "Cancel".spec_bytes()) + spec_void_help(
            w,
            h,
            33,
            h - 1,
        ) + spec_void_help(w, h, 33, h),
    }
}

/// The status-message line of the footer.
pub open spec fn spec_msg_line(ed: Editor) -> Seq<u8> {
    let w = ed.screen.w as int;
    let h = ed.screen.h as int;
    spec_move_cursor(w, h, 1, h - 2) + (match ed.screen.msg {
        Some(m) => spec_set_color(Color::FGBlack, Color::BGGray) + seq![32u8] + m@,
        None => Seq::<u8>::empty(),
    }) + spec_clear_eol()
}

/// The whole footer: key legend then the status line.
pub open spec fn spec_footer(ed: Editor) -> Seq<u8> {
    spec_reset_color() + spec_footer_cells(ed) + spec_msg_line(ed)
}

/// The hex cells of one body row for byte indices `[0, i)`: two hex
/// digits and a space each, an extra space at the 8/8 split, and the
/// cursor byte preceded by a repositioning and inverse video.
pub open spec fn spec_hex_cells(
    data: Seq<u8>,
    off: int,
    line: int,
    cursor: int,
    w: int,
    h: int,
    i: int,
) -> Seq<u8>
    decreases i,
{
    if i <= 0 {
        Seq::<u8>::empty()
    } else {
        let j = i - 1;
        spec_hex_cells(data, off, line, cursor, w, h, j) + (if j == 8 {
            seq![32u8]
        } else {
            Seq::<u8>::empty()
        }) + (if cursor == off + j {
            spec_move_cursor(
                w,
                h,
                11 + 3 * j + (if j >= 8 {
                    1int
                } else {
                    0int
                }),
                line,
            ) + spec_set_color(Color::FGBlack, Color::BGGray) + seq![32u8]
        } else {
            Seq::<u8>::empty()
        }) + spec_hex(data[off + j] as int, 2) + seq![32u8] + (if cursor == off + j {
            spec_reset_color()
        } else {
            Seq::<u8>::empty()
        })
    }
}

/// The blank filler cells of a short row, for byte indices
/// `[line_len, i)`.
pub open spec fn spec_pad_cells(line_len: int, i: int) -> Seq<u8>
    decreases i - line_len,
{
    if i <= line_len {
        Seq::<u8>::empty()
    } else {
        spec_pad_cells(line_len, i - 1) + (if i - 1 == 8 {
            seq![32u8]
        } else {
            Seq::<u8>::empty()
        }) + seq![32u8, 32u8, 32u8]
    }
}

/// The ASCII cells of one body row for byte indices `[0, i)`, with the
/// cursor byte in inverse video.
pub open spec fn spec_ascii_cells(data: Seq<u8>, off: int, cursor: int, i: int) -> Seq<u8>
    decreases i,
{
    if i <= 0 {
        Seq::<u8>::empty()
    } else {
        let j = i - 1;
        spec_ascii_cells(data, off, cursor, j) + (if cursor == off + j {
            spec_set_color(Color::FGBlack, Color::BGGray)
        } else {
            Seq::<u8>::empty()
        }) + seq![spec_display_byte(data[off + j])] + (if cursor == off + j {
            spec_reset_color()
        } else {
            Seq::<u8>::empty()
        })
    }
}

/// One full body row at terminal row `line`, showing the 16 bytes from
/// `off` (fewer on the last row): offset, hex columns, ASCII column.
pub open spec fn spec_body_row(
    data: Seq<u8>,
    off: int,
    line: int,
    cursor: int,
    w: int,
    h: int,
) -> Seq<u8> {
    let line_len = if data.len() - off < 16 {
        data.len() - off
    } else {
        16int
    };
    spec_move_cursor(w, h, 1, line) + spec_hex(off, 8) + " | ".spec_bytes() + spec_hex_cells(
        data,
        off,
        line,
        cursor,
        w,
        h,
        line_len,
    ) + spec_pad_cells(line_len, 16) + "| ".spec_bytes() + spec_ascii_cells(
        data,
        off,
        cursor,
        line_len,
    ) + spec_clear_eol()
}

/// The first `k` body rows, starting at row `top` of the data, drawn
/// from terminal row 3 down.
pub open spec fn spec_body_rows(
    data: Seq<u8>,
    top: int,
    cursor: int,
    w: int,
    h: int,
    k: int,
) -> Seq<u8>
    decreases k,
{
    if k <= 0 {
        Seq::<u8>::empty()
    } else {
        spec_body_rows(data, top, cursor, w, h, k - 1) + spec_body_row(
            data,
            16 * (top + k - 1),
            3 + k - 1,
            cursor,
            w,
            h,
        )
    }
}

/// How many body rows are drawn: the data rows from the anchor down, but
/// no more than the window holds.
pub open spec fn spec_rows_shown(len: int, top: int, body: int) -> int {
    let avail = spec_last_line(len) - top;
    if avail <= 0 {
        0
    } else if avail < body {
        avail
    } else {
        body
    }
}

/// `m` cleared lines from terminal row `start` down, erasing what an
/// earlier, taller frame may have left.
pub open spec fn spec_blank_lines(w: int, h: int, start: int, m: int) -> Seq<u8>
    decreases m,
{
    if m <= 0 {
        Seq::<u8>::empty()
    } else {
        spec_blank_lines(w, h, start, m - 1) + spec_move_cursor(w, h, 1, start + m - 1)
            + spec_clear_eol()
    }
}

/// The whole frame: header, footer, the body rows of the current
/// document, and cleared filler lines below them.
pub open spec fn spec_main_screen(ed: Editor) -> Seq<u8> {
    let w = ed.screen.w as int;
    let h = ed.screen.h as int;
    let n = if ed.files().len() > 0 {
        spec_rows_shown(
            ed.cur_doc().data@.len() as int,
            ed.cur_doc().top_line as int,
            ed.body_lines(),
        )
    } else {
        0int
    };
    spec_header(ed) + spec_footer(ed) + (if ed.files().len() > 0 {
        spec_body_rows(
            ed.cur_doc().data@,
            ed.cur_doc().top_line as int,
            ed.cur_doc().cursor_pos as int,
            w,
            h,
            n,
        )
    } else {
        Seq::<u8>::empty()
    }) + spec_reset_color() + spec_blank_lines(w, h, 3 + n, ed.body_lines() - n)
}

/// The modal prompt line drawn over the status row: the label and, for
/// text prompts, the entered text and a final cursor positioning.
pub open spec fn spec_prompt_line(ed: Editor) -> Seq<u8> {
    let w = ed.screen.w as int;
    let h = ed.screen.h as int;
    if ed.mode() == EditorMode::ReadYesNo {
        spec_reset_color() + spec_set_color(Color::FGBlack, Color::BGGray) + spec_move_cursor(
            w,
            h,
            1,
            h - 2,
        ) + seq![32u8] + ed.prompt_label() + spec_clear_eol()
    } else if ed.mode() == EditorMode::ReadFilename || ed.mode() == EditorMode::ReadString {
        spec_reset_color() + spec_set_color(Color::FGBlack, Color::BGGray) + spec_move_cursor(
            w,
            h,
            1,
            h - 2,
        ) + seq![32u8] + ed.prompt_label() + ": ".spec_bytes() + ed.prompt_text()
            + spec_clear_eol() + spec_move_cursor(
            w,
            h,
            ed.prompt_label().len() + 4 + ed.prompt_cursor(),
            h - 2,
        )
    } else {
        Seq::<u8>::empty()
    }
}

/// Append one full body row at terminal row `line`: the offset, the hex
/// columns with the cursor byte highlighted, and the ASCII column.
#[verifier::rlimit(100)]
fn emit_body_row(scr: &Screen, data: &Vec<u8>, off: usize, line: i32, cursor: usize, out: &mut Vec<
    u8,
>)
    requires
        scr.wf(),
        off < data@.len(),
    ensures
        final(out)@ == old(out)@ + spec_body_row(
            data@,
            off as int,
            line as int,
            cursor as int,
            scr.w as int,
            scr.h as int,
        ),
{
    scr.move_cursor(out, 1, line);
    push_hex(out, off, 8);
    push_str(out, " | ");
    let ghost base = out@;
    let len = data.len();
    let line_len: usize = if len - off < 16 {
        len - off
    } else {
        16
    };
    let mut i: usize = 0;
    while i < line_len
        invariant
            scr.wf(),
            i <= line_len,
            line_len <= 16,
            len == data@.len(),
            off + line_len <= len,
            out@ == base + spec_hex_cells(
                data@,
                off as int,
                line as int,
                cursor as int,
                scr.w as int,
                scr.h as int,
                i as int,
            ),
        decreases line_len - i,
    {
        if i == 8 {
            out.push(32);
        }
        let hl = cursor == off + i;
        if hl {
            let x: i32 = 11 + 3 * (i as i32) + if i >= 8 {
                1
            } else {
                0
            };
            scr.move_cursor(out, x, line);
            set_color(out, Color::FGBlack, Color::BGGray);
            out.push(32);
        }
        push_hex(out, data[off + i] as usize, 2);
        out.push(32);
        if hl {
            reset_color(out);
        }
        i += 1;
        assert(out@ =~= base + spec_hex_cells(
            data@,
            off as int,
            line as int,
            cursor as int,
            scr.w as int,
            scr.h as int,
            i as int,
        ));
    }
    let ghost base2 = out@;
    let mut j: usize = line_len;
    while j < 16
        invariant
            line_len <= j <= 16,
            out@ == base2 + spec_pad_cells(line_len as int, j as int),
        decreases 16 - j,
    {
        if j == 8 {
            out.push(32);
        }
        out.push(32);
        out.push(32);
        out.push(32);
        j += 1;
        assert(out@ =~= base2 + spec_pad_cells(line_len as int, j as int));
    }
    push_str(out, "| ");
    let ghost base3 = out@;
    let mut k: usize = 0;
    while k < line_len
        invariant
            k <= line_len,
            line_len <= 16,
            len == data@.len(),
            off + line_len <= len,
            out@ == base3 + spec_ascii_cells(data@, off as int, cursor as int, k as int),
        decreases line_len - k,
    {
        let hl = cursor == off + k;
        if hl {
            set_color(out, Color::FGBlack, Color::BGGray);
        }
        let b = data[off + k];
        out.push(
            if b >= 32 && b < 127 {
                b
            } else {
                46
            },
        );
        if hl {
            reset_color(out);
        }
        k += 1;
        assert(out@ =~= base3 + spec_ascii_cells(data@, off as int, cursor as int, k as int));
    }
    clear_eol(out);
    assert(out@ =~= old(out)@ + spec_body_row(
        data@,
        off as int,
        line as int,
        cursor as int,
        scr.w as int,
        scr.h as int,
    ));
}

/// Cursor bounds: in every well-formed editor state the cursor offset of
/// the current document lies in `[0, max(1, L))` for a document of `L`
/// bytes. Every navigation command ensures `wf` again, so this holds
/// after any sequence of navigation commands.
pub proof fn lemma_cursor_in_bounds(ed: Editor)
    requires
        ed.wf(),
        ed.files().len() > 0,
    ensures
        0 <= ed.cur_doc().cursor_pos,
        ed.cur_doc().data@.len() > 0 ==> ed.cur_doc().cursor_pos < ed.cur_doc().data@.len(),
        ed.cur_doc().data@.len() == 0 ==> ed.cur_doc().cursor_pos == 0,
{
    assert(ed.files()[ed.cur()].inv(ed.body_lines()));
}

/// Visibility: in every well-formed editor state the cursor's row lies in
/// `[top_line, top_line + body_lines)`, the anchor is never negative, and
/// whenever the document has at least a full page of rows the window
/// `[top_line, top_line + body_lines)` stays inside the data rows. Every
/// navigation command ensures `wf` again, so this holds after any
/// navigation command.
pub proof fn lemma_cursor_visible(ed: Editor)
    requires
        ed.wf(),
        ed.files().len() > 0,
    ensures
        ed.cur_doc().top_line <= spec_row(ed.cur_doc().cursor_pos as int),
        spec_row(ed.cur_doc().cursor_pos as int) < ed.cur_doc().top_line + ed.body_lines(),
        spec_last_line(ed.cur_doc().data@.len() as int) >= ed.body_lines() ==> ed.cur_doc().top_line
            + ed.body_lines() <= spec_last_line(ed.cur_doc().data@.len() as int),
{
    assert(ed.files()[ed.cur()].inv(ed.body_lines()));
}

/// Idempotence of recentering: recentering a second time, with the same
/// cursor, changes nothing.
pub proof fn lemma_ensure_visible_idempotent(c: int, t: int, len: int, body: int, vla: int)
    ensures
        spec_ensure_visible(c, spec_ensure_visible(c, t, len, body, vla), len, body, vla)
            == spec_ensure_visible(c, t, len, body, vla),
{
}

/// Jumping to the start of the file and then snapping to the row start
/// is a no-op on the cursor: it stays at offset 0.
pub proof fn lemma_home_after_file_start()
    ensures
        spec_home(0) == 0,
{
    vstd::arithmetic::div_mod::lemma_basic_div(0, 16);
}

/// Jumping to the end of the file twice gives the same cursor and the
/// same anchor as jumping once: the cursor formula depends only on the
/// length, and the recentering is idempotent.
pub proof fn lemma_end_of_file_idempotent(t: int, len: int, body: int)
    ensures
        spec_end_of_file(len) == spec_end_of_file(len),
        spec_ensure_visible(
            spec_end_of_file(len),
            spec_ensure_visible(spec_end_of_file(len), t, len, body, 1),
            len,
            body,
            1,
        ) == spec_ensure_visible(spec_end_of_file(len), t, len, body, 1),
{
    lemma_ensure_visible_idempotent(spec_end_of_file(len), t, len, body, 1);
}

/// Empty document: every cursor motion is a no-op at offset 0, the
/// anchor stays at 0, and no body row (so no highlighted byte) is drawn.
pub proof fn lemma_empty_file_noops(t: int, body: int, vla: int)
    requires
        body >= 1,
        0 <= vla <= 1,
    ensures
        spec_end_of_file(0) == 0,
        spec_move_down(0, 0) == 0,
        spec_move_right(0, 0) == 0,
        spec_row_end(0, 0) == 0,
        spec_page_down_cursor(0, 0, body) == 0,
        spec_page_down_top(0, t, 0, body) == t,
        spec_ensure_visible(0, 0, 0, body, vla) == 0,
        spec_rows_shown(0, 0, body) == 0,
        spec_body_rows(Seq::<u8>::empty(), 0, 0, 80, 24, spec_rows_shown(0, 0, body)) == Seq::<
            u8,
        >::empty(),
{
    vstd::arithmetic::div_mod::lemma_basic_div(0, 16);
    vstd::arithmetic::div_mod::lemma_basic_div(vla, 16);
    assert(spec_last_line(0) == 0);
}

/// Append one key-legend cell at `(x, y)`.
pub(crate) fn emit_key_help(scr: &Screen, out: &mut Vec<u8>, x: i32, y: i32, key: &str, help: &str)
    requires
        scr.wf(),
    ensures
        final(out)@ == old(out)@ + spec_key_help(
            scr.w as int,
            scr.h as int,
            x as int,
            y as int,
            key.spec_bytes(),
            help.spec_bytes(),
        ),
{
    scr.move_cursor(out, x, y);
    set_color(out, Color::FGBlack, Color::BGGray);
    push_str(out, key);
    reset_color(out);
    out.push(32);
    push_str(out, help);
    let hl = help.as_bytes().len();
    if hl < 16 {
        push_spaces(out, 16 - hl);
    } else {
        push_spaces(out, 0);
    }
    assert(out@ =~= old(out)@ + spec_key_help(
        scr.w as int,
        scr.h as int,
        x as int,
        y as int,
        key.spec_bytes(),
        help.spec_bytes(),
    ));
}

/// Append an empty key-legend cell at `(x, y)`.
pub(crate) fn emit_void_help(scr: &Screen, out: &mut Vec<u8>, x: i32, y: i32)
    requires
        scr.wf(),
    ensures
        final(out)@ == old(out)@ + spec_void_help(scr.w as int, scr.h as int, x as int, y as int),
{
    scr.move_cursor(out, x, y);
    reset_color(out);
    clear_eol(out);
    assert(out@ =~= old(out)@ + spec_void_help(scr.w as int, scr.h as int, x as int, y as int));
}

/// The UTF-8 bytes of a string, as a fresh buffer.
pub fn bytes_of(s: &str) -> (r: Vec<u8>)
    ensures
        r@ == s.spec_bytes(),
{
    let mut v = Vec::new();
    push_str(&mut v, s);
    v
}

/// A fresh buffer holding the same bytes.
pub fn copy_bytes(v: &Vec<u8>) -> (r: Vec<u8>)
    ensures
        r@ == v@,
{
    let mut out = Vec::new();
    crate::screen::push_bytes(&mut out, v.as_slice());
    out
}

} // verus!
