//! The directory selector: a sorted listing with a synthetic parent
//! entry, a selection index with the same recentering rule as the hex
//! view, and a small state machine that tells the caller when to list a
//! subdirectory or when a file was picked.
//!
//! Directory listing itself is I/O and stays with the caller, which
//! hands the raw entries in and receives the chosen name back.

use vstd::prelude::*;

use crate::editor::{spec_key_help, spec_void_help};
use crate::keys::{KEY_ARROW_UP, KEY_ARROW_DOWN, KEY_ENTER, KEY_CTRL_C};
use crate::screen::{
    Screen, Color, push_str, push_spaces, push_bytes, set_color, reset_color, clear_eol,
    spec_move_cursor, spec_set_color, spec_reset_color, spec_clear_eol, spec_spaces,
};

verus! {

use vstd::string::StringSliceAdditionalSpecFns;

/// One directory entry: its name as raw path bytes, and whether it is a
/// directory.
pub struct FileEntry {
    pub name: Vec<u8>,
    pub is_dir: bool,
}

/// Lexicographic order on raw name bytes.
pub open spec fn spec_lex_le(a: Seq<u8>, b: Seq<u8>) -> bool
    decreases a.len(),
{
    if a.len() == 0 {
        true
    } else if b.len() == 0 {
        false
    } else if a[0] < b[0] {
        true
    } else if a[0] > b[0] {
        false
    } else {
        spec_lex_le(a.skip(1), b.skip(1))
    }
}

/// The listing order: directories before files, then lexicographic by
/// name.
pub open spec fn spec_entry_le(a: FileEntry, b: FileEntry) -> bool {
    if a.is_dir && !b.is_dir {
        true
    } else if !a.is_dir && b.is_dir {
        false
    } else {
        spec_lex_le(a.name@, b.name@)
    }
}

/// Every pair of entries drawn in order respects the listing order.
pub open spec fn spec_sorted_entries(s: Seq<FileEntry>) -> bool {
    forall|i: int, j: int| 0 <= i < j < s.len() ==> spec_entry_le(#[trigger] s[i], #[trigger] s[j])
}

/// The lexicographic order is total.
pub proof fn lemma_lex_le_total(a: Seq<u8>, b: Seq<u8>)
    ensures
        spec_lex_le(a, b) || spec_lex_le(b, a),
    decreases a.len(),
{
    if a.len() > 0 && b.len() > 0 && a[0] == b[0] {
        lemma_lex_le_total(a.skip(1), b.skip(1));
    }
}

/// The lexicographic order is transitive.
pub proof fn lemma_lex_le_trans(a: Seq<u8>, b: Seq<u8>, c: Seq<u8>)
    requires
        spec_lex_le(a, b),
        spec_lex_le(b, c),
    ensures
        spec_lex_le(a, c),
    decreases a.len(),
{
    if a.len() > 0 && b.len() > 0 && c.len() > 0 && a[0] == b[0] && b[0] == c[0] {
        lemma_lex_le_trans(a.skip(1), b.skip(1), c.skip(1));
    }
}

/// The listing order is total.
pub proof fn lemma_entry_le_total(a: FileEntry, b: FileEntry)
    ensures
        spec_entry_le(a, b) || spec_entry_le(b, a),
{
    lemma_lex_le_total(a.name@, b.name@);
}

/// The listing order is transitive.
pub proof fn lemma_entry_le_trans(a: FileEntry, b: FileEntry, c: FileEntry)
    requires
        spec_entry_le(a, b),
        spec_entry_le(b, c),
    ensures
        spec_entry_le(a, c),
{
    if a.is_dir == b.is_dir && b.is_dir == c.is_dir {
        lemma_lex_le_trans(a.name@, b.name@, c.name@);
    }
}

/// Compare two names in lexicographic byte order.
fn lex_le(a: &Vec<u8>, b: &Vec<u8>) -> (r: bool)
    ensures
        r == spec_lex_le(a@, b@),
{
    let mut i: usize = 0;
    proof {
        assert(a@.skip(0) =~= a@);
        assert(b@.skip(0) =~= b@);
    }
    loop
        invariant
            i <= a@.len(),
            i <= b@.len(),
            spec_lex_le(a@, b@) == spec_lex_le(a@.skip(i as int), b@.skip(i as int)),
        decreases a@.len() - i,
    {
        if i >= a.len() {
            proof {
                assert(a@.skip(i as int).len() == 0);
            }
            return true;
        }
        if i >= b.len() {
            proof {
                assert(b@.skip(i as int).len() == 0);
                assert(a@.skip(i as int).len() > 0);
            }
            return false;
        }
        if a[i] < b[i] {
            proof {
                assert(a@.skip(i as int)[0] == a@[i as int]);
                assert(b@.skip(i as int)[0] == b@[i as int]);
            }
            return true;
        }
        if a[i] > b[i] {
            proof {
                assert(a@.skip(i as int)[0] == a@[i as int]);
                assert(b@.skip(i as int)[0] == b@[i as int]);
            }
            return false;
        }
        proof {
            assert(a@.skip(i as int)[0] == a@[i as int]);
            assert(b@.skip(i as int)[0] == b@[i as int]);
            assert(a@.skip(i as int).skip(1) =~= a@.skip(i as int + 1));
            assert(b@.skip(i as int).skip(1) =~= b@.skip(i as int + 1));
        }
        i += 1;
    }
}

/// Compare two entries in the listing order.
fn entry_le(a: &FileEntry, b: &FileEntry) -> (r: bool)
    ensures
        r == spec_entry_le(*a, *b),
{
    if a.is_dir && !b.is_dir {
        true
    } else if !a.is_dir && b.is_dir {
        false
    } else {
        lex_le(&a.name, &b.name)
    }
}

/// Sort entries into the listing order (insertion sort): the result is
/// sorted and holds exactly the same entries.
fn sort_entries(v: &mut Vec<FileEntry>)
    ensures
        final(v)@.len() == old(v)@.len(),
        final(v)@.to_multiset() == old(v)@.to_multiset(),
        spec_sorted_entries(final(v)@),
{
    broadcast use vstd::seq_lib::group_to_multiset_ensures;
    broadcast use vstd::seq_lib::to_multiset_insert;

    let n = v.len();
    if n <= 1 {
        return;
    }
    let mut i: usize = 1;
    while i < n
        invariant
            1 <= i <= n,
            n == v@.len(),
            v@.len() == old(v)@.len(),
            v@.to_multiset() == old(v)@.to_multiset(),
            spec_sorted_entries(v@.take(i as int)),
        decreases n - i,
    {
        let mut j: usize = i;
        proof {
            assert forall|p: int, q: int| 0 <= p < q <= i && q != i implies spec_entry_le(
                #[trigger] v@[p],
                #[trigger] v@[q],
            ) by {
                assert(spec_entry_le(v@.take(i as int)[p], v@.take(i as int)[q]));
            }
        }
        while j > 0 && !entry_le(&v[j - 1], &v[j])
            invariant
                j <= i < n,
                n == v@.len(),
                v@.to_multiset() == old(v)@.to_multiset(),
                forall|p: int, q: int|
                    0 <= p < q <= i && q != j ==> spec_entry_le(#[trigger] v@[p], #[trigger] v@[q]),
                forall|q: int| j < q <= i ==> spec_entry_le(v@[j as int], #[trigger] v@[q]),
            decreases j,
        {
            proof {
                lemma_entry_le_total(v@[j as int - 1], v@[j as int]);
            }
            let ghost u = v@;
            let x = v.remove(j);
            v.insert(j - 1, x);
            proof {
                broadcast use vstd::multiset::group_multiset_axioms;

                assert(v@ =~= u.update(j as int - 1, u[j as int]).update(
                    j as int,
                    u[j as int - 1],
                ));
                assert(v@.to_multiset() == u.remove(j as int).insert(j as int - 1, x).to_multiset());
                vstd::seq_lib::to_multiset_remove::<FileEntry>(u, j as int);
                vstd::seq_lib::to_multiset_insert::<FileEntry>(u.remove(j as int), j as int - 1, x);
                vstd::seq_lib::to_multiset_contains::<FileEntry>(u, u[j as int]);
                assert(u.contains(u[j as int]));
                assert(u.to_multiset().count(u[j as int]) >= 1);
                assert(v@.to_multiset() =~= u.to_multiset());
                assert forall|p: int, q: int|
                    0 <= p < q <= i && q != j - 1 implies spec_entry_le(
                    #[trigger] v@[p],
                    #[trigger] v@[q],
                ) by {
                    if q == j {
                        if p < j - 1 {
                            assert(spec_entry_le(u[p], u[j as int - 1]));
                        }
                    } else if q > j {
                        if p == j - 1 {
                            assert(spec_entry_le(u[j as int], u[q]));
                        } else if p == j {
                            assert(spec_entry_le(u[j as int - 1], u[q]));
                        } else {
                            assert(spec_entry_le(u[p], u[q]));
                        }
                    } else {
                        assert(spec_entry_le(u[p], u[q]));
                    }
                }
                assert forall|q: int| j - 1 < q <= i implies spec_entry_le(
                    v@[j as int - 1],
                    #[trigger] v@[q],
                ) by {
                    if q > j {
                        assert(spec_entry_le(u[j as int], u[q]));
                    }
                }
            }
            j -= 1;
        }
        proof {
            assert forall|p: int, q: int| 0 <= p < q <= i implies spec_entry_le(
                #[trigger] v@[p],
                #[trigger] v@[q],
            ) by {
                if q == j as int && j > 0 {
                    if p < j - 1 {
                        assert(spec_entry_le(v@[p], v@[j as int - 1]));
                        lemma_entry_le_trans(v@[p], v@[j as int - 1], v@[j as int]);
                    }
                }
            }
        }
        i += 1;
        proof {
            assert forall|p: int, q: int| 0 <= p < q < i implies spec_entry_le(
                #[trigger] v@.take(i as int)[p],
                #[trigger] v@.take(i as int)[q],
            ) by {
                assert(spec_entry_le(v@[p], v@[q]));
            }
        }
    }
    proof {
        assert(v@.take(n as int) =~= v@);
        assert forall|p: int, q: int| 0 <= p < q < v@.len() implies spec_entry_le(
            #[trigger] v@[p],
            #[trigger] v@[q],
        ) by {
            assert(spec_entry_le(v@.take(n as int)[p], v@.take(n as int)[q]));
        }
    }
}


/// What a selector key asks of the caller: nothing, leave with no pick,
/// list and enter this subdirectory, or resolve this file as the choice.
pub enum SelAction {
    Ignore,
    Cancel,
    EnterDir(Vec<u8>),
    Selected(Vec<u8>),
}

/// The recentering rule for the selection: when it leaves the window of
/// `body` rows at anchor `top`, re-anchor half a page above it (or at
/// the top for an early selection).
pub open spec fn spec_sel_ensure_visible(sel: int, top: int, body: int) -> int {
    if sel < top || sel >= top + body {
        if sel >= body / 2 {
            sel - body / 2
        } else {
            0
        }
    } else {
        top
    }
}

/// The directory selector: the sorted entries, the selection index, and
/// the scroll anchor.
pub struct FileSel {
    pub files: Vec<FileEntry>,
    pub sel_index: usize,
    pub top_index: usize,
}

/// Selection after one step up: clamps at the first entry.
pub open spec fn spec_sel_up(sel: int) -> int {
    if sel > 0 {
        sel - 1
    } else {
        sel
    }
}

/// Selection after one step down: clamps at the last entry.
pub open spec fn spec_sel_down(sel: int, len: int) -> int {
    if sel + 1 < len {
        sel + 1
    } else {
        sel
    }
}

/// The full transition of one selector key.
pub open spec fn spec_sel_step(
    pre: FileSel,
    post: FileSel,
    key: u32,
    body: int,
    r: SelAction,
) -> bool {
    if key == KEY_CTRL_C {
        &&& post == pre
        &&& r == SelAction::Cancel
    } else if key == KEY_ENTER {
        if pre.sel_index >= pre.files@.len() {
            &&& post == pre
            &&& r == SelAction::Ignore
        } else {
            let e = pre.files@[pre.sel_index as int];
            &&& post.files@ == pre.files@.remove(pre.sel_index as int)
            &&& post.sel_index == pre.sel_index
            &&& post.top_index == pre.top_index
            &&& if e.is_dir {
                r matches SelAction::EnterDir(n) && n@ == e.name@
            } else {
                r matches SelAction::Selected(n) && n@ == e.name@
            }
        }
    } else if key == KEY_ARROW_UP {
        let s2 = spec_sel_up(pre.sel_index as int);
        &&& post.files == pre.files
        &&& post.sel_index == s2
        &&& post.top_index == if pre.sel_index > 0 {
            spec_sel_ensure_visible(s2, pre.top_index as int, body)
        } else {
            pre.top_index as int
        }
        &&& r == SelAction::Ignore
    } else if key == KEY_ARROW_DOWN {
        let s2 = spec_sel_down(pre.sel_index as int, pre.files@.len() as int);
        &&& post.files == pre.files
        &&& post.sel_index == s2
        &&& post.top_index == if pre.sel_index + 1 < pre.files@.len() {
            spec_sel_ensure_visible(s2, pre.top_index as int, body)
        } else {
            pre.top_index as int
        }
        &&& r == SelAction::Ignore
    } else {
        &&& post == pre
        &&& r == SelAction::Ignore
    }
}

impl FileSel {
    /// The selection stays inside the list and the anchor never passes
    /// it.
    pub open spec fn wf(&self) -> bool {
        self.sel_index <= self.files@.len() && self.top_index <= self.sel_index
    }

    /// An empty selector.
    pub fn new() -> (r: FileSel)
        ensures
            r.files@.len() == 0,
            r.sel_index == 0,
            r.top_index == 0,
            r.wf(),
    {
        FileSel { files: Vec::new(), sel_index: 0, top_index: 0 }
    }

    /// Adopt a directory listing: a synthetic parent entry is added and
    /// everything is sorted into the listing order; the selection returns
    /// to the top.
    pub fn set_entries(&mut self, entries: Vec<FileEntry>)
        ensures
            final(self).wf(),
            final(self).sel_index == 0,
            final(self).top_index == 0,
            spec_sorted_entries(final(self).files@),
            final(self).files@.len() == entries@.len() + 1,
            exists|dd: FileEntry|
                dd.name@ == seq![46u8, 46u8] && dd.is_dir && final(self).files@.to_multiset()
                    == entries@.to_multiset().insert(dd),
    {
        broadcast use vstd::seq_lib::to_multiset_insert;

        let mut name: Vec<u8> = Vec::new();
        name.push(46);
        name.push(46);
        proof {
            assert(name@ =~= seq![46u8, 46u8]);
        }
        let dd = FileEntry { name, is_dir: true };
        let ghost gdd = dd;
        let mut v = entries;
        v.insert(0, dd);
        sort_entries(&mut v);
        self.files = v;
        self.sel_index = 0;
        self.top_index = 0;
        proof {
            assert(self.files@.to_multiset() == entries@.to_multiset().insert(gdd));
        }
    }

    /// Recenter the window on the selection when it has scrolled out.
    pub fn ensure_sel_visible(&mut self, body: usize)
        requires
            old(self).wf(),
            body >= 1,
        ensures
            final(self).wf(),
            final(self).files == old(self).files,
            final(self).sel_index == old(self).sel_index,
            final(self).top_index == spec_sel_ensure_visible(
                old(self).sel_index as int,
                old(self).top_index as int,
                body as int,
            ),
    {
        if self.sel_index < self.top_index || self.sel_index - self.top_index >= body {
            if self.sel_index >= body / 2 {
                self.top_index = self.sel_index - body / 2;
            } else {
                self.top_index = 0;
            }
        }
    }

    /// Move the selection one entry up.
    pub fn move_sel_up(&mut self, body: usize)
        requires
            old(self).wf(),
            body >= 1,
        ensures
            final(self).wf(),
            final(self).files == old(self).files,
            final(self).sel_index == spec_sel_up(old(self).sel_index as int),
            final(self).top_index == if old(self).sel_index > 0 {
                spec_sel_ensure_visible(
                    spec_sel_up(old(self).sel_index as int),
                    old(self).top_index as int,
                    body as int,
                )
            } else {
                old(self).top_index as int
            },
    {
        if self.sel_index > 0 {
            self.sel_index -= 1;
            proof {
                assert(self.top_index <= self.sel_index + 1);
            }
            if self.sel_index < self.top_index || self.sel_index - self.top_index >= body {
                if self.sel_index >= body / 2 {
                    self.top_index = self.sel_index - body / 2;
                } else {
                    self.top_index = 0;
                }
            }
        }
    }

    /// Move the selection one entry down.
    pub fn move_sel_down(&mut self, body: usize)
        requires
            old(self).wf(),
            body >= 1,
        ensures
            final(self).wf(),
            final(self).files == old(self).files,
            final(self).sel_index == spec_sel_down(
                old(self).sel_index as int,
                old(self).files@.len() as int,
            ),
            final(self).top_index == if old(self).sel_index + 1 < old(self).files@.len() {
                spec_sel_ensure_visible(
                    spec_sel_down(old(self).sel_index as int, old(self).files@.len() as int),
                    old(self).top_index as int,
                    body as int,
                )
            } else {
                old(self).top_index as int
            },
    {
        let n = self.files.len();
        if n > 0 && self.sel_index < n - 1 {
            self.sel_index += 1;
            if self.sel_index < self.top_index || self.sel_index - self.top_index >= body {
                if self.sel_index >= body / 2 {
                    self.top_index = self.sel_index - body / 2;
                } else {
                    self.top_index = 0;
                }
            }
        }
    }

    /// Handle one decoded key: `ctrl-C` cancels, Enter confirms the
    /// selection (a directory asks the caller to list it; a file is the
    /// choice), arrows move the selection.
    pub fn handle_key(&mut self, key: u32, body: usize) -> (r: SelAction)
        requires
            old(self).wf(),
            body >= 1,
        ensures
            final(self).wf(),
            spec_sel_step(*old(self), *final(self), key, body as int, r),
    {
        if key == KEY_CTRL_C {
            return SelAction::Cancel;
        }
        if key == KEY_ENTER {
            if self.sel_index >= self.files.len() {
                return SelAction::Ignore;
            }
            let e = self.files.remove(self.sel_index);
            if e.is_dir {
                return SelAction::EnterDir(e.name);
            } else {
                return SelAction::Selected(e.name);
            }
        }
        if key == KEY_ARROW_UP {
            self.move_sel_up(body);
            return SelAction::Ignore;
        }
        if key == KEY_ARROW_DOWN {
            self.move_sel_down(body);
            return SelAction::Ignore;
        }
        SelAction::Ignore
    }
}


/// The selector header: title bar, version tag, spacer line.
pub open spec fn spec_sel_header(w: int, h: int) -> Seq<u8> {
    spec_move_cursor(w, h, 1, 1) + spec_set_color(Color::FGBlack, Color::BGGray)
        + " Select File".spec_bytes() + spec_clear_eol() + spec_move_cursor(w, h, w - 11, 1)
        + " hedx v0.1".spec_bytes() + spec_clear_eol() + spec_move_cursor(w, h, 1, 2)
        + spec_reset_color() + spec_clear_eol()
}

/// The selector footer: the cancel legend and the status line.
pub open spec fn spec_sel_footer(w: int, h: int, msg: Option<Vec<u8>>) -> Seq<u8> {
    spec_reset_color() + spec_void_help(w, h, 1, h - 1) + spec_key_help(
        w,
        h,
        1,
        h,
        "^C".spec_bytes(),
        "Cancel".spec_bytes(),
    ) + spec_void_help(w, h, 17, h - 1) + spec_void_help(w, h, 17, h) + spec_move_cursor(
        w,
        h,
        1,
        h - 2,
    ) + (match msg {
        Some(m) => spec_set_color(Color::FGBlack, Color::BGGray) + seq![32u8] + m@,
        None => Seq::<u8>::empty(),
    }) + spec_clear_eol()
}

/// The longest name among the first `i` entries.
pub open spec fn spec_max_name_len(s: Seq<FileEntry>, i: int) -> int
    decreases i,
{
    if i <= 0 {
        0
    } else {
        let l = s[i - 1].name@.len() as int;
        let m = spec_max_name_len(s, i - 1);
        if l > m {
            l
        } else {
            m
        }
    }
}

/// A name as drawn in a column of width `maxlen`: cut with an ellipsis
/// when it does not fit.
pub open spec fn spec_sel_name(name: Seq<u8>, maxlen: int) -> Seq<u8> {
    if name.len() > maxlen {
        let thr = if maxlen >= 3 {
            maxlen - 3
        } else {
            0int
        };
        name.take(thr + 1) + "...".spec_bytes()
    } else {
        name
    }
}

/// One listing row: the name padded to the column width, then a kind
/// tag; the selected row in inverse video.
pub open spec fn spec_sel_row(
    e: FileEntry,
    selected: bool,
    line: int,
    maxlen: int,
    w: int,
    h: int,
) -> Seq<u8> {
    spec_move_cursor(w, h, 1, line) + (if selected {
        spec_set_color(Color::FGBlack, Color::BGGray)
    } else {
        Seq::<u8>::empty()
    }) + spec_sel_name(e.name@, maxlen) + spec_spaces(maxlen - e.name@.len()) + (if e.is_dir {
        "              (dir)".spec_bytes()
    } else {
        "            0 bytes".spec_bytes()
    }) + spec_reset_color() + spec_clear_eol()
}

/// The first `k` listing rows from the anchor down.
pub open spec fn spec_sel_rows(
    files: Seq<FileEntry>,
    top: int,
    sel: int,
    maxlen: int,
    w: int,
    h: int,
    k: int,
) -> Seq<u8>
    decreases k,
{
    if k <= 0 {
        Seq::<u8>::empty()
    } else {
        spec_sel_rows(files, top, sel, maxlen, w, h, k - 1) + spec_sel_row(
            files[top + k - 1],
            top + k - 1 == sel,
            3 + k - 1,
            maxlen,
            w,
            h,
        )
    }
}

/// How many listing rows are drawn.
pub open spec fn spec_sel_rows_shown(len: int, top: int, body: int) -> int {
    let avail = len - top;
    if avail <= 0 {
        0
    } else if avail < body {
        avail
    } else {
        body
    }
}

/// The name column width: the longest name, capped so the kind tag still
/// fits on the screen.
pub open spec fn spec_sel_maxlen(files: Seq<FileEntry>, w: int) -> int {
    let m = spec_max_name_len(files, files.len() as int);
    if m > w - 20 {
        w - 20
    } else {
        m
    }
}

/// The whole selector frame. A terminal narrower than the name and tag
/// columns gets only header and footer.
pub open spec fn spec_sel_screen(s: FileSel, w: int, h: int, msg: Option<Vec<u8>>) -> Seq<u8> {
    spec_sel_header(w, h) + spec_sel_footer(w, h, msg) + (if w < 20 {
        Seq::<u8>::empty()
    } else {
        spec_sel_rows(
            s.files@,
            s.top_index as int,
            s.sel_index as int,
            spec_sel_maxlen(s.files@, w),
            w,
            h,
            spec_sel_rows_shown(s.files@.len() as int, s.top_index as int, h - 5),
        )
    })
}

/// Append one listing row.
#[verifier::rlimit(100)]
fn emit_sel_row(
    scr: &Screen,
    e: &FileEntry,
    selected: bool,
    line: i32,
    maxlen: usize,
    out: &mut Vec<u8>,
)
    requires
        scr.wf(),
    ensures
        final(out)@ == old(out)@ + spec_sel_row(
            *e,
            selected,
            line as int,
            maxlen as int,
            scr.w as int,
            scr.h as int,
        ),
{
    scr.move_cursor(out, 1, line);
    if selected {
        set_color(out, Color::FGBlack, Color::BGGray);
    }
    let nlen = e.name.len();
    if nlen > maxlen {
        let thr: usize = if maxlen >= 3 {
            maxlen - 3
        } else {
            0
        };
        let ghost base = out@;
        let mut i: usize = 0;
        while i <= thr
            invariant
                i <= thr + 1,
                thr < nlen,
                nlen == e.name@.len(),
                out@ == base + e.name@.take(i as int),
            decreases thr + 1 - i,
        {
            out.push(e.name[i]);
            i += 1;
            assert(out@ =~= base + e.name@.take(i as int));
        }
        push_str(out, "...");
    } else {
        push_bytes(out, e.name.as_slice());
    }
    if nlen < maxlen {
        push_spaces(out, maxlen - nlen);
    } else {
        proof {
            assert(spec_spaces(maxlen - e.name@.len()) =~= Seq::<u8>::empty());
        }
    }
    if e.is_dir {
        push_str(out, "              (dir)");
    } else {
        push_str(out, "            0 bytes");
    }
    reset_color(out);
    clear_eol(out);
    assert(out@ =~= old(out)@ + spec_sel_row(
        *e,
        selected,
        line as int,
        maxlen as int,
        scr.w as int,
        scr.h as int,
    ));
}

/// Append the selector header.
fn emit_sel_header(scr: &Screen, out: &mut Vec<u8>)
    requires
        scr.wf(),
    ensures
        final(out)@ == old(out)@ + spec_sel_header(scr.w as int, scr.h as int),
{
    scr.move_cursor(out, 1, 1);
    set_color(out, Color::FGBlack, Color::BGGray);
    push_str(out, " Select File");
    clear_eol(out);
    scr.move_cursor(out, scr.w - 11, 1);
    push_str(out, " hedx v0.1");
    clear_eol(out);
    scr.move_cursor(out, 1, 2);
    reset_color(out);
    clear_eol(out);
    assert(out@ =~= old(out)@ + spec_sel_header(scr.w as int, scr.h as int));
}

/// Append the selector footer.
#[verifier::rlimit(100)]
fn emit_sel_footer(scr: &Screen, out: &mut Vec<u8>)
    requires
        scr.wf(),
    ensures
        final(out)@ == old(out)@ + spec_sel_footer(scr.w as int, scr.h as int, scr.msg),
{
    reset_color(out);
    crate::editor::emit_void_help(scr, out, 1, scr.h - 1);
    crate::editor::emit_key_help(scr, out, 1, scr.h, "^C", "Cancel");
    crate::editor::emit_void_help(scr, out, 17, scr.h - 1);
    crate::editor::emit_void_help(scr, out, 17, scr.h);
    scr.move_cursor(out, 1, scr.h - 2);
    match &scr.msg {
        Some(m) => {
            set_color(out, Color::FGBlack, Color::BGGray);
            out.push(32);
            push_bytes(out, m.as_slice());
        },
        None => {},
    }
    clear_eol(out);
    assert(out@ =~= old(out)@ + spec_sel_footer(scr.w as int, scr.h as int, scr.msg));
}

impl FileSel {
    /// Render the whole selector frame to a byte buffer; the caller
    /// writes it out in one batch.
    #[verifier::rlimit(100)]
    pub fn render(&self, scr: &Screen) -> (out: Vec<u8>)
        requires
            self.wf(),
            scr.wf(),
        ensures
            out@ == spec_sel_screen(*self, scr.w as int, scr.h as int, scr.msg),
    {
        let mut out: Vec<u8> = Vec::new();
        emit_sel_header(scr, &mut out);
        emit_sel_footer(scr, &mut out);
        if scr.w < 20 {
            return out;
        }
        // name column width
        let mut maxlen: usize = 0;
        let mut mi: usize = 0;
        while mi < self.files.len()
            invariant
                mi <= self.files@.len(),
                maxlen == spec_max_name_len(self.files@, mi as int),
            decreases self.files@.len() - mi,
        {
            let l = self.files[mi].name.len();
            if l > maxlen {
                maxlen = l;
            }
            mi += 1;
        }
        let cap = (scr.w - 20) as usize;
        if maxlen > cap {
            maxlen = cap;
        }
        assert(maxlen as int == spec_sel_maxlen(self.files@, scr.w as int));
        // rows
        let ghost base = out@;
        let ghost w = scr.w as int;
        let ghost h = scr.h as int;
        let ghost gtop = self.top_index as int;
        let ghost gsel = self.sel_index as int;
        let ghost gml = maxlen as int;
        let mut idx: usize = self.top_index;
        let mut line: i32 = 3;
        while idx < self.files.len() && line <= scr.h - 3
            invariant
                self.wf(),
                scr.wf(),
                gtop <= idx as int,
                line == 3 + (idx as int - gtop),
                gml == maxlen as int,
                idx as int - gtop <= spec_sel_rows_shown(self.files@.len() as int, gtop, h - 5),
                w == scr.w as int,
                h == scr.h as int,
                gtop == self.top_index as int,
                gsel == self.sel_index as int,
                out@ == base + spec_sel_rows(
                    self.files@,
                    gtop,
                    gsel,
                    gml,
                    w,
                    h,
                    idx as int - gtop,
                ),
            decreases self.files@.len() - idx,
        {
            let e = &self.files[idx];
            emit_sel_row(scr, e, idx == self.sel_index, line, maxlen, &mut out);
            idx += 1;
            line += 1;
            assert(out@ =~= base + spec_sel_rows(
                self.files@,
                gtop,
                gsel,
                gml,
                w,
                h,
                idx as int - gtop,
            ));
        }
        assert(idx as int - gtop == spec_sel_rows_shown(self.files@.len() as int, gtop, h - 5));
        out
    }
}

} // verus!
