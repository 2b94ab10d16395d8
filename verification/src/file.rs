//! The document: an in-memory byte buffer with a cursor offset and a
//! scroll anchor, viewed on a fixed grid of 16 bytes per row.

use vstd::prelude::*;

verus! {

/// Bytes shown on one row of the hex body.
pub const ROW_BYTES: usize = 16;

/// Number of 16-byte rows that a buffer of `len` bytes occupies
/// (the index one past the last row, i.e. `ceil(len / 16)`).
pub open spec fn spec_last_line(len: int) -> int {
    len / 16 + if len % 16 != 0 {
        1int
    } else {
        0int
    }
}

/// The row of a byte offset.
pub open spec fn spec_row(offset: int) -> int {
    offset / 16
}

/// An open document: its bytes, display name, and view state.
pub struct File {
    pub data: Vec<u8>,
    /// Display name, as raw bytes of the path (absent for a fresh buffer).
    pub filename: Option<Vec<u8>>,
    pub modified: bool,
    /// Byte offset of the cursor; always within the buffer, 0 if empty.
    pub cursor_pos: usize,
    /// Index of the first displayed 16-byte row.
    pub top_line: usize,
}

impl File {
    /// The cursor stays inside the buffer (at 0 when the buffer is empty).
    pub open spec fn cursor_ok(&self) -> bool {
        if self.data@.len() > 0 {
            self.cursor_pos < self.data@.len()
        } else {
            self.cursor_pos == 0
        }
    }

    /// The scroll anchor never scrolls the last row of data above the
    /// bottom of a `body` rows window, and is pinned to 0 when the whole
    /// buffer fits on one page.
    pub open spec fn top_ok(&self, body: int) -> bool {
        if spec_last_line(self.data@.len() as int) > body {
            self.top_line + body <= spec_last_line(self.data@.len() as int)
        } else {
            self.top_line == 0
        }
    }

    /// The cursor's row lies inside the visible window
    /// `[top_line, top_line + body)`.
    pub open spec fn cursor_visible(&self, body: int) -> bool {
        self.top_line <= spec_row(self.cursor_pos as int)
            && spec_row(self.cursor_pos as int) < self.top_line + body
    }

    /// The full view invariant for a window of `body` rows: every
    /// navigation operation preserves it.
    pub open spec fn inv(&self, body: int) -> bool {
        self.cursor_ok() && self.top_ok(body) && self.cursor_visible(body)
    }

    /// A fresh, empty, unnamed document.
    pub fn new() -> (r: File)
        ensures
            r.data@.len() == 0,
            r.filename is None,
            !r.modified,
            r.cursor_pos == 0,
            r.top_line == 0,
    {
        File { data: Vec::new(), filename: None, modified: false, cursor_pos: 0, top_line: 0 }
    }

    /// A document freshly loaded from `data`, displayed as `filename`;
    /// the view starts at the top with the cursor on the first byte.
    pub fn from_data(data: Vec<u8>, filename: Vec<u8>) -> (r: File)
        ensures
            r.data == data,
            r.filename == Some(filename),
            !r.modified,
            r.cursor_pos == 0,
            r.top_line == 0,
    {
        File { data, filename: Some(filename), modified: false, cursor_pos: 0, top_line: 0 }
    }
}

/// Every byte offset inside the buffer lies on a row before the row
/// count: offsets and rows agree about where the data ends.
pub proof fn lemma_row_in_rows(c: int, len: int)
    requires
        0 <= c < len,
    ensures
        0 <= spec_row(c),
        spec_row(c) < spec_last_line(len),
{
    vstd::arithmetic::div_mod::lemma_div_pos_is_pos(c, 16);
    vstd::arithmetic::div_mod::lemma_div_is_ordered(c, len - 1, 16);
    vstd::arithmetic::div_mod::lemma_fundamental_div_mod(len, 16);
    vstd::arithmetic::div_mod::lemma_mod_division_less_than_divisor(len, 16);
    let q = len / 16;
    let r = len % 16;
    if r == 0 {
        vstd::arithmetic::div_mod::lemma_fundamental_div_mod_converse(len - 1, 16, q - 1, 15);
    } else {
        vstd::arithmetic::div_mod::lemma_fundamental_div_mod_converse(len - 1, 16, q, r - 1);
    }
}

/// Rows never decrease as the offset grows.
pub proof fn lemma_row_monotone(a: int, b: int)
    requires
        0 <= a <= b,
    ensures
        spec_row(a) <= spec_row(b),
{
    vstd::arithmetic::div_mod::lemma_div_is_ordered(a, b, 16);
}

/// The row count is the rounded-up quotient: between `len / 16` and
/// `len / 16 + 1`, and never negative.
pub proof fn lemma_last_line_bounds(len: int)
    requires
        len >= 0,
    ensures
        len / 16 <= spec_last_line(len) <= len / 16 + 1,
        spec_last_line(len) >= 0,
        spec_row(len) <= spec_last_line(len),
{
    vstd::arithmetic::div_mod::lemma_div_pos_is_pos(len, 16);
}

/// Moving `k` whole rows down from any offset lands exactly `k` rows
/// lower.
pub proof fn lemma_row_add_pages(c: int, k: int)
    requires
        0 <= c,
        0 <= k,
    ensures
        spec_row(c + 16 * k) == spec_row(c) + k,
{
    vstd::arithmetic::div_mod::lemma_hoist_over_denominator(c, k, 16);
}

/// The first and the last offset of the cursor's row are on the cursor's
/// row, and the row start does not pass the cursor.
pub proof fn lemma_home_row(c: int)
    requires
        c >= 0,
    ensures
        (c / 16) * 16 <= c,
        c < (c / 16) * 16 + 16,
        spec_row((c / 16) * 16) == spec_row(c),
        spec_row((c / 16) * 16 + 15) == spec_row(c),
        spec_row(c) * 16 == (c / 16) * 16,
{
    vstd::arithmetic::div_mod::lemma_fundamental_div_mod(c, 16);
    vstd::arithmetic::div_mod::lemma_mod_division_less_than_divisor(c, 16);
    let q = c / 16;
    vstd::arithmetic::div_mod::lemma_fundamental_div_mod_converse(q * 16, 16, q, 0);
    vstd::arithmetic::div_mod::lemma_fundamental_div_mod_converse(q * 16 + 15, 16, q, 15);
}

/// A document that starts at the top with its cursor on the first byte
/// satisfies the view invariant for every window of at least one row.
pub proof fn lemma_fresh_file_inv(f: File, body: int)
    requires
        f.cursor_pos == 0,
        f.top_line == 0,
        body >= 1,
    ensures
        f.inv(body),
{
    assert(spec_row(0) == 0);
    assert(f.data@.len() as int / 16 >= 0) by (nonlinear_arith);
}

} // verus!
