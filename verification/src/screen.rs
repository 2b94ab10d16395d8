//! Terminal output primitives: SGR colors, cursor addressing, and screen
//! state.
//!
//! Nothing here writes to the terminal. Every drawing primitive appends
//! the exact escape-coded bytes to a caller-supplied buffer, and its
//! contract states those bytes; the caller writes the buffer out in one
//! batch.

use vstd::prelude::*;

verus! {

use vstd::string::StringSliceAdditionalSpecFns;

pub const ESC: u8 = 27;

/// An SGR foreground or background color, or `Unset` for "leave as is".
#[derive(Copy, Clone, PartialEq, Eq, Structural)]
pub enum Color {
    Unset,
    FGDefault,
    FGBlack,
    FGRed,
    FGGreen,
    FGYellow,
    FGBlue,
    FGMagenta,
    FGCyan,
    FGGray,
    BGDefault,
    BGBlack,
    BGRed,
    BGGreen,
    BGYellow,
    BGBlue,
    BGMagenta,
    BGCyan,
    BGGray,
}

/// The SGR parameter of each color: foreground 30-37 and 39, background
/// 40-47 and 49. `Color::Unset` has no parameter; it is never emitted.
pub open spec fn spec_color_code(c: Color) -> u8 {
    match c {
        Color::Unset => 0,
        Color::FGDefault => 39,
        Color::FGBlack => 30,
        Color::FGRed => 31,
        Color::FGGreen => 32,
        Color::FGYellow => 33,
        Color::FGBlue => 34,
        Color::FGMagenta => 35,
        Color::FGCyan => 36,
        Color::FGGray => 37,
        Color::BGDefault => 49,
        Color::BGBlack => 40,
        Color::BGRed => 41,
        Color::BGGreen => 42,
        Color::BGYellow => 43,
        Color::BGBlue => 44,
        Color::BGMagenta => 45,
        Color::BGCyan => 46,
        Color::BGGray => 47,
    }
}

impl Color {
    /// The SGR parameter of this color.
    pub fn code(&self) -> (r: u8)
        ensures
            r == spec_color_code(*self),
    {
        match *self {
            Color::Unset => 0,
            Color::FGDefault => 39,
            Color::FGBlack => 30,
            Color::FGRed => 31,
            Color::FGGreen => 32,
            Color::FGYellow => 33,
            Color::FGBlue => 34,
            Color::FGMagenta => 35,
            Color::FGCyan => 36,
            Color::FGGray => 37,
            Color::BGDefault => 49,
            Color::BGBlack => 40,
            Color::BGRed => 41,
            Color::BGGreen => 42,
            Color::BGYellow => 43,
            Color::BGBlue => 44,
            Color::BGMagenta => 45,
            Color::BGCyan => 46,
            Color::BGGray => 47,
        }
    }
}

/// Decimal digits of `n`, most significant first, as ASCII bytes.
pub open spec fn spec_dec(n: nat) -> Seq<u8>
    decreases n,
{
    if n < 10 {
        seq![(48 + n) as u8]
    } else {
        spec_dec(n / 10) + seq![(48 + n % 10) as u8]
    }
}

/// Append the decimal digits of `n` to `out`.
pub fn push_dec(out: &mut Vec<u8>, n: usize)
    ensures
        final(out)@ == old(out)@ + spec_dec(n as nat),
    decreases n,
{
    if n < 10 {
        out.push((48 + n) as u8);
        assert(out@ =~= old(out)@ + spec_dec(n as nat));
    } else {
        assert(n / 10 < n);
        push_dec(out, n / 10);
        out.push((48 + n % 10) as u8);
        assert(out@ =~= old(out)@ + spec_dec(n as nat));
    }
}

/// Append every byte of `s` to `out`.
pub fn push_bytes(out: &mut Vec<u8>, s: &[u8])
    ensures
        final(out)@ == old(out)@ + s@,
{
    let mut i: usize = 0;
    while i < s.len()
        invariant
            i <= s.len(),
            out@ == old(out)@ + s@.subrange(0, i as int),
        decreases s.len() - i,
    {
        out.push(s[i]);
        i += 1;
        assert(out@ =~= old(out)@ + s@.subrange(0, i as int));
    }
    assert(out@ =~= old(out)@ + s@);
}

/// Append the UTF-8 bytes of `s` to `out`.
pub fn push_str(out: &mut Vec<u8>, s: &str)
    ensures
        final(out)@ == old(out)@ + s.spec_bytes(),
{
    push_bytes(out, s.as_bytes());
}

/// The ASCII digit of one hex nibble, lowercase.
pub open spec fn spec_hex_digit(d: int) -> u8 {
    if d < 10 {
        (48 + d) as u8
    } else {
        (87 + d) as u8
    }
}

/// `digits` hex digits of `n`, most significant first, fixed width with
/// leading zeros.
pub open spec fn spec_hex(n: int, digits: nat) -> Seq<u8>
    decreases digits,
{
    if digits == 0 {
        Seq::<u8>::empty()
    } else {
        spec_hex(n / 16, (digits - 1) as nat) + seq![spec_hex_digit(n % 16)]
    }
}

/// Append `digits` hex digits of `n`, most significant first.
pub fn push_hex(out: &mut Vec<u8>, n: usize, digits: usize)
    ensures
        final(out)@ == old(out)@ + spec_hex(n as int, digits as nat),
    decreases digits,
{
    if digits == 0 {
        assert(out@ =~= old(out)@ + spec_hex(n as int, digits as nat));
    } else {
        push_hex(out, n / 16, digits - 1);
        let d = n % 16;
        out.push(
            if d < 10 {
                (48 + d) as u8
            } else {
                (87 + d) as u8
            },
        );
        assert(out@ =~= old(out)@ + spec_hex(n as int, digits as nat));
    }
}

/// `n` spaces (none when `n` is not positive).
pub open spec fn spec_spaces(n: int) -> Seq<u8>
    decreases n,
{
    if n <= 0 {
        Seq::<u8>::empty()
    } else {
        spec_spaces(n - 1) + seq![32u8]
    }
}

/// Append `n` spaces.
pub fn push_spaces(out: &mut Vec<u8>, n: usize)
    ensures
        final(out)@ == old(out)@ + spec_spaces(n as int),
{
    let mut i: usize = 0;
    while i < n
        invariant
            i <= n,
            out@ == old(out)@ + spec_spaces(i as int),
        decreases n - i,
    {
        out.push(32);
        i += 1;
        assert(out@ =~= old(out)@ + spec_spaces(i as int));
    }
}

/// Clamp a screen coordinate into `[1, limit]`.
pub open spec fn spec_clamp_coord(v: int, limit: int) -> int {
    if v < 1 {
        1
    } else if v > limit {
        limit
    } else {
        v
    }
}

/// The cursor-addressing escape `ESC [ y ; x H`, 1-based, with both
/// coordinates clamped to the known screen size.
pub open spec fn spec_move_cursor(w: int, h: int, x: int, y: int) -> Seq<u8> {
    seq![ESC, 91u8] + spec_dec(spec_clamp_coord(y, h) as nat) + seq![59u8] + spec_dec(
        spec_clamp_coord(x, w) as nat,
    ) + seq![72u8]
}

/// The SGR sequence selecting `c1` then `c2`; a `Color::Unset` contributes
/// nothing.
pub open spec fn spec_set_color(c1: Color, c2: Color) -> Seq<u8> {
    (if c1 != Color::Unset {
        seq![ESC, 91u8] + spec_dec(spec_color_code(c1) as nat) + seq![109u8]
    } else {
        Seq::<u8>::empty()
    }) + (if c2 != Color::Unset {
        seq![ESC, 91u8] + spec_dec(spec_color_code(c2) as nat) + seq![109u8]
    } else {
        Seq::<u8>::empty()
    })
}

/// The SGR reset `ESC [ 0 m`.
pub open spec fn spec_reset_color() -> Seq<u8> {
    seq![ESC, 91u8, 48u8, 109u8]
}

/// `ESC [ ? 2 5 h` (show) or `ESC [ ? 2 5 l` (hide).
pub open spec fn spec_show_cursor(show: bool) -> Seq<u8> {
    seq![ESC, 91u8, 63u8, 50u8, 53u8, if show { 104u8 } else { 108u8 }]
}

/// Clear to end of line: `ESC [ K`.
pub open spec fn spec_clear_eol() -> Seq<u8> {
    seq![ESC, 91u8, 75u8]
}

/// Clear the whole screen and home the cursor: `ESC [ 2 J` then `ESC [ H`.
pub open spec fn spec_clear_screen() -> Seq<u8> {
    seq![ESC, 91u8, 50u8, 74u8, ESC, 91u8, 72u8]
}

/// Append the SGR sequence for the pair of colors.
pub fn set_color(out: &mut Vec<u8>, c1: Color, c2: Color)
    ensures
        final(out)@ == old(out)@ + spec_set_color(c1, c2),
{
    if !matches!(c1, Color::Unset) {
        out.push(ESC);
        out.push(91);
        push_dec(out, c1.code() as usize);
        out.push(109);
    }
    if !matches!(c2, Color::Unset) {
        out.push(ESC);
        out.push(91);
        push_dec(out, c2.code() as usize);
        out.push(109);
    }
    assert(out@ =~= old(out)@ + spec_set_color(c1, c2));
}

/// Append the SGR reset.
pub fn reset_color(out: &mut Vec<u8>)
    ensures
        final(out)@ == old(out)@ + spec_reset_color(),
{
    out.push(ESC);
    out.push(91);
    out.push(48);
    out.push(109);
    assert(out@ =~= old(out)@ + spec_reset_color());
}

/// Append the show- or hide-cursor sequence.
pub fn show_cursor(out: &mut Vec<u8>, show: bool)
    ensures
        final(out)@ == old(out)@ + spec_show_cursor(show),
{
    out.push(ESC);
    out.push(91);
    out.push(63);
    out.push(50);
    out.push(53);
    out.push(if show { 104 } else { 108 });
    assert(out@ =~= old(out)@ + spec_show_cursor(show));
}

/// Append the clear-to-end-of-line sequence.
pub fn clear_eol(out: &mut Vec<u8>)
    ensures
        final(out)@ == old(out)@ + spec_clear_eol(),
{
    out.push(ESC);
    out.push(91);
    out.push(75);
    assert(out@ =~= old(out)@ + spec_clear_eol());
}

/// Append the clear-screen-and-home sequence.
pub fn clear_screen(out: &mut Vec<u8>)
    ensures
        final(out)@ == old(out)@ + spec_clear_screen(),
{
    out.push(ESC);
    out.push(91);
    out.push(50);
    out.push(74);
    out.push(ESC);
    out.push(91);
    out.push(72);
    assert(out@ =~= old(out)@ + spec_clear_screen());
}

/// The screen model: the terminal size learned at startup, the dirty
/// flag, and the one-line status message.
pub struct Screen {
    pub w: i32,
    pub h: i32,
    pub redraw_needed: bool,
    pub msg: Option<Vec<u8>>,
    pub msg_was_set: bool,
}

impl Screen {
    /// A screen whose geometry fits the rendering layout: at least one
    /// body row between the two header lines and three footer lines, and
    /// both dimensions no larger than a terminal can report.
    pub open spec fn wf(&self) -> bool {
        1 <= self.w <= 0xffff && 6 <= self.h <= 0xffff
    }

    pub fn new() -> (r: Screen)
        ensures
            r.w == 0,
            r.h == 0,
            !r.redraw_needed,
            r.msg is None,
            !r.msg_was_set,
    {
        Screen { w: 0, h: 0, redraw_needed: false, msg: None, msg_was_set: false }
    }

    /// Adopt the terminal geometry reported by the caller. Succeeds, and
    /// makes the screen well formed, exactly when the terminal is big
    /// enough for the fixed header and footer plus one body row.
    pub fn init(&mut self, w: u16, h: u16) -> (r: bool)
        ensures
            r == (w >= 1 && h >= 6),
            r ==> final(self).wf() && final(self).w == w && final(self).h == h
                && !final(self).redraw_needed && final(self).msg is None
                && !final(self).msg_was_set,
            !r ==> *final(self) == *old(self),
    {
        if w >= 1 && h >= 6 {
            self.w = w as i32;
            self.h = h as i32;
            self.redraw_needed = false;
            self.msg = None;
            self.msg_was_set = false;
            true
        } else {
            false
        }
    }

    /// Set the status message and mark the screen dirty.
    pub fn show_msg(&mut self, msg: Vec<u8>)
        ensures
            final(self).msg == Some(msg),
            final(self).msg_was_set,
            final(self).redraw_needed,
            final(self).w == old(self).w,
            final(self).h == old(self).h,
    {
        self.msg = Some(msg);
        self.msg_was_set = true;
        self.redraw_needed = true;
    }

    /// Clear the status message and mark the screen dirty.
    pub fn clear_msg(&mut self)
        ensures
            final(self).msg is None,
            final(self).msg_was_set,
            final(self).redraw_needed,
            final(self).w == old(self).w,
            final(self).h == old(self).h,
    {
        self.msg = None;
        self.msg_was_set = true;
        self.redraw_needed = true;
    }

    /// Append the cursor-addressing sequence for column `x`, row `y`
    /// (1-based), clamped to the screen.
    pub fn move_cursor(&self, out: &mut Vec<u8>, x: i32, y: i32)
        requires
            self.wf(),
        ensures
            final(out)@ == old(out)@ + spec_move_cursor(self.w as int, self.h as int, x as int, y as int),
    {
        let cx: i32 = if x < 1 {
            1
        } else if x > self.w {
            self.w
        } else {
            x
        };
        let cy: i32 = if y < 1 {
            1
        } else if y > self.h {
            self.h
        } else {
            y
        };
        out.push(ESC);
        out.push(91);
        push_dec(out, cy as usize);
        out.push(59);
        push_dec(out, cx as usize);
        out.push(72);
        assert(out@ =~= old(out)@ + spec_move_cursor(
            self.w as int,
            self.h as int,
            x as int,
            y as int,
        ));
    }
}

} // verus!
