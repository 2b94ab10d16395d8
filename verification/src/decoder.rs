//! Decoding of terminal escape sequences into logical key codes.
//!
//! After a leading `ESC` byte, the bytes that follow are collected into a
//! short buffer and matched against a fixed, closed grammar. [`parse_key`]
//! performs that match; [`EscDecoder`] is the step-by-step accumulator that
//! tells the caller when to read one more byte (the caller owns the actual
//! reads and their timeouts) and when the sequence is complete.

use vstd::prelude::*;

use crate::keys::{
    spec_alt_key, alt_key, KEY_ARROW_UP, KEY_ARROW_DOWN, KEY_ARROW_LEFT, KEY_ARROW_RIGHT,
    KEY_HOME, KEY_END, KEY_INS, KEY_DEL, KEY_PAGE_UP, KEY_PAGE_DOWN, KEY_CTRL_HOME,
    KEY_CTRL_END, KEY_CTRL_INS, KEY_CTRL_DEL, KEY_CTRL_PAGE_UP, KEY_CTRL_PAGE_DOWN, KEY_F1,
    KEY_F2, KEY_F3, KEY_F4, KEY_F5, KEY_F6, KEY_F7, KEY_F8, KEY_F9, KEY_F10, KEY_F11, KEY_F12,
    KEY_SHIFT_F1, KEY_SHIFT_F2, KEY_SHIFT_F3, KEY_SHIFT_F4, KEY_SHIFT_F5, KEY_SHIFT_F6,
    KEY_SHIFT_F7, KEY_SHIFT_F8, KEY_UNKNOWN, KEY_ESC,
};

verus! {

pub open spec fn spec_is_letter(b: u8) -> bool {
    65u8 <= b && b <= 90u8
}

pub open spec fn spec_is_digit(b: u8) -> bool {
    48u8 <= b && b <= 57u8
}

/// Key for `ESC [ L` with `L` an uppercase letter.
pub open spec fn spec_csi_letter(l: u8) -> u32 {
    if l == 65u8 {
        KEY_ARROW_UP
    } else if l == 66u8 {
        KEY_ARROW_DOWN
    } else if l == 67u8 {
        KEY_ARROW_RIGHT
    } else if l == 68u8 {
        KEY_ARROW_LEFT
    } else if l == 72u8 {
        KEY_HOME
    } else if l == 70u8 {
        KEY_END
    } else {
        KEY_UNKNOWN
    }
}

/// Key for `ESC [ N ~` with `N` a digit.
pub open spec fn spec_csi_tilde(d: u8) -> u32 {
    if d == 49u8 {
        KEY_HOME
    } else if d == 50u8 {
        KEY_INS
    } else if d == 51u8 {
        KEY_DEL
    } else if d == 52u8 {
        KEY_END
    } else if d == 53u8 {
        KEY_PAGE_UP
    } else if d == 54u8 {
        KEY_PAGE_DOWN
    } else if d == 55u8 {
        KEY_HOME
    } else if d == 56u8 {
        KEY_END
    } else {
        KEY_UNKNOWN
    }
}

/// Key for `ESC [ N ^` with `N` a digit: the ctrl-variants.
pub open spec fn spec_csi_caret(d: u8) -> u32 {
    if d == 49u8 {
        KEY_CTRL_HOME
    } else if d == 50u8 {
        KEY_CTRL_INS
    } else if d == 51u8 {
        KEY_CTRL_DEL
    } else if d == 52u8 {
        KEY_CTRL_END
    } else if d == 53u8 {
        KEY_CTRL_PAGE_UP
    } else if d == 54u8 {
        KEY_CTRL_PAGE_DOWN
    } else if d == 55u8 {
        KEY_CTRL_HOME
    } else if d == 56u8 {
        KEY_CTRL_END
    } else {
        KEY_UNKNOWN
    }
}

/// Key for `ESC O L`.
pub open spec fn spec_ss3(l: u8) -> u32 {
    if l == 70u8 {
        KEY_HOME
    } else if l == 72u8 {
        KEY_END
    } else if l == 80u8 {
        KEY_F1
    } else if l == 81u8 {
        KEY_F2
    } else if l == 82u8 {
        KEY_F3
    } else if l == 83u8 {
        KEY_F4
    } else {
        KEY_UNKNOWN
    }
}

/// Key for `ESC [ [ L` with `L` an uppercase letter.
pub open spec fn spec_csi_csi_letter(l: u8) -> u32 {
    if l == 65u8 {
        KEY_F1
    } else if l == 66u8 {
        KEY_F2
    } else if l == 67u8 {
        KEY_F3
    } else if l == 68u8 {
        KEY_F4
    } else if l == 69u8 {
        KEY_F5
    } else {
        KEY_UNKNOWN
    }
}

/// Key for `ESC [ N N ~` with two digits: function keys F5..F12 and
/// shift-F1..shift-F8.
pub open spec fn spec_csi_two_digit_tilde(d1: u8, d2: u8) -> u32 {
    if d1 == 49u8 && d2 == 53u8 {
        KEY_F5
    } else if d1 == 49u8 && d2 == 55u8 {
        KEY_F6
    } else if d1 == 49u8 && d2 == 56u8 {
        KEY_F7
    } else if d1 == 49u8 && d2 == 57u8 {
        KEY_F8
    } else if d1 == 50u8 && d2 == 48u8 {
        KEY_F9
    } else if d1 == 50u8 && d2 == 49u8 {
        KEY_F10
    } else if d1 == 50u8 && d2 == 51u8 {
        KEY_F11
    } else if d1 == 50u8 && d2 == 52u8 {
        KEY_F12
    } else if d1 == 50u8 && d2 == 53u8 {
        KEY_SHIFT_F1
    } else if d1 == 50u8 && d2 == 54u8 {
        KEY_SHIFT_F2
    } else if d1 == 50u8 && d2 == 56u8 {
        KEY_SHIFT_F3
    } else if d1 == 50u8 && d2 == 57u8 {
        KEY_SHIFT_F4
    } else if d1 == 51u8 && d2 == 49u8 {
        KEY_SHIFT_F5
    } else if d1 == 51u8 && d2 == 50u8 {
        KEY_SHIFT_F6
    } else if d1 == 51u8 && d2 == 51u8 {
        KEY_SHIFT_F7
    } else if d1 == 51u8 && d2 == 52u8 {
        KEY_SHIFT_F8
    } else {
        KEY_UNKNOWN
    }
}

/// The whole escape-sequence grammar: the key that the byte sequence `s`
/// (the bytes that followed a leading `ESC`) decodes to. An empty `s`
/// means the timeout expired with nothing after the `ESC`, which is the
/// escape key itself. Anything outside the grammar is [`KEY_UNKNOWN`].
pub open spec fn spec_parse_key(s: Seq<u8>) -> u32 {
    if s.len() == 0 {
        KEY_ESC
    } else if s.len() == 1 && 32 <= s[0] && s[0] < 127 {
        spec_alt_key(s[0])
    } else if s.len() == 2 && s[0] == 91u8 && spec_is_letter(s[1]) {
        spec_csi_letter(s[1])
    } else if s.len() == 3 && s[0] == 91u8 && spec_is_digit(s[1]) && s[2] == 126u8 {
        spec_csi_tilde(s[1])
    } else if s.len() == 3 && s[0] == 91u8 && spec_is_digit(s[1]) && s[2] == 94u8 {
        spec_csi_caret(s[1])
    } else if s.len() == 5 && s[0] == 91u8 && spec_is_digit(s[1]) && s[2] == 59u8
        && spec_is_digit(s[3]) {
        if s[1] == 49u8 && s[3] == 53u8 && s[4] == 72u8 {
            KEY_CTRL_HOME
        } else if s[1] == 49u8 && s[3] == 53u8 && s[4] == 70u8 {
            KEY_CTRL_END
        } else {
            KEY_UNKNOWN
        }
    } else if s.len() == 2 && s[0] == 79u8 {
        spec_ss3(s[1])
    } else if s.len() == 3 && s[0] == 91u8 && s[1] == 91u8 && spec_is_letter(s[2]) {
        spec_csi_csi_letter(s[2])
    } else if s.len() == 4 && s[0] == 91u8 && spec_is_digit(s[1]) && spec_is_digit(s[2])
        && s[3] == 126u8 {
        spec_csi_two_digit_tilde(s[1], s[2])
    } else {
        KEY_UNKNOWN
    }
}

fn is_letter(b: u8) -> (r: bool)
    ensures
        r == spec_is_letter(b),
{
    b >= 65u8 && b <= 90u8
}

fn is_digit(b: u8) -> (r: bool)
    ensures
        r == spec_is_digit(b),
{
    b >= 48u8 && b <= 57u8
}

/// Match an accumulated escape sequence (the bytes after `ESC`) against
/// the grammar table and return its key code.
pub fn parse_key(s: &[u8]) -> (r: u32)
    ensures
        r == spec_parse_key(s@),
{
    if s.len() == 0 {
        return KEY_ESC;
    }
    if s.len() == 1 && s[0] >= 32 && s[0] < 127 {
        return alt_key(s[0]);
    }
    if s.len() == 2 && s[0] == 91u8 && is_letter(s[1]) {
        let key = match s[1] {
            65u8 => KEY_ARROW_UP,
            66u8 => KEY_ARROW_DOWN,
            67u8 => KEY_ARROW_RIGHT,
            68u8 => KEY_ARROW_LEFT,
            72u8 => KEY_HOME,
            70u8 => KEY_END,
            _ => KEY_UNKNOWN,
        };
        return key;
    }
    if s.len() == 3 && s[0] == 91u8 && is_digit(s[1]) && s[2] == 126u8 {
        let key = match s[1] {
            49u8 => KEY_HOME,
            50u8 => KEY_INS,
            51u8 => KEY_DEL,
            52u8 => KEY_END,
            53u8 => KEY_PAGE_UP,
            54u8 => KEY_PAGE_DOWN,
            55u8 => KEY_HOME,
            56u8 => KEY_END,
            _ => KEY_UNKNOWN,
        };
        return key;
    }
    if s.len() == 3 && s[0] == 91u8 && is_digit(s[1]) && s[2] == 94u8 {
        let key = match s[1] {
            49u8 => KEY_CTRL_HOME,
            50u8 => KEY_CTRL_INS,
            51u8 => KEY_CTRL_DEL,
            52u8 => KEY_CTRL_END,
            53u8 => KEY_CTRL_PAGE_UP,
            54u8 => KEY_CTRL_PAGE_DOWN,
            55u8 => KEY_CTRL_HOME,
            56u8 => KEY_CTRL_END,
            _ => KEY_UNKNOWN,
        };
        return key;
    }
    if s.len() == 5 && s[0] == 91u8 && is_digit(s[1]) && s[2] == 59u8 && is_digit(s[3]) {
        if s[1] == 49u8 && s[3] == 53u8 && s[4] == 72u8 {
            return KEY_CTRL_HOME;
        }
        if s[1] == 49u8 && s[3] == 53u8 && s[4] == 70u8 {
            return KEY_CTRL_END;
        }
        return KEY_UNKNOWN;
    }
    if s.len() == 2 && s[0] == 79u8 {
        let key = match s[1] {
            70u8 => KEY_HOME,
            72u8 => KEY_END,
            80u8 => KEY_F1,
            81u8 => KEY_F2,
            82u8 => KEY_F3,
            83u8 => KEY_F4,
            _ => KEY_UNKNOWN,
        };
        return key;
    }
    if s.len() == 3 && s[0] == 91u8 && s[1] == 91u8 && is_letter(s[2]) {
        let key = match s[2] {
            65u8 => KEY_F1,
            66u8 => KEY_F2,
            67u8 => KEY_F3,
            68u8 => KEY_F4,
            69u8 => KEY_F5,
            _ => KEY_UNKNOWN,
        };
        return key;
    }
    if s.len() == 4 && s[0] == 91u8 && is_digit(s[1]) && is_digit(s[2]) && s[3] == 126u8 {
        let key = match (s[1], s[2]) {
            (49u8, 53u8) => KEY_F5,
            (49u8, 55u8) => KEY_F6,
            (49u8, 56u8) => KEY_F7,
            (49u8, 57u8) => KEY_F8,
            (50u8, 48u8) => KEY_F9,
            (50u8, 49u8) => KEY_F10,
            (50u8, 51u8) => KEY_F11,
            (50u8, 52u8) => KEY_F12,
            (50u8, 53u8) => KEY_SHIFT_F1,
            (50u8, 54u8) => KEY_SHIFT_F2,
            (50u8, 56u8) => KEY_SHIFT_F3,
            (50u8, 57u8) => KEY_SHIFT_F4,
            (51u8, 49u8) => KEY_SHIFT_F5,
            (51u8, 50u8) => KEY_SHIFT_F6,
            (51u8, 51u8) => KEY_SHIFT_F7,
            (51u8, 52u8) => KEY_SHIFT_F8,
            (_, _) => KEY_UNKNOWN,
        };
        return key;
    }
    KEY_UNKNOWN
}

/// What the caller of [`EscDecoder::feed`] should do next: read one more
/// byte from the terminal (with the short per-byte timeout), or stop,
/// the sequence having resolved to the given key code.
#[derive(PartialEq, Eq, Structural)]
pub enum DecodeStep {
    NeedByte,
    Done(u32),
}

/// Accumulates the bytes of an escape sequence, one at a time, and decides
/// when the sequence is complete.
///
/// The caller creates one after it has seen `ESC` followed by at least one
/// further byte, then alternates: read one byte with a bounded timeout,
/// feed the result in (`None` on timeout), repeat while the answer is
/// [`DecodeStep::NeedByte`]. A sequence ends on a terminator byte
/// (`~`, `^`, or an uppercase letter, except right after a `;`), on a
/// timeout, or when the buffer fills; every timeout ends the decode at
/// once, so the caller never waits on more than one read.
pub struct EscDecoder {
    buf: Vec<u8>,
    pending_unchecked: bool,
}

/// A byte that ends an escape sequence when it stands in checked position.
pub open spec fn spec_is_terminator(b: u8) -> bool {
    b == 126u8 || b == 94u8 || spec_is_letter(b)
}

impl EscDecoder {
    /// The bytes accumulated so far (those that followed `ESC`).
    pub closed spec fn bytes(&self) -> Seq<u8> {
        self.buf@
    }

    /// Whether the next byte arrives in unchecked position (right after a
    /// `;`), where no terminator test is applied.
    pub closed spec fn in_unchecked(&self) -> bool {
        self.pending_unchecked
    }

    /// The states in which one more byte may still be requested.
    pub open spec fn wf(&self) -> bool {
        if self.in_unchecked() {
            self.bytes().len() <= 29
        } else {
            self.bytes().len() < 29
        }
    }

    /// Start accumulating: `first` is the byte that arrived right after
    /// `ESC` (so a sequence is under way, not a bare escape key).
    pub fn new(first: u8) -> (r: EscDecoder)
        ensures
            r.wf(),
            r.bytes() == seq![first],
            !r.in_unchecked(),
    {
        let mut buf = Vec::new();
        buf.push(first);
        EscDecoder { buf, pending_unchecked: false }
    }

    /// Feed the outcome of one bounded read: `Some(b)` if a byte arrived
    /// before the timeout, `None` if not. A timeout always completes the
    /// decode with the key of what was accumulated.
    pub fn feed(&mut self, b: Option<u8>) -> (r: DecodeStep)
        requires
            old(self).wf(),
        ensures
            b is None ==> r == DecodeStep::Done(spec_parse_key(old(self).bytes())),
            b matches Some(x) ==> {
                &&& final(self).bytes() == old(self).bytes() + seq![x]
                &&& (r == DecodeStep::NeedByte ==> final(self).wf())
                &&& if old(self).in_unchecked() {
                    &&& !final(self).in_unchecked()
                    &&& r == if final(self).bytes().len() < 29 {
                        DecodeStep::NeedByte
                    } else {
                        DecodeStep::Done(spec_parse_key(final(self).bytes()))
                    }
                } else if spec_is_terminator(x) {
                    r == DecodeStep::Done(spec_parse_key(final(self).bytes()))
                } else if x == 59u8 {
                    &&& final(self).in_unchecked()
                    &&& r == DecodeStep::NeedByte
                } else {
                    &&& !final(self).in_unchecked()
                    &&& r == if final(self).bytes().len() < 29 {
                        DecodeStep::NeedByte
                    } else {
                        DecodeStep::Done(spec_parse_key(final(self).bytes()))
                    }
                }
            },
    {
        match b {
            None => DecodeStep::Done(parse_key(self.buf.as_slice())),
            Some(x) => {
                self.buf.push(x);
                if self.pending_unchecked {
                    self.pending_unchecked = false;
                    if self.buf.len() < 29 {
                        DecodeStep::NeedByte
                    } else {
                        DecodeStep::Done(parse_key(self.buf.as_slice()))
                    }
                } else if x == 126u8 || x == 94u8 || is_letter(x) {
                    DecodeStep::Done(parse_key(self.buf.as_slice()))
                } else if x == 59u8 {
                    self.pending_unchecked = true;
                    DecodeStep::NeedByte
                } else {
                    if self.buf.len() < 29 {
                        DecodeStep::NeedByte
                    } else {
                        DecodeStep::Done(parse_key(self.buf.as_slice()))
                    }
                }
            },
        }
    }
}

} // verus!
