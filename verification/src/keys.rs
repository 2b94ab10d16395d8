//! Logical key codes produced by the input decoder.
//!
//! Plain bytes decode to their own value (0..=255); named keys get codes
//! above 1000; alt-modified printable bytes get `(b & 0x1f) + KEY_ALT_MIN`.

use vstd::prelude::*;

verus! {

pub const KEY_ALT_MIN: u32 = 3000;

pub const KEY_ARROW_UP: u32 = 1001;
pub const KEY_ARROW_DOWN: u32 = 1002;
pub const KEY_ARROW_LEFT: u32 = 1003;
pub const KEY_ARROW_RIGHT: u32 = 1004;

pub const KEY_HOME: u32 = 1005;
pub const KEY_END: u32 = 1006;
pub const KEY_INS: u32 = 1007;
pub const KEY_DEL: u32 = 1008;
pub const KEY_PAGE_UP: u32 = 1009;
pub const KEY_PAGE_DOWN: u32 = 1010;

pub const KEY_CTRL_HOME: u32 = 1011;
pub const KEY_CTRL_END: u32 = 1012;
pub const KEY_CTRL_INS: u32 = 1013;
pub const KEY_CTRL_DEL: u32 = 1014;
pub const KEY_CTRL_PAGE_UP: u32 = 1015;
pub const KEY_CTRL_PAGE_DOWN: u32 = 1016;

pub const KEY_F1: u32 = 1021;
pub const KEY_F2: u32 = 1022;
pub const KEY_F3: u32 = 1023;
pub const KEY_F4: u32 = 1024;
pub const KEY_F5: u32 = 1025;
pub const KEY_F6: u32 = 1026;
pub const KEY_F7: u32 = 1027;
pub const KEY_F8: u32 = 1028;
pub const KEY_F9: u32 = 1029;
pub const KEY_F10: u32 = 1030;
pub const KEY_F11: u32 = 1031;
pub const KEY_F12: u32 = 1032;

pub const KEY_SHIFT_F1: u32 = 1041;
pub const KEY_SHIFT_F2: u32 = 1042;
pub const KEY_SHIFT_F3: u32 = 1043;
pub const KEY_SHIFT_F4: u32 = 1044;
pub const KEY_SHIFT_F5: u32 = 1045;
pub const KEY_SHIFT_F6: u32 = 1046;
pub const KEY_SHIFT_F7: u32 = 1047;
pub const KEY_SHIFT_F8: u32 = 1048;

/// The key code that stands for any byte sequence the decoder grammar
/// does not recognize; every dispatch table ignores it.
pub const KEY_UNKNOWN: u32 = 0xffff_ffff;

/// The code of the bare escape key.
pub const KEY_ESC: u32 = 0x1b;

/// Enter / carriage return.
pub const KEY_ENTER: u32 = 13;

/// Backspace as the BS control byte.
pub const KEY_BACKSPACE: u32 = 8;

/// Backspace as the DEL byte, which most terminals send.
pub const KEY_DEL_BYTE: u32 = 127;

pub const KEY_CTRL_A: u32 = 1;
pub const KEY_CTRL_C: u32 = 3;
pub const KEY_CTRL_E: u32 = 5;
pub const KEY_CTRL_G: u32 = 7;
pub const KEY_CTRL_L: u32 = 12;
pub const KEY_CTRL_O: u32 = 15;
pub const KEY_CTRL_R: u32 = 18;
pub const KEY_CTRL_T: u32 = 20;
pub const KEY_CTRL_X: u32 = 24;

/// `alt+,`.
pub const KEY_ALT_COMMA: u32 = 3012;

/// `alt+.`.
pub const KEY_ALT_PERIOD: u32 = 3014;

/// Code of `ctrl+c` for a printable character `c`.
pub open spec fn spec_ctrl_key(c: u8) -> u32 {
    (c & 0x1f) as u32
}

/// Code of `alt+c` for a printable character `c`.
pub open spec fn spec_alt_key(c: u8) -> u32 {
    ((c & 0x1f) as u32 + KEY_ALT_MIN) as u32
}

/// Code of `ctrl+c` for a printable character `c`.
pub fn ctrl_key(c: u8) -> (r: u32)
    ensures
        r == spec_ctrl_key(c),
{
    (c & 0x1f) as u32
}

/// Code of `alt+c` for a printable character `c`.
pub fn alt_key(c: u8) -> (r: u32)
    ensures
        r == spec_alt_key(c),
{
    proof {
        assert((c & 0x1f) < 32) by (bit_vector);
    }
    (c & 0x1f) as u32 + KEY_ALT_MIN
}

} // verus!
