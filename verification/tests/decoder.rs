use hedr::decoder::{parse_key, DecodeStep, EscDecoder};
use hedr::keys::{
    alt_key, ctrl_key, KEY_ARROW_DOWN, KEY_ARROW_LEFT, KEY_ARROW_RIGHT, KEY_ARROW_UP,
    KEY_CTRL_DEL, KEY_CTRL_END, KEY_CTRL_HOME, KEY_CTRL_INS, KEY_CTRL_PAGE_DOWN,
    KEY_CTRL_PAGE_UP, KEY_DEL, KEY_END, KEY_ESC, KEY_F1, KEY_F10, KEY_F11, KEY_F12, KEY_F2,
    KEY_F3, KEY_F4, KEY_F5, KEY_F6, KEY_F7, KEY_F8, KEY_F9, KEY_HOME, KEY_INS, KEY_PAGE_DOWN,
    KEY_PAGE_UP, KEY_SHIFT_F1, KEY_SHIFT_F2, KEY_SHIFT_F3, KEY_SHIFT_F4, KEY_SHIFT_F5,
    KEY_SHIFT_F6, KEY_SHIFT_F7, KEY_SHIFT_F8, KEY_UNKNOWN,
};

#[test]
fn esc_alone_times_out_to_esc_key() {
    assert_eq!(parse_key(&[]), KEY_ESC);
    assert_eq!(KEY_ESC, 0x1b);
}

#[test]
fn single_printable_byte_is_alt_key() {
    assert_eq!(parse_key(&[b'a']), alt_key(b'a'));
    assert_eq!(parse_key(&[b'a']), 3001);
    assert_eq!(parse_key(&[b',']), alt_key(b','));
    assert_eq!(parse_key(&[b'.']), alt_key(b'.'));
    // a lone non-printable byte after ESC matches nothing
    assert_eq!(parse_key(&[0x01]), KEY_UNKNOWN);
}

#[test]
fn csi_letter_sequences() {
    assert_eq!(parse_key(b"[A"), KEY_ARROW_UP);
    assert_eq!(parse_key(b"[B"), KEY_ARROW_DOWN);
    assert_eq!(parse_key(b"[C"), KEY_ARROW_RIGHT);
    assert_eq!(parse_key(b"[D"), KEY_ARROW_LEFT);
    assert_eq!(parse_key(b"[H"), KEY_HOME);
    assert_eq!(parse_key(b"[F"), KEY_END);
    assert_eq!(parse_key(b"[Z"), KEY_UNKNOWN);
}

#[test]
fn csi_digit_tilde_sequences() {
    assert_eq!(parse_key(b"[1~"), KEY_HOME);
    assert_eq!(parse_key(b"[2~"), KEY_INS);
    assert_eq!(parse_key(b"[3~"), KEY_DEL);
    assert_eq!(parse_key(b"[4~"), KEY_END);
    assert_eq!(parse_key(b"[5~"), KEY_PAGE_UP);
    assert_eq!(parse_key(b"[6~"), KEY_PAGE_DOWN);
    assert_eq!(parse_key(b"[7~"), KEY_HOME);
    assert_eq!(parse_key(b"[8~"), KEY_END);
    assert_eq!(parse_key(b"[9~"), KEY_UNKNOWN);
    assert_eq!(parse_key(b"[0~"), KEY_UNKNOWN);
}

#[test]
fn csi_digit_caret_sequences() {
    assert_eq!(parse_key(b"[1^"), KEY_CTRL_HOME);
    assert_eq!(parse_key(b"[2^"), KEY_CTRL_INS);
    assert_eq!(parse_key(b"[3^"), KEY_CTRL_DEL);
    assert_eq!(parse_key(b"[4^"), KEY_CTRL_END);
    assert_eq!(parse_key(b"[5^"), KEY_CTRL_PAGE_UP);
    assert_eq!(parse_key(b"[6^"), KEY_CTRL_PAGE_DOWN);
    assert_eq!(parse_key(b"[7^"), KEY_CTRL_HOME);
    assert_eq!(parse_key(b"[8^"), KEY_CTRL_END);
    assert_eq!(parse_key(b"[9^"), KEY_UNKNOWN);
}

#[test]
fn csi_modifier_sequences() {
    assert_eq!(parse_key(b"[1;5H"), KEY_CTRL_HOME);
    assert_eq!(parse_key(b"[1;5F"), KEY_CTRL_END);
    assert_eq!(parse_key(b"[1;5A"), KEY_UNKNOWN);
    assert_eq!(parse_key(b"[2;5H"), KEY_UNKNOWN);
}

#[test]
fn ss3_sequences() {
    assert_eq!(parse_key(b"OF"), KEY_HOME);
    assert_eq!(parse_key(b"OH"), KEY_END);
    assert_eq!(parse_key(b"OP"), KEY_F1);
    assert_eq!(parse_key(b"OQ"), KEY_F2);
    assert_eq!(parse_key(b"OR"), KEY_F3);
    assert_eq!(parse_key(b"OS"), KEY_F4);
    assert_eq!(parse_key(b"OT"), KEY_UNKNOWN);
}

#[test]
fn double_csi_function_keys() {
    assert_eq!(parse_key(b"[[A"), KEY_F1);
    assert_eq!(parse_key(b"[[B"), KEY_F2);
    assert_eq!(parse_key(b"[[C"), KEY_F3);
    assert_eq!(parse_key(b"[[D"), KEY_F4);
    assert_eq!(parse_key(b"[[E"), KEY_F5);
    assert_eq!(parse_key(b"[[F"), KEY_UNKNOWN);
}

#[test]
fn two_digit_function_keys() {
    assert_eq!(parse_key(b"[15~"), KEY_F5);
    assert_eq!(parse_key(b"[17~"), KEY_F6);
    assert_eq!(parse_key(b"[18~"), KEY_F7);
    assert_eq!(parse_key(b"[19~"), KEY_F8);
    assert_eq!(parse_key(b"[20~"), KEY_F9);
    assert_eq!(parse_key(b"[21~"), KEY_F10);
    assert_eq!(parse_key(b"[23~"), KEY_F11);
    assert_eq!(parse_key(b"[24~"), KEY_F12);
    assert_eq!(parse_key(b"[25~"), KEY_SHIFT_F1);
    assert_eq!(parse_key(b"[26~"), KEY_SHIFT_F2);
    assert_eq!(parse_key(b"[28~"), KEY_SHIFT_F3);
    assert_eq!(parse_key(b"[29~"), KEY_SHIFT_F4);
    assert_eq!(parse_key(b"[31~"), KEY_SHIFT_F5);
    assert_eq!(parse_key(b"[32~"), KEY_SHIFT_F6);
    assert_eq!(parse_key(b"[33~"), KEY_SHIFT_F7);
    assert_eq!(parse_key(b"[34~"), KEY_SHIFT_F8);
    assert_eq!(parse_key(b"[16~"), KEY_UNKNOWN);
    assert_eq!(parse_key(b"[22~"), KEY_UNKNOWN);
    assert_eq!(parse_key(b"[27~"), KEY_UNKNOWN);
}

#[test]
fn malformed_sequences_are_unknown() {
    assert_eq!(parse_key(b"[1;5X"), KEY_UNKNOWN);
    assert_eq!(parse_key(b"[123~"), KEY_UNKNOWN);
    assert_eq!(parse_key(b"]A"), KEY_UNKNOWN);
    assert_eq!(parse_key(&[b'[', 0xff]), KEY_UNKNOWN);
}

#[test]
fn ctrl_and_alt_key_codes() {
    assert_eq!(ctrl_key(b'x'), 24);
    assert_eq!(ctrl_key(b'c'), 3);
    assert_eq!(alt_key(b','), 3012);
    assert_eq!(alt_key(b'.'), 3014);
}

#[test]
fn decoder_accumulates_arrow_key() {
    let mut d = EscDecoder::new(b'[');
    match d.feed(Some(b'A')) {
        DecodeStep::Done(k) => assert_eq!(k, KEY_ARROW_UP),
        DecodeStep::NeedByte => panic!("sequence should be complete"),
    }
}

#[test]
fn decoder_accumulates_modifier_sequence() {
    let mut d = EscDecoder::new(b'[');
    assert!(matches!(d.feed(Some(b'1')), DecodeStep::NeedByte));
    assert!(matches!(d.feed(Some(b';')), DecodeStep::NeedByte));
    assert!(matches!(d.feed(Some(b'5')), DecodeStep::NeedByte));
    match d.feed(Some(b'H')) {
        DecodeStep::Done(k) => assert_eq!(k, KEY_CTRL_HOME),
        DecodeStep::NeedByte => panic!("sequence should be complete"),
    }
}

#[test]
fn decoder_timeout_never_blocks() {
    // a timeout at any point completes the decode at once
    let mut d = EscDecoder::new(b'[');
    match d.feed(None) {
        DecodeStep::Done(k) => assert_eq!(k, 3027),  // alt+[
        DecodeStep::NeedByte => panic!("timeout must complete the decode"),
    }
    let mut d2 = EscDecoder::new(b'[');
    assert!(matches!(d2.feed(Some(b'1')), DecodeStep::NeedByte));
    match d2.feed(None) {
        DecodeStep::Done(k) => assert_eq!(k, KEY_UNKNOWN),
        DecodeStep::NeedByte => panic!("timeout must complete the decode"),
    }
}

#[test]
fn decoder_overlong_sequence_is_unknown() {
    let mut d = EscDecoder::new(b'[');
    let mut done = None;
    for _ in 0..40 {
        match d.feed(Some(b'0')) {
            DecodeStep::NeedByte => continue,
            DecodeStep::Done(k) => {
                done = Some(k);
                break;
            }
        }
    }
    assert_eq!(done, Some(KEY_UNKNOWN));
}
