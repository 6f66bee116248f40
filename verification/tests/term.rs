use csw::term::decode;

#[test]
fn a_plain_letter_is_that_letter() {
    assert_eq!(decode(b"p").ch, Some('p'));
    assert_eq!(decode(b"P").ch, Some('p'));
    assert!(!decode(b"p").ctrl);
    assert!(decode(b"p").is('p'));
    assert!(decode(b"P").is('p'));
}

#[test]
fn ctrl_c_is_recognised_because_raw_mode_swallows_the_signal() {
    let k = decode(&[0x03]);
    assert!(k.ctrl);
    assert_eq!(k.ch, Some('c'));
    assert!(k.is_interrupt());
    assert!(!decode(&[0x10]).is('p'));
}

#[test]
fn an_escape_sequence_is_one_press_and_is_not_a_letter() {
    let k = decode(b"\x1b[A");
    assert_eq!(k.ch, None);
    assert!(!k.is('p'));
    assert!(!k.is_interrupt());
}

#[test]
fn multibyte_input_is_not_mistaken_for_a_letter() {
    let k = decode("é".as_bytes());
    assert_eq!(k.ch, None);
    assert!(!k.ctrl);
}
