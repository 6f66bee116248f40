use csw::convert::DecodeTarget;
use csw::error::Error;
use csw::switch::{
    fold, implies_decode, names, parse_switch, scan_i, FilterOption, Scan, SwitchAction,
};

#[test]
fn high_bit_switch_letters_fold_through_the_table() {
    assert_eq!(fold(0xd6), b'r');
    assert_eq!(fold(0x85), b'1');
    assert_eq!(fold(0xff), 0);
}

#[test]
fn ascii_letters_fold_to_lower_case() {
    assert_eq!(fold(b'R'), b'r');
    assert_eq!(fold(b'r'), b'r');
    assert_eq!(fold(b'?'), b'?');
    assert_eq!(fold(b'1'), b'1');
}

fn fatal_text(e: Error) -> Vec<u8> {
    match e {
        Error::Fatal(m) => m.as_bytes().to_vec(),
        other => panic!("not a fatal error: {other:?}"),
    }
}

#[test]
fn scan_i_reads_as_sscanf_i_does() {
    assert_eq!(scan_i(b"12"), Scan::Value(12));
    assert_eq!(scan_i(b"  -5"), Scan::Value(-5));
    assert_eq!(scan_i(b"+7x"), Scan::Value(7));
    assert_eq!(scan_i(b"0x1f"), Scan::Value(31));
    assert_eq!(scan_i(b"010"), Scan::Value(8));
    assert_eq!(scan_i(b"0"), Scan::Value(0));
    assert_eq!(scan_i(b""), Scan::Eof);
    assert_eq!(scan_i(b"   "), Scan::Eof);
    assert_eq!(scan_i(b"xyz"), Scan::Fail);
    assert_eq!(scan_i(b"-"), Scan::Fail);
}

#[test]
fn sub_option_values_are_32_bit_ints() {
    let order = |a: &[u8]| match parse_switch(a).unwrap() {
        SwitchAction::Filter(FilterOption::Order(v)) => v,
        other => panic!("{other:?}"),
    };
    assert_eq!(order(b"fo-1"), Some(-1));
    assert_eq!(order(b"fo2147483648"), Some(i32::MIN));
    assert_eq!(order(b"fo4294967297"), Some(1));
    assert_eq!(order(b"fo"), None);
    assert_eq!(
        parse_switch(b"ft4294967300").unwrap(),
        SwitchAction::Filter(FilterOption::Band(Some(4)))
    );
    assert_eq!(
        parse_switch(b"ft-4294967292").unwrap(),
        SwitchAction::Filter(FilterOption::Band(Some(4)))
    );
    assert_eq!(
        parse_switch(b"s4294967297").unwrap(),
        SwitchAction::Rate(Scan::Value(1))
    );
}

#[test]
fn a_sub_option_number_that_converts_to_nothing_is_an_invalid_rate() {
    for arg in [&b"foxyz"[..], b"ftxyz", b"fpxyz"] {
        let e = parse_switch(arg).unwrap_err();
        assert_eq!(fatal_text(e), b"Invalid sample rate".to_vec());
    }
}

#[test]
fn an_unknown_switch_is_quoted_folded() {
    assert_eq!(
        fatal_text(parse_switch(b"Q").unwrap_err()),
        b"-q is an invalid switch".to_vec()
    );
    assert_eq!(
        fatal_text(parse_switch(b"fq").unwrap_err()),
        b"-fq is an invalid switch".to_vec()
    );
}

#[test]
fn the_decode_target_letter_is_not_folded() {
    assert_eq!(
        parse_switch(b"dv").unwrap(),
        SwitchAction::Decode(DecodeTarget::Voc)
    );
    assert_eq!(
        parse_switch(b"dV").unwrap(),
        SwitchAction::Decode(DecodeTarget::Wav)
    );
    assert_eq!(
        parse_switch(b"Dv").unwrap(),
        SwitchAction::Decode(DecodeTarget::Voc)
    );
}

#[test]
fn the_plain_switches_name_their_action() {
    assert_eq!(parse_switch(b"?").unwrap(), SwitchAction::Help);
    assert_eq!(parse_switch(b"r").unwrap(), SwitchAction::Direct);
    assert_eq!(parse_switch(b"k").unwrap(), SwitchAction::Keep);
    assert_eq!(parse_switch(b"c").unwrap(), SwitchAction::Compat);
    assert_eq!(parse_switch(b"1").unwrap(), SwitchAction::Version1);
    assert_eq!(parse_switch(b"Z").unwrap(), SwitchAction::OldCompression);
    assert_eq!(
        parse_switch(b"f").unwrap(),
        SwitchAction::Filter(FilterOption::Select)
    );
    assert_eq!(
        parse_switch(b"f3").unwrap(),
        SwitchAction::Filter(FilterOption::Three)
    );
}

#[test]
fn positional_names_are_input_then_output() {
    let one = names(&vec![b"in.wav".to_vec()], false);
    assert_eq!(one.input, b"in.wav".to_vec());
    assert_eq!(one.output, None);
    assert!(!one.help);
    let two = names(&vec![b"in.wav".to_vec(), b"out".to_vec()], false);
    assert_eq!(two.output, Some(b"out".to_vec()));
    assert!(!two.help);
    let three = names(&vec![b"a".to_vec(), b"b".to_vec(), b"c".to_vec()], false);
    assert!(three.help);
    assert!(names(&vec![], false).help);
}

#[test]
fn a_csw_name_implies_a_decode() {
    assert!(implies_decode(b"tape.csw"));
    assert!(implies_decode(b"TAPE.CSW"));
    assert!(!implies_decode(b"tape.wav"));
}
