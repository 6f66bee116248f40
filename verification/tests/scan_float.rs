use csw::error::Error;
use csw::switch::{parse_filter_option, parse_switch, scan_lf, FilterOption, FloatScan, FloatSpan, SwitchAction};

fn spans(arg: &[u8]) -> Option<(bool, &[u8])> {
    match scan_lf(arg) {
        FloatScan::Number(n) => Some((n.negative, &arg[n.start..n.end])),
        _ => None,
    }
}

#[test]
fn a_float_argument_spans_what_sscanf_reads() {
    assert_eq!(spans(b"1e1"), Some((false, &b"1e1"[..])));
    assert_eq!(spans(b"+2"), Some((false, &b"2"[..])));
    assert_eq!(spans(b"1.2.3"), Some((false, &b"1.2"[..])));
    assert_eq!(spans(b"-3"), Some((true, &b"3"[..])));
    assert_eq!(spans(b"  .5x"), Some((false, &b".5"[..])));
    assert_eq!(spans(b"5."), Some((false, &b"5."[..])));
    assert_eq!(spans(b"2E-3"), Some((false, &b"2E-3"[..])));
}

#[test]
fn an_exponent_needs_a_digit_to_count() {
    assert_eq!(spans(b"1e"), Some((false, &b"1"[..])));
    assert_eq!(spans(b"1e+"), Some((false, &b"1"[..])));
    assert_eq!(spans(b"7ex"), Some((false, &b"7"[..])));
}

#[test]
fn a_float_argument_of_no_digits_converts_to_nothing() {
    assert_eq!(scan_lf(b"zzz"), FloatScan::Fail);
    assert_eq!(scan_lf(b"inf"), FloatScan::Fail);
    assert_eq!(scan_lf(b"."), FloatScan::Fail);
    assert_eq!(scan_lf(b"-"), FloatScan::Fail);
    assert_eq!(scan_lf(b""), FloatScan::Eof);
    assert_eq!(scan_lf(b" \t"), FloatScan::Eof);
}

#[test]
fn a_frequency_sub_option_carries_where_its_number_is() {
    assert_eq!(
        parse_filter_option(b"h300.5").unwrap(),
        FilterOption::High(Some(FloatSpan { negative: false, start: 0, end: 5 }))
    );
    assert_eq!(
        parse_filter_option(b"l-5").unwrap(),
        FilterOption::Low(Some(FloatSpan { negative: true, start: 1, end: 2 }))
    );
    assert_eq!(parse_filter_option(b"r").unwrap(), FilterOption::Ripple(None));
}

#[test]
fn a_frequency_that_converts_to_nothing_is_an_invalid_rate() {
    for tail in [&b"hxyz"[..], b"lxyz", b"rxyz", b"hinf"] {
        match parse_filter_option(tail) {
            Err(Error::Fatal(m)) => assert_eq!(m.as_bytes(), b"Invalid sample rate"),
            other => panic!("{tail:?}: {other:?}"),
        }
    }
}

#[test]
fn a_recording_time_that_is_no_number_is_ignored() {
    assert_eq!(parse_switch(b"tzzz").unwrap(), SwitchAction::Time(FloatScan::Fail));
    assert_eq!(parse_switch(b"t").unwrap(), SwitchAction::Time(FloatScan::Eof));
    assert_eq!(
        parse_switch(b"t1e1").unwrap(),
        SwitchAction::Time(FloatScan::Number(FloatSpan { negative: false, start: 0, end: 3 }))
    );
}
