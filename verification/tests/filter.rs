use csw::filter::{
    band_code, band_of, design_code, design_name, design_of, designed_order, effective_order,
    shows_ripple, Band, Design, MAX_ORDER,
};
use csw::switch::{csw_input_implies_decode, Direction};

#[test]
fn the_order_is_clamped_into_the_supported_range() {
    assert_eq!(effective_order(0), 1);
    assert_eq!(effective_order(1), 1);
    assert_eq!(effective_order(2), 2);
    assert_eq!(effective_order(MAX_ORDER), MAX_ORDER as u32);
    assert_eq!(effective_order(MAX_ORDER + 1), MAX_ORDER as u32);
    assert_eq!(effective_order(99), MAX_ORDER as u32);
    assert_eq!(effective_order(i32::MIN), 1);
    assert_eq!(effective_order(i32::MAX), MAX_ORDER as u32);
}

#[test]
fn a_band_pass_announces_an_even_order_after_clamping() {
    assert_eq!(designed_order(3, Band::BandPass), 4);
    assert_eq!(designed_order(3, Band::LowPass), 3);
    assert_eq!(designed_order(3, Band::HighPass), 3);
    assert_eq!(designed_order(3, Band::Unknown(7)), 3);
    assert_eq!(designed_order(0, Band::BandPass), 2);
    assert_eq!(designed_order(99, Band::BandPass), 16);
    assert_eq!(designed_order(15, Band::BandPass), 16);
}

#[test]
fn band_codes_select_and_show_the_band() {
    assert_eq!(band_of(3), Band::LowPass);
    assert_eq!(band_of(4), Band::BandPass);
    assert_eq!(band_of(5), Band::HighPass);
    assert_eq!(band_of(-1), Band::Unknown(-1));
    for code in [-1, 0, 3, 4, 5, 6, i32::MIN, i32::MAX] {
        assert_eq!(band_code(band_of(code)), code);
    }
}

#[test]
fn prototype_codes_select_and_show_the_prototype() {
    assert_eq!(design_of(1), Design::Butterworth);
    assert_eq!(design_of(2), Design::Chebyshev);
    assert_eq!(design_of(7), Design::Other(7));
    for code in [-1, 0, 1, 2, 3, i32::MIN] {
        assert_eq!(design_code(design_of(code)), code);
    }
}

#[test]
fn a_prototype_carried_as_given_is_named_chebyshev_without_a_ripple() {
    assert_eq!(design_name(Design::Butterworth), "Butterworth");
    assert_eq!(design_name(Design::Chebyshev), "Chebyshev");
    assert_eq!(design_name(Design::Other(3)), "Chebyshev");
    assert!(shows_ripple(Design::Chebyshev));
    assert!(!shows_ripple(Design::Other(3)));
    assert!(!shows_ripple(Design::Butterworth));
}

#[test]
fn a_csw_input_turns_an_encode_into_a_decode() {
    assert_eq!(csw_input_implies_decode(b"TAPE.CSW", Direction::Encode), Direction::Decode);
    assert_eq!(csw_input_implies_decode(b"tape.csw", Direction::Encode), Direction::Decode);
    assert_eq!(csw_input_implies_decode(b"tape.wav", Direction::Encode), Direction::Encode);
    assert_eq!(csw_input_implies_decode(b"tape.wav", Direction::Decode), Direction::Decode);
}
