use std::io::Write;

use csw::container::{read_info, SIGNATURE};
use csw::convert::{
    clock, csw_bytes, decode_extension, decode_kind, input_kind, is_out_trace, out_description,
    partial_csw, scan_input, useless_out, version_gate, DecodeTarget, InputKind, Settings,
    APP_NAME,
};
use csw::error::{Error, Result};
use csw::signal::Pulses;
use csw::voc::MAGIC;

fn deflate(data: &[u8]) -> Result<Vec<u8>> {
    let mut enc = flate2::write::ZlibEncoder::new(Vec::new(), flate2::Compression::new(9));
    enc.write_all(data).map_err(Error::Io)?;
    enc.finish().map_err(Error::Io)
}

#[test]
fn the_clock_shows_hours_only_from_the_first() {
    assert_eq!(clock(0), "00:00");
    assert_eq!(clock(61), "01:01");
    assert_eq!(clock(3599), "59:59");
    assert_eq!(clock(3600), "01:00:00");
    assert_eq!(clock(3661), "01:01:01");
}

#[test]
fn a_negative_clock_carries_the_sign_on_each_field() {
    assert_eq!(clock(-61), "-1:-1");
}

#[test]
fn an_out_description_gives_the_playing_time_in_z80_seconds() {
    assert_eq!(
        out_description(3_500_000 * 61, 12),
        "Z80 emulation trace file (OUT), playing time: 01:01 (12 pulses)"
    );
}

#[test]
fn a_useless_trace_quotes_its_name() {
    match useless_out(b"T.OUT") {
        Error::FatalBlock(m) => assert!(m
            .as_bytes()
            .starts_with(b"The specified .OUT file (\"T.OUT\") is useless.\n")),
        other => panic!("{other:?}"),
    }
}

#[test]
fn the_input_kind_follows_the_magic() {
    let mut voc = MAGIC.to_vec();
    voc.push(0);
    assert_eq!(input_kind(&voc).unwrap(), InputKind::Voc);
    assert_eq!(input_kind(b"FORM....").unwrap(), InputKind::Iff);
    assert_eq!(input_kind(b"RIFF....").unwrap(), InputKind::Wav);
    match input_kind(b"junk") {
        Err(Error::Fatal(m)) => assert_eq!(m.as_bytes(), &b"Wrong file type"[..]),
        other => panic!("{other:?}"),
    }
    assert!(scan_input(InputKind::Wav, b"RIFF").is_err());
}

#[test]
fn an_out_trace_is_named_by_its_extension() {
    assert!(is_out_trace(b"GAME.OUT"));
    assert!(is_out_trace(b"game.out"));
    assert!(!is_out_trace(b"game.wav"));
    assert!(!is_out_trace(b"out"));
}

#[test]
fn versions_past_2_99_are_refused_with_252() {
    assert!(version_gate(1, 1).is_ok());
    assert!(version_gate(2, 99).is_ok());
    match version_gate(3, 0) {
        Err(Error::Input(m, 252)) => assert_eq!(
            m.as_bytes(),
            &b"CSW version not supported, please upgrade this tool."[..]
        ),
        other => panic!("{other:?}"),
    }
}

#[test]
fn the_decode_target_names_its_kind_and_extension() {
    assert_eq!(decode_kind(DecodeTarget::Wav), "WAV");
    assert_eq!(decode_kind(DecodeTarget::Voc), "VOC");
    assert_eq!(decode_extension(DecodeTarget::Wav), "wav");
    assert_eq!(decode_extension(DecodeTarget::Voc), "voc");
}

#[test]
fn a_conversion_writes_a_csw_that_reads_back() {
    let sig = Pulses::new(44100, vec![3, 300, 1, 4], true);
    for settings in [
        Settings { csw_version: 2, old_compression: false },
        Settings { csw_version: 2, old_compression: true },
        Settings { csw_version: 1, old_compression: false },
    ] {
        let bytes = csw_bytes(&sig, &settings, deflate).unwrap();
        assert_eq!(&bytes[0..22], &SIGNATURE[..]);
        let (back, info) = read_info(&bytes).unwrap();
        assert_eq!(back.pulses, sig.pulses);
        assert_eq!(back.initial_high, sig.initial_high);
        assert_eq!(info.major, settings.csw_version);
        if settings.csw_version == 2 {
            assert_eq!(info.app, APP_NAME.as_bytes().to_vec());
        }
    }
}

#[test]
fn a_partial_z_rle_file_keeps_only_its_header() {
    let sig = Pulses::new(44100, vec![3, 5, 1, 4], true);
    let z = Settings { csw_version: 2, old_compression: false };
    assert_eq!(partial_csw(&sig, &z, deflate).unwrap().len(), 0x34);
    let plain = Settings { csw_version: 2, old_compression: true };
    let whole = partial_csw(&sig, &plain, deflate).unwrap();
    assert_eq!(whole, csw_bytes(&sig, &plain, deflate).unwrap());
    let zero = Pulses::new(44100, vec![3, 0], true);
    assert!(partial_csw(&zero, &plain, deflate).is_none());
}
