use std::io::Write;

use csw::container::{read, read_header, read_info, Compression, SIGNATURE, TERMINATOR};
use csw::error::{Error, Result};
use csw::rle;
use csw::signal::Pulses;

/// zlib at level 9, for the Z-RLE files these tests write.
fn deflate(data: &[u8]) -> Result<Vec<u8>> {
    let mut enc = flate2::write::ZlibEncoder::new(Vec::new(), flate2::Compression::new(9));
    enc.write_all(data).map_err(Error::Io)?;
    enc.finish().map_err(Error::Io)
}

#[test]
fn the_streaming_and_collecting_decoders_agree() {
    let cases: [&[u8]; 5] = [
        &[],
        &[1, 2, 255],
        &[0, 0xE9, 0xCD, 0, 0, 7],
        &[5, 0, 0, 0, 0, 0, 9],
        &[3, 0, 1, 2],
    ];
    for raw in cases {
        let whole = rle::decode(raw);
        let mut walked = Vec::new();
        let mut d = rle::Decoder::new(raw);
        while let Some(p) = d.next() {
            walked.push(p);
        }
        assert_eq!(whole, walked, "{raw:?}");
    }
}

#[test]
fn v2_zrle_header_and_roundtrip() {
    let p = Pulses::new(44100, vec![3, 5, 1, 300, 7], true);
    let bytes = csw::container::write(&p, 2, Compression::ZRle, "csw", deflate).unwrap();
    assert_eq!(&bytes[0..22], &SIGNATURE[..]);
    assert_eq!(bytes[0x16], 0x1A);
    assert_eq!(bytes[0x17], 0x02);
    assert_eq!(u32::from_le_bytes(bytes[0x19..0x1D].try_into().unwrap()), 44100);
    assert_eq!(u32::from_le_bytes(bytes[0x1D..0x21].try_into().unwrap()), 5);
    assert_eq!(bytes[0x21], 0x02);
    assert_eq!(bytes[0x22], 0x01);
    assert_eq!(read(&bytes).unwrap(), p);
}

#[test]
fn every_written_form_roundtrips() {
    let p = Pulses::new(22050, vec![10, 20, 300, 1, 7], true);
    let cases = [
        (2, Compression::ZRle, 0x02u8, 0x02u8),
        (2, Compression::Rle, 0x02, 0x01),
        (1, Compression::Rle, 0x01, 0x01),
    ];
    for (ver, comp, vbyte, cbyte) in cases {
        let bytes = csw::container::write(&p, ver, comp, "csw", deflate).unwrap();
        assert_eq!(bytes[0x17], vbyte, "version byte for v{ver}");
        let cpos = if ver == 1 { 0x1B } else { 0x21 };
        assert_eq!(bytes[cpos], cbyte, "compression byte for v{ver} {comp:?}");
        assert_eq!(read(&bytes).unwrap(), p, "roundtrip v{ver} {comp:?}");
    }
}

#[test]
fn truncated_v2_header_is_an_error() {
    let p = Pulses::new(44100, vec![1, 2, 3], false);
    let bytes = csw::container::write(&p, 2, Compression::Rle, "csw", deflate).unwrap();
    for len in 0x20..0x34 {
        assert!(read(&bytes[..len]).is_err(), "no error at length {len}");
    }
}

#[test]
fn the_header_extension_length_is_signed() {
    let mut header = Vec::new();
    header.extend_from_slice(&SIGNATURE);
    header.push(TERMINATOR);
    header.extend_from_slice(&[2, 0]);
    header.extend_from_slice(&22050u32.to_le_bytes());
    header.extend_from_slice(&2u32.to_le_bytes());
    header.extend_from_slice(&[1, 1, 0xFF]);
    let mut app = [0u8; 16];
    app[..6].copy_from_slice(b"parity");
    app[15] = 5;
    header.extend_from_slice(&app);
    let mut file = header.clone();
    file.extend_from_slice(&[7, 9]);

    let info = read_header(&file).unwrap();
    assert_eq!(info.data_offset, 0x33);

    file[0x23] = 2;
    let info = read_header(&file).unwrap();
    assert_eq!(info.data_offset, 0x36);
}

fn v2_with_app(len: usize, comp: u8, ext: u8, app: &[u8]) -> Vec<u8> {
    let mut file = Vec::new();
    file.extend_from_slice(&SIGNATURE);
    file.push(TERMINATOR);
    file.extend_from_slice(&[2, 0]);
    file.extend_from_slice(&22050u32.to_le_bytes());
    file.extend_from_slice(&4u32.to_le_bytes());
    file.extend_from_slice(&[comp, 1, ext]);
    file.extend_from_slice(app);
    file.extend((0..len - 0x34).map(|i| [10, 20, 30, 40][i % 4]));
    assert_eq!(file.len(), len);
    file
}

#[test]
fn an_unterminated_application_field_runs_into_the_payload_length() {
    let unterminated = b"AAAAAAAAAAAAAAAA";
    for (len, ext, length) in [
        (56usize, 5u8, &[0xFF, 0xFF, 0xFF, 0xFF][..]),
        (56, 11, &[0xF9, 0xFF, 0xFF, 0xFF]),
        (56, 0, &[0x04]),
        (52, 0, &[]),
        (0x34 + 257, 0, &[0x01, 0x01]),
        (0x34 + 65793, 0, &[0x01, 0x01, 0x01]),
    ] {
        let info = read_header(&v2_with_app(len, 1, ext, unterminated)).unwrap();
        assert_eq!(info.app, [&unterminated[..], length].concat(), "{len} bytes, extension {ext}");
    }
    let terminated = b"CSW v2.00\0\0\0\0\0\0\0";
    let info = read_header(&v2_with_app(56, 1, 5, terminated)).unwrap();
    assert_eq!(info.app, b"CSW v2.00");
}

#[test]
fn an_extension_past_the_end_is_empty_down_to_minus_seven() {
    let app = b"CSW v2.00\0\0\0\0\0\0\0";
    for len in [56usize, 52] {
        let inside = (len - 0x34) as u8;
        let file = v2_with_app(len, 1, inside, app);
        assert_eq!(read_header(&file).unwrap().data_offset, len);
        for comp in [1u8, 2] {
            for past in 1..=7u8 {
                let file = v2_with_app(len, comp, inside + past, app);
                let (pulses, info) = read_info(&file).unwrap();
                let at = format!("{len} bytes, {past} past, compression {comp}");
                assert_eq!(info.data_offset, len, "{at}");
                assert!(pulses.pulses.is_empty(), "{at}");
            }
        }
        for ext in [inside + 8, 100, 127, 0x80, 0xCB] {
            let file = v2_with_app(len, 1, ext, app);
            assert!(matches!(read_header(&file), Err(Error::Silent(_))), "{len} bytes, extension {ext}");
        }
    }
    let (pulses, info) = read_info(&v2_with_app(56, 1, 0xCC, app)).unwrap();
    assert_eq!(info.data_offset, 0);
    assert_eq!(pulses.pulses.len(), 40);
}

#[test]
fn the_walk_is_not_proportional_to_the_pulses() {
    let info = csw::container::CswInfo {
        major: 2,
        minor: 0,
        compression: 2,
        app: Vec::new(),
        declared_pulses: Some(4_000_000),
        rate: 44100,
        initial_high: true,
        data_offset: 0,
    };
    let payload = deflate(&vec![1u8; 4_000_000]).unwrap();
    assert!(payload.len() < 64 << 10, "payload: {}", payload.len());
    let src = csw::container::pulse_source(&info, &payload);
    let pulses = src.pulses().unwrap();
    let measured = csw::signal::survey(&pulses);
    assert_eq!(measured.pulses, 4_000_000);
    assert_eq!(measured.total_samples, 4_000_000);
    let again = csw::signal::survey(&src.pulses().unwrap());
    assert_eq!(again, measured);
    let bad = csw::container::CswInfo { compression: 9, ..info };
    match csw::container::pulse_source(&bad, &payload).pulses() {
        Err(Error::Input(m, 251)) => {
            assert!(m.starts_with("CSW compression type #9"))
        }
        other => panic!("{other:?}"),
    }
}

#[test]
fn a_v1_rate_is_written_as_its_low_word() {
    let p = Pulses::new(0x1_2345, vec![5, 6], false);
    let bytes = csw::container::write(&p, 1, Compression::Rle, "x", deflate).unwrap();
    assert_eq!(u16::from_le_bytes([bytes[0x19], bytes[0x1A]]), 0x2345);
    assert_eq!(bytes.len(), 0x20 + 2);
}

#[test]
fn a_zero_length_pulse_is_not_written() {
    let p = Pulses::new(44100, vec![5, 0, 6], false);
    assert!(matches!(csw::container::write(&p, 2, Compression::Rle, "x", deflate), Err(Error::Format(_))));
}

#[test]
fn a_file_with_no_signature_is_not_a_csw() {
    match read_header(b"RIFF....") {
        Err(Error::Format(m)) => assert_eq!(m, "not a CSW file (bad signature)"),
        other => panic!("{other:?}"),
    }
}

#[test]
fn a_rate_of_zero_is_abandoned_in_silence() {
    let p = Pulses::new(0, vec![5], false);
    let bytes = csw::container::write(&p, 2, Compression::Rle, "x", deflate).unwrap();
    assert!(matches!(read_header(&bytes), Err(Error::Silent(_))));
}

#[test]
fn the_application_name_is_cut_at_fifteen_bytes() {
    let p = Pulses::new(44100, vec![5], false);
    let bytes = csw::container::write(&p, 2, Compression::Rle, "ABCDEFGHIJKLMNOPQRS", deflate).unwrap();
    assert_eq!(&bytes[0x24..0x34], b"ABCDEFGHIJKLMNO\0");
    assert_eq!(read_header(&bytes).unwrap().app, b"ABCDEFGHIJKLMNO");
}

#[test]
fn a_z_rle_stream_that_does_not_inflate_says_so() {
    let p = Pulses::new(44100, vec![3, 5, 1], true);
    let mut bytes = csw::container::write(&p, 2, Compression::ZRle, "csw", deflate).unwrap();
    let header = read_header(&bytes).unwrap();
    bytes.truncate(header.data_offset);
    bytes.extend_from_slice(&[0xFF, 0xFF, 0xFF, 0xFF]);
    match read(&bytes) {
        Err(Error::Format(m)) => assert!(m.starts_with("bad pulse stream: "), "{m}"),
        other => panic!("{other:?}"),
    }
}

#[test]
fn two_walks_of_a_bad_stream_report_the_same() {
    let p = Pulses::new(44100, vec![3, 5, 1], true);
    let mut bytes = csw::container::write(&p, 2, Compression::ZRle, "csw", deflate).unwrap();
    let header = read_header(&bytes).unwrap();
    bytes.truncate(header.data_offset);
    bytes.extend_from_slice(&[0x78, 0x9C, 0xFF, 0xFF, 0xFF, 0xFF]);
    let message = |raw: &[u8]| match read(raw) {
        Err(Error::Format(m)) => m,
        other => panic!("{other:?}"),
    };
    let first = message(&bytes);
    assert!(first.starts_with("bad pulse stream: "), "{first}");
    assert_eq!(first, message(&bytes));
}

#[test]
fn a_read_declares_the_pulses_it_holds() {
    let p = Pulses::new(22050, vec![10, 20, 300, 1, 7], true);
    for (ver, comp) in [(2, Compression::ZRle), (2, Compression::Rle), (1, Compression::Rle)] {
        let bytes = csw::container::write(&p, ver, comp, "csw", deflate).unwrap();
        let back = read(&bytes).unwrap();
        assert_eq!(back.declared, 5);
        assert_eq!(back, p);
    }
}
