use std::io::Write;

use csw::container::{read_header, Compression};
use csw::convert::{
    decode_file, encode_sampled, open_input, warn_unterminated, writing_and_working,
    DecodeTarget, InputKind, Opened, Settings,
};
use csw::encode::condition_plain;
use csw::error::{Error, Result};
use csw::signal::Pulses;
use csw::source::stream_of;
use csw::ui::Console;
use csw::wav;

fn deflate(data: &[u8]) -> Result<Vec<u8>> {
    let mut enc = flate2::write::ZlibEncoder::new(Vec::new(), flate2::Compression::new(9));
    enc.write_all(data).map_err(Error::Io)?;
    enc.finish().map_err(Error::Io)
}

fn settings(version: u8, old: bool) -> Settings {
    Settings { csw_version: version, old_compression: old }
}

fn square(halves: &[usize]) -> Vec<u8> {
    let mut v = Vec::new();
    let mut high = true;
    for &n in halves {
        v.extend(std::iter::repeat(if high { 0xE0 } else { 0x20 }).take(n));
        high = !high;
    }
    v
}

#[test]
fn a_zrle_csw_decodes_to_a_wav_under_its_three_lines() {
    let p = Pulses::new(44100, vec![3, 5, 1, 300, 7], true);
    let raw = csw::container::write(&p, 2, Compression::ZRle, "csw", deflate).unwrap();
    let info = read_header(&raw).unwrap();
    let ui = Console::new(false);
    let mut w = Vec::new();
    let mut out = Vec::new();
    let n = decode_file(&raw, &info, b"T.CSW", DecodeTarget::Wav, &ui, &mut w, &mut out).unwrap();
    assert_eq!(n, 44 + 316);
    assert_eq!(out.len(), 360);
    assert_eq!(&out[0..4], b"RIFF");
    assert_eq!(u32::from_le_bytes(out[40..44].try_into().unwrap()), 316);
    let mut want = Vec::new();
    want.extend_from_slice(b"\xfe Compressed Square Wave v2.00 at 44100 Hz (file 'T.CSW').\n");
    want.extend_from_slice(b"\xfe CSW created by application 'csw' using compression type 2\n");
    want.extend_from_slice(b"\xfe Total 316 samples, playing time 0:00.\n");
    assert_eq!(w, want);
}

#[test]
fn a_v1_csw_decodes_to_a_voc_without_an_application_line() {
    let p = Pulses::new(22050, vec![30, 40, 25, 50], false);
    let raw = csw::container::write(&p, 1, Compression::Rle, "csw", deflate).unwrap();
    let info = read_header(&raw).unwrap();
    let ui = Console::new(false);
    let mut w = Vec::new();
    let mut out = Vec::new();
    let n = decode_file(&raw, &info, b"A.CSW", DecodeTarget::Voc, &ui, &mut w, &mut out).unwrap();
    assert_eq!(n as usize, out.len());
    assert_eq!(&out[..19], b"Creative Voice File");
    let mut want = Vec::new();
    want.extend_from_slice(b"\xfe Compressed Square Wave v1.01 at 22050 Hz (file 'A.CSW').\n");
    want.extend_from_slice(b"\xfe Total 145 samples, playing time 0:00.\n");
    assert_eq!(w, want);
}

#[test]
fn a_csw_past_version_two_is_refused_after_its_header_line() {
    let p = Pulses::new(44100, vec![3, 5], true);
    let raw = csw::container::write(&p, 2, Compression::Rle, "csw", deflate).unwrap();
    let mut info = read_header(&raw).unwrap();
    info.major = 3;
    let ui = Console::new(false);
    let mut w = Vec::new();
    let mut out = Vec::new();
    match decode_file(&raw, &info, b"N.CSW", DecodeTarget::Wav, &ui, &mut w, &mut out) {
        Err(Error::Input(m, 252)) => {
            assert_eq!(m.as_bytes(), b"CSW version not supported, please upgrade this tool.")
        }
        other => panic!("{other:?}"),
    }
    assert_eq!(w, b"\xfe Compressed Square Wave v3.00 at 44100 Hz (file 'N.CSW').\n".to_vec());
    assert!(out.is_empty());
}

#[test]
fn a_trace_of_a_ragged_length_is_a_bad_size() {
    let ui = Console::new(false);
    let mut w = Vec::new();
    match open_input(&[0u8; 7], b"GAME.OUT", b"GAME.OUT", &ui, &mut w) {
        Err(Error::CheckedFatal(a, b)) => {
            assert_eq!(a, "bad size!");
            assert_eq!(b, "Input file is corrupted or in a wrong format");
        }
        Ok(_) => panic!("opened"),
        Err(other) => panic!("{other:?}"),
    }
    assert_eq!(w, b"\r\xfe Checking input file... ".to_vec());
}

#[test]
fn an_input_of_no_known_magic_prints_nothing() {
    let ui = Console::new(false);
    let mut w = Vec::new();
    match open_input(b"junk data", b"x.wav", b"x.wav", &ui, &mut w) {
        Err(Error::Fatal(m)) => assert_eq!(m.as_bytes(), b"Wrong file type"),
        Ok(_) => panic!("opened"),
        Err(other) => panic!("{other:?}"),
    }
    assert!(w.is_empty());
}

#[test]
fn a_wav_opens_and_encodes_back_to_its_pulses() {
    let halves = [30usize, 40, 25, 50, 30, 35];
    let pcm = square(&halves);
    let mut file = wav::wav_header(44100, 1, 8, pcm.len() as u32);
    file.extend_from_slice(&pcm);
    let ui = Console::new(false);
    let mut w = Vec::new();
    let (layout, kind) = match open_input(&file, b"t.wav", b"t.wav", &ui, &mut w) {
        Ok(Opened::Sampled(l, k)) => (l, k),
        Ok(Opened::Trace(_)) => panic!("a trace"),
        Err(e) => panic!("{e:?}"),
    };
    assert_eq!(kind, InputKind::Wav);
    assert_eq!(layout.rate, 44100);
    let mut want = b"\r\xfe Checking input file... ok!\n\xfe ".to_vec();
    want.extend_from_slice(layout.desc.as_bytes());
    want.push(b'\n');
    assert_eq!(w, want);

    let stream = stream_of(&layout, &file).unwrap();
    let c = condition_plain(&stream, layout.encoding);
    let mut w = Vec::new();
    let sig = encode_sampled(&layout, kind, &c, &settings(2, false), &ui, &mut w).unwrap();
    assert_eq!(w, b"* Working...".to_vec());
    assert_eq!(sig.rate, 44100);
    assert_eq!(&sig.pulses[..4], &[30, 40, 25, 50]);
}

#[test]
fn old_compression_is_announced_before_the_work() {
    let ui = Console::new(false);
    let mut w = Vec::new();
    writing_and_working(&settings(1, false), &ui, &mut w);
    assert_eq!(w, b"* Writing CSW v1.01 with old compression method\n* Working...".to_vec());
    let mut w = Vec::new();
    writing_and_working(&settings(2, true), &ui, &mut w);
    assert_eq!(w, b"* Writing CSW v2 with old compression method\n* Working...".to_vec());
}

#[test]
fn a_terminated_input_carries_no_warning() {
    let pcm = square(&[10, 10]);
    let mut file = wav::wav_header(8000, 1, 8, pcm.len() as u32);
    file.extend_from_slice(&pcm);
    let ui = Console::new(false);
    let mut w = Vec::new();
    let layout = match open_input(&file, b"t.wav", b"t.wav", &ui, &mut w) {
        Ok(Opened::Sampled(l, _)) => l,
        _ => panic!("not opened"),
    };
    let mut w = Vec::new();
    warn_unterminated(&layout, &ui, &mut w);
    assert!(w.is_empty());
}
