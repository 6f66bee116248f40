use csw::detect::bytes_to_pulses;
use csw::encode::condition_plain;
use csw::error::Error;
use csw::signal::Pulses;
use csw::source::{stream_of, Encoding};
use csw::wav::{scan, wav_data_len, wav_header, write_to, MAX_WAV_DATA};

fn read(bytes: &[u8]) -> Result<Pulses, Error> {
    let layout = scan(bytes)?;
    let stream = stream_of(&layout, bytes)?;
    let c = condition_plain(&stream, layout.encoding);
    Ok(bytes_to_pulses(layout.rate, &c.main))
}

#[test]
fn wav_pulse_roundtrip() {
    let sig = Pulses::new(44100, vec![3, 5, 1, 4, 7], true);
    let mut wav = Vec::new();
    let n = write_to(&mut wav, &sig, sig.total_samples()).unwrap();
    assert_eq!(n, wav.len() as u64);
    let back = read(&wav).unwrap();
    assert_eq!(back, sig);
}

fn mono8(tag: u16, ch: u16, rate: u32, bits: u16, pcm: &[u8]) -> Vec<u8> {
    let mut fmt = Vec::new();
    fmt.extend_from_slice(&tag.to_le_bytes());
    fmt.extend_from_slice(&ch.to_le_bytes());
    fmt.extend_from_slice(&rate.to_le_bytes());
    fmt.extend_from_slice(&rate.to_le_bytes());
    fmt.extend_from_slice(&1u16.to_le_bytes());
    fmt.extend_from_slice(&bits.to_le_bytes());
    let mut body = Vec::new();
    body.extend_from_slice(b"WAVE");
    body.extend_from_slice(b"fmt ");
    body.extend_from_slice(&(fmt.len() as u32).to_le_bytes());
    body.extend_from_slice(&fmt);
    body.extend_from_slice(b"data");
    body.extend_from_slice(&(pcm.len() as u32).to_le_bytes());
    body.extend_from_slice(pcm);
    let mut file = Vec::new();
    file.extend_from_slice(b"RIFF");
    file.extend_from_slice(&(body.len() as u32).to_le_bytes());
    file.extend_from_slice(&body);
    file
}

#[test]
fn a_declared_rate_is_read_as_its_low_word() {
    let pcm = [0xFFu8, 0xFF, 0x00, 0x00];
    for (declared, read_as) in [(96000u32, 30464u32), (65536, 0)] {
        let file = mono8(1, 1, declared, 8, &pcm);
        assert_eq!(scan(&file).unwrap().rate, read_as, "{declared}");
    }
}

#[test]
fn fmt_fields_are_compared_one_byte_wide() {
    let pcm = [0xFFu8, 0xFF, 0x00, 0x00, 0xFF, 0xFF, 0x00, 0x00];
    for (tag, ch, bits) in [(257u16, 1u16, 8u16), (1, 257, 8), (1, 512, 8), (1, 1, 264)] {
        let layout = scan(&mono8(tag, ch, 22050, bits, &pcm)).expect("read one byte wide");
        assert_eq!(layout.rate, 22050);
    }
    assert!(scan(&mono8(1, 2, 22050, 8, &pcm)).is_err());
}

#[test]
fn an_unsigned_wav_is_read_in_the_unsigned_domain() {
    let pcm = [0xFFu8, 0xFF, 0x00, 0x00, 0x00, 0xFF, 0x00, 0x00];
    let file = mono8(1, 1, 22050, 8, &pcm);
    let layout = scan(&file).unwrap();
    assert_eq!(layout.encoding, Encoding::U8);
    assert_eq!(layout.channels, 1);
    assert_eq!(layout.total_samples, 8);
    assert_eq!(read(&file).unwrap().pulses, vec![2, 3, 1, 2]);
}

#[test]
fn the_header_is_forty_four_bytes_of_riff() {
    let h = wav_header(44100, 1, 8, 10);
    assert_eq!(h.len(), 44);
    assert_eq!(&h[0..4], b"RIFF");
    assert_eq!(u32::from_le_bytes([h[4], h[5], h[6], h[7]]), 46);
    assert_eq!(&h[8..16], b"WAVEfmt ");
    assert_eq!(u32::from_le_bytes([h[24], h[25], h[26], h[27]]), 44100);
    assert_eq!(&h[36..40], b"data");
    assert_eq!(u32::from_le_bytes([h[40], h[41], h[42], h[43]]), 10);
}

#[test]
fn a_signal_too_long_for_riff_is_refused_with_nothing_written() {
    assert_eq!(wav_data_len(10).unwrap(), 10);
    assert!(wav_data_len(MAX_WAV_DATA + 1).is_err());
    let sig = Pulses::new(44100, vec![3], true);
    let mut out = Vec::new();
    assert!(matches!(
        write_to(&mut out, &sig, MAX_WAV_DATA + 1),
        Err(Error::Unsupported(_))
    ));
    assert!(out.is_empty());
}
