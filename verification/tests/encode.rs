use csw::detect::bytes_to_pulses;
use csw::encode::{condition_plain, encode, to_detector_byte, Conditioned};
use csw::error::Error;
use csw::signal::Pulses;
use csw::source::{stream_of, Encoding, TailEnd};
use csw::voc::{scan, write_to, TailRead};

fn square(halves: &[usize]) -> Vec<u8> {
    let mut v = Vec::new();
    let mut high = true;
    for &n in halves {
        v.extend(std::iter::repeat(if high { 0xE0 } else { 0x20 }).take(n));
        high = !high;
    }
    v
}

#[test]
fn a_signed_sample_is_shifted_to_the_unsigned_domain() {
    assert_eq!(to_detector_byte(Encoding::U8, 0x80), 0x80);
    assert_eq!(to_detector_byte(Encoding::S8, 0), 0x80);
    assert_eq!(to_detector_byte(Encoding::S8, 127), 255);
    assert_eq!(to_detector_byte(Encoding::S8, 0x80), 0);
}

#[test]
fn an_encode_of_a_plain_stream_matches_the_one_buffer_detector() {
    let main = square(&[30, 40, 25, 50, 30, 35]);
    let c = Conditioned { main: main.clone(), tail: vec![], end: TailEnd::Nothing };
    let got = encode(44100, false, false, &c).unwrap();
    let want = bytes_to_pulses(44100, &main);
    assert_eq!(got, want);
    assert!(!got.pulses.is_empty());
}

#[test]
fn a_run_stopped_at_the_heap_keeps_what_it_had_emitted() {
    let main = square(&[30, 40, 25, 50, 30, 35]);
    let c = Conditioned { main, tail: vec![], end: TailEnd::Heap };
    match encode(44100, false, false, &c) {
        Err((Error::Silent(s), partial)) => {
            assert_eq!(s, "VOC read past the reader's 256 KiB buffer");
            assert_eq!(partial.declared, 0);
            assert_eq!(partial.rate, 44100);
        }
        other => panic!("{other:?}"),
    }
}

#[test]
fn a_voc_encodes_through_its_stream() {
    let sig = Pulses::new(22050, vec![30, 40, 25, 50, 30, 35], true);
    let mut file = Vec::new();
    write_to(&mut file, &sig);
    let layout = scan(&file).unwrap();
    let stream = stream_of(&layout, &file).unwrap();
    let c = condition_plain(&stream, layout.encoding);
    assert_eq!(c.main, stream.main);
    assert_eq!(
        c.tail.len(),
        stream.tail.len(),
        "one conditioned read a read: {:?}",
        stream.tail.iter().take(3).collect::<Vec<&TailRead>>()
    );
    let p = match encode(layout.rate, false, false, &c) {
        Ok(p) => p,
        Err((_, p)) => p,
    };
    assert_eq!(p.rate, layout.rate);
    assert_eq!(&p.pulses[..sig.pulses.len() - 1], &sig.pulses[..sig.pulses.len() - 1]);
}
