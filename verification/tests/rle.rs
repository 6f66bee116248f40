use csw::rle::{decode, encode, Decoder};

#[test]
fn escape_roundtrip() {
    let pulses = vec![3, 5, 1, 300, 7];
    let bytes = encode(&pulses).unwrap();
    assert_eq!(bytes, vec![3, 5, 1, 0, 0x2C, 0x01, 0x00, 0x00, 7]);
    assert_eq!(decode(&bytes), pulses);
}

#[test]
fn plain_bytes() {
    let pulses = vec![255, 1, 128];
    assert_eq!(decode(&encode(&pulses).unwrap()), pulses);
}

#[test]
fn encode_rejects_a_zero_length_pulse() {
    assert!(encode(&[3, 0, 5]).is_err());
    assert!(encode(&[0]).is_err());
    assert_eq!(encode(&[3, 5]).unwrap(), vec![3, 5]);
}

#[test]
fn decode_takes_a_zero_length_escape() {
    let stream = vec![3, 0, 0, 0, 0, 0, 5];
    assert_eq!(decode(&stream), vec![3, 0, 5]);
}

#[test]
fn decode_still_takes_a_real_escape_and_a_truncated_tail() {
    assert_eq!(decode(&[3, 0, 0x2C, 0x01, 0x00, 0x00, 7]), vec![3, 300, 7]);
    assert_eq!(decode(&[3, 0, 1, 2]), vec![3]);
}

#[test]
fn a_zero_pulse_is_named_by_its_index() {
    match encode(&[4, 9, 0, 2]) {
        Err(csw::error::Error::Format(m)) => {
            assert_eq!(m, "pulse 2 is 0 samples: a pulse lasts at least one sample")
        }
        other => panic!("{other:?}"),
    }
}

#[test]
fn the_streaming_decoder_takes_one_pulse_at_a_time() {
    let raw = [1u8, 0, 0x10, 0, 0, 0, 2];
    let mut d = Decoder::new(&raw);
    assert_eq!(d.next(), Some(1));
    assert_eq!(d.next(), Some(16));
    assert_eq!(d.next(), Some(2));
    assert_eq!(d.next(), None);
}

#[test]
fn what_is_encoded_decodes_back() {
    let pulses: Vec<u32> = vec![1, 255, 256, 65535, 0x1234_5678, u32::MAX];
    assert_eq!(decode(&encode(&pulses).unwrap()), pulses);
}
