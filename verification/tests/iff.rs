use csw::detect::bytes_to_pulses;
use csw::encode::condition_plain;
use csw::error::Error;
use csw::iff::scan;
use csw::signal::Pulses;
use csw::source::{stream_of, Encoding};

fn be(v: u32) -> [u8; 4] {
    v.to_be_bytes()
}

fn read(bytes: &[u8]) -> Result<Pulses, Error> {
    let layout = scan(bytes)?;
    let stream = stream_of(&layout, bytes)?;
    let c = condition_plain(&stream, layout.encoding);
    Ok(bytes_to_pulses(layout.rate, &c.main))
}

fn vhdr(rate: u16) -> Vec<u8> {
    let mut v = Vec::new();
    v.extend_from_slice(&be(0));
    v.extend_from_slice(&be(0));
    v.extend_from_slice(&be(0));
    v.extend_from_slice(&rate.to_be_bytes());
    v.push(1);
    v.push(0);
    v.extend_from_slice(&be(0x10000));
    v
}

fn build(chunks: Vec<(&[u8; 4], Vec<u8>)>) -> Vec<u8> {
    let mut inner = b"8SVX".to_vec();
    for (id, payload) in chunks {
        inner.extend_from_slice(id);
        inner.extend_from_slice(&be(payload.len() as u32));
        inner.extend_from_slice(&payload);
    }
    let mut file = b"FORM".to_vec();
    file.extend_from_slice(&be(inner.len() as u32));
    file.extend_from_slice(&inner);
    file
}

#[test]
fn reads_8svx() {
    let pcm: [i8; 8] = [127, 127, -128, -128, -128, 127, -128, -128];
    let body: Vec<u8> = pcm.iter().map(|&s| s as u8).collect();
    let file = build(vec![(b"VHDR", vhdr(11025)), (b"BODY", body)]);
    let layout = scan(&file).unwrap();
    assert_eq!(layout.encoding, Encoding::S8);
    let p = read(&file).unwrap();
    assert_eq!(p.rate, 11025);
    assert!(p.initial_high);
    assert_eq!(p.pulses, vec![2, 3, 1, 2]);
}

#[test]
fn rejects_compressed() {
    let mut v = vec![0u8; 20];
    v[15] = 1;
    let file = build(vec![(b"VHDR", v)]);
    assert!(read(&file).is_err());
}

#[test]
fn the_walk_keeps_two_budgets_of_five() {
    let body: Vec<u8> = vec![127, 127, 128u8.wrapping_neg(), 128u8.wrapping_neg()];
    let junk = (b"ANNO", vec![0u8; 4]);
    let mut four: Vec<(&[u8; 4], Vec<u8>)> = vec![junk.clone(); 4];
    four.push((b"VHDR", vhdr(11025)));
    four.push((b"BODY", body.clone()));
    assert_eq!(scan(&build(four)).unwrap().rate, 11025);

    let mut five: Vec<(&[u8; 4], Vec<u8>)> = vec![junk.clone(); 5];
    five.push((b"VHDR", vhdr(11025)));
    five.push((b"BODY", body.clone()));
    assert!(scan(&build(five)).is_err());

    let two = vec![
        (b"VHDR", vhdr(11025)),
        (b"VHDR", vhdr(22050)),
        (b"BODY", body.clone()),
    ];
    assert_eq!(scan(&build(two)).unwrap().rate, 11025);
    let swapped = vec![
        (b"VHDR", vhdr(22050)),
        (b"VHDR", vhdr(11025)),
        (b"BODY", body.clone()),
    ];
    assert_eq!(scan(&build(swapped)).unwrap().rate, 22050);
}
