use csw::detect::bytes_to_pulses;
use csw::encode::condition_plain;
use csw::error::Error;
use csw::signal::Pulses;
use csw::source::stream_of;
use csw::voc::{
    parse_block, scan, tc_to_rate, time_constant, write_to, TailRead, BUFFER, MAGIC, MARK,
    VOC_16_BIT, VOC_COMPRESSED,
};

fn write(sig: &Pulses) -> Vec<u8> {
    let mut out = Vec::new();
    let n = write_to(&mut out, sig);
    assert_eq!(n, out.len() as u64);
    out
}

/// A VOC's sample runs, binarised as a conversion reads them.
fn read(bytes: &[u8]) -> Result<Pulses, Error> {
    let layout = scan(bytes)?;
    let stream = stream_of(&layout, bytes)?;
    let c = condition_plain(&stream, layout.encoding);
    Ok(bytes_to_pulses(layout.rate, &c.main))
}

#[test]
fn voc_roundtrip_block1() {
    let sig = Pulses::new(44100, vec![3, 5, 1, 4, 7, 2], true);
    let bytes = write(&sig);
    assert_eq!(&bytes[0..20], &MAGIC[..]);
    assert_eq!(u16::from_le_bytes([bytes[0x16], bytes[0x17]]), 0x010A);
    assert_eq!(bytes[26], 1);
    assert_eq!(*bytes.last().unwrap(), 0);

    let got = read(&bytes).unwrap();
    assert_eq!(got.pulses, sig.pulses);
    assert_eq!(got.initial_high, sig.initial_high);
}

#[test]
fn block1_time_constant() {
    assert_eq!(time_constant(32258), 0xE1);
    assert_eq!(time_constant(44100), 233);
}

#[test]
fn a_rate_of_44100_comes_back_as_43478() {
    assert_eq!(tc_to_rate(time_constant(44100)), 43478);
}

#[test]
fn adding_the_half_first_differs_from_rounding_the_division() {
    for rate in [16000u32, 80000] {
        let rounded_division = 256 - (1_000_000.0 / f64::from(rate) + 0.5).trunc() as u32;
        assert_eq!(u32::from(time_constant(rate)), rounded_division + 1);
    }
}

#[test]
fn low_rates_wrap_into_the_byte_and_a_signed_rate_divides_signed() {
    assert_eq!(time_constant(1000), 25);
    assert_eq!(time_constant(1), 193);
    assert_eq!(time_constant(0xFFFF_FFFF), 64);
}

fn classic(checksum: u16) -> Vec<u8> {
    let pcm = [0xFFu8, 0xFF, 0x00, 0x00, 0x00, 0xFF, 0x00, 0x00];
    let mut v = Vec::new();
    v.extend_from_slice(&MAGIC);
    v.extend_from_slice(&26u16.to_le_bytes());
    v.extend_from_slice(&0x010Au16.to_le_bytes());
    v.extend_from_slice(&checksum.to_le_bytes());
    v.push(1);
    let len = (2 + pcm.len()) as u32;
    v.extend_from_slice(&len.to_le_bytes()[0..3]);
    v.push(166);
    v.push(0);
    v.extend_from_slice(&pcm);
    v.push(0);
    v
}

#[test]
fn reads_classic_block1() {
    let v = classic(0);
    let p = read(&v).unwrap();
    assert_eq!(p.rate, tc_to_rate(166));
    assert_eq!(p.pulses, vec![2, 3, 1, 2]);
    assert!(p.initial_high);
}

#[test]
fn a_wrong_version_checksum_is_accepted() {
    let v = classic(0x1234);
    let layout = scan(&v).unwrap();
    assert!(layout
        .desc
        .starts_with("Creative Voice File (VOC) v1.10 STD"));
    assert_eq!(read(&v).unwrap().pulses, vec![2, 3, 1, 2]);
}

#[test]
fn rejects_stereo_block9() {
    let mut v = Vec::new();
    v.extend_from_slice(&MAGIC);
    v.extend_from_slice(&26u16.to_le_bytes());
    v.extend_from_slice(&0x0114u16.to_le_bytes());
    v.extend_from_slice(&0u16.to_le_bytes());
    v.push(9);
    let mut block = Vec::new();
    block.extend_from_slice(&44100u32.to_le_bytes());
    block.push(8);
    block.push(2);
    block.extend_from_slice(&[0, 0, 0, 0, 0, 0]);
    block.push(0x80);
    v.extend_from_slice(&(block.len() as u32).to_le_bytes()[0..3]);
    v.extend_from_slice(&block);
    v.push(0);
    assert!(read(&v).is_err());
}

#[test]
fn an_unterminated_file_is_read_twice() {
    let samples: Vec<u8> = (0..40u16)
        .map(|i| if (i / 4) % 2 == 0 { 0xFF } else { 0x00 })
        .collect();
    let mut file = MAGIC.to_vec();
    file.extend_from_slice(&26u16.to_le_bytes());
    file.extend_from_slice(&0x0114u16.to_le_bytes());
    file.extend_from_slice(&(!0x0114u16).to_le_bytes());
    file.push(9);
    file.extend_from_slice(&((samples.len() + 12) as u32).to_le_bytes()[..3]);
    file.extend_from_slice(&22050u32.to_le_bytes());
    file.extend_from_slice(&[8, 1]);
    file.extend_from_slice(&0u16.to_le_bytes());
    file.extend_from_slice(&[0, 0, 0, 0]);
    file.extend_from_slice(&samples);

    let layout = scan(&file).unwrap();
    assert!(layout.unterminated);
    assert_eq!(layout.total_samples, samples.len() as u64);
    let mut tail = layout
        .tail
        .as_ref()
        .expect("an unterminated file has a tail")
        .fresh_copy();
    let stream = stream_of(&layout, &file).unwrap();
    assert_eq!(stream.main, samples);
    let mut again = Vec::new();
    while again.len() < samples.len() {
        match tail.next(&file).unwrap() {
            TailRead::Sample(b, true) => again.push(b),
            other => panic!("unexpected read past the end: {other:?}"),
        }
    }
    assert_eq!(again, samples);

    file.push(0);
    let layout = scan(&file).unwrap();
    assert!(!layout.unterminated);
    let stream = stream_of(&layout, &file).unwrap();
    assert_eq!(stream.main.len(), samples.len());
}

fn voc_of(blocks: &[&[u8]]) -> Vec<u8> {
    let mut v = MAGIC.to_vec();
    v.extend_from_slice(&26u16.to_le_bytes());
    v.extend_from_slice(&0x010Au16.to_le_bytes());
    v.extend_from_slice(&0x1129u16.to_le_bytes());
    for b in blocks {
        v.extend_from_slice(b);
    }
    v
}

fn framed(btype: u8, payload: &[u8], claimed: Option<u32>) -> Vec<u8> {
    let mut v = vec![btype];
    v.extend_from_slice(&claimed.unwrap_or(payload.len() as u32).to_le_bytes()[..3]);
    v.extend_from_slice(payload);
    v
}

fn block1(tc: u8, n: usize) -> Vec<u8> {
    let mut p = vec![tc, 0];
    p.extend((0..n).map(|i| if (i / 20) % 2 == 0 { 0xE0 } else { 0x20 }));
    framed(1, &p, None)
}

#[test]
fn a_later_block_1_sets_the_rate_while_the_ext_flag_is_clear() {
    let file = voc_of(&[&block1(211, 40), &block1(131, 40), &[0]]);
    let layout = scan(&file).unwrap();
    assert_eq!(layout.rate, tc_to_rate(131));
    assert_eq!(layout.total_samples, 80);

    let mut nine = 22050u32.to_le_bytes().to_vec();
    nine.extend_from_slice(&[8, 1, 0, 0, 0, 0, 0, 0, 0x80, 0x80]);
    let file = voc_of(&[&framed(9, &nine, None), &block1(131, 40), &[0]]);
    let layout = scan(&file).unwrap();
    assert_eq!(layout.rate, 22050);
}

#[test]
fn an_overrunning_text_block_takes_the_count_below_zero() {
    let text = b"\xe0\xe0\xe0\xe0\xe0\xe0\x20\x20\x20\x20\x20\x20\0";
    let file = voc_of(&[&block1(0xa6, 40), &framed(5, text, Some(60))]);
    let layout = scan(&file).unwrap();
    assert_eq!(layout.total_samples, 0xFFFF_FFF9);
    assert!(!layout.unterminated);
    assert_eq!(layout.segments.len(), 2);
    assert_eq!(layout.segments[1].bytes, 13);
    let mut tail = layout.tail.as_ref().unwrap().fresh_copy();
    for _ in 0..47 {
        assert!(matches!(tail.next(&file).unwrap(), TailRead::Sample(_, true)));
    }
    match tail.next(&file) {
        Err(Error::Fatal(m)) => assert_eq!(
            m.as_bytes(),
            &b"Input file is corrupted or in a wrong format"[..]
        ),
        other => panic!("{other:?}"),
    }
}

#[test]
fn the_walk_reports_the_heap_at_the_end_of_the_buffer() {
    let mut p = vec![0xa6, 0];
    p.extend((0..100).map(|i| if (i / 20) % 2 == 0 { 0xE0 } else { 0x20 }));
    let file = voc_of(&[&framed(1, &p, Some(3_000_000))]);
    let layout = scan(&file).unwrap();
    let mut tail = layout.tail.as_ref().unwrap().fresh_copy();
    let mut reads = 0u64;
    loop {
        match tail.next(&file).unwrap() {
            TailRead::Sample(_, true) => reads += 1,
            TailRead::Heap => break,
            other => panic!("{other:?}"),
        }
    }
    assert_eq!(reads, BUFFER);
    assert!(matches!(tail.next(&file).unwrap(), TailRead::Heap));
}

#[test]
fn the_reads_past_the_runs_end_where_the_walk_ends() {
    let text = b"\xe0\xe0\xe0\xe0\xe0\xe0\x20\x20\x20\x20\x20\x20\0";
    let file = voc_of(&[&block1(0xa6, 40), &framed(5, text, Some(60))]);
    let layout = scan(&file).unwrap();
    let mut tail = layout.tail.as_ref().unwrap().fresh_copy();
    let (reads, end) = tail.reads(&file);
    assert_eq!(reads.len(), 47);
    assert!(end.is_err());
}

#[test]
fn a_header_cut_by_the_end_of_a_file_larger_than_one_fill_reads_the_file_s_start() {
    let stereo9 = {
        let mut h = vec![0u8, 0];
        h.extend_from_slice(&44100u32.to_le_bytes());
        h.extend_from_slice(&[8, 2, 0, 0, 0, 0, 0, 0]);
        h
    };
    for (cut, fill, at_fill, line) in [
        (&[1u8, 0x40][..], 0u8, &[0u8, 0, 0xa6, 0][..], VOC_COMPRESSED),
        (&[9, 0x40], 0x80, &stereo9, VOC_16_BIT),
    ] {
        let mut p = vec![0xa6, 0];
        p.resize(2 + 300_000, fill);
        let mut file = voc_of(&[&framed(1, &p, None)]);
        let b = BUFFER as usize;
        file[b..b + at_fill.len()].copy_from_slice(at_fill);
        file.extend_from_slice(cut);
        assert!(file.len() as u64 > BUFFER);
        match scan(&file) {
            Err(Error::Refused(m)) => assert_eq!(m, line),
            Err(e) => panic!("{e:?}"),
            Ok(_) => panic!("scanned, expected {line}"),
        }
    }
}

#[test]
fn a_header_straddling_the_end_of_the_buffer_reads_zeros_past_it() {
    let sq = |n: usize| -> Vec<u8> {
        (0..n)
            .map(|i| if (i / 20) % 2 == 0 { 0xE0 } else { 0x20 })
            .collect()
    };
    let mut last = sq(92);
    last[..4].copy_from_slice(&[2, 88, 0, 0]);
    let mut nine = 22050u32.to_le_bytes().to_vec();
    nine.extend_from_slice(&[8, 1, 0, 0, 0, 0, 0, 0]);
    nine.extend_from_slice(&last);
    let file = voc_of(&[
        &framed(2, &sq(96), None),
        &framed(2, &sq(262032), None),
        &framed(9, &nine, None),
    ]);
    let len = file.len() as u64;
    assert_eq!(len, 262270);
    assert_eq!(file[(MARK + BUFFER - 8) as usize], 9);
    let layout = scan(&file).unwrap();
    assert!(layout.unterminated);
    let mut tail = layout.tail.as_ref().unwrap().fresh_copy();
    let err = loop {
        match tail.next(&file) {
            Ok(TailRead::Sample(..)) => continue,
            Ok(other) => panic!("{other:?}"),
            Err(e) => break e,
        }
    };
    assert!(matches!(err, Error::Refused(ref m) if m == VOC_16_BIT), "{err:?}");
    assert_eq!(tail.pos(), len + BUFFER + 8);
}

#[test]
fn a_block_8_is_checked_pack_byte_first() {
    let ext = framed(8, &[0xd2, 0xff, 1, 1], None);
    let file = voc_of(&[&ext, &block1(211, 40), &[0]]);
    match scan(&file) {
        Err(Error::Fatal(m)) => assert_eq!(m.as_bytes(), &b"Extended block contains nonsense data"[..]),
        Err(other) => panic!("{other:?}"),
        Ok(_) => panic!("converted"),
    }
    assert!(parse_block(8, &ext[1..]).is_err());
}

#[test]
fn a_type_refused_by_name_needs_no_length_field() {
    let cut = |t: u8| scan(&voc_of(&[&block1(0xa6, 40), &[t]]));
    assert!(matches!(cut(6), Err(Error::Refused(m)) if m.starts_with("Sorry, block type")));
    for t in [10, 11, 99, 255] {
        assert!(matches!(cut(t), Err(Error::Fatal(m)) if m.starts_with("Input file is corrupted")));
    }
    assert!(matches!(cut(1), Err(Error::Refused(_))));
}

#[test]
fn a_block_1_claiming_one_byte_counts_minus_one() {
    let file = voc_of(&[&block1(0xa6, 40), &[1, 1, 0, 0, 0xa6], &[0]]);
    let layout = scan(&file).unwrap();
    assert_eq!(layout.total_samples, 39);
    assert!(!layout.unterminated);
    assert!(layout.empty_block);
}

#[test]
fn a_block_clamped_to_nothing_is_not_an_empty_one() {
    let file = voc_of(&[&framed(1, &[0xa6, 0], Some(64))]);
    let layout = scan(&file).unwrap();
    assert!(!layout.empty_block);
    assert_eq!(layout.total_samples, 0);
    assert_eq!(layout.segments[0].bytes, 0);
    assert!(!layout.unterminated);
    let mut nine = 22050u32.to_le_bytes().to_vec();
    nine.extend_from_slice(&[8, 1, 0, 0, 0, 0, 0, 0]);
    let file = voc_of(&[&framed(9, &nine, Some(64))]);
    let layout = scan(&file).unwrap();
    assert!(!layout.empty_block);
    assert_eq!(layout.total_samples, 0);
    assert_eq!(layout.rate, 22050);
    assert!(layout.desc.contains(" EXT, "));
}

#[test]
fn a_node_length_of_zero_or_below_abandons_the_run() {
    let nine = |claim: u32| {
        let mut h = 22050u32.to_le_bytes().to_vec();
        h.extend_from_slice(&[8, 1, 0, 0, 0, 0, 0, 0]);
        framed(9, &h, Some(claim))
    };
    for (blocks, count, unterminated) in [
        (vec![block1(0xa6, 40), nine(12)], 40u32, true),
        (vec![nine(12)], 0, true),
        (vec![block1(0xa6, 40), vec![1, 0, 0, 0, 0, 0]], 38, false),
        (vec![block1(0xa6, 40), nine(11)], 39, false),
        (vec![block1(0xa6, 40), nine(8)], 36, false),
        (vec![vec![1, 1, 0, 0, 0xa6], vec![0]], 0xFFFF_FFFF, false),
    ] {
        let parts: Vec<&[u8]> = blocks.iter().map(Vec::as_slice).collect();
        let layout = scan(&voc_of(&parts)).unwrap();
        assert!(layout.empty_block);
        assert_eq!(layout.total_samples, u64::from(count));
        assert_eq!(layout.unterminated, unterminated);
    }
}

#[test]
fn a_header_with_no_block_byte_is_corrupted() {
    let hdr = voc_of(&[]);
    assert_eq!(hdr.len(), 26);
    for n in [25, 26] {
        assert!(matches!(
            scan(&hdr[..n]),
            Err(Error::Fatal(m)) if m.starts_with("Input file is corrupted")
        ));
    }
    let layout = scan(&voc_of(&[&[0]])).unwrap();
    assert_eq!(layout.total_samples, 0);
    assert_eq!(layout.rate, 0);
    assert!(!layout.unterminated);
}

#[test]
fn a_header_byte_past_the_end_is_the_files_own_from_its_start() {
    let file = voc_of(&[&block1(0xa6, 40), &[4]]);
    let layout = scan(&file).unwrap();
    assert_eq!(layout.total_samples, 4_288_318_946);
    assert!(!layout.unterminated);
    let cut = |tail: &[u8]| scan(&voc_of(&[&block1(0xa6, 40), tail]));
    assert!(matches!(cut(&[1, 0x40, 0, 0]), Err(Error::Refused(m)) if m == VOC_COMPRESSED));
    assert!(matches!(cut(&[1, 0x40, 0, 0, 0xa6]), Err(Error::Refused(m)) if m == VOC_COMPRESSED));
    assert!(matches!(cut(&[9, 0x40, 0, 0]), Err(Error::Refused(m)) if m == VOC_16_BIT));
}

#[test]
fn a_silence_block_cut_by_the_end_of_the_file_is_clamped() {
    for (tail, count, terminator) in [
        (&[3][..], 34u32, false),
        (&[3, 0x40, 0], 36, false),
        (&[3, 0x40, 0, 0], 37, true),
        (&[3, 0x40, 0, 0, 0x10], 38, true),
        (&[3, 0x40, 0, 0, 0x10, 0], 39, false),
    ] {
        let file = voc_of(&[&block1(0xa6, 40), tail]);
        let layout = scan(&file).unwrap();
        assert_eq!(layout.total_samples, u64::from(count));
        assert!(!layout.unterminated);
        assert!(!layout.empty_block);
        assert_eq!(layout.segments.len(), 1);
        let mut walk = layout.tail.as_ref().unwrap().fresh_copy();
        match walk.next(&file) {
            Ok(TailRead::Terminator) => assert!(terminator),
            Err(Error::Fatal(m)) => {
                assert!(!terminator);
                assert_eq!(m.as_bytes(), &b"Input file is corrupted or in a wrong format"[..]);
            }
            other => panic!("{other:?}"),
        }
    }
    let file = voc_of(&[&block1(0xa6, 40), &[3, 0x40, 0, 0, 0x10, 0, 0xa6]]);
    let layout = scan(&file).unwrap();
    assert_eq!(layout.total_samples, 40);
    assert!(layout.unterminated);
}
