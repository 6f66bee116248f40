use csw::detect::{detect_pulses, run_detector, PulseDetector};

fn pseudo_tape(n: usize) -> Vec<u8> {
    let mut seed = 0x2545_F491_4F6C_DD1Du64;
    let mut next = move || {
        seed ^= seed << 13;
        seed ^= seed >> 7;
        seed ^= seed << 17;
        seed
    };
    let mut out = Vec::with_capacity(n);
    let (mut high, mut left) = (true, 0usize);
    while out.len() < n {
        if left == 0 {
            left = 4 + (next() % 40) as usize;
            high = !high;
        }
        let base = if high { 200 } else { 56 };
        let noise = (next() % 17) as i32 - 8;
        out.push((base + noise).clamp(0, 255) as u8);
        left -= 1;
    }
    out
}

fn pieces(signal: &[u8], size: Option<usize>) -> Vec<&[u8]> {
    match size {
        Some(n) => signal.chunks(n).collect(),
        None => {
            let (mut at, mut step, mut out) = (0usize, 1usize, Vec::new());
            while at < signal.len() {
                let end = (at + step).min(signal.len());
                out.push(&signal[at..end]);
                at = end;
                step = step * 3 % 251 + 1;
            }
            out
        }
    }
}

fn detect_in_chunks(signal: &[u8], size: Option<usize>) -> Vec<u32> {
    let mut det = PulseDetector::new();
    while !det.ready() {
        let mut answered = false;
        for piece in pieces(signal, size) {
            if det.probe(piece) {
                answered = true;
                break;
            }
        }
        if !answered {
            det.probe_eof();
        }
    }
    let mut got = Vec::new();
    for piece in pieces(signal, size) {
        det.push(piece, &mut got);
    }
    det.finish(&mut got);
    got
}

#[test]
fn chunked_detection_matches_the_whole_buffer() {
    let signal = pseudo_tape(20_000);
    let whole = detect_pulses(&signal);
    assert!(whole.len() > 100, "test signal has no pulses");
    for size in [1usize, 2, 3, 7, 64, 997, 8192, 32_768] {
        assert_eq!(detect_in_chunks(&signal, Some(size)), whole, "chunk size {size}");
    }
    assert_eq!(detect_in_chunks(&signal, None), whole, "ragged chunks");
}

#[test]
fn dither_around_the_midpoint_makes_no_edges() {
    let mut s = vec![127u8, 128, 127, 128, 127, 128, 127, 128];
    s.extend([200; 6]);
    s.extend([128, 127, 128, 127]);
    let pulses = detect_pulses(&s);
    assert!(pulses.len() <= 4, "dither must not become a pulse train, got {pulses:?}");
    assert_eq!(pulses.iter().sum::<u32>() as usize, s.len());
    assert_eq!(pulses, vec![14, 2, 1, 1]);
}

#[test]
fn fewer_than_three_edges_yields_nothing() {
    for s in [
        vec![255u8; 10],
        [[255u8; 10].as_slice(), &[0; 10]].concat(),
        [[255u8; 10].as_slice(), &[0; 10], &[255; 10]].concat(),
        Vec::new(),
    ] {
        let (out, det) = run_detector(&s);
        assert_eq!(out, Vec::<u32>::new(), "input {s:?}");
        assert_eq!(det.pulse_count(), 1);
        assert!(det.initial_high());
    }
    let s = [[255u8; 10].as_slice(), &[0; 10], &[255; 10], &[0; 10]].concat();
    assert_eq!(detect_pulses(&s), vec![10, 10, 10, 10]);
}

#[test]
fn full_scale_square_is_recovered_exactly() {
    let runs = [7u32, 5, 11, 3, 9];
    let mut s = Vec::new();
    let mut hi = true;
    for &r in &runs {
        s.extend(std::iter::repeat_n(if hi { 255u8 } else { 0 }, r as usize));
        hi = !hi;
    }
    assert_eq!(detect_pulses(&s), runs);
}

#[test]
fn a_signal_in_bytes_becomes_pulses_at_its_rate() {
    let mut s = Vec::new();
    for (r, hi) in [(6usize, true), (4, false), (8, true), (5, false)] {
        s.extend(std::iter::repeat_n(if hi { 255u8 } else { 0 }, r));
    }
    let p = csw::detect::bytes_to_pulses(11025, &s);
    assert_eq!(p.rate, 11025);
    assert_eq!(p.pulses, vec![6, 4, 8, 5]);
    assert!(p.initial_high);
    assert!(p.declared >= 4);
}
