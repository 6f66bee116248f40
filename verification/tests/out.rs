use csw::out::{read, Z80_CLOCK};

fn rec(a: u16, port: u8, val: u8) -> [u8; 5] {
    [a as u8, (a >> 8) as u8, port, val, 0]
}

#[test]
fn the_widest_gap_fits_the_dword_that_holds_it() {
    let mut data = Vec::new();
    data.extend_from_slice(&rec(0xFFFD, 0xFE, 0));
    data.extend_from_slice(&rec(0xFFFF, 0x00, 0x00));
    data.extend_from_slice(&rec(0xFFFF, 0xFC, 0xFF));
    data.extend_from_slice(&rec(0x0000, 0xFE, 0));
    data.extend_from_slice(&rec(1000, 0xFE, 0));
    data.extend_from_slice(&rec(2000, 0xFE, 0));
    let (p, _, described) = read(&data, 65_000).unwrap();
    assert_eq!(p.pulses, vec![1217, 79_763_678, 18, 18]);
    assert_eq!(described, 4);
}

#[test]
fn a_backwards_timestamp_wraps_instead_of_going_negative() {
    let forward: Vec<u8> = [1000u16, 3000, 5000, 7000, 9000].iter().flat_map(|&t| rec(t, 0xFE, 0)).collect();
    let (p, _, _) = read(&forward, 65000).unwrap();
    assert_eq!(p.pulses, vec![18, 37, 37, 37, 37]);
    let backward: Vec<u8> = [1000u16, 3000, 2000, 7000, 9000].iter().flat_map(|&t| rec(t, 0xFE, 0)).collect();
    let (p, _, _) = read(&backward, 65000).unwrap();
    assert_eq!(p.pulses, vec![18, 37, 0x04C1_18CB, 92, 37]);
}

#[test]
fn decodes_edges_to_pulses() {
    let mut data = Vec::new();
    data.extend_from_slice(&rec(1000, 0xFE, 0x10));
    data.extend_from_slice(&rec(2000, 0xFE, 0x00));
    data.extend_from_slice(&rec(3500, 0xFE, 0x10));
    data.extend_from_slice(&rec(4000, 0xFE, 0x00));
    let (p, _, described) = read(&data, 3_500_000).unwrap();
    assert_eq!(p.rate, 3_500_000);
    assert_eq!(p.pulses, vec![1000, 1000, 1500, 500]);
    assert_eq!(described, 4);
    assert!(p.initial_high);
}

#[test]
fn short_traces_keep_only_the_first() {
    let mut three = Vec::new();
    three.extend_from_slice(&rec(1000, 0xFE, 0x10));
    three.extend_from_slice(&rec(3000, 0xFE, 0x00));
    three.extend_from_slice(&rec(6000, 0xFE, 0x10));
    let (p, _, described) = read(&three, 3_500_000).unwrap();
    assert_eq!(p.pulses, vec![1000]);
    assert_eq!(described, 3);
    assert!(p.initial_high);

    let one = rec(1000, 0xFE, 0x10);
    let (p, _, described) = read(&one, 3_500_000).unwrap();
    assert_eq!(p.pulses, vec![1000]);
    assert_eq!(described, 1);
    assert!(!p.initial_high, "a single write stamps polarity low");
}

#[test]
fn wrap_marker_adds_time() {
    let mut data = Vec::new();
    data.extend_from_slice(&rec(500, 0xFE, 0x10));
    data.extend_from_slice(&[0xFF, 0xFF, 0xE8, 0x03, 0x00]);
    data.extend_from_slice(&rec(200, 0xFE, 0x00));
    data.extend_from_slice(&rec(400, 0xFE, 0x10));
    data.extend_from_slice(&rec(600, 0xFE, 0x00));
    let (p, t_total, _) = read(&data, 3_500_000).unwrap();
    assert_eq!(p.pulses, vec![500, 700, 200, 200]);
    assert_eq!(t_total, 1600);
}

#[test]
fn a_trace_of_another_port_has_no_pulses() {
    let data = rec(1000, 0x1F, 0x10);
    let (p, _, described) = read(&data, 44100).unwrap();
    assert!(p.pulses.is_empty());
    assert_eq!(described, 0);
}

#[test]
fn rejects_bad_size() {
    assert!(read(&[0u8; 7][..], 44100).is_err());
}

#[test]
fn a_trace_ending_mid_pulse_reads_on_from_the_start() {
    let mut trace: Vec<u8> = [0u16, 2000, 4000, 6000].iter().flat_map(|&t| rec(t, 0xFE, 0)).collect();
    trace.extend_from_slice(&rec(7000, 0x00, 0));
    let (p, _, described) = read(&trace, 65000).unwrap();
    let wrapped = (0u32.wrapping_sub(6000)) as u64 * 65000 / Z80_CLOCK;
    assert_eq!(p.pulses, vec![37, 37, 37, wrapped as u32]);
    assert_eq!(described, 4);
    let (p, _, _) = read(&trace[..trace.len() - 5], 65000).unwrap();
    assert_eq!(p.pulses, vec![37]);
}

#[test]
fn the_count_is_over_the_port_byte_alone() {
    let mut trace: Vec<u8> = Vec::new();
    trace.extend_from_slice(&rec(0, 0xFE, 0));
    trace.extend_from_slice(&rec(0xFFFE, 0xFE, 0));
    trace.extend_from_slice(&rec(0xFFFF, 0xFE, 0x01));
    trace.extend_from_slice(&rec(2000, 0xFE, 0));
    let (_, _, described) = read(&trace, 65000).unwrap();
    assert_eq!(described, 4);
}

#[test]
fn a_bad_size_is_refused_with_both_lines() {
    match read(&[0u8; 6], 65000) {
        Err(csw::error::Error::CheckedFatal(a, b)) => {
            assert_eq!(a, "bad size!");
            assert_eq!(b, "Input file is corrupted or in a wrong format");
        }
        other => panic!("{other:?}"),
    }
}

#[test]
fn an_empty_trace_is_read_and_declares_one_pulse() {
    let (p, t_total, described) = read(&[], 65000).unwrap();
    assert!(p.pulses.is_empty());
    assert_eq!(p.declared, 1);
    assert_eq!(t_total, 0);
    assert_eq!(described, 0);
}
