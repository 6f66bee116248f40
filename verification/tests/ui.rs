use csw::filter::{Band, Design};
use csw::ui::{
    layout_for, Console, FilterFigures, HelpValues, HELP_HEAD, HELP_TAIL, BANNER, BULLET_CP437, ERASE_PAUSED, ERASE_START, METER_CELLS,
    PROMPT_PAUSED, PROMPT_START,
};

fn console() -> Console {
    Console::new(false)
}

#[test]
fn status_is_cp437() {
    let mut v = Vec::new();
    console().describe(&mut v, "x");
    assert_eq!(v, [0xFE, b' ', b'x', b'\n']);
}

#[test]
fn every_line_carries_its_own_framing() {
    let ui = console();
    let out = |f: &dyn Fn(&Console, &mut Vec<u8>)| {
        let mut v = Vec::new();
        f(&ui, &mut v);
        v
    };
    assert_eq!(
        out(&|u, v| u.checking_start(v, false)),
        b"\r\xfe Checking input file... ".to_vec()
    );
    assert_eq!(
        out(&|u, v| u.checking_completion(v, "ok!")),
        b"ok!\n".to_vec()
    );
    assert_eq!(
        out(&|u, v| u.writing_old_compression(v, 1)),
        b"* Writing CSW v1.01 with old compression method\n".to_vec()
    );
    assert_eq!(
        out(&|u, v| u.fatal(v, b"Wrong file type")),
        b"\rFATAL ERROR: Wrong file type\n\n".to_vec()
    );
    assert_eq!(
        out(&|u, v| u.fatal_block(v, b"one\ntwo")),
        b"FATAL ERROR: one\ntwo\n".to_vec()
    );
    assert_eq!(out(&|u, v| u.error(v, b"nope")), b"ERROR: nope\n".to_vec());
    assert_eq!(out(&|u, v| u.refused(v, "no")), b"\nno\n\n".to_vec());
    assert_eq!(out(&|u, v| u.warn_block(v, "hm")), b"\nhm\n".to_vec());
    assert_eq!(out(&|u, v| u.working(v)), b"* Working...".to_vec());
    assert_eq!(out(&|u, v| u.describe(v, "x")), b"\xfe x\n".to_vec());
}

#[test]
fn the_directmode_lines_carry_their_framing() {
    let ui = console();
    let mut v = Vec::new();
    ui.recording_cut_short(&mut v, "the disk filled");
    assert_eq!(
        v,
        b"WARNING: the recording ended early: the disk filled; keeping what was captured\n"
            .to_vec()
    );
    v.clear();
    ui.transient(&mut v, PROMPT_START);
    ui.transient(&mut v, ERASE_START);
    assert_eq!(
        v,
        b"* Press any key to start conversion when done with volume meter...\
          \r\t\t\t\t\t\t\t\t\t\r"
            .to_vec()
    );
    v.clear();
    ui.transient(&mut v, ERASE_PAUSED);
    ui.transient(&mut v, PROMPT_PAUSED);
    ui.transient(&mut v, ERASE_PAUSED);
    assert_eq!(
        v,
        b"\r\t\t\t\t\t\t\t\t\r* PAUSED, press any key to continue...\
          \r\t\t\t\t\t\t\t\t\r"
            .to_vec()
    );
    v.clear();
    ui.overrun(&mut v, 7);
    assert_eq!(
        v,
        b"WARNING: DMA buffer OVERRUN!!! Lost 7 samples\n".to_vec()
    );
    v.clear();
    ui.capture_rate(&mut v, 45454, 44100);
    assert_eq!(
        v,
        b"\xfe Sampling rate: 45454 Hz (rounded from: 44100 Hz).\n".to_vec()
    );
    v.clear();
    ui.capture_rate(&mut v, 8000, 8000);
    assert_eq!(
        v,
        b"\xfe Sampling rate: 8000 Hz (rounded from: 8000 Hz).\n".to_vec()
    );
}

#[test]
fn the_banner_is_fixed_text() {
    let mut v = Vec::new();
    console().banner(&mut v);
    assert!(v.starts_with(b"\n-=[ CSW v2.00 ]=-"));
    assert_eq!(
        BANNER.as_bytes(),
        &b"\n-=[ CSW v2.00 ]=-  Ramsoft's CSW converter, recreated (GPL v2.0+).\n\n"[..]
    );
}

#[test]
fn bullet_follows_the_destination() {
    let mut redirected_out = Vec::new();
    console().describe(&mut redirected_out, "x");
    assert_eq!(redirected_out[0], BULLET_CP437);

    let mut terminal = Vec::new();
    Console::new(true).describe(&mut terminal, "x");
    assert!(terminal.starts_with("\u{25A0}".as_bytes()), "{terminal:?}");
    assert!(!terminal.contains(&0xFE));
    assert!(terminal.ends_with(b" x\n"));
}

#[test]
fn the_layout_follows_the_window() {
    for (cols, expected) in [
        (None, (METER_CELLS, false)),
        (Some(0), (METER_CELLS, false)),
        (Some(1), (1, false)),
        (Some(79), (79, false)),
        (Some(80), (METER_CELLS, false)),
        (Some(92), (METER_CELLS, false)),
        (Some(93), (METER_CELLS, true)),
        (Some(200), (METER_CELLS, true)),
    ] {
        assert_eq!(layout_for(cols), expected, "at {cols:?} columns");
    }
}

#[test]
fn the_header_lines_of_a_decode() {
    let ui = console();
    let mut v = Vec::new();
    ui.total_samples(&mut v, 44100 * 61 + 5, 44100);
    assert_eq!(
        v,
        b"\xfe Total 2690105 samples, playing time 1:01.\n".to_vec()
    );
    let mut w = Vec::new();
    ui.writing(&mut w, "WAV", b"out.wav");
    assert_eq!(w, b"\xfe Writing WAV file 'out.wav'... done!\n".to_vec());
}

#[test]
fn the_sampling_rate_line_carries_the_split_playing_time() {
    let ui = console();
    let mut w = Vec::new();
    ui.sampling_rate(&mut w, 10000, 1, 999);
    assert_eq!(w, b"\xfe Sampling rate: 10000 Hz (playing time: 00:01.999)\n".to_vec());
    let mut w = Vec::new();
    ui.sampling_rate(&mut w, 44100, 3661, 7);
    assert_eq!(w, b"\xfe Sampling rate: 44100 Hz (playing time: 01:01:01.007)\n".to_vec());
}

#[test]
fn an_out_of_range_playing_time_prints_its_sentinel_fields() {
    let ui = console();
    let mut w = Vec::new();
    ui.sampling_rate(&mut w, 0, i32::MIN, i32::MIN);
    assert_eq!(
        w,
        b"\xfe Sampling rate: 0 Hz (playing time: -14:-8.-2147483648)\n".to_vec()
    );
    let mut w = Vec::new();
    ui.sampling_rate(&mut w, -8000, -1, -5);
    assert_eq!(w, b"\xfe Sampling rate: -8000 Hz (playing time: 00:-1.-05)\n".to_vec());
}

fn help_values(order: i32, band: i32, high: &str) -> HelpValues {
    HelpValues {
        order,
        band,
        design: 1,
        high_hz: high.to_string(),
        low_hz: "600".to_string(),
        ripple_db: "1".to_string(),
    }
}

/// The help screen of the default filter settings: order 2, band-pass,
/// Butterworth, 600-4100 Hz, 1 dB -- the figures as `%g` formats them.
fn default_help_values() -> HelpValues {
    help_values(2, 4, "4100")
}

#[test]
fn banner_and_help_are_fixed_text() {
    let ui = console();
    let mut v = Vec::new();
    ui.banner(&mut v);
    assert!(v.starts_with(b"\n-=[ CSW v2.00 ]=-"));
    v.clear();
    ui.help(&mut v, &default_help_values());
    assert!(v.ends_with(b"MakeTZX's manual.\n"));
    assert!(!v.contains(&b'\xFE'));
    assert_eq!(
        BANNER.as_bytes(),
        &b"\n-=[ CSW v2.00 ]=-  Ramsoft's CSW converter, recreated (GPL v2.0+).\n\n"[..]
    );
    assert!(HELP_HEAD.as_bytes().windows(2).any(|w| w == b"\n\n"));
    assert!(HELP_TAIL.ends_with("manual.\n"));
    assert!(HELP_HEAD.contains("Syntax : CSW [options] inputfile [outputfile]\n\n"));
    assert!(HELP_TAIL.contains("acceleration\n\nFor more info"));
}

#[test]
fn help_shows_the_filter_settings_in_force() {
    let mut v = Vec::new();
    console().help(&mut v, &help_values(4, 4, "300"));
    let s = String::from_utf8(v).unwrap();
    assert!(s.contains("order [4]"), "{s}");
    assert!(s.contains("[300"), "{s}");
    assert!(!s.contains("[4100"), "{s}");

    let mut v = Vec::new();
    console().help(&mut v, &help_values(2, -1, "4100"));
    let s = String::from_utf8(v).unwrap();
    assert!(s.contains("High-Pass) [-1]"), "{s}");
}

#[test]
fn every_help_line_carries_its_bracket() {
    let mut v = Vec::new();
    console().help(&mut v, &default_help_values());
    let s = String::from_utf8(v.clone()).unwrap();
    assert!(v.starts_with(HELP_HEAD.as_bytes()));
    assert!(s.contains("\t\t     o<n>: set filter order [2]\n"), "{s}");
    assert!(s.contains("(3=Low-Pass 4=Band-Pass 5=High-Pass) [4]\n"), "{s}");
    assert!(s.contains("set upper cutoff freq [4100 Hz]\n"), "{s}");
    assert!(s.contains("set lower cutoff freq [600 Hz]\n"), "{s}");
    assert!(s.contains("1=Butterworth 2=Chebyshev [1]\n"), "{s}");
    assert!(s.contains("set ripple (Chebyshev only) [1 dB]\n"), "{s}");
}

fn figures() -> FilterFigures {
    FilterFigures {
        low_whole: "601".to_string(),
        high_whole: "4100".to_string(),
        low_cents: "600.50".to_string(),
        high_cents: "4100.00".to_string(),
        ripple_cents: "1.00".to_string(),
    }
}

#[test]
fn the_filter_line_quotes_the_figures_its_band_bounds() {
    let ui = console();
    let line = |order: i32, band: Band, design: Design| {
        let mut w = Vec::new();
        ui.digital_filter(&mut w, order, band, design, &figures());
        String::from_utf8(w[2..].to_vec()).unwrap()
    };
    assert_eq!(
        line(2, Band::BandPass, Design::Butterworth),
        "Digital filter: Butterworth band-pass 601-4100 Hz, order 2\n"
    );
    assert_eq!(
        line(3, Band::BandPass, Design::Chebyshev),
        "Digital filter: Chebyshev band-pass 601-4100 Hz, order 4, ripple 1.00\n"
    );
    assert_eq!(
        line(3, Band::LowPass, Design::Other(7)),
        "Digital filter: Chebyshev low-pass 4100.00 Hz, order 3\n"
    );
    assert_eq!(
        line(99, Band::HighPass, Design::Butterworth),
        "Digital filter: Butterworth high-pass 600.50 Hz, order 16\n"
    );
    assert_eq!(
        line(0, Band::Unknown(9), Design::Butterworth),
        "Digital filter: Butterworth ??? , order 1\n"
    );
}

#[test]
fn completed_line_closes_a_decode() {
    let mut v = Vec::new();
    console().completed(&mut v, "1.00");
    assert!(v.starts_with(b"* Completed, conversion rate:"));
    assert_eq!(v, b"* Completed, conversion rate: 1.00 KBps.\n".to_vec());
}

#[test]
fn the_seconds_and_the_milliseconds_truncate_separately() {
    // 19996 samples at 10000 Hz: 1.9996 s, whole seconds 1 and 999 ms.
    let mut v = Vec::new();
    console().sampling_rate(&mut v, 10000, 1, 999);
    assert!(v.ends_with(b"(playing time: 00:01.999)\n"));
}

#[test]
fn a_rate_of_zero_prints_the_out_of_range_sentinel() {
    // A rate of 0: both conversions are out of range and read i32::MIN.
    let mut v = Vec::new();
    console().sampling_rate(&mut v, 0, i32::MIN, i32::MIN);
    assert!(v.ends_with(b"(playing time: -14:-8.-2147483648)\n"));
}

#[test]
fn a_recording_has_no_ratio_to_print() {
    let mut v = Vec::new();
    console().packed(&mut v, 120, 7, 0, "NaN", "inf");
    assert_eq!(
        v,
        b"\r* Packed size: 120 bytes (7 pulses), compression ratio: -Inf% (0:1)\n\n".to_vec()
    );
    let mut v = Vec::new();
    console().packed(&mut v, 100, 7, 400, "75.00", "4");
    assert_eq!(
        v,
        b"\r* Packed size: 100 bytes (7 pulses), compression ratio: 75.00% (4:1)\n\n".to_vec()
    );
}
