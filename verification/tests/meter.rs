use csw::ui::{
    bar, Console, CLIP_COLOUR, EMPTY_COLOUR, HIDE_CURSOR, LEVEL_COLOUR, METER_CELLS, METER_LINES,
    PROMPT_START, SHOW_CURSOR,
};

fn console() -> Console {
    Console::new(false)
}

/// Cells filled in `colour` on one meter line.
fn filled(line: &str, colour: &str) -> usize {
    line.split(colour)
        .nth(1)
        .and_then(|rest| rest.split('\u{1b}').next())
        .map_or(0, |run| run.chars().filter(|&c| c == '\u{25A0}').count())
}

#[test]
fn the_meter_block_reanchors_after_every_newline() {
    let mut blocks: Vec<Vec<u8>> = Vec::new();
    for (bars, readouts) in [
        (Some((39usize, 20usize)), None),
        (Some((39, 20)), Some(("-6.0 dB", "25.0% clip"))),
        (None, None),
    ] {
        let mut v = Vec::new();
        console().meter_frame(&mut v, PROMPT_START, bars, readouts, METER_CELLS, Some((1, 48000)));
        blocks.push(v);
    }
    let mut v = Vec::new();
    console().clear_transient(&mut v);
    blocks.push(v);
    for bytes in blocks {
        let head = bytes.strip_prefix(HIDE_CURSOR.as_bytes()).unwrap_or(&bytes);
        assert_eq!(head.first(), Some(&b'\r'), "block does not re-anchor before its first glyph");
        for (i, pair) in bytes.windows(2).enumerate() {
            if pair[0] == b'\n' {
                assert_eq!(pair[1], b'\r', "newline at {i} does not re-anchor");
            }
        }
    }
}

#[test]
fn meter_bars_are_printable_on_a_utf8_terminal() {
    let mut v = Vec::new();
    console().meter_frame(&mut v, "", Some((39, 0)), None, METER_CELLS, None);
    let s = std::str::from_utf8(&v).expect("meter is UTF-8");
    assert!(s.contains('\u{25A0}'), "no cells: {s:?}");
    let line = s.split('\n').nth(1).unwrap();
    assert_eq!(filled(line, LEVEL_COLOUR), 39, "{line:?}");
    assert_eq!(filled(line, EMPTY_COLOUR), METER_CELLS - 39, "{line:?}");
}

#[test]
fn a_wide_window_gets_the_readouts() {
    let mut v = Vec::new();
    console().meter_frame(
        &mut v,
        "",
        Some((39, 20)),
        Some(("-6.0 dB", "25.0% clip")),
        METER_CELLS,
        None,
    );
    let wide = String::from_utf8(v).unwrap();
    assert!(wide.contains("     -6.0 dB"), "no level readout: {wide:?}");
    assert!(wide.contains("  25.0% clip"), "no clipping readout: {wide:?}");
    let mut v = Vec::new();
    console().meter_frame(&mut v, "", Some((39, 20)), None, METER_CELLS, None);
    let narrow = String::from_utf8(v).unwrap();
    assert!(!narrow.contains(" dB"), "readout on a narrow window");
}

#[test]
fn blank_bars_keep_the_block() {
    let mut v = Vec::new();
    console().meter_frame(&mut v, "", None, None, METER_CELLS, Some((1, 48000)));
    let s = String::from_utf8(v).unwrap();
    assert!(!s.contains('\u{25A0}'), "bars drawn when blanked: {s:?}");
    assert_eq!(s.matches('\n').count(), METER_LINES - 1);
    assert!(s.contains(" 00:01  48000 samples"), "{s:?}");
}

#[test]
fn a_bar_never_runs_past_its_width() {
    let mut v = Vec::new();
    bar(&mut v, 500, 10, CLIP_COLOUR);
    let s = String::from_utf8(v).unwrap();
    assert_eq!(filled(&s, CLIP_COLOUR), 10);
    assert_eq!(s.matches('\u{25A0}').count(), 10);
}

#[test]
fn clearing_the_block_shows_the_cursor_again() {
    let mut v = Vec::new();
    console().clear_transient(&mut v);
    assert!(v.ends_with(SHOW_CURSOR.as_bytes()));
    assert_eq!(v.iter().filter(|&&b| b == b'\n').count(), METER_LINES - 1);
}

#[test]
fn the_limit_truncates_where_the_closing_line_rounds() {
    let ui = console();
    let mut v = Vec::new();
    ui.max_recording_time(&mut v, 2.5f64 as i64, 80645);
    assert_eq!(v, b"\xfe Max recording time is 00:02 (80645 bytes).\n".to_vec());
    v.clear();
    ui.recorded(&mut v, 80645, (2.5f64 + 0.5) as i64);
    assert_eq!(v, b"\xfe Recorded 80645 samples in 00:03\n".to_vec());
    v.clear();
    ui.max_recording_time(&mut v, 31.855f64 as i64, 1027605);
    assert_eq!(v, b"\xfe Max recording time is 00:31 (1027605 bytes).\n".to_vec());
    v.clear();
    ui.recorded(&mut v, 116128800, (3600.0f64 + 0.5) as i64);
    assert_eq!(v, b"\xfe Recorded 116128800 samples in 01:00:00\n".to_vec());
}
