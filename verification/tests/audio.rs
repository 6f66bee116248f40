use csw::audio::Format;

#[test]
fn format_display_matches_rust_type_names() {
    assert_eq!(Format::I16.name(), "i16");
    assert_eq!(Format::F32.name(), "f32");
    assert_eq!(Format::U8.name(), "u8");
}

#[test]
fn rank_prefers_lossless_conversions() {
    let mut all = [
        Format::U8,
        Format::I8,
        Format::I16,
        Format::U16,
        Format::I32,
        Format::F32,
        Format::F64,
    ];
    all.sort_by_key(|f| f.rank());
    assert_eq!(all[0], Format::F32);
    assert_eq!(all[1], Format::I16);
    assert_eq!(*all.last().unwrap(), Format::U8);
}

#[test]
fn every_format_has_its_own_rank() {
    let all = [
        Format::U8,
        Format::I8,
        Format::I16,
        Format::U16,
        Format::I32,
        Format::F32,
        Format::F64,
    ];
    for (i, a) in all.iter().enumerate() {
        for b in &all[i + 1..] {
            assert_ne!(a.rank(), b.rank(), "{a:?} and {b:?}");
        }
    }
}
