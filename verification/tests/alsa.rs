use csw::alsa::{
    best_format, channel_count, ioc, period_frames, DIR_NONE, DIR_READ, DIR_WRITE, HW_PARAMS_SIZE, INT_SIZE, parse_device, parse_pcm_name, rate_candidates, Interval, Mask, DROP,
    FORMAT_FLOAT_LE, FORMAT_S16_LE, FORMAT_S32_LE, FORMAT_U8, HW_PARAMS, HW_REFINE, INFO,
    INTERVAL_INTEGER, INTERVAL_OPENMAX, INTERVAL_OPENMIN, PREPARE, PVERSION, READI_FRAMES, START,
    SW_PARAMS,
};
use csw::audio::{Format, OpenSpec};

#[test]
fn ioctl_numbers_match_the_kernel_headers() {
    assert_eq!(PVERSION, 0x8004_4100);
    assert_eq!(INFO, 0x8120_4101);
    assert_eq!(HW_REFINE, 0xC260_4110);
    assert_eq!(HW_PARAMS, 0xC260_4111);
    assert_eq!(SW_PARAMS, 0xC088_4113);
    assert_eq!(PREPARE, 0x0000_4140);
    assert_eq!(START, 0x0000_4142);
    assert_eq!(DROP, 0x0000_4143);
    assert_eq!(READI_FRAMES, 0x8018_4151);
    assert_eq!(ioc(DIR_READ, 0x00, INT_SIZE), PVERSION);
    assert_eq!(ioc(DIR_READ | DIR_WRITE, 0x11, HW_PARAMS_SIZE), HW_PARAMS);
    assert_eq!(ioc(DIR_NONE, 0x40, 0), PREPARE);
}

#[test]
fn pcm_names_are_read_as_card_and_device() {
    assert_eq!(parse_pcm_name("pcmC0D0c"), Some((0, 0)));
    assert_eq!(parse_pcm_name("pcmC12D3c"), Some((12, 3)));
    assert_eq!(parse_pcm_name("pcmC0D0p"), None);
    assert_eq!(parse_pcm_name("controlC0"), None);
    assert_eq!(parse_pcm_name("timer"), None);
    assert_eq!(parse_pcm_name("pcmC0D0"), None);
}

#[test]
fn device_overrides_are_accepted_in_every_spelling() {
    let want = String::from("/dev/snd/pcmC1D0c");
    assert_eq!(parse_device("hw:1,0").as_ref(), Some(&want));
    assert_eq!(parse_device("1,0").as_ref(), Some(&want));
    assert_eq!(parse_device("1").as_ref(), Some(&want));
    assert_eq!(parse_device(" hw:1, 0 ").as_ref(), Some(&want));
    assert_eq!(
        parse_device("/dev/snd/pcmC9D9c"),
        Some(String::from("/dev/snd/pcmC9D9c"))
    );
    assert_eq!(parse_device("hw:CARD=PCH,DEV=0"), None);
    assert_eq!(parse_device("default"), None);
}

#[test]
fn open_bounds_narrow_an_interval() {
    let closed = Interval {
        min: 8_000,
        max: 48_000,
        flags: 0,
    };
    assert!(closed.contains(8_000));
    assert!(closed.contains(48_000));
    assert!(!closed.contains(7_999));
    assert!(!closed.contains(48_001));

    let open = Interval {
        min: 8_000,
        max: 48_000,
        flags: INTERVAL_OPENMIN | INTERVAL_OPENMAX,
    };
    assert!(!open.contains(8_000));
    assert!(!open.contains(48_000));
    assert!(open.contains(8_001));
    assert!(open.contains(47_999));
}

#[test]
fn a_single_valued_mask_holds_only_that_value() {
    let mut mask = Mask::any();
    mask.set_single(FORMAT_S32_LE);
    assert!(mask.test(FORMAT_S32_LE));
    assert!(!mask.test(FORMAT_S16_LE));
    let mut wide = Mask::any();
    wide.set_single(40);
    assert!(wide.test(40));
    assert!(!wide.test(8));
}

fn offering(formats: &[u32]) -> Mask {
    let mut m = Mask { bits: [0; 8] };
    for &f in formats {
        m.bits[(f / 32) as usize] |= 1 << (f % 32);
    }
    m
}

#[test]
fn the_best_format_on_offer_wins() {
    assert_eq!(
        best_format(&offering(&[FORMAT_U8, FORMAT_S16_LE, FORMAT_FLOAT_LE])),
        Some(Format::F32)
    );
    assert_eq!(
        best_format(&offering(&[FORMAT_S32_LE, FORMAT_S16_LE])),
        Some(Format::I16)
    );
    assert_eq!(best_format(&offering(&[FORMAT_S32_LE])), Some(Format::I32));
    assert_eq!(best_format(&offering(&[])), None);
    assert_eq!(best_format(&offering(&[6, 7])), None);
}

#[test]
fn the_requested_rate_is_tried_first_and_impossible_ones_never() {
    let spec = OpenSpec {
        rate: 32_258,
        device_compat: false,
    };
    let wide = Interval {
        min: 8_000,
        max: 192_000,
        flags: 0,
    };
    let candidates = rate_candidates(&spec, &wide);
    assert_eq!(candidates[0], 32_258);
    assert_eq!(candidates[1], 48_000);

    let fixed = Interval {
        min: 48_000,
        max: 48_000,
        flags: INTERVAL_INTEGER,
    };
    assert_eq!(rate_candidates(&spec, &fixed), vec![48_000]);
}

#[test]
fn compat_does_not_ask_for_directmodes_rate() {
    let spec = OpenSpec {
        rate: 32_258,
        device_compat: true,
    };
    let wide = Interval {
        min: 8_000,
        max: 192_000,
        flags: 0,
    };
    let candidates = rate_candidates(&spec, &wide);
    assert_eq!(candidates[0], 48_000);
    assert!(!candidates.contains(&32_258));
}

#[test]
fn a_pinned_interval_settles_on_its_value() {
    let mut i = Interval::any();
    assert!(i.contains(0) && i.contains(u32::MAX));
    i.set_single(44_100);
    assert_eq!(i.settled(), 44_100);
    assert!(i.contains(44_100));
    assert!(!i.contains(44_101));
}

#[test]
fn mono_is_asked_for_when_offered_else_the_fewest_channels() {
    let any = Interval { min: 1, max: 8, flags: 0 };
    assert_eq!(channel_count(&any), 1);
    let stereo_up = Interval { min: 2, max: 8, flags: 0 };
    assert_eq!(channel_count(&stereo_up), 2);
    let open_one = Interval { min: 1, max: 8, flags: INTERVAL_OPENMIN };
    assert_eq!(channel_count(&open_one), 1);
    let none = Interval { min: 0, max: 0, flags: 0 };
    assert_eq!(channel_count(&none), 1);
}

#[test]
fn the_period_is_twenty_milliseconds_of_frames() {
    assert_eq!(period_frames(48_000), 960);
    assert_eq!(period_frames(32_258), 645);
    assert_eq!(period_frames(10), 1);
    assert_eq!(period_frames(0), 1);
}
