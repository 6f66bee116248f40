use csw::container::{Compression, SIGNATURE};
use csw::signal::Pulses;
use csw::ui::Console;
use csw::convert::{output_compression, writes_plain_rle, DecodeTarget, Settings};
use csw::error::Error;
use csw::naming::{
    decode_output_name, exit_code, first_csw_candidate, is_input, keep_file_name, message_bytes,
    not_found, output_name, report_failure, second_csw_candidate, csw_not_found, weigh_csw_candidate,
};

fn name(bytes: Vec<u8>) -> String {
    String::from_utf8(bytes).expect("the names here are text")
}

#[test]
fn a_keep_file_is_the_output_name_less_four_bytes_and_wav() {
    assert_eq!(name(keep_file_name(b"tape.csw")), "tape.wav");
    assert_eq!(name(keep_file_name(b"t.cs")), ".wav");
    assert_eq!(name(keep_file_name(b"QQ.Z")), ".wav");
    assert_eq!(name(keep_file_name(b"O4.WA")), "O.wav");
    assert_eq!(name(keep_file_name(b"Q.Z")), "Q.Z.wav");
    assert_eq!(name(keep_file_name(b"Q.")), "Q..wav");
    assert_eq!(name(keep_file_name(b".Z")), ".Z.wav");
}

#[test]
fn a_decode_output_name_comes_from_the_name_as_typed() {
    let wav = DecodeTarget::Wav;
    assert_eq!(name(decode_output_name(None, b"t.abc", wav)), "t.wav");
    assert_eq!(name(decode_output_name(None, b"CV1.CSW", wav)), "CV1.wav");
    assert_eq!(name(decode_output_name(None, b"bare", wav)), "bare.wav");
    assert_eq!(name(decode_output_name(None, b"A.B/CV1.CSW", wav)), "A.wav");

    let voc = DecodeTarget::Voc;
    assert_eq!(name(decode_output_name(None, b"CV1.CSW", voc)), "CV1.voc");

    assert_eq!(
        name(decode_output_name(Some(b"out"), b"t.abc", wav)),
        "out.wav"
    );
    assert_eq!(
        name(decode_output_name(Some(b"out.txt"), b"t.abc", wav)),
        "out.txt"
    );
    assert_eq!(
        name(decode_output_name(Some(b"out"), b"t.abc", voc)),
        "out.voc"
    );
}

#[test]
fn a_given_output_name_gains_an_extension_only_when_it_has_no_dot() {
    assert_eq!(name(output_name(Some(b"out"), b"in.wav", "csw")), "out.csw");
    assert_eq!(
        name(output_name(Some(b"out.txt"), b"in.wav", "csw")),
        "out.txt"
    );
    assert_eq!(
        name(output_name(Some(b"SUB/OUT"), b"in.wav", "csw")),
        "SUB/OUT.csw"
    );
    assert_eq!(
        name(output_name(Some(b"A.B/OUT"), b"in.wav", "csw")),
        "A.B/OUT"
    );
    assert_eq!(name(output_name(None, b"A.B/W8.WAV", "csw")), "A.csw");
}

#[test]
fn a_name_that_is_not_text_keeps_its_bytes() {
    assert_eq!(
        decode_output_name(None, b"t\xe1.csw", DecodeTarget::Wav).as_slice(),
        &b"t\xe1.wav"[..]
    );
    assert_eq!(
        output_name(None, b"re\xffc.dat", "csw").as_slice(),
        &b"re\xffc.csw"[..]
    );
    assert_eq!(
        output_name(Some(b"o\x8e"), b"in.wav", "csw").as_slice(),
        &b"o\x8e.csw"[..]
    );
    assert_eq!(keep_file_name(b"ta\xe1.csw").as_slice(), &b"ta\xe1.wav"[..]);
}

#[test]
fn a_v1_file_is_plain_rle_and_a_v2_file_is_z_rle_unless_asked_not_to() {
    for (version, old_compression, plain) in [
        (1u8, false, true),
        (1, true, true),
        (2, false, false),
        (2, true, true),
    ] {
        let settings = Settings {
            csw_version: version,
            old_compression,
        };
        assert_eq!(writes_plain_rle(&settings), plain);
        assert_eq!(
            output_compression(&settings),
            if plain {
                Compression::Rle
            } else {
                Compression::ZRle
            }
        );
    }
}

#[test]
fn a_dotless_name_is_tried_with_csw_twice() {
    let first = first_csw_candidate(b"tape");
    assert_eq!(name(first.clone()), "tape.csw");
    assert_eq!(name(second_csw_candidate(&first)), "tape.csw.csw");
    let dotted = first_csw_candidate(b"out.wav");
    assert_eq!(name(dotted.clone()), "out.wav");
    assert_eq!(name(second_csw_candidate(&dotted)), "out.wav.csw");
}

#[test]
fn an_input_not_found_names_the_second_candidate_and_exits_254() {
    let e = not_found(b"out.wav.csw");
    assert!(is_input(&e));
    assert_eq!(exit_code(&e), 254);
    assert_eq!(
        message_bytes(&e),
        b"Input file 'out.wav.csw' not found or invalid file type.".to_vec()
    );
}

#[test]
fn a_silent_abandon_exits_255_and_a_format_error_exits_1() {
    assert_eq!(exit_code(&Error::Silent(String::from("x"))), 255);
    let f = Error::Format(String::from("bad"));
    assert_eq!(exit_code(&f), 1);
    assert!(!is_input(&f));
    assert_eq!(message_bytes(&f), b"bad".to_vec());
}

#[test]
fn the_first_malformed_csw_keeps_its_error_and_others_leave_it() {
    // Unreadable and not a CSW at all: nothing to report but "not found".
    let left = match weigh_csw_candidate(None, None) {
        Err(m) => m,
        Ok(_) => panic!("no bytes hold no header"),
    };
    assert!(left.is_none());
    let left = match weigh_csw_candidate(Some(b"RIFF...."), left) {
        Err(m) => m,
        Ok(_) => panic!("a WAV holds no CSW header"),
    };
    assert!(left.is_none());
    match csw_not_found(left, b"x.wav.csw") {
        Error::Input(m, 254) => {
            assert_eq!(m.as_bytes(), b"Input file 'x.wav.csw' not found or invalid file type.")
        }
        other => panic!("{other:?}"),
    }
    // The signature and too few bytes after it: a malformed CSW.
    let mut cut = SIGNATURE.to_vec();
    cut.push(0x1A);
    let left = match weigh_csw_candidate(Some(&cut), None) {
        Err(m) => m,
        Ok(_) => panic!("a cut header holds no header"),
    };
    assert!(matches!(left, Some(Error::Silent(_))));
    // A later file that is no CSW does not replace it.
    let left = match weigh_csw_candidate(Some(b"junk"), left) {
        Err(m) => m,
        Ok(_) => panic!("junk holds no header"),
    };
    assert!(matches!(csw_not_found(left, b"x.csw"), Error::Silent(_)));
}

#[test]
fn a_candidate_holding_a_header_is_taken() {
    let p = Pulses::new(44100, vec![3, 5], true);
    let raw = csw::container::write(&p, 2, Compression::Rle, "csw", |_: &[u8]| {
        Err(Error::Format(String::new()))
    })
    .unwrap();
    match weigh_csw_candidate(Some(&raw), None) {
        Ok(info) => {
            assert_eq!(info.major, 2);
            assert_eq!(info.rate, 44100);
        }
        Err(_) => panic!("a written CSW holds its header"),
    }
}

#[test]
fn each_failure_prints_in_its_own_framing() {
    let ui = Console::new(false);
    let lines = |e: &Error| {
        let mut w = Vec::new();
        report_failure(&ui, e, &mut w);
        w
    };
    assert_eq!(lines(&Error::Rejected("bad!".into(), 3)), b"bad!\n".to_vec());
    assert_eq!(
        lines(&Error::CheckedFatal("bad size!".into(), "corrupt".into())),
        b"bad size!\n\rFATAL ERROR: corrupt\n\n".to_vec()
    );
    assert_eq!(lines(&Error::Silent("gone".into())), Vec::<u8>::new());
    assert_eq!(lines(&Error::Refused("no".into())), b"\nno\n\n".to_vec());
    assert_eq!(
        lines(&not_found(b"a.csw")),
        b"ERROR: Input file 'a.csw' not found or invalid file type.\n".to_vec()
    );
    assert_eq!(
        lines(&Error::Unsupported("nope".into())),
        b"\rFATAL ERROR: nope\n\n".to_vec()
    );
}

#[test]
fn a_dotless_input_is_tried_with_each_extension_in_turn() {
    let asked = std::cell::RefCell::new(Vec::new());
    let r = csw::naming::resolve_input_name(b"tape", |c: &[u8]| {
        asked.borrow_mut().push(c.to_vec());
        c == b"tape.iff"
    });
    assert_eq!(r, b"tape.iff".to_vec());
    assert_eq!(asked.into_inner(), vec![b"tape.voc".to_vec(), b"tape.wav".to_vec(), b"tape.iff".to_vec()]);
    assert_eq!(csw::naming::resolve_input_name(b"tape", |_: &[u8]| false), b"tape.out".to_vec());
    assert_eq!(csw::naming::resolve_input_name(b"t.wav", |_: &[u8]| false), b"t.wav".to_vec());
    assert_eq!(csw::naming::resolve_input_name(b"a.b/tape", |_: &[u8]| true), b"a.b/tape".to_vec());
}
