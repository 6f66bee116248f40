//! The decisions a conversion makes between its console lines: which reader
//! an input gets, which container a CSW is written in, what a decode
//! writes, and the text of the lines that are not the console's own.

use vstd::prelude::*;
use vstd::string::StringSliceAdditionalSpecFns;
use vstd::utf8::{decode_utf8, encode_utf8, valid_utf8};

use crate::container::{Compression, CswInfo};
use crate::error::{Error, Msg};
use crate::signal::{declared_samples, survey, surveyed_samples, Pulses};
use crate::source::Layout;
use crate::ui::{bullet_of, csw_app_text, csw_header_text, status_line, total_text, Console};
use crate::detect::{finished, stage_rank, READ_LIMIT};
use crate::encode::{
    encode, encoded, encoder_start, probe, probe_passes, run_fault_reported, Conditioned, RunFault,
};
use crate::voc::fault_reported;
use crate::{container, iff, out, voc, wav};
use crate::text::{
    decimal, lemma_concat_valid, lemma_decimal_valid, lemma_str_valid, padded, push_bytes,
    push_decimal, push_padded, push_str, text,
};

verus! {

/// The rate an OUT trace is rendered at: 65000 Hz is stamped in the CSW.
pub const OUT_RATE: u32 = 65000;

/// Encoding-application field, written into a CSW v2 header and nowhere
/// else: a `-1` file has no such field, and neither has a decode's WAV or VOC.
pub const APP_NAME: &'static str = "CSW v2.00";

/// What a decode writes.
#[derive(Debug, Clone, Copy, PartialEq, Eq, Structural)]
pub enum DecodeTarget {
    Wav,
    Voc,
}

/// The switches a conversion's container depends on.
#[derive(Debug, Clone, Copy, PartialEq, Eq, Structural)]
pub struct Settings {
    /// CSW container version to write: 2 (default) or 1 (`-1`).
    pub csw_version: u8,
    /// `-z`: plain RLE, the "old compression method", in place of Z-RLE. A
    /// v1 file (`-1`) is plain RLE regardless.
    pub old_compression: bool,
}

impl Default for Settings {
    /// CSW v2, Z-RLE: the command line with no switches.
    fn default() -> (s: Settings)
        ensures
            s.csw_version == 2,
            !s.old_compression,
    {
        Settings { csw_version: 2, old_compression: false }
    }
}

/// Whether the written CSW uses the "old compression method" (plain RLE):
/// `-z` selects it, and `-1` (v1) has only plain RLE to write.
pub fn writes_plain_rle(settings: &Settings) -> (r: bool)
    ensures
        r == (settings.old_compression || settings.csw_version == 1),
{
    settings.old_compression || settings.csw_version == 1
}

/// Whether the pulses go down the Z-RLE path: the default, and the one whose
/// writer frame zeroes the detector's stale candidate between calls. `-z`
/// and `-1` take the other.
pub fn zrle_output(settings: &Settings) -> (r: bool)
    ensures
        r == !(settings.old_compression || settings.csw_version == 1),
{
    !writes_plain_rle(settings)
}

/// The compression a CSW is written with.
pub fn output_compression(settings: &Settings) -> (c: Compression)
    ensures
        c == if settings.old_compression || settings.csw_version == 1 {
            Compression::Rle
        } else {
            Compression::ZRle
        },
{
    if writes_plain_rle(settings) {
        Compression::Rle
    } else {
        Compression::ZRle
    }
}

/// A clock field: two digits at least, a negative one as its sign and
/// digits.
pub open spec fn field2(n: int) -> Seq<u8> {
    if n < 0 {
        seq![45u8] + decimal((-n) as nat)
    } else {
        padded(n as nat, 2)
    }
}

/// `x`, negated when `neg`.
pub open spec fn signed(neg: bool, x: int) -> int {
    if neg {
        -x
    } else {
        x
    }
}

/// "MM:SS", or "HH:MM:SS" from the first hour, the fields taken by
/// division truncated toward zero.
pub open spec fn clock_text(whole: int) -> Seq<u8> {
    let mag = if whole < 0 {
        -whole
    } else {
        whole
    };
    let h = signed(whole < 0, mag / 3600);
    let m = signed(whole < 0, (mag / 60) % 60);
    let s = signed(whole < 0, mag % 60);
    if h > 0 {
        field2(h) + seq![58u8] + field2(m) + seq![58u8] + field2(s)
    } else {
        field2(m) + seq![58u8] + field2(s)
    }
}

proof fn lemma_field2_valid(n: int)
    ensures
        valid_utf8(field2(n)),
{
    crate::text::lemma_decimal_ascii(if n < 0 {
        (-n) as nat
    } else {
        n as nat
    });
    assert(crate::text::is_ascii_bytes(field2(n))) by {
        crate::text::lemma_decimal_ascii(n as nat);
    }
    crate::text::lemma_ascii_valid_utf8(field2(n));
}

/// Append one clock field (see [`field2`]).
fn push_field2(out: &mut Vec<u8>, neg: bool, mag: u64)
    ensures
        final(out)@ == old(out)@ + field2(signed(neg, mag as int)),
{
    if neg && mag > 0 {
        out.push(45u8);
        push_decimal(out, mag);
        proof {
            assert(final(out)@ =~= old(out)@ + field2(-(mag as int)));
        }
    } else {
        push_padded(out, mag, 2);
    }
}

/// Append the clock of `whole` seconds (see [`clock_text`]).
pub fn push_clock(out: &mut Vec<u8>, whole: i64)
    ensures
        final(out)@ == old(out)@ + clock_text(whole as int),
{
    let ghost start = out@;
    let neg = whole < 0;
    let mag: u64 = if whole == i64::MIN {
        0x8000_0000_0000_0000
    } else if neg {
        (-whole) as u64
    } else {
        whole as u64
    };
    let h = mag / 3600;
    let m = (mag / 60) % 60;
    let sec = mag % 60;
    if !neg && h > 0 {
        push_field2(out, neg, h);
        out.push(58u8);
    }
    push_field2(out, neg, m);
    out.push(58u8);
    push_field2(out, neg, sec);
    proof {
        let mg = if whole < 0 {
            -(whole as int)
        } else {
            whole as int
        };
        assert(mg == mag);
        assert(out@ =~= start + clock_text(whole as int));
    }
}

/// "MM:SS", or "HH:MM:SS" from the first hour (see [`clock_text`]).
pub fn clock(whole: i64) -> (s: String)
    ensures
        s@ == decode_utf8(clock_text(whole as int)),
{
    let mut v: Vec<u8> = Vec::new();
    push_clock(&mut v, whole);
    proof {
        assert(v@ =~= clock_text(whole as int));
        lemma_clock_valid(whole as int);
    }
    text(v)
}

/// The description line of an OUT trace: its playing time, from its 32-bit
/// T-state total at 3.5 MHz, and its count of writes to port 0xFE.
pub open spec fn out_description_text(t_total: u32, described: nat) -> Seq<u8> {
    "Z80 emulation trace file (OUT), playing time: ".spec_bytes() + clock_text(
        (t_total / 3_500_000) as int,
    ) + " (".spec_bytes() + decimal(described) + " pulses)".spec_bytes()
}

proof fn lemma_clock_valid(whole: int)
    ensures
        valid_utf8(clock_text(whole)),
{
    let mag = if whole < 0 {
        -whole
    } else {
        whole
    };
    let h = signed(whole < 0, mag / 3600);
    let m = signed(whole < 0, (mag / 60) % 60);
    let s = signed(whole < 0, mag % 60);
    lemma_field2_valid(h);
    lemma_field2_valid(m);
    lemma_field2_valid(s);
    assert(crate::text::is_ascii_bytes(seq![58u8]));
    crate::text::lemma_ascii_valid_utf8(seq![58u8]);
    lemma_concat_valid(field2(m), seq![58u8]);
    lemma_concat_valid(field2(m) + seq![58u8], field2(s));
    lemma_concat_valid(field2(h), seq![58u8]);
    lemma_concat_valid(field2(h) + seq![58u8], field2(m));
    lemma_concat_valid(field2(h) + seq![58u8] + field2(m), seq![58u8]);
    lemma_concat_valid(field2(h) + seq![58u8] + field2(m) + seq![58u8], field2(s));
}

/// The description line of a trace is well-formed text.
proof fn lemma_out_description_valid(t_total: u32, described: nat)
    ensures
        valid_utf8(out_description_text(t_total, described)),
{
    let ct = clock_text((t_total / 3_500_000) as int);
    lemma_clock_valid((t_total / 3_500_000) as int);
    lemma_str_valid("Z80 emulation trace file (OUT), playing time: ");
    lemma_str_valid(" (");
    lemma_str_valid(" pulses)");
    lemma_decimal_valid(described);
    let a = "Z80 emulation trace file (OUT), playing time: ".spec_bytes();
    lemma_concat_valid(a, ct);
    lemma_concat_valid(a + ct, " (".spec_bytes());
    lemma_concat_valid(a + ct + " (".spec_bytes(), decimal(described));
    lemma_concat_valid(a + ct + " (".spec_bytes() + decimal(described), " pulses)".spec_bytes());
}

/// The description line of an OUT trace (see [`out_description_text`]).
pub fn out_description(t_total: u32, described: u64) -> (s: String)
    ensures
        s@ == decode_utf8(out_description_text(t_total, described as nat)),
{
    let c = clock((t_total / 3_500_000) as i64);
    let cs = c.as_str();
    let mut v: Vec<u8> = Vec::new();
    push_str(&mut v, "Z80 emulation trace file (OUT), playing time: ");
    push_str(&mut v, cs);
    push_str(&mut v, " (");
    push_decimal(&mut v, described);
    push_str(&mut v, " pulses)");
    proof {
        let ct = clock_text((t_total / 3_500_000) as int);
        lemma_clock_valid((t_total / 3_500_000) as int);
        vstd::utf8::decode_utf8_encode_utf8(ct);
        assert(cs.spec_bytes() == ct);
        assert(v@ =~= out_description_text(t_total, described as nat));
        lemma_out_description_valid(t_total, described as nat);
    }
    text(v)
}

/// The advice for an OUT trace with no write to port 0xFE, quoting the name
/// as typed.
pub open spec fn useless_text(shown: Seq<u8>) -> Seq<u8> {
    "The specified .OUT file (\"".spec_bytes() + shown + "\") is useless.\nPlease make sure that the emulator is correctly configured to log OUTs\nto port 0xFE (254 decimal) and then generate a new .OUT file.".spec_bytes()
}

/// A trace with nothing to convert: the advice goes *after* the
/// description line, as a fatal block.
pub fn useless_out(shown: &[u8]) -> (e: Error)
    ensures
        e matches Error::FatalBlock(m) && m.bytes() == useless_text(shown@),
{
    let mut v: Vec<u8> = Vec::new();
    push_str(&mut v, "The specified .OUT file (\"");
    push_bytes(&mut v, shown);
    push_str(&mut v, "\") is useless.\nPlease make sure that the emulator is correctly configured to log OUTs\nto port 0xFE (254 decimal) and then generate a new .OUT file.");
    Error::FatalBlock(Msg::from_bytes(v))
}

/// The reader an input gets, chosen by what the file opens with.
#[derive(Debug, Clone, Copy, PartialEq, Eq, Structural)]
pub enum InputKind {
    Voc,
    Iff,
    Wav,
}

/// Whether `data` opens with `prefix`.
pub open spec fn opens_with(data: Seq<u8>, prefix: Seq<u8>) -> bool {
    prefix.len() <= data.len() && data.take(prefix.len() as int) == prefix
}

fn starts_with(data: &[u8], prefix: &[u8]) -> (r: bool)
    ensures
        r == opens_with(data@, prefix@),
{
    if prefix.len() > data.len() {
        return false;
    }
    let mut i: usize = 0;
    while i < prefix.len()
        invariant
            i <= prefix@.len() <= data@.len(),
            forall|k: int| 0 <= k < i ==> data@[k] == prefix@[k],
        decreases prefix@.len() - i,
    {
        if data[i] != prefix[i] {
            proof {
                assert(data@.take(prefix@.len() as int)[i as int] != prefix@[i as int]);
            }
            return false;
        }
        i = i + 1;
    }
    proof {
        assert(data@.take(prefix@.len() as int) =~= prefix@);
    }
    true
}

/// The reader an input gets: a VOC, an 8SVX or a RIFF by what the file
/// opens with, whatever its name; anything else is "Wrong file type".
pub fn input_kind(data: &[u8]) -> (r: Result<InputKind, Error>)
    ensures
        opens_with(data@, voc::MAGIC@) ==> r == Ok::<InputKind, Error>(InputKind::Voc),
        !opens_with(data@, voc::MAGIC@) && opens_with(data@, iff::FORM@) ==> r == Ok::<
            InputKind,
            Error,
        >(InputKind::Iff),
        !opens_with(data@, voc::MAGIC@) && !opens_with(data@, iff::FORM@) && opens_with(
            data@,
            wav::RIFF@,
        ) ==> r == Ok::<InputKind, Error>(InputKind::Wav),
        !opens_with(data@, voc::MAGIC@) && !opens_with(data@, iff::FORM@) && !opens_with(
            data@,
            wav::RIFF@,
        ) ==> (r matches Err(Error::Fatal(m)) && m.bytes() == "Wrong file type".spec_bytes()),
{
    if starts_with(data, &voc::MAGIC) {
        Ok(InputKind::Voc)
    } else if starts_with(data, &iff::FORM) {
        Ok(InputKind::Iff)
    } else if starts_with(data, &wav::RIFF) {
        Ok(InputKind::Wav)
    } else {
        Err(Error::Fatal(Msg::from_text("Wrong file type")))
    }
}

/// The byte lower-cased if it is an ASCII capital.
pub open spec fn ascii_lower(b: u8) -> u8 {
    if 65 <= b <= 90 {
        (b + 32) as u8
    } else {
        b
    }
}

/// Whether the input's name, ASCII case folded, ends in `.out`: the one
/// extension that chooses a reader.
pub open spec fn names_out_trace(name: Seq<u8>) -> bool {
    name.len() >= 4 && ascii_lower(name[name.len() - 4]) == 46 && ascii_lower(name[name.len() - 3])
        == 111 && ascii_lower(name[name.len() - 2]) == 117 && ascii_lower(name[name.len() - 1])
        == 116
}

fn lower(b: u8) -> (r: u8)
    ensures
        r == ascii_lower(b),
{
    if 65 <= b && b <= 90 {
        b + 32
    } else {
        b
    }
}

/// Whether the input is read as an OUT trace (see [`names_out_trace`]).
pub fn is_out_trace(name: &[u8]) -> (r: bool)
    ensures
        r == names_out_trace(name@),
{
    let n = name.len();
    n >= 4 && lower(name[n - 4]) == 46 && lower(name[n - 3]) == 111 && lower(name[n - 2]) == 117
        && lower(name[n - 1]) == 116
}

/// The version gate a decode applies under its header line: `major*100 +
/// minor` must be at most 299, so v2.99 is read and v3.00 is not.
pub fn version_gate(major: u8, minor: u8) -> (r: Result<(), Error>)
    ensures
        major * 100 + minor <= 299 ==> r is Ok,
        major * 100 + minor > 299 ==> (r matches Err(Error::Input(m, c)) && c == 252 && m.bytes()
            == "CSW version not supported, please upgrade this tool.".spec_bytes()),
{
    if major as u32 * 100 + minor as u32 > 299 {
        return Err(
            Error::Input(Msg::from_text("CSW version not supported, please upgrade this tool."), 252),
        );
    }
    Ok(())
}

/// The word a decode's closing line names its output by.
pub fn decode_kind(target: DecodeTarget) -> (k: &'static str)
    ensures
        target == DecodeTarget::Wav ==> k@ == "WAV"@,
        target == DecodeTarget::Voc ==> k@ == "VOC"@,
{
    match target {
        DecodeTarget::Wav => "WAV",
        DecodeTarget::Voc => "VOC",
    }
}

/// The extension a decode's output gets.
pub fn decode_extension(target: DecodeTarget) -> (k: &'static str)
    ensures
        target == DecodeTarget::Wav ==> k@ == "wav"@,
        target == DecodeTarget::Voc ==> k@ == "voc"@,
{
    match target {
        DecodeTarget::Wav => "wav",
        DecodeTarget::Voc => "voc",
    }
}

/// The structure of a sampled input, by its reader.
pub fn scan_input(kind: InputKind, data: &[u8]) -> (r: Result<Layout, Error>)
    requires
        data@.len() < 0x100_0000_0000,
    ensures
        kind == InputKind::Voc ==> match voc::voc_walk(data@) {
            Ok(st) => r matches Ok(l) && voc::voc_layout(data@, st, l),
            Err(f) => r matches Err(e) && voc::fault_reported(f, e),
        },
        kind == InputKind::Iff ==> match iff::iff_scan(data@) {
            Ok((rate, body, declared)) => r matches Ok(l) && iff::iff_layout(data@, rate, body, declared, l),
            Err(iff::IffFault::WrongType) => r matches Err(Error::Fatal(m)) && m.bytes()
                == "Wrong file type".spec_bytes(),
            Err(iff::IffFault::Compressed) => r matches Err(Error::Rejected(s, c)) && s@
                == "Sorry, compressed IFF data not yet supported."@ && c == 246,
        },
        kind == InputKind::Wav ==> match wav::wav_scan(data@) {
            Ok((rate, start, declared)) => r matches Ok(l) && wav::wav_layout(data@, rate, start, declared, l),
            Err(f) => r matches Err(e) && wav::wav_fault_reported(f, e),
        },
{
    match kind {
        InputKind::Voc => voc::scan(data),
        InputKind::Iff => iff::scan(data),
        InputKind::Wav => wav::scan(data),
    }
}

/// The CSW a conversion writes, in the container its settings choose,
/// stamped with [`APP_NAME`].
pub fn csw_bytes<F>(sig: &Pulses, settings: &Settings, deflate: F) -> (r: Result<Vec<u8>, Error>) where
    F: Fn(&[u8]) -> Result<Vec<u8>, Error>
    requires
        forall|s: &[u8]| deflate.requires((s,)),
    ensures
        !crate::rle::all_positive(sig.pulses@) ==> r matches Err(Error::Format(_)),
        crate::rle::all_positive(sig.pulses@) && (settings.old_compression || settings.csw_version
            == 1) ==> (r matches Ok(v) && v@ == container::header_bytes(
            sig.rate,
            sig.declared,
            sig.initial_high,
            settings.csw_version,
            1,
            APP_NAME.spec_bytes(),
        ) + crate::rle::rle_stream(sig.pulses@)),
        crate::rle::all_positive(sig.pulses@) && !(settings.old_compression || settings.csw_version
            == 1) ==> (r matches Ok(v) ==> exists|s: &[u8], p: Vec<u8>|
            s@ == crate::rle::rle_stream(sig.pulses@) && deflate.ensures(
                (s,),
                Ok::<Vec<u8>, Error>(p),
            ) && v@ == container::header_bytes(
                sig.rate,
                sig.declared,
                sig.initial_high,
                settings.csw_version,
                2,
                APP_NAME.spec_bytes(),
            ) + p@),
        crate::rle::all_positive(sig.pulses@) && !(settings.old_compression || settings.csw_version
            == 1) ==> (r matches Err(e) ==> exists|s: &[u8]|
            s@ == crate::rle::rle_stream(sig.pulses@) && deflate.ensures((s,), Err::<Vec<u8>, Error>(e))),
{
    let compression = output_compression(settings);
    container::write(sig, settings.csw_version, compression, APP_NAME, deflate)
}

/// What a run refused part-way leaves in its output: the file as far as
/// the refusal let it be written, its header and, for plain RLE, every pulse
/// before it; a Z-RLE file keeps its header alone. `None` when the partial
/// pulses cannot be written at all.
pub fn partial_csw<F>(partial: &Pulses, settings: &Settings, deflate: F) -> (r: Option<Vec<u8>>) where
    F: Fn(&[u8]) -> Result<Vec<u8>, Error>
    requires
        forall|s: &[u8]| deflate.requires((s,)),
    ensures
        !crate::rle::all_positive(partial.pulses@) ==> r is None,
        crate::rle::all_positive(partial.pulses@) && (settings.old_compression
            || settings.csw_version == 1) ==> (r matches Some(v) && v@ == container::header_bytes(
            partial.rate,
            partial.declared,
            partial.initial_high,
            settings.csw_version,
            1,
            APP_NAME.spec_bytes(),
        ) + crate::rle::rle_stream(partial.pulses@)),
        crate::rle::all_positive(partial.pulses@) && !(settings.old_compression
            || settings.csw_version == 1) ==> (r matches Some(v) ==> exists|s: &[u8], p: Vec<u8>|
            s@ == crate::rle::rle_stream(partial.pulses@) && deflate.ensures(
                (s,),
                Ok::<Vec<u8>, Error>(p),
            ) && v@ == (container::header_bytes(
                partial.rate,
                partial.declared,
                partial.initial_high,
                settings.csw_version,
                2,
                APP_NAME.spec_bytes(),
            ) + p@).take(0x34)),
        crate::rle::all_positive(partial.pulses@) && !(settings.old_compression
            || settings.csw_version == 1) ==> (r is None ==> exists|s: &[u8], e: Error|
            s@ == crate::rle::rle_stream(partial.pulses@) && deflate.ensures((s,), Err::<Vec<u8>, Error>(e))),
{
    let zrle = zrle_output(settings);
    match csw_bytes(partial, settings, deflate) {
        Ok(mut bytes) => {
            if zrle {
                bytes.truncate(0x34);
            }
            Some(bytes)
        },
        Err(_) => None,
    }
}


/// What a decode prints and writes once the pulses `ps` are in hand, from
/// the console's lines `before` and output `out`: the lines, the output,
/// and the bytes written (`None` for a WAV a RIFF header cannot size).
pub open spec fn decoded_pulses(
    ps: Seq<u32>,
    info: CswInfo,
    target: DecodeTarget,
    terminal: bool,
    before: Seq<u8>,
    out: Seq<u8>,
) -> (Seq<u8>, Seq<u8>, Option<u64>) {
    let total = surveyed_samples(ps);
    let listed = before + (if info.major == 2 {
        status_line(terminal, csw_app_text(info.app@, info.compression))
    } else {
        Seq::empty()
    }) + status_line(terminal, total_text(total as u64, info.rate));
    match target {
        DecodeTarget::Wav => if total > wav::MAX_WAV_DATA {
            (listed, out, None)
        } else {
            (
                listed,
                out + wav::wav_header_bytes(info.rate, 1, 8, total as u32) + wav::pcm8(ps, info.initial_high),
                Some((44 + total) as u64),
            )
        },
        DecodeTarget::Voc => {
            let image = voc::voc_image(info.rate, ps, info.initial_high);
            (listed, out + image, Some(image.len() as u64))
        },
    }
}

/// What a decode of `raw`, whose header is `info`, prints and writes (see
/// [`decode_file`]), from the console's lines `before` and output `out`:
/// the lines, the output, and the bytes written (`None` when it is refused).
pub open spec fn decoded(
    raw: Seq<u8>,
    info: CswInfo,
    shown: Seq<u8>,
    target: DecodeTarget,
    terminal: bool,
    before: Seq<u8>,
    out: Seq<u8>,
) -> (Seq<u8>, Seq<u8>, Option<u64>) {
    let head = before + status_line(terminal, csw_header_text(info.major, info.minor, info.rate, shown));
    if info.major * 100 + info.minor > 299 {
        (head, out, None)
    } else {
        match container::payload_pulses(info.compression, raw.skip(info.data_offset as int)) {
            None => (head, out, None),
            Some(ps) => decoded_pulses(ps, info, target, terminal, head, out),
        }
    }
}

/// The lines and the output of a decode once its pulses are in hand (see
/// [`decoded_pulses`]).
#[verifier::spinoff_prover]
fn decode_pulses_out(
    sig: &Pulses,
    info: &CswInfo,
    target: DecodeTarget,
    ui: &Console,
    w: &mut Vec<u8>,
    out: &mut Vec<u8>,
) -> (r: Result<u64, Error>)
    requires
        sig.rate == info.rate,
        sig.initial_high == info.initial_high,
        info.rate > 0,
    ensures
        ({
            let (lines, bytes, written) = decoded_pulses(
                sig.pulses@,
                *info,
                target,
                ui.on_terminal(),
                old(w)@,
                old(out)@,
            );
            &&& final(w)@ == lines
            &&& final(out)@ == bytes
            &&& written matches Some(n) ==> r == Ok::<u64, Error>(n)
            &&& written is None ==> (r matches Err(Error::Unsupported(m)) && m@ == decode_utf8(
                wav::too_long_line(surveyed_samples(sig.pulses@) as u64),
            ))
        }),
{
    let measured = survey(sig.pulses.as_slice());
    if info.major == 2 {
        ui.csw_app(w, info.app.as_slice(), info.compression);
    }
    ui.total_samples(w, measured.total_samples, info.rate);
    match target {
        DecodeTarget::Wav => {
            match wav::write_to(out, sig, measured.total_samples) {
                Ok(n) => Ok(n),
                Err(e) => Err(e),
            }
        },
        DecodeTarget::Voc => {
            Ok(voc::write_to(out, sig))
        },
    }
}

/// Decode the CSW held in `raw`, whose header is `info`: its header line,
/// the version gate (`major*100 + minor` at most 299), the application line
/// of a v2 file and the count line, appended to `w`, then the WAV or VOC
/// appended to `out`, the bytes written returned (see [`decoded`]). A version past 2.99 is refused
/// with exit code 252, a compression type past the two known with 251, a
/// Z-RLE stream that does not inflate as a format error, and a WAV whose
/// sample count a RIFF header cannot state before anything is written.
#[verifier::spinoff_prover]
pub fn decode_file(
    raw: &[u8],
    info: &CswInfo,
    shown: &[u8],
    target: DecodeTarget,
    ui: &Console,
    w: &mut Vec<u8>,
    out: &mut Vec<u8>,
) -> (r: Result<u64, Error>)
    requires
        info.data_offset <= raw@.len(),
        info.rate > 0,
    ensures
        ({
            let (lines, bytes, written) = decoded(
                raw@,
                *info,
                shown@,
                target,
                ui.on_terminal(),
                old(w)@,
                old(out)@,
            );
            let payload = container::payload_pulses(info.compression, raw@.skip(info.data_offset as int));
            &&& final(w)@ == lines && final(out)@ == bytes
            &&& written matches Some(n) ==> r == Ok::<u64, Error>(n)
            &&& info.major * 100 + info.minor > 299 ==> (r matches Err(Error::Input(m, c)) && c == 252
                && m.bytes() == "CSW version not supported, please upgrade this tool.".spec_bytes())
            &&& info.major * 100 + info.minor <= 299 ==> (payload is None ==> (r matches Err(e)
                && container::payload_fault_reported(info.compression, raw@.skip(info.data_offset as int), e)))
            &&& info.major * 100 + info.minor <= 299 ==> (payload matches Some(ps) ==> (
            written is None ==> (r matches Err(Error::Unsupported(m)) && m@ == decode_utf8(
                wav::too_long_line(surveyed_samples(ps) as u64),
            ))))
        }),
{
    ui.csw_header(w, info.major, info.minor, info.rate, shown);
    if let Err(e) = version_gate(info.major, info.minor) {
        return Err(e);
    }
    let data = container::slice_from(raw, info.data_offset);
    let sig = match container::decode_pulses(info, data) {
        Ok(sig) => sig,
        Err(e) => return Err(e),
    };
    decode_pulses_out(&sig, info, target, ui, w, out)
}


/// A conversion's input once opened: the pulses of a trace, or the layout
/// of a sampled input and the reader it got.
pub enum Opened {
    Trace(Pulses),
    Sampled(Layout, InputKind),
}

/// The checking line as it opens.
pub open spec fn checking_text(terminal: bool, integrity: bool) -> Seq<u8> {
    seq![13u8] + bullet_of(terminal) + (if integrity {
        " Checking input file integrity... ".spec_bytes()
    } else {
        " Checking input file... ".spec_bytes()
    })
}

/// The completion of the checking line.
pub open spec fn ok_text() -> Seq<u8> {
    "ok!".spec_bytes() + seq![10u8]
}

/// What opening a trace held in `data` (typed as `shown`) does: `lines` are
/// the console's lines after it, from `before`, and `r` its result. The
/// checking line opens, a length that is not whole records completes it
/// with "bad size!", and otherwise it completes with "ok!" and the
/// description follows, the advice for a trace with no write to port 0xFE
/// after it.
pub open spec fn trace_opened(
    data: Seq<u8>,
    shown: Seq<u8>,
    t: bool,
    before: Seq<u8>,
    lines: Seq<u8>,
    r: Result<Opened, Error>,
) -> bool {
    let opened = before + checking_text(t, false);
    let tr = out::trace_of(data, OUT_RATE);
    &&& data.len() % 5 != 0 ==> (r matches Err(Error::CheckedFatal(a, b)) && a@ == "bad size!"@ && b@
        == "Input file is corrupted or in a wrong format"@ && lines == opened)
    &&& data.len() % 5 == 0 ==> lines == opened + ok_text() + status_line(
        t,
        out_description_text(tr.t_total, tr.events),
    )
    &&& data.len() % 5 == 0 && tr.events == 0 ==> (r matches Err(Error::FatalBlock(m)) && m.bytes()
        == useless_text(shown))
    &&& data.len() % 5 == 0 && tr.events > 0 ==> (r matches Ok(Opened::Trace(sig)) && {
        &&& sig.pulses@ == out::kept(tr.pulses)
        &&& sig.initial_high == (tr.pulses.len() != 1)
        &&& sig.rate == OUT_RATE
        &&& sig.declared == if out::kept(tr.pulses).len() == 0 {
            1
        } else {
            out::kept(tr.pulses).len()
        }
    })
}

/// What opening a sampled input held in `data` does: the reader is chosen
/// by what the file opens with, "Wrong file type" before any line for none
/// of the three magics; otherwise the checking line (opened before the scan
/// but for a VOC, whose refusals stand alone), its completion and the
/// description.
pub open spec fn sampled_opened(data: Seq<u8>, t: bool, before: Seq<u8>, lines: Seq<u8>, r: Result<
    Opened,
    Error,
>) -> bool {
    &&& !opens_with(data, voc::MAGIC@) && !opens_with(data, iff::FORM@) && !opens_with(data, wav::RIFF@)
        ==> (r matches Err(Error::Fatal(m)) && m.bytes() == "Wrong file type".spec_bytes() && lines
        == before)
    &&& opens_with(data, voc::MAGIC@) ==> match voc::voc_walk(data) {
        Err(f) => r matches Err(e) && voc::fault_reported(f, e) && lines == before,
        Ok(st) => r matches Ok(Opened::Sampled(l, k)) && k == InputKind::Voc && voc::voc_layout(
            data,
            st,
            l,
        ) && lines == before + checking_text(t, true) + ok_text() + status_line(t, encode_utf8(l.desc@)),
    }
    &&& !opens_with(data, voc::MAGIC@) && opens_with(data, iff::FORM@) ==> match iff::iff_scan(data) {
        Err(_) => r is Err && lines == before + checking_text(t, false),
        Ok((rate, body, declared)) => r matches Ok(Opened::Sampled(l, k)) && k == InputKind::Iff
            && iff::iff_layout(data, rate, body, declared, l) && lines == before + checking_text(t, false)
            + ok_text() + status_line(t, encode_utf8(l.desc@)),
    }
    &&& !opens_with(data, voc::MAGIC@) && !opens_with(data, iff::FORM@) && opens_with(data, wav::RIFF@)
        ==> match wav::wav_scan(data) {
        Err(f) => r matches Err(e) && wav::wav_fault_reported(f, e) && lines == before + checking_text(
            t,
            false,
        ),
        Ok((rate, start, declared)) => r matches Ok(Opened::Sampled(l, k)) && k == InputKind::Wav
            && wav::wav_layout(data, rate, start, declared, l) && lines == before + checking_text(t, false)
            + ok_text() + status_line(t, encode_utf8(l.desc@)),
    }
}

/// Open a trace (see [`trace_opened`]).
#[verifier::spinoff_prover]
fn open_trace(data: &[u8], shown: &[u8], ui: &Console, w: &mut Vec<u8>) -> (r: Result<Opened, Error>)
    requires
        data@.len() < 0x100_0000_0000,
    ensures
        trace_opened(data@, shown@, ui.on_terminal(), old(w)@, final(w)@, r),
{
    ui.checking_start(w, false);
    proof {
        assert(w@ =~= old(w)@ + checking_text(ui.on_terminal(), false));
    }
    let (sig, t_total, described) = match out::read(data, OUT_RATE) {
        Ok(x) => x,
        Err(e) => return Err(e),
    };
    ui.checking_completion(w, "ok!");
    let desc = out_description(t_total, described as u64);
    let ds = desc.as_str();
    ui.describe(w, ds);
    proof {
        let text = out_description_text(t_total, described as nat);
        lemma_out_description_valid(t_total, described as nat);
        vstd::utf8::decode_utf8_encode_utf8(text);
        assert(ds.spec_bytes() == text);
        reveal_strlit("ok!");
        assert(w@ =~= old(w)@ + checking_text(ui.on_terminal(), false) + ok_text() + status_line(
            ui.on_terminal(),
            text,
        ));
    }
    if described == 0 {
        return Err(useless_out(shown));
    }
    Ok(Opened::Trace(sig))
}

/// Open a sampled input (see [`sampled_opened`]).
#[verifier::spinoff_prover]
fn open_sampled(data: &[u8], ui: &Console, w: &mut Vec<u8>) -> (r: Result<Opened, Error>)
    requires
        data@.len() < 0x100_0000_0000,
    ensures
        sampled_opened(data@, ui.on_terminal(), old(w)@, final(w)@, r),
{
    let kind = match input_kind(data) {
        Ok(k) => k,
        Err(e) => return Err(e),
    };
    let is_voc = match kind {
        InputKind::Voc => true,
        _ => false,
    };
    if !is_voc {
        ui.checking_start(w, false);
    }
    let ghost opened = w@;
    proof {
        assert(!is_voc ==> opened =~= old(w)@ + checking_text(ui.on_terminal(), false));
    }
    let layout = match scan_input(kind, data) {
        Ok(l) => l,
        Err(e) => return Err(e),
    };
    if is_voc {
        ui.checking_start(w, layout.integrity_check);
    }
    ui.checking_completion(w, "ok!");
    let ds = layout.desc.as_str();
    ui.describe(w, ds);
    proof {
        reveal_strlit("ok!");
        assert(is_voc ==> w@ =~= old(w)@ + checking_text(ui.on_terminal(), layout.integrity_check)
            + ok_text() + status_line(ui.on_terminal(), encode_utf8(layout.desc@)));
        assert(!is_voc ==> w@ =~= old(w)@ + checking_text(ui.on_terminal(), false) + ok_text()
            + status_line(ui.on_terminal(), encode_utf8(layout.desc@)));
    }
    Ok(Opened::Sampled(layout, kind))
}

/// Open an input held in `data` under `name` (typed as `shown`): a name
/// ending in `.out` is a trace (see [`trace_opened`]), anything else a
/// sampled input read by what it opens with (see [`sampled_opened`]). The
/// lines are appended to `w`.
pub fn open_input(data: &[u8], name: &[u8], shown: &[u8], ui: &Console, w: &mut Vec<u8>) -> (r: Result<
    Opened,
    Error,
>)
    requires
        data@.len() < 0x100_0000_0000,
    ensures
        names_out_trace(name@) ==> trace_opened(data@, shown@, ui.on_terminal(), old(w)@, final(w)@, r),
        !names_out_trace(name@) ==> sampled_opened(data@, ui.on_terminal(), old(w)@, final(w)@, r),
{
    if is_out_trace(name) {
        open_trace(data, shown, ui, w)
    } else {
        open_sampled(data, ui, w)
    }
}

/// The warning a VOC that ran into the end of the file with no terminator
/// carries.
pub const UNTERMINATED: &'static str = "***WARNING*** - Unexpected end of file!";

/// The warning a VOC that ran into the end of the file with no terminator
/// carries, under its sampling-rate line.
pub fn warn_unterminated(layout: &Layout, ui: &Console, w: &mut Vec<u8>)
    ensures
        final(w)@ == old(w)@ + (if layout.unterminated {
            "\n".spec_bytes() + UNTERMINATED.spec_bytes() + "\n".spec_bytes()
        } else {
            Seq::empty()
        }),
{
    if layout.unterminated {
        ui.warn_block(w, UNTERMINATED);
    }
}

/// The lines a conversion announces its work with: the old-compression line
/// when it writes plain RLE, then "* Working...", left open.
pub open spec fn working_text(settings: Settings) -> Seq<u8> {
    (if settings.old_compression || settings.csw_version == 1 {
        "* Writing CSW ".spec_bytes() + (if settings.csw_version == 1 {
            "v1.01".spec_bytes()
        } else {
            "v2".spec_bytes()
        }) + " with old compression method\n".spec_bytes()
    } else {
        Seq::empty()
    }) + "* Working...".spec_bytes()
}

/// Announce the work (see [`working_text`]).
pub fn writing_and_working(settings: &Settings, ui: &Console, w: &mut Vec<u8>)
    ensures
        final(w)@ == old(w)@ + working_text(*settings),
{
    if writes_plain_rle(settings) {
        ui.writing_old_compression(w, settings.csw_version);
    }
    ui.working(w);
}

/// Encode a sampled input, conditioned to `c`, at `layout`'s rate: the probe
/// passes first (a block the VOC reader refuses is reported with nothing
/// announced and nothing written), then the announcement, then a sound
/// block of no positive length abandons the run in silence, and otherwise
/// the three reads of [`encode`]. A run stopped short returns, beside its
/// error, the pulses it had emitted for the partial file, except when it
/// stopped in silence.
pub fn encode_sampled(
    layout: &Layout,
    kind: InputKind,
    c: &Conditioned,
    settings: &Settings,
    ui: &Console,
    w: &mut Vec<u8>,
) -> (r: Result<Pulses, (Error, Option<Pulses>)>)
    requires
        c.main@.len() + c.tail@.len() + 64 <= READ_LIMIT,
    ensures
        ({
            let zrle = !(settings.old_compression || settings.csw_version == 1);
            let per_sample = kind == InputKind::Voc;
            let d0 = encoder_start(zrle, per_sample);
            let probed = probe_passes(d0, c.main@, c.tail@, c.end, stage_rank(d0.stage));
            let (d, out, e) = encoded(d0, c.main@, c.tail@, c.end);
            &&& !layout.empty_block && probed is Err ==> (r matches Err((err, None)) && fault_reported(
                probed->Err_0.1,
                err,
            ) && final(w)@ == old(w)@)
            &&& (layout.empty_block || probed is Ok) ==> final(w)@ == old(w)@ + working_text(*settings)
            &&& layout.empty_block ==> (r matches Err((Error::Silent(m), None)) && m@
                == "VOC sound block of no positive length"@)
            &&& !layout.empty_block && probed is Ok ==> match e {
                None => r matches Ok(p) && p.rate == layout.rate && p.pulses@ == out + finished(d).1
                    && p.initial_high == (finished(d).0.decided == Some(true)) && p.declared == (
                if finished(d).0.calls < 1 {
                    1
                } else {
                    finished(d).0.calls
                }),
                Some(RunFault::Heap) => r matches Err((err, None)) && run_fault_reported(
                    RunFault::Heap,
                    err,
                ),
                Some(f) => r matches Err((err, Some(p))) && run_fault_reported(f, err) && p.rate
                    == layout.rate && p.pulses@ == out && p.initial_high == (d.decided == Some(true))
                    && p.declared == 0,
            }
        }),
{
    let zrle = zrle_output(settings);
    let per_sample = match kind {
        InputKind::Voc => true,
        _ => false,
    };
    if !layout.empty_block {
        if let Err(e) = probe(zrle, per_sample, c) {
            return Err((e, None));
        }
    }
    writing_and_working(settings, ui, w);
    if layout.empty_block {
        return Err((Error::Silent("VOC sound block of no positive length".to_owned()), None));
    }
    match encode(layout.rate, zrle, per_sample, c) {
        Ok(p) => Ok(p),
        Err((e, partial)) => {
            let silent = match e {
                Error::Silent(_) => true,
                _ => false,
            };
            if silent {
                Err((e, None))
            } else {
                Err((e, Some(partial)))
            }
        },
    }
}

} // verus!
