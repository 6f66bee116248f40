//! PCM WAV read/write, and pulses rendered back to samples. Input is 8-bit
//! unsigned mono; a decoded pulse takes the levels 224 and 32.

use vstd::prelude::*;
use vstd::string::StringSliceAdditionalSpecFns;
use vstd::utf8::{decode_utf8, valid_utf8};

use crate::error::{Error, Msg};
use crate::le::{from_le16, from_le32, le16, le32, push_le16, push_le32, read_le16, read_le32};
use crate::signal::Pulses;
use crate::source::{runs_bytes, Encoding, Layout, Segment};
use crate::text::{decimal, lemma_concat_valid, lemma_decimal_valid, lemma_str_valid, push_decimal, push_str, text};

verus! {

/// The level a high pulse is rendered at.
pub const HIGH_8: u8 = 0xE0;

/// The level a low pulse is rendered at.
pub const LOW_8: u8 = 0x20;

/// The largest PCM payload a RIFF/WAVE file can describe. Both size fields
/// are 32-bit and the RIFF one counts 36 bytes of header on top of the data.
pub const MAX_WAV_DATA: u64 = 0xFFFF_FFFF - 36;

/// "RIFF", "WAVE", "fmt ", "fact" and "data".
pub const RIFF: [u8; 4] = [0x52, 0x49, 0x46, 0x46];
pub const WAVE: [u8; 4] = [0x57, 0x41, 0x56, 0x45];
pub const FMT: [u8; 4] = [0x66, 0x6D, 0x74, 0x20];
pub const FACT: [u8; 4] = [0x66, 0x61, 0x63, 0x74];
pub const DATA: [u8; 4] = [0x64, 0x61, 0x74, 0x61];

/// The level of pulse `i` of a train that starts at `high`: levels
/// alternate from there.
pub open spec fn level_at(high: bool, i: int) -> u8 {
    if (i % 2 == 0) == high {
        HIGH_8
    } else {
        LOW_8
    }
}

/// Why a WAV is turned down.
#[derive(Debug, Clone, Copy, PartialEq, Eq, Structural)]
pub enum WavFault {
    /// Not a RIFF/WAVE whose first chunk is `fmt ` and whose `data` chunk
    /// sits where it is looked for.
    WrongType,
    /// A format tag that is not PCM.
    Compressed,
    /// More than one channel.
    Stereo,
    /// A width other than 8 bits, compared one byte wide.
    Bits(u8),
    /// A `fmt ` chunk shorter than 16 bytes or running past the end.
    FmtPast,
    /// A `fact` chunk running past the end.
    FactPast,
}

/// The words of a width refusal.
pub open spec fn bits_line(bits: u8) -> Seq<u8> {
    "Sorry, ".spec_bytes() + decimal(bits as nat) + "-bits WAV samples not yet supported.".spec_bytes()
}

/// The error each fault is reported as: "Wrong file type" as a fatal line,
/// the refusals on the checking line with their exit codes, and the chunks
/// that run past the end in silence.
pub open spec fn wav_fault_reported(f: WavFault, e: Error) -> bool {
    match f {
        WavFault::WrongType => e matches Error::Fatal(m) && m.bytes() == "Wrong file type".spec_bytes(),
        WavFault::Compressed => e matches Error::Rejected(s, c) && s@
            == "Sorry, compressed WAV data not yet supported."@ && c == 246,
        WavFault::Stereo => e matches Error::Rejected(s, c) && s@
            == "Sorry, stereo WAV samples not yet supported."@ && c == 245,
        WavFault::Bits(b) => e matches Error::Rejected(s, c) && s@ == decode_utf8(bits_line(b))
            && c == 244,
        WavFault::FmtPast => e matches Error::Silent(s) && s@
            == "WAV fmt chunk runs past the end of the file"@,
        WavFault::FactPast => e matches Error::Silent(s) && s@
            == "WAV fact chunk runs past the end of the file"@,
    }
}

/// The error a fault is reported as.
pub fn wav_fault_error(f: WavFault) -> (e: Error)
    ensures
        wav_fault_reported(f, e),
{
    match f {
        WavFault::WrongType => Error::Fatal(Msg::from_text("Wrong file type")),
        WavFault::Compressed => Error::Rejected(
            "Sorry, compressed WAV data not yet supported.".to_owned(),
            246,
        ),
        WavFault::Stereo => Error::Rejected("Sorry, stereo WAV samples not yet supported.".to_owned(), 245),
        WavFault::Bits(b) => {
            let mut v: Vec<u8> = Vec::new();
            push_str(&mut v, "Sorry, ");
            push_decimal(&mut v, b as u64);
            push_str(&mut v, "-bits WAV samples not yet supported.");
            proof {
                assert(v@ =~= bits_line(b));
                lemma_str_valid("Sorry, ");
                lemma_str_valid("-bits WAV samples not yet supported.");
                lemma_decimal_valid(b as nat);
                lemma_concat_valid("Sorry, ".spec_bytes(), decimal(b as nat));
                lemma_concat_valid(
                    "Sorry, ".spec_bytes() + decimal(b as nat),
                    "-bits WAV samples not yet supported.".spec_bytes(),
                );
            }
            Error::Rejected(text(v), 244)
        },
        WavFault::FmtPast => Error::Silent("WAV fmt chunk runs past the end of the file".to_owned()),
        WavFault::FactPast => Error::Silent("WAV fact chunk runs past the end of the file".to_owned()),
    }
}

/// The four bytes at `at` are `tag`.
pub open spec fn tag_at(data: Seq<u8>, at: int, tag: Seq<u8>) -> bool {
    data.subrange(at, at + 4) == tag
}

/// The 32-bit little-endian word at `at`.
pub open spec fn word32_at(data: Seq<u8>, at: int) -> int {
    from_le32(data[at], data[at + 1], data[at + 2], data[at + 3])
}

/// What the scan of a WAV finds: the rate, where the samples are read from
/// and how many bytes the `data` chunk declares.
///
/// `fmt ` is read at a fixed offset, so it has to be the first chunk, and
/// sixteen bytes of it are read whatever its length says. Every field but the
/// rate is compared one byte wide; the rate is the low word of its field. A
/// format tag that is not PCM is refused, then more than one channel (zero is
/// converted as mono), then a width other than 8. One `fact` chunk is
/// tolerated before `data`, with no pad byte skipped after it. The samples
/// are **not** read from where `data` starts: the canonical 44-byte header is
/// assumed, and a `fact` chunk moves the window by exactly its 8-byte header.
pub open spec fn wav_scan(data: Seq<u8>) -> Result<(u32, int, int), WavFault> {
    let end = data.len() as int;
    if end < 20 || !tag_at(data, 0, RIFF@) || !tag_at(data, 8, WAVE@) || !tag_at(data, 12, FMT@) {
        Err(WavFault::WrongType)
    } else if end < 36 {
        Err(WavFault::WrongType)
    } else if data[20] != 1 {
        Err(WavFault::Compressed)
    } else if data[22] > 1 {
        Err(WavFault::Stereo)
    } else if data[34] != 8 {
        Err(WavFault::Bits(data[34]))
    } else {
        let fmt_len = word32_at(data, 16);
        let rate = from_le16(data[24], data[25]) as u32;
        let pos = 20 + fmt_len;
        if fmt_len < 16 || pos > end {
            Err(WavFault::FmtPast)
        } else if pos + 8 > end {
            Err(WavFault::WrongType)
        } else if tag_at(data, pos, FACT@) {
            let size = word32_at(data, pos + 4);
            let pos2 = pos + 8 + size;
            if pos2 > end {
                Err(WavFault::FactPast)
            } else if pos2 + 8 > end || !tag_at(data, pos2, DATA@) {
                Err(WavFault::WrongType)
            } else {
                Ok((rate, 52, word32_at(data, pos2 + 4)))
            }
        } else if !tag_at(data, pos, DATA@) {
            Err(WavFault::WrongType)
        } else {
            Ok((rate, 44, word32_at(data, pos + 4)))
        }
    }
}

/// The status line of a WAV of `n` samples.
pub open spec fn wav_desc(n: nat) -> Seq<u8> {
    "RIFF Wave PCM (WAV), ".spec_bytes() + decimal(n) + " samples.".spec_bytes()
}

/// What the scan of a WAV yields: the rate, one run from the sample window
/// to the end of the file or of the declared data, whichever is first, and
/// the declared count.
pub open spec fn wav_layout(data: Seq<u8>, rate: u32, start: int, declared: int, l: Layout) -> bool {
    &&& l.rate == rate
    &&& l.shown_rate == rate
    &&& l.rate_known
    &&& l.desc@ == decode_utf8(wav_desc(declared as nat))
    &&& !l.integrity_check
    &&& l.encoding == Encoding::U8
    &&& l.channels == 1
    &&& l.segments@ == seq![
        Segment {
            offset: start as u64,
            bytes: (if data.len() < start {
                0
            } else if declared < data.len() - start {
                declared
            } else {
                data.len() - start
            }) as u64,
        },
    ]
    &&& !l.unterminated
    &&& !l.empty_block
    &&& l.tail is None
    &&& l.total_samples == declared
}

/// Whether the four bytes at `at` are `tag`.
fn has_tag(data: &[u8], at: usize, tag: &[u8; 4]) -> (r: bool)
    requires
        at + 4 <= data@.len(),
    ensures
        r == tag_at(data@, at as int, tag@),
{
    let r = data[at] == tag[0] && data[at + 1] == tag[1] && data[at + 2] == tag[2] && data[at + 3]
        == tag[3];
    proof {
        if r {
            assert(data@.subrange(at as int, at + 4) =~= tag@);
        } else {
            assert(exists|k: int| 0 <= k < 4 && data@.subrange(at as int, at + 4)[k] != tag@[k]);
        }
    }
    r
}

/// Scan a RIFF/WAVE container held in memory: locate `fmt ` and `data`, and
/// describe the signal without reading a single sample (see [`wav_scan`]).
/// A `data` chunk claiming more than the file holds is not refused: the
/// declared count is reported, and what the file holds is converted.
pub fn scan(data: &[u8]) -> (r: Result<Layout, Error>)
    requires
        data@.len() < 0x100_0000_0000,
    ensures
        match wav_scan(data@) {
            Ok((rate, start, declared)) => r matches Ok(l) && wav_layout(data@, rate, start, declared, l),
            Err(f) => r matches Err(e) && wav_fault_reported(f, e),
        },
{
    let end = data.len();
    if end < 20 || !has_tag(data, 0, &RIFF) || !has_tag(data, 8, &WAVE) || !has_tag(data, 12, &FMT) {
        return Err(wav_fault_error(WavFault::WrongType));
    }
    if end < 36 {
        return Err(wav_fault_error(WavFault::WrongType));
    }
    if data[20] != 1 {
        return Err(wav_fault_error(WavFault::Compressed));
    }
    if data[22] > 1 {
        return Err(wav_fault_error(WavFault::Stereo));
    }
    if data[34] != 8 {
        return Err(wav_fault_error(WavFault::Bits(data[34])));
    }
    let fmt_len = read_le32(data[16], data[17], data[18], data[19]) as usize;
    let rate = read_le16(data[24], data[25]) as u32;
    if fmt_len < 16 || fmt_len > end - 20 {
        return Err(wav_fault_error(WavFault::FmtPast));
    }
    let mut pos = 20 + fmt_len;
    if end - pos < 8 {
        return Err(wav_fault_error(WavFault::WrongType));
    }
    let mut start: u64 = 44;
    if has_tag(data, pos, &FACT) {
        let size = read_le32(data[pos + 4], data[pos + 5], data[pos + 6], data[pos + 7]) as usize;
        if size > end - pos - 8 {
            return Err(wav_fault_error(WavFault::FactPast));
        }
        pos = pos + 8 + size;
        start = 52;
        if end - pos < 8 {
            return Err(wav_fault_error(WavFault::WrongType));
        }
    }
    if !has_tag(data, pos, &DATA) {
        return Err(wav_fault_error(WavFault::WrongType));
    }
    let declared = read_le32(data[pos + 4], data[pos + 5], data[pos + 6], data[pos + 7]) as u64;
    let e = end as u64;
    let avail: u64 = if e < start {
        0
    } else {
        e - start
    };
    let bytes = if declared < avail {
        declared
    } else {
        avail
    };
    let mut segments: Vec<Segment> = Vec::new();
    segments.push(Segment { offset: start, bytes });
    let mut v: Vec<u8> = Vec::new();
    push_str(&mut v, "RIFF Wave PCM (WAV), ");
    push_decimal(&mut v, declared);
    push_str(&mut v, " samples.");
    proof {
        assert(v@ =~= wav_desc(declared as nat));
        lemma_str_valid("RIFF Wave PCM (WAV), ");
        lemma_str_valid(" samples.");
        lemma_decimal_valid(declared as nat);
        lemma_concat_valid("RIFF Wave PCM (WAV), ".spec_bytes(), decimal(declared as nat));
        lemma_concat_valid(
            "RIFF Wave PCM (WAV), ".spec_bytes() + decimal(declared as nat),
            " samples.".spec_bytes(),
        );
        assert(segments@ =~= seq![Segment { offset: start, bytes }]);
    }
    Ok(
        Layout {
            rate,
            shown_rate: rate as i64,
            rate_known: true,
            desc: text(v),
            integrity_check: false,
            encoding: Encoding::U8,
            channels: 1,
            segments,
            unterminated: false,
            empty_block: false,
            tail: None,
            total_samples: declared,
        },
    )
}

/// The 44-byte RIFF/WAVE header for `data_len` bytes of PCM.
pub open spec fn wav_header_bytes(rate: u32, channels: u16, bits: u16, data_len: u32) -> Seq<u8> {
    let block_align = channels * (bits / 2 / 2 / 2);
    RIFF@ + le32(36 + data_len) + WAVE@ + FMT@ + le32(16) + le16(1) + le16(channels as int)
        + le32(rate as int) + le32(rate * block_align) + le16(block_align) + le16(bits as int)
        + DATA@ + le32(data_len as int)
}

/// The 44-byte RIFF/WAVE header for `data_len` bytes of PCM.
pub fn wav_header(rate: u32, channels: u16, bits: u16, data_len: u32) -> (h: Vec<u8>)
    requires
        channels * (bits / 8) <= 0xFFFF,
        rate * (channels * (bits / 8)) <= 0xFFFF_FFFF,
        data_len <= MAX_WAV_DATA,
    ensures
        h@ == wav_header_bytes(rate, channels, bits, data_len),
        h@.len() == 44,
{
    let block_align: u16 = channels * (bits / 8);
    let byte_rate: u32 = rate * block_align as u32;
    let mut out: Vec<u8> = Vec::new();
    push_tag(&mut out, &RIFF);
    push_le32(&mut out, 36 + data_len);
    push_tag(&mut out, &WAVE);
    push_tag(&mut out, &FMT);
    push_le32(&mut out, 16);
    push_le16(&mut out, 1);
    push_le16(&mut out, channels);
    push_le32(&mut out, rate);
    push_le32(&mut out, byte_rate);
    push_le16(&mut out, block_align);
    push_le16(&mut out, bits);
    push_tag(&mut out, &DATA);
    push_le32(&mut out, data_len);
    proof {
        assert(bits / 8 == bits / 2 / 2 / 2);
        assert(out@ =~= wav_header_bytes(rate, channels, bits, data_len));
    }
    out
}

/// Append a four-byte tag.
fn push_tag(out: &mut Vec<u8>, tag: &[u8; 4])
    ensures
        final(out)@ == old(out)@ + tag@,
{
    out.push(tag[0]);
    out.push(tag[1]);
    out.push(tag[2]);
    out.push(tag[3]);
    proof {
        assert(final(out)@ =~= old(out)@ + tag@);
    }
}

/// The refusal of a sample count past [`MAX_WAV_DATA`].
pub open spec fn too_long_line(samples: u64) -> Seq<u8> {
    decimal(samples as nat) + " samples exceed the ".spec_bytes() + decimal(MAX_WAV_DATA as nat)
        + "-byte WAV limit -- write a VOC with -dv".spec_bytes()
}

/// Check a sample count against [`MAX_WAV_DATA`] before anything is
/// rendered: a CSW can describe more audio than a WAV can hold (a few
/// 0xFFFFFFFF pulses), and such a decode is refused up front.
pub fn wav_data_len(samples: u64) -> (r: Result<u32, Error>)
    ensures
        samples <= MAX_WAV_DATA ==> (r matches Ok(n) && n == samples),
        samples > MAX_WAV_DATA ==> (r matches Err(Error::Unsupported(s)) && s@ == decode_utf8(
            too_long_line(samples),
        )),
{
    if samples > MAX_WAV_DATA {
        let mut v: Vec<u8> = Vec::new();
        push_decimal(&mut v, samples);
        push_str(&mut v, " samples exceed the ");
        push_decimal(&mut v, MAX_WAV_DATA);
        push_str(&mut v, "-byte WAV limit -- write a VOC with -dv");
        proof {
            assert(v@ =~= too_long_line(samples));
            lemma_str_valid(" samples exceed the ");
            lemma_str_valid("-byte WAV limit -- write a VOC with -dv");
            lemma_decimal_valid(samples as nat);
            lemma_decimal_valid(MAX_WAV_DATA as nat);
            let a = decimal(samples as nat) + " samples exceed the ".spec_bytes();
            lemma_concat_valid(decimal(samples as nat), " samples exceed the ".spec_bytes());
            lemma_concat_valid(a, decimal(MAX_WAV_DATA as nat));
            lemma_concat_valid(
                a + decimal(MAX_WAV_DATA as nat),
                "-byte WAV limit -- write a VOC with -dv".spec_bytes(),
            );
        }
        return Err(Error::Unsupported(text(v)));
    }
    Ok(samples as u32)
}

/// The 8-bit unsigned PCM a pulse train renders to: every pulse, a
/// zero-length one included (it flips the level with nothing between), at
/// levels alternating from `high`.
pub open spec fn pcm8(ps: Seq<u32>, high: bool) -> Seq<u8>
    decreases ps.len(),
{
    if ps.len() == 0 {
        Seq::empty()
    } else {
        pcm8(ps.drop_last(), high) + Seq::new(ps.last() as nat, |i: int| level_at(high, ps.len() - 1))
    }
}

/// Append the pulse train as 8-bit unsigned PCM (see [`pcm8`]).
pub fn stream_pcm8(sig: &Pulses, out: &mut Vec<u8>)
    ensures
        final(out)@ == old(out)@ + pcm8(sig.pulses@, sig.initial_high),
{
    let ghost start = out@;
    let mut high = sig.initial_high;
    let mut p: usize = 0;
    while p < sig.pulses.len()
        invariant
            p <= sig.pulses@.len(),
            high == (sig.initial_high == (p % 2 == 0)),
            out@ == start + pcm8(sig.pulses@.take(p as int), sig.initial_high),
        decreases sig.pulses@.len() - p,
    {
        let level = if high {
            HIGH_8
        } else {
            LOW_8
        };
        let len = sig.pulses[p];
        let ghost before = out@;
        let mut k: u32 = 0;
        while k < len
            invariant
                k <= len,
                out@ == before + Seq::new(k as nat, |i: int| level),
            decreases len - k,
        {
            out.push(level);
            k = k + 1;
            proof {
                assert(out@ =~= before + Seq::new(k as nat, |i: int| level));
            }
        }
        high = !high;
        p = p + 1;
        proof {
            let ps = sig.pulses@.take(p as int);
            assert(ps.drop_last() =~= sig.pulses@.take(p - 1));
            assert(Seq::new(len as nat, |i: int| level) =~= Seq::new(
                ps.last() as nat,
                |i: int| level_at(sig.initial_high, ps.len() - 1),
            ));
        }
    }
    proof {
        assert(sig.pulses@.take(p as int) =~= sig.pulses@);
    }
}

/// Write pulses to `out` as an 8-bit unsigned mono WAV, returning the file
/// size. `total_samples` is what a prior survey of the same pulses found,
/// since a RIFF header states its length up front; a count past
/// [`MAX_WAV_DATA`] is refused with nothing written.
pub fn write_to(out: &mut Vec<u8>, sig: &Pulses, total_samples: u64) -> (r: Result<u64, Error>)
    ensures
        total_samples <= MAX_WAV_DATA ==> (r matches Ok(n) && n == 44 + total_samples
            && final(out)@ == old(out)@ + wav_header_bytes(sig.rate, 1, 8, total_samples as u32)
            + pcm8(sig.pulses@, sig.initial_high)),
        total_samples > MAX_WAV_DATA ==> (r matches Err(Error::Unsupported(s)) && s@ == decode_utf8(
            too_long_line(total_samples),
        ) && final(out)@ == old(out)@),
{
    let data_len = match wav_data_len(total_samples) {
        Ok(n) => n,
        Err(e) => {
            return Err(e);
        },
    };
    proof {
        assert(1u16 * (8u16 / 8) == 1);
        assert(sig.rate * 1 == sig.rate);
    }
    let h = wav_header(sig.rate, 1, 8, data_len);
    crate::text::push_bytes(out, &h);
    stream_pcm8(sig, out);
    Ok(44 + data_len as u64)
}

/// The header a WAV is written with scans to its rate, its data offset and
/// its sample count.
#[verifier::spinoff_prover]
#[verifier::rlimit(80)]
proof fn lemma_wav_header_scan(rate: u32, n: u32, pcm: Seq<u8>)
    requires
        rate < 0x10000,
        n <= MAX_WAV_DATA,
    ensures
        wav_scan(wav_header_bytes(rate, 1, 8, n) + pcm) == Ok::<(u32, int, int), WavFault>(
            (rate, 44, n as int),
        ),
{
    let h = wav_header_bytes(rate, 1, 8, n);
    let d = h + pcm;
    crate::le::lemma_le32_roundtrip(16);
    crate::le::lemma_le32_roundtrip(n as int);
    crate::le::lemma_le32_roundtrip(rate as int);
    assert(1u16 * (8u16 / 2 / 2 / 2) == 1);
    assert(h.len() == 44);
    assert(d.subrange(0, 4) =~= RIFF@);
    assert(d.subrange(8, 12) =~= WAVE@);
    assert(d.subrange(12, 16) =~= FMT@);
    assert(d[16] == le32(16)[0] && d[17] == le32(16)[1] && d[18] == le32(16)[2] && d[19]
        == le32(16)[3]);
    assert(d[20] == 1);
    assert(d[22] == 1);
    assert(d[34] == 8);
    assert(d[24] == le32(rate as int)[0] && d[25] == le32(rate as int)[1]);
    assert(d.subrange(36, 40) =~= DATA@);
    assert(d.subrange(36, 40) != FACT@) by {
        assert(d.subrange(36, 40)[0] != FACT@[0]);
    }
    assert(d[40] == le32(n as int)[0] && d[41] == le32(n as int)[1] && d[42] == le32(n as int)[2]
        && d[43] == le32(n as int)[3]);
}

/// What a read gives back of a written WAV: an 8-bit mono WAV written at a
/// rate its reader's 16-bit view can hold scans back at that rate, with its
/// samples at the canonical offset and the declared count written, and the
/// run there holds the samples written.
pub proof fn lemma_wav_roundtrip(rate: u32, n: u32, pcm: Seq<u8>)
    requires
        rate < 0x10000,
        n <= MAX_WAV_DATA,
    ensures
        wav_scan(wav_header_bytes(rate, 1, 8, n) + pcm) == Ok::<(u32, int, int), WavFault>(
            (rate, 44, n as int),
        ),
        pcm.len() == n ==> runs_bytes(
            wav_header_bytes(rate, 1, 8, n) + pcm,
            seq![Segment { offset: 44, bytes: n as u64 }],
        ) == Some(pcm),
{
    lemma_wav_header_scan(rate, n, pcm);
    lemma_wav_run(rate, n, pcm);
}

/// The run after a written header is the samples written after it.
#[verifier::spinoff_prover]
proof fn lemma_wav_run(rate: u32, n: u32, pcm: Seq<u8>)
    ensures
        pcm.len() == n ==> runs_bytes(
            wav_header_bytes(rate, 1, 8, n) + pcm,
            seq![Segment { offset: 44, bytes: n as u64 }],
        ) == Some(pcm),
{
    let h = wav_header_bytes(rate, 1, 8, n);
    assert(h.len() == 44);
    if pcm.len() == n {
        crate::source::lemma_single_run(h, pcm, Seq::empty());
        assert(h + pcm + Seq::<u8>::empty() =~= h + pcm);
    }
}

/// A written header, read back field by field, gives what it was written
/// for: the RIFF size `36 + data_len`, PCM format 1, the channels, the rate,
/// the byte rate `rate * channels * (bits / 8)`, the block alignment
/// `channels * (bits / 8)`, the bits per sample and the data length.
pub proof fn lemma_wav_header_fields(rate: u32, channels: u16, bits: u16, data_len: u32)
    requires
        channels * (bits / 8) <= 0xFFFF,
        rate * (channels * (bits / 8)) <= 0xFFFF_FFFF,
        data_len <= MAX_WAV_DATA,
    ensures
        ({
            let h = wav_header_bytes(rate, channels, bits, data_len);
            &&& h.len() == 44
            &&& h.subrange(0, 4) == RIFF@ && h.subrange(8, 12) == WAVE@ && h.subrange(12, 16) == FMT@
                && h.subrange(36, 40) == DATA@
            &&& from_le32(h[4], h[5], h[6], h[7]) == 36 + data_len
            &&& from_le32(h[16], h[17], h[18], h[19]) == 16
            &&& from_le16(h[20], h[21]) == 1
            &&& from_le16(h[22], h[23]) == channels
            &&& from_le32(h[24], h[25], h[26], h[27]) == rate
            &&& from_le32(h[28], h[29], h[30], h[31]) == rate * channels * (bits / 8)
            &&& from_le16(h[32], h[33]) == channels * (bits / 8)
            &&& from_le16(h[34], h[35]) == bits
            &&& from_le32(h[40], h[41], h[42], h[43]) == data_len
        }),
{
    let ba = channels * (bits / 2 / 2 / 2);
    assert(bits / 2 / 2 / 2 == bits / 8);
    assert(rate * ba == rate * channels * (bits / 8)) by (nonlinear_arith)
        requires
            ba == channels * (bits / 8),
    ;
    let h = wav_header_bytes(rate, channels, bits, data_len);
    crate::le::lemma_le32_roundtrip(36 + data_len);
    crate::le::lemma_le32_roundtrip(16);
    crate::le::lemma_le16_roundtrip(1);
    crate::le::lemma_le16_roundtrip(channels as int);
    crate::le::lemma_le32_roundtrip(rate as int);
    crate::le::lemma_le32_roundtrip(rate * ba);
    crate::le::lemma_le16_roundtrip(ba);
    crate::le::lemma_le16_roundtrip(bits as int);
    crate::le::lemma_le32_roundtrip(data_len as int);
    let parts = RIFF@ + le32(36 + data_len) + WAVE@ + FMT@ + le32(16) + le16(1) + le16(channels as int)
        + le32(rate as int) + le32(rate * ba) + le16(ba) + le16(bits as int) + DATA@ + le32(
        data_len as int,
    );
    assert(h == parts);
    assert(h.subrange(0, 4) =~= RIFF@);
    assert(h.subrange(8, 12) =~= WAVE@);
    assert(h.subrange(12, 16) =~= FMT@);
    assert(h.subrange(36, 40) =~= DATA@);
}

/// A pulse train renders from its front: the first pulse as that many
/// samples at the starting level -- 0xE0 when the train starts high, 0x20
/// when it starts low -- then the rest of the train from the other level.
pub proof fn lemma_pcm8_front(a: u32, rest: Seq<u32>, high: bool)
    ensures
        pcm8(seq![a] + rest, high) == Seq::new(a as nat, |i: int| if high { 0xE0u8 } else { 0x20u8 })
            + pcm8(rest, !high),
    decreases rest.len(),
{
    let ps = seq![a] + rest;
    if rest.len() == 0 {
        assert(ps.drop_last() =~= Seq::<u32>::empty());
        assert(pcm8(Seq::<u32>::empty(), high) == Seq::<u8>::empty());
        assert(pcm8(rest, !high) == Seq::<u8>::empty());
        assert(ps.len() == 1 && ps.last() == a);
        assert(level_at(high, 0) == (if high { 0xE0u8 } else { 0x20u8 }));
        assert(pcm8(ps, high) == pcm8(ps.drop_last(), high) + Seq::new(
            ps.last() as nat,
            |i: int| level_at(high, ps.len() - 1),
        ));
        assert(pcm8(ps, high) =~= Seq::new(a as nat, |i: int| if high { 0xE0u8 } else { 0x20u8 }) + pcm8(
            rest,
            !high,
        ));
    } else {
        let first = Seq::new(a as nat, |i: int| if high { 0xE0u8 } else { 0x20u8 });
        lemma_pcm8_front(a, rest.drop_last(), high);
        assert(ps.drop_last() =~= seq![a] + rest.drop_last());
        assert(ps.last() == rest.last());
        assert(level_at(high, ps.len() - 1) == level_at(!high, rest.len() - 1));
        let tail = Seq::new(rest.last() as nat, |i: int| level_at(!high, rest.len() - 1));
        assert(Seq::new(ps.last() as nat, |i: int| level_at(high, ps.len() - 1)) =~= tail);
        assert(pcm8(ps, high) == pcm8(ps.drop_last(), high) + Seq::new(
            ps.last() as nat,
            |i: int| level_at(high, ps.len() - 1),
        ));
        assert(pcm8(rest, !high) == pcm8(rest.drop_last(), !high) + tail);
        assert(pcm8(ps.drop_last(), high) == first + pcm8(rest.drop_last(), !high));
        assert(pcm8(ps, high) =~= first + pcm8(rest, !high));
    }
}

/// The polarity flag decides the first level: a train whose first pulse is
/// not empty starts with 0xE0 exactly when it starts high, and with 0x20
/// otherwise; and it holds one sample for every sample of every pulse.
pub proof fn lemma_pcm8_starts_at_its_polarity(ps: Seq<u32>, high: bool)
    requires
        ps.len() > 0,
        ps[0] > 0,
    ensures
        pcm8(ps, high)[0] == (if high { 0xE0u8 } else { 0x20u8 }),
        pcm8(ps, high).len() >= ps[0],
{
    lemma_pcm8_front(ps[0], ps.drop_first(), high);
    assert(seq![ps[0]] + ps.drop_first() =~= ps);
}

/// The sample window a WAV scan converts starts where the samples do and
/// never runs past the declared data: it is the declared length, cut short
/// by the end of the file. Chunks after the data are not read.
pub proof fn lemma_wav_window(data: Seq<u8>, l: Layout)
    requires
        wav_scan(data) is Ok,
        wav_layout(data, wav_scan(data)->Ok_0.0, wav_scan(data)->Ok_0.1, wav_scan(data)->Ok_0.2, l),
    ensures
        ({
            let (rate, start, declared) = wav_scan(data)->Ok_0;
            &&& l.segments@.len() == 1
            &&& l.segments@[0].offset == start
            &&& l.segments@[0].bytes <= declared
            &&& start <= data.len() ==> l.segments@[0].bytes == (if declared < data.len() - start {
                declared
            } else {
                data.len() - start
            })
            &&& start > data.len() ==> l.segments@[0].bytes == 0
        }),
{
    let (rate, start, declared) = wav_scan(data)->Ok_0;
    assert(declared >= 0);
}

} // verus!
