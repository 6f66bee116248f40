//! CSW v1.01 and v2.00 container read/write: signature, 0x1A, major, minor,
//! then rate (WORD in v1, DWORD in v2), v2's pulse count, compression (1 =
//! RLE, 2 = Z-RLE), flags (bit 0 = initial high), and v2's extension and app.

use std::io::Read;

use vstd::prelude::*;
use vstd::string::StringSliceAdditionalSpecFns;
use vstd::string::StringExecFns;
use vstd::utf8::{decode_utf8, encode_utf8, valid_utf8};

use crate::error::{Error, Msg, Result};
use crate::le::{from_le16, from_le32, le16, le32, push_le16, push_le32, read_le16, read_le32};
use crate::rle::{self, all_positive, first_zero_at, rle_pulses, rle_stream, zero_pulse_message};
use crate::signal::Pulses;
use crate::text::{decimal, lemma_concat_valid, lemma_decimal_valid, lemma_str_valid, push_bytes, push_decimal, push_str, text};

verus! {

/// The signature every CSW file opens with: "Compressed Square Wave".
pub const SIGNATURE: [u8; 22] = [
    0x43, 0x6F, 0x6D, 0x70, 0x72, 0x65, 0x73, 0x73, 0x65, 0x64, 0x20, 0x53, 0x71, 0x75, 0x61, 0x72,
    0x65, 0x20, 0x57, 0x61, 0x76, 0x65,
];

/// The byte written after the signature, and never read back.
pub const TERMINATOR: u8 = 0x1A;

/// The RLE stream's framing: plain, or deflated ("Z-RLE").
#[derive(Debug, Clone, Copy, PartialEq, Eq, Structural)]
pub enum Compression {
    Rle,
    ZRle,
}

/// Header metadata surfaced for the decode status messages.
#[derive(Debug)]
pub struct CswInfo {
    pub major: u8,
    pub minor: u8,
    pub compression: u8,
    /// The encoding-application field (v2 only; empty for v1): the bytes
    /// before the first NUL of the sixteen, or all sixteen followed by the
    /// little-endian bytes of the payload length up to its first zero byte.
    pub app: Vec<u8>,
    /// The pulse count the v2 header declares at 0x1D (`None` for v1).
    pub declared_pulses: Option<u32>,
    /// Sample rate from the header.
    pub rate: u32,
    /// Initial polarity (flags bit 0).
    pub initial_high: bool,
    /// Where the pulse data starts, past the header and its extension.
    pub data_offset: usize,
}

/// The header as a mathematical value.
pub struct InfoModel {
    pub major: u8,
    pub minor: u8,
    pub compression: u8,
    pub app: Seq<u8>,
    pub declared_pulses: Option<u32>,
    pub rate: u32,
    pub initial_high: bool,
    pub data_offset: int,
}

/// Why a header is turned down.
pub enum HeaderFault {
    /// No signature: "not a CSW file".
    BadSignature,
    /// The signature, but not a whole header: abandoned in silence.
    Truncated,
    /// A sampling rate of 0: abandoned in silence.
    ZeroRate,
}

impl CswInfo {
    pub open spec fn model(&self) -> InfoModel {
        InfoModel {
            major: self.major,
            minor: self.minor,
            compression: self.compression,
            app: self.app@,
            declared_pulses: self.declared_pulses,
            rate: self.rate,
            initial_high: self.initial_high,
            data_offset: self.data_offset as int,
        }
    }
}

/// The index of the first zero byte, or the length when there is none.
pub open spec fn first_nul(s: Seq<u8>) -> int
    decreases s.len(),
{
    if s.len() == 0 || s[0] == 0 {
        0
    } else {
        1 + first_nul(s.skip(1))
    }
}

/// A byte as a signed number.
pub open spec fn signed_byte(b: u8) -> int {
    if b < 128 {
        b as int
    } else {
        b - 256
    }
}

/// The v2 application field: the bytes before its first NUL, or, when it has
/// none, all sixteen followed by the bytes of the payload length (taken as a
/// 32-bit word) up to their first zero.
pub open spec fn app_field(field: Seq<u8>, payload: int) -> Seq<u8> {
    if first_nul(field) < field.len() {
        field.take(first_nul(field))
    } else {
        let tail = le32(payload % 0x1_0000_0000);
        field + tail.take(first_nul(tail))
    }
}

/// What the header of `raw` says, or why it is turned down.
pub open spec fn parse_header(raw: Seq<u8>) -> std::result::Result<InfoModel, HeaderFault> {
    if raw.len() < 22 || raw.take(22) != SIGNATURE@ {
        Err(HeaderFault::BadSignature)
    } else if raw.len() < 0x20 {
        Err(HeaderFault::Truncated)
    } else if raw[0x17] == 2 {
        if raw.len() < 0x34 {
            Err(HeaderFault::Truncated)
        } else {
            let start = 0x34 + signed_byte(raw[0x23]);
            let payload = raw.len() - start;
            let rate = from_le32(raw[0x19], raw[0x1A], raw[0x1B], raw[0x1C]);
            if start < 0 || payload < -7 {
                Err(HeaderFault::Truncated)
            } else if rate == 0 {
                Err(HeaderFault::ZeroRate)
            } else {
                Ok(InfoModel {
                    major: 2,
                    minor: raw[0x18],
                    compression: raw[0x21],
                    app: app_field(raw.subrange(0x24, 0x34), payload),
                    declared_pulses: Some(
                        from_le32(raw[0x1D], raw[0x1E], raw[0x1F], raw[0x20]) as u32,
                    ),
                    rate: rate as u32,
                    initial_high: raw[0x22] % 2 == 1,
                    data_offset: if payload < 0 { raw.len() as int } else { start },
                })
            }
        }
    } else {
        // Any major but 2 is read with the v1 layout.
        let rate = from_le16(raw[0x19], raw[0x1A]);
        if rate == 0 {
            Err(HeaderFault::ZeroRate)
        } else {
            Ok(InfoModel {
                major: raw[0x17],
                minor: raw[0x18],
                compression: raw[0x1B],
                app: Seq::empty(),
                declared_pulses: None,
                rate: rate as u32,
                initial_high: raw[0x1C] % 2 == 1,
                data_offset: 0x20,
            })
        }
    }
}

/// The index of the first zero byte of `s[from..to]`, counted from `from`,
/// or `to - from`.
fn find_nul(s: &[u8], from: usize, to: usize) -> (r: usize)
    requires
        from <= to <= s@.len(),
    ensures
        r == first_nul(s@.subrange(from as int, to as int)),
{
    let ghost whole = s@.subrange(from as int, to as int);
    let mut i = from;
    while i < to && s[i] != 0
        invariant
            from <= i <= to <= s@.len(),
            first_nul(whole) == (i - from) + first_nul(s@.subrange(i as int, to as int)),
        decreases to - i,
    {
        proof {
            assert(s@.subrange(i as int, to as int).skip(1) =~= s@.subrange(i + 1, to as int));
        }
        i = i + 1;
    }
    (i - from) as usize
}

proof fn lemma_first_nul_bound(s: Seq<u8>)
    ensures
        0 <= first_nul(s) <= s.len(),
        first_nul(s) < s.len() ==> s[first_nul(s)] == 0,
        forall|k: int| 0 <= k < first_nul(s) ==> s[k] != 0,
    decreases s.len(),
{
    if s.len() > 0 && s[0] != 0 {
        lemma_first_nul_bound(s.skip(1));
        assert forall|k: int| 0 <= k < first_nul(s) implies s[k] != 0 by {
            if k > 0 {
                assert(s[k] == s.skip(1)[k - 1]);
            }
        }
    }
}

/// Whether `raw` opens with the 22 bytes of [`SIGNATURE`].
pub fn has_signature(raw: &[u8]) -> (r: bool)
    ensures
        r == (raw@.len() >= 22 && raw@.take(22) == SIGNATURE@),
{
    if raw.len() < 22 {
        return false;
    }
    let mut i: usize = 0;
    while i < 22
        invariant
            i <= 22 <= raw@.len(),
            forall|k: int| 0 <= k < i ==> raw@[k] == SIGNATURE@[k],
        decreases 22 - i,
    {
        if raw[i] != SIGNATURE[i] {
            proof {
                assert(raw@.take(22)[i as int] != SIGNATURE@[i as int]);
            }
            return false;
        }
        i = i + 1;
    }
    proof {
        assert(raw@.take(22) =~= SIGNATURE@);
    }
    true
}

/// The v2 application field of `raw`, whose payload is `payload` bytes.
fn app_bytes(raw: &[u8], word: u32, payload: Ghost<int>) -> (app: Vec<u8>)
    requires
        raw@.len() >= 0x34,
        word == payload@ % 0x1_0000_0000,
    ensures
        app@ == app_field(raw@.subrange(0x24, 0x34), payload@),
{
    let nul = find_nul(raw, 0x24, 0x34);
    let mut app: Vec<u8> = Vec::new();
    let ghost field = raw@.subrange(0x24, 0x34);
    proof {
        lemma_first_nul_bound(field);
    }
    let limit: usize = if nul < 16 { nul } else { 16 };
    let mut k: usize = 0;
    while k < limit
        invariant
            k <= limit <= 16,
            raw@.len() >= 0x34,
            field == raw@.subrange(0x24, 0x34),
            app@ == field.take(k as int),
        decreases limit - k,
    {
        app.push(raw[0x24 + k]);
        k = k + 1;
        proof {
            assert(app@ =~= field.take(k as int));
        }
    }
    if nul < 16 {
        return app;
    }
    // No terminator: the field runs on into the payload length.
    let mut tail: Vec<u8> = Vec::new();
    push_le32(&mut tail, word);
    let run = find_nul(tail.as_slice(), 0, 4);
    let ghost t = tail@;
    proof {
        assert(tail@.subrange(0, 4) =~= t);
        lemma_first_nul_bound(t);
        assert(field.take(16) =~= field);
    }
    let mut j: usize = 0;
    while j < run
        invariant
            j <= run <= 4,
            tail@ == t,
            t.len() == 4,
            app@ == field + t.take(j as int),
        decreases run - j,
    {
        app.push(tail[j]);
        j = j + 1;
        proof {
            assert(app@ =~= field + t.take(j as int));
        }
    }
    app
}

/// The v2 header of a file that carries the signature and 32 bytes.
fn read_v2(raw: &[u8]) -> (r: Result<CswInfo>)
    requires
        raw@.len() >= 0x20,
        raw@.take(22) == SIGNATURE@,
        raw@[0x17] == 2,
    ensures
        match (r, parse_header(raw@)) {
            (Ok(info), Ok(m)) => info.model() == m,
            (Err(Error::Silent(_)), Err(HeaderFault::Truncated)) => true,
            (Err(Error::Silent(_)), Err(HeaderFault::ZeroRate)) => true,
            _ => false,
        },
{
    if raw.len() < 0x34 {
        return Err(Error::Silent("truncated CSW-2 header".to_owned()));
    }
    let rate = read_le32(raw[0x19], raw[0x1A], raw[0x1B], raw[0x1C]);
    let declared = read_le32(raw[0x1D], raw[0x1E], raw[0x1F], raw[0x20]);
    let ext = raw[0x23];
    // The extension length is a signed byte: 255 is -1, so the pulse data
    // starts one byte inside the header. A length whose offset lands before
    // the file, or more than seven bytes past its end, is not followed.
    if ext >= 128 && (ext as usize) < 0xCC {
        return Err(Error::Silent("truncated CSW-2 header".to_owned()));
    }
    let start: usize = if ext < 128 { 0x34 + ext as usize } else { 0x34 + ext as usize - 256 };
    if raw.len() < start && start - raw.len() > 7 {
        return Err(Error::Silent("truncated CSW-2 header".to_owned()));
    }
    if rate == 0 {
        return Err(Error::Silent("CSW header declares a sampling rate of 0".to_owned()));
    }
    let ghost payload = raw@.len() - start;
    let word: u32 = if raw.len() >= start {
        ((raw.len() - start) as u64 % 0x1_0000_0000) as u32
    } else {
        (0x1_0000_0000u64 - (start - raw.len()) as u64) as u32
    };
    let data_offset: usize = if raw.len() < start { raw.len() } else { start };
    let app = app_bytes(raw, word, Ghost(payload));
    Ok(CswInfo {
        major: 2,
        minor: raw[0x18],
        compression: raw[0x21],
        app,
        declared_pulses: Some(declared),
        rate,
        initial_high: raw[0x22] % 2 == 1,
        data_offset,
    })
}

/// Parse the header alone, leaving the pulse data undecoded.
pub fn read_header(raw: &[u8]) -> (r: Result<CswInfo>)
    ensures
        match (r, parse_header(raw@)) {
            (Ok(info), Ok(m)) => info.model() == m,
            (Err(Error::Format(msg)), Err(HeaderFault::BadSignature)) => msg@
                == "not a CSW file (bad signature)"@,
            (Err(Error::Silent(_)), Err(HeaderFault::Truncated)) => true,
            (Err(Error::Silent(_)), Err(HeaderFault::ZeroRate)) => true,
            _ => false,
        },
{
    if !has_signature(raw) {
        return Err(Error::Format("not a CSW file (bad signature)".to_owned()));
    }
    // A file carrying the signature but not a whole header is abandoned in
    // silence.
    if raw.len() < 0x20 {
        return Err(Error::Silent("truncated CSW file: the header needs 32 bytes".to_owned()));
    }
    if raw[0x17] == 2 {
        return read_v2(raw);
    }
    // Any other major is read with the v1 layout.
    let rate = read_le16(raw[0x19], raw[0x1A]) as u32;
    if rate == 0 {
        return Err(Error::Silent("CSW header declares a sampling rate of 0".to_owned()));
    }
    Ok(CswInfo {
        major: raw[0x17],
        minor: raw[0x18],
        compression: raw[0x1B],
        app: Vec::new(),
        declared_pulses: None,
        rate,
        initial_high: raw[0x1C] % 2 == 1,
        data_offset: 0x20,
    })
}

/// What flate2 makes of the zlib stream `data`, read to its end: the bytes
/// it inflates to, or the text of the error it reports when it does not
/// inflate.
pub uninterp spec fn zlib_inflated(data: Seq<u8>) -> std::result::Result<Seq<u8>, Seq<char>>;

/// flate2's `read::ZlibDecoder`, read to its end through `Read::read_to_end`,
/// an error taken as its text (`ToString::to_string`). Its contract names
/// the result: the bytes the stream inflates to, or the error's text.
#[verifier::external_body]
fn zlib_inflate(data: &[u8]) -> (r: std::result::Result<Vec<u8>, String>)
    ensures
        match zlib_inflated(data@) {
            Ok(v) => r matches Ok(x) && x@ == v,
            Err(t) => r matches Err(x) && x@ == t,
        },
{
    let mut out = Vec::new();
    match flate2::read::ZlibDecoder::new(data).read_to_end(&mut out) {
        Ok(_) => Ok(out),
        Err(e) => Err(e.to_string()),
    }
}

/// `ToString::to_string` of an I/O error: its text. Nothing is claimed of it.
#[verifier::external_body]
pub(crate) fn io_error_text(e: &std::io::Error) -> String {
    e.to_string()
}

/// The message a compression type the decoder does not know is refused
/// with.
pub open spec fn unsupported_message(other: u8) -> Seq<u8> {
    "CSW compression type #".spec_bytes() + decimal(other as nat)
        + " not supported, please upgrade this tool.".spec_bytes()
}

fn unsupported_compression(other: u8) -> (e: Error)
    ensures
        (e matches Error::Input(m, code) && code == 251 && m.bytes() == unsupported_message(other)),
{
    let mut msg: Vec<u8> = Vec::new();
    push_str(&mut msg, "CSW compression type #");
    push_decimal(&mut msg, other as u64);
    push_str(&mut msg, " not supported, please upgrade this tool.");
    Error::Input(Msg::from_bytes(msg), 251)
}

/// The pulses the payload `data` of a stream compressed as `compression`
/// holds: type 1 is plain RLE, type 2 Z-RLE, type 0 an empty stream; `None`
/// for a stream that does not inflate, or a type above the known two.
pub open spec fn payload_pulses(compression: u8, data: Seq<u8>) -> Option<Seq<u32>> {
    if compression == 0 {
        Some(Seq::empty())
    } else if compression == 1 {
        Some(rle_pulses(data))
    } else if compression == 2 {
        match zlib_inflated(data) {
            Ok(b) => Some(rle_pulses(b)),
            Err(_) => None,
        }
    } else {
        None
    }
}

/// The message of a pulse stream that does not inflate: "bad pulse
/// stream: " and the text of flate2's complaint.
pub open spec fn bad_stream_message(data: Seq<u8>) -> Seq<char> {
    "bad pulse stream: "@ + zlib_inflated(data)->Err_0
}

/// The pulse data of a CSW file, walked afresh by each call of `pulses`.
pub struct CswPulses<'a> {
    data: &'a [u8],
    compression: u8,
    rate: u32,
    initial_high: bool,
}

impl<'a> CswPulses<'a> {
    pub closed spec fn data(&self) -> Seq<u8> {
        self.data@
    }

    pub closed spec fn compression(&self) -> u8 {
        self.compression
    }

    pub closed spec fn spec_rate(&self) -> u32 {
        self.rate
    }

    pub closed spec fn spec_initial_high(&self) -> bool {
        self.initial_high
    }

    /// One walk of the pulses: plain RLE, inflated Z-RLE, or nothing for type
    /// 0. A type above the known two is refused here, on the walk, since the
    /// header line is printed before anything looks at it.
    pub fn pulses(&self) -> (r: Result<Vec<u32>>)
        ensures
            self.compression() <= 2 && payload_pulses(self.compression(), self.data()) is Some
                ==> (r matches Ok(v) && v@ == payload_pulses(self.compression(), self.data())->Some_0),
            self.compression() == 2 && zlib_inflated(self.data()) is Err ==> (r matches Err(
                Error::Format(m),
            ) && m@ == bad_stream_message(self.data())),
            self.compression() > 2 ==> (r matches Err(Error::Input(m, code)) && code == 251
                && m.bytes() == unsupported_message(self.compression())),
    {
        match self.compression {
            0 => Ok(Vec::new()),
            1 => Ok(rle::decode(self.data)),
            2 => match zlib_inflate(self.data) {
                Ok(stream) => Ok(rle::decode(stream.as_slice())),
                Err(detail) => Err(
                    Error::Format(String::from_str("bad pulse stream: ").concat(detail.as_str())),
                ),
            },
            other => Err(unsupported_compression(other)),
        }
    }

    pub fn rate(&self) -> (r: u32)
        ensures
            r == self.spec_rate(),
    {
        self.rate
    }

    pub fn initial_high(&self) -> (r: bool)
        ensures
            r == self.spec_initial_high(),
    {
        self.initial_high
    }
}

/// The pulse data a [`read_header`] left, as something to walk. The
/// compression type is checked by the first walk.
pub fn pulse_source<'a>(info: &CswInfo, data: &'a [u8]) -> (p: CswPulses<'a>)
    ensures
        p.data() == data@,
        p.compression() == info.compression,
        p.spec_rate() == info.rate,
        p.spec_initial_high() == info.initial_high,
{
    CswPulses { data, compression: info.compression, rate: info.rate, initial_high: info.initial_high }
}

/// Decompress and run-length-decode the pulse data into [`Pulses`].
pub fn decode_pulses(info: &CswInfo, data: &[u8]) -> (r: Result<Pulses>)
    ensures
        info.compression <= 2 && payload_pulses(info.compression, data@) is Some ==> (r matches Ok(p)
            && p.pulses@ == payload_pulses(info.compression, data@)->Some_0 && p.rate == info.rate
            && p.initial_high == info.initial_high && p.declared == p.pulses@.len()),
        info.compression == 2 && zlib_inflated(data@) is Err ==> (r matches Err(Error::Format(m))
            && m@ == bad_stream_message(data@)),
        info.compression > 2 ==> (r matches Err(Error::Input(m, code)) && code == 251 && m.bytes()
            == unsupported_message(info.compression)),
{
    let src = pulse_source(info, data);
    let pulses = src.pulses()?;
    Ok(Pulses::new(info.rate, pulses, info.initial_high))
}

/// How a header fault is reported: the missing signature by its line,
/// a truncated header and a zero rate in silence.
pub open spec fn header_fault_reported(f: HeaderFault, e: Error) -> bool {
    match f {
        HeaderFault::BadSignature => e matches Error::Format(msg) && msg@
            == "not a CSW file (bad signature)"@,
        HeaderFault::Truncated => e is Silent,
        HeaderFault::ZeroRate => e is Silent,
    }
}

/// How a payload that does not decode is reported: a compression type
/// past the two known with its line and exit code 251, a Z-RLE stream that
/// does not inflate as a format error quoting flate2 (see
/// [`bad_stream_message`]).
pub open spec fn payload_fault_reported(compression: u8, data: Seq<u8>, e: Error) -> bool {
    if compression > 2 {
        e matches Error::Input(m, code) && code == 251 && m.bytes() == unsupported_message(compression)
    } else {
        e matches Error::Format(m) && m@ == bad_stream_message(data)
    }
}

/// Parse a CSW file, also returning its header metadata.
pub fn read_info(raw: &[u8]) -> (r: Result<(Pulses, CswInfo)>)
    ensures
        parse_header(raw@) matches Err(f) ==> (r matches Err(e) && header_fault_reported(f, e)),
        parse_header(raw@) matches Ok(m) ==> (payload_pulses(m.compression, raw@.skip(m.data_offset))
            is None ==> (r matches Err(e) && payload_fault_reported(m.compression, raw@.skip(m.data_offset), e))),
        r matches Ok((p, info)) ==> (parse_header(raw@) == Ok::<InfoModel, HeaderFault>(info.model())
            && info.compression <= 2 && payload_pulses(
            info.compression,
            raw@.skip(info.data_offset as int),
        ) == Some(p.pulses@) && p.rate == info.rate && p.initial_high == info.initial_high
            && p.declared == p.pulses@.len()),
        parse_header(raw@) matches Ok(m) && m.compression <= 2 && payload_pulses(
            m.compression,
            raw@.skip(m.data_offset),
        ) is Some ==> r is Ok,
{
    let info = read_header(raw)?;
    proof {
        assert(info.data_offset <= raw@.len());
    }
    let data = slice_from(raw, info.data_offset);
    let pulses = decode_pulses(&info, data)?;
    Ok((pulses, info))
}

/// Parse a CSW v1 or v2 file into pulses.
pub fn read(raw: &[u8]) -> (r: Result<Pulses>)
    ensures
        parse_header(raw@) matches Err(f) ==> (r matches Err(e) && header_fault_reported(f, e)),
        parse_header(raw@) matches Ok(m) ==> (payload_pulses(m.compression, raw@.skip(m.data_offset))
            is None ==> (r matches Err(e) && payload_fault_reported(m.compression, raw@.skip(m.data_offset), e))),
        r matches Ok(p) ==> (parse_header(raw@) matches Ok(m) && m.compression <= 2 && payload_pulses(
            m.compression,
            raw@.skip(m.data_offset),
        ) == Some(p.pulses@) && p.rate == m.rate && p.initial_high == m.initial_high
            && p.declared == p.pulses@.len()),
        parse_header(raw@) matches Ok(m) && m.compression <= 2 && payload_pulses(
            m.compression,
            raw@.skip(m.data_offset),
        ) is Some ==> r is Ok,
{
    let (p, _info) = read_info(raw)?;
    Ok(p)
}

/// `data[from..]`, through the slice index of std.
pub fn slice_from(data: &[u8], from: usize) -> (r: &[u8])
    requires
        from <= data@.len(),
    ensures
        r@ == data@.skip(from as int),
{
    vstd::slice::slice_subrange(data, from, data.len())
}

/// The bytes of a CSW header: signature, terminator, then the v1 or the v2
/// layout.
pub open spec fn header_bytes(
    rate: u32,
    declared: u64,
    initial_high: bool,
    version: u8,
    comp: u8,
    app: Seq<u8>,
) -> Seq<u8> {
    let flags: u8 = if initial_high { 1 } else { 0 };
    SIGNATURE@ + seq![TERMINATOR] + if version == 1 {
        seq![1u8, 1u8] + le16(rate as int % 0x10000) + seq![comp, flags, 0u8, 0u8, 0u8]
    } else {
        seq![2u8, 0u8] + le32(rate as int) + le32(declared as int % 0x1_0000_0000) + seq![
            comp,
            flags,
            0u8,
        ] + Seq::new(16, |i: int| if i < 15 && i < app.len() { app[i] } else { 0u8 })
    }
}

/// The compression byte each framing is stamped with.
pub open spec fn compression_byte(c: Compression) -> u8 {
    match c {
        Compression::Rle => 1,
        Compression::ZRle => 2,
    }
}

/// Append the header [`header_bytes`] describes.
fn push_header(
    out: &mut Vec<u8>,
    sig: &Pulses,
    version: u8,
    comp: u8,
    app: &str,
)
    ensures
        final(out)@ == old(out)@ + header_bytes(
            sig.rate,
            sig.declared,
            sig.initial_high,
            version,
            comp,
            app.spec_bytes(),
        ),
{
    let ghost start = out@;
    let flags: u8 = if sig.initial_high { 0x01 } else { 0x00 };
    let mut i: usize = 0;
    while i < 22
        invariant
            i <= 22,
            out@ == start + SIGNATURE@.take(i as int),
        decreases 22 - i,
    {
        out.push(SIGNATURE[i]);
        i = i + 1;
        proof {
            assert(out@ =~= start + SIGNATURE@.take(i as int));
        }
    }
    proof {
        assert(SIGNATURE@.take(22) =~= SIGNATURE@);
    }
    out.push(TERMINATOR);
    let ghost head = out@;
    if version == 1 {
        out.push(0x01);
        out.push(0x01);
        push_le16(out, (sig.rate % 0x10000) as u16);
        out.push(comp);
        out.push(flags);
        out.push(0);
        out.push(0);
        out.push(0);
        proof {
            assert(out@ =~= start + header_bytes(
                sig.rate,
                sig.declared,
                sig.initial_high,
                version,
                comp,
                app.spec_bytes(),
            ));
        }
    } else {
        out.push(0x02);
        out.push(0x00);
        push_le32(out, sig.rate);
        push_le32(out, (sig.declared % 0x1_0000_0000) as u32);
        out.push(comp);
        out.push(flags);
        out.push(0x00);
        let ghost before_name = out@;
        let name = app.as_bytes();
        let mut k: usize = 0;
        while k < 16
            invariant
                k <= 16,
                name@ == app.spec_bytes(),
                out@ == before_name + Seq::new(
                    k as nat,
                    |i: int| if i < 15 && i < name@.len() { name@[i] } else { 0u8 },
                ),
            decreases 16 - k,
        {
            let b: u8 = if k < 15 && k < name.len() { name[k] } else { 0 };
            out.push(b);
            k = k + 1;
            proof {
                assert(out@ =~= before_name + Seq::new(
                    k as nat,
                    |i: int| if i < 15 && i < name@.len() { name@[i] } else { 0u8 },
                ));
            }
        }
        proof {
            assert(out@ =~= start + header_bytes(
                sig.rate,
                sig.declared,
                sig.initial_high,
                version,
                comp,
                app.spec_bytes(),
            ));
        }
    }
}

/// Write a CSW file: the header for `version` (1 or 2) and the RLE stream,
/// deflated by `deflate` when `compression` asks for Z-RLE. v1 has plain RLE
/// only. A zero-length pulse has no RLE form and is refused.
pub fn write<F>(sig: &Pulses, version: u8, compression: Compression, app: &str, deflate: F) -> (r:
    Result<Vec<u8>>) where F: Fn(&[u8]) -> Result<Vec<u8>>
    requires
        !(version == 1 && compression == Compression::ZRle),
        forall|s: &[u8]| deflate.requires((s,)),
    ensures
        !all_positive(sig.pulses@) ==> (r matches Err(Error::Format(m)) && exists|i: int|
            first_zero_at(sig.pulses@, i) && m@ == decode_utf8(zero_pulse_message(i as nat))),
        all_positive(sig.pulses@) && compression == Compression::Rle ==> (r matches Ok(v) && v@
            == header_bytes(sig.rate, sig.declared, sig.initial_high, version, 1, app.spec_bytes())
            + rle_stream(sig.pulses@)),
        all_positive(sig.pulses@) && compression == Compression::ZRle ==> (r matches Ok(v)
            ==> exists|s: &[u8], p: Vec<u8>|
            s@ == rle_stream(sig.pulses@) && deflate.ensures((s,), Ok::<Vec<u8>, Error>(p)) && v@
                == header_bytes(sig.rate, sig.declared, sig.initial_high, version, 2, app.spec_bytes())
                + p@),
        all_positive(sig.pulses@) && compression == Compression::ZRle ==> (r matches Err(e)
            ==> exists|s: &[u8]| s@ == rle_stream(sig.pulses@) && deflate.ensures((s,), Err::<Vec<u8>, Error>(e))),
{
    let rle_stream = rle::encode(sig.pulses.as_slice())?;
    let comp_byte: u8 = match compression {
        Compression::Rle => 0x01,
        Compression::ZRle => 0x02,
    };
    let payload = match compression {
        Compression::Rle => rle_stream,
        Compression::ZRle => deflate(rle_stream.as_slice())?,
    };
    let mut out: Vec<u8> = Vec::new();
    push_header(&mut out, sig, version, comp_byte, app);
    push_bytes(&mut out, payload.as_slice());
    Ok(out)
}

/// What a read gives back of a write: a plain-RLE CSW written from pulses
/// of positive length, at a rate the header can carry (not zero, and below
/// 65536 for v1's 16-bit field), reads back with that rate, that polarity,
/// RLE compression, and exactly those pulses.
pub proof fn lemma_csw_roundtrip(
    rate: u32,
    declared: u64,
    initial_high: bool,
    version: u8,
    app: Seq<u8>,
    ps: Seq<u32>,
)
    requires
        all_positive(ps),
        rate != 0,
        version == 1 ==> rate < 0x10000,
    ensures
        ({
            let raw = header_bytes(rate, declared, initial_high, version, 1, app) + rle_stream(ps);
            parse_header(raw) matches Ok(m) && m.rate == rate && m.initial_high == initial_high
                && m.compression == 1 && m.major == (if version == 1 {
                1u8
            } else {
                2u8
            }) && payload_pulses(m.compression, raw.skip(m.data_offset)) == Some(ps)
        }),
{
    let h = header_bytes(rate, declared, initial_high, version, 1, app);
    let raw = h + rle_stream(ps);
    crate::rle::lemma_roundtrip(ps);
    assert(raw.take(22) =~= SIGNATURE@);
    if version == 1 {
        crate::le::lemma_le16_roundtrip(rate as int);
        assert(h.len() == 0x20);
        assert(raw.skip(0x20) =~= rle_stream(ps));
        assert(raw[0x17] == 1);
        assert(raw[0x19] == le16(rate as int % 0x10000)[0]);
        assert(raw[0x1A] == le16(rate as int % 0x10000)[1]);
        assert(raw[0x1B] == 1);
        assert(raw[0x1C] == if initial_high { 1u8 } else { 0u8 });
    } else {
        crate::le::lemma_le32_roundtrip(rate as int);
        assert(h.len() == 0x34);
        assert(raw.skip(0x34) =~= rle_stream(ps));
        assert(raw[0x17] == 2);
        assert(raw[0x19] == le32(rate as int)[0]);
        assert(raw[0x1A] == le32(rate as int)[1]);
        assert(raw[0x1B] == le32(rate as int)[2]);
        assert(raw[0x1C] == le32(rate as int)[3]);
        assert(raw[0x21] == 1);
        assert(raw[0x22] == if initial_high { 1u8 } else { 0u8 });
        assert(raw[0x23] == 0);
    }
}

/// A Z-RLE file reads back to its pulses: the header it was written with,
/// and the pulses whose RLE stream its payload inflates to. That zlib's
/// inflate undoes its deflate is zlib's promise, not proved here; given
/// it, what a read gives back of a Z-RLE write is what was written.
pub proof fn lemma_zrle_roundtrip(
    rate: u32,
    declared: u64,
    initial_high: bool,
    app: Seq<u8>,
    ps: Seq<u32>,
    payload: Seq<u8>,
)
    requires
        all_positive(ps),
        rate != 0,
        zlib_inflated(payload) == std::result::Result::<Seq<u8>, Seq<char>>::Ok(rle_stream(ps)),
    ensures
        ({
            let raw = header_bytes(rate, declared, initial_high, 2, 2, app) + payload;
            parse_header(raw) matches Ok(m) && m.rate == rate && m.initial_high == initial_high
                && m.compression == 2 && m.major == 2 && payload_pulses(
                m.compression,
                raw.skip(m.data_offset),
            ) == Some(ps)
        }),
{
    let h = header_bytes(rate, declared, initial_high, 2, 2, app);
    let raw = h + payload;
    crate::rle::lemma_roundtrip(ps);
    assert(raw.take(22) =~= SIGNATURE@);
    crate::le::lemma_le32_roundtrip(rate as int);
    assert(h.len() == 0x34);
    assert(raw.skip(0x34) =~= payload);
    assert(raw[0x17] == 2);
    assert(raw[0x19] == le32(rate as int)[0]);
    assert(raw[0x1A] == le32(rate as int)[1]);
    assert(raw[0x1B] == le32(rate as int)[2]);
    assert(raw[0x1C] == le32(rate as int)[3]);
    assert(raw[0x21] == 2);
    assert(raw[0x22] == if initial_high { 1u8 } else { 0u8 });
    assert(raw[0x23] == 0);
}

} // verus!
