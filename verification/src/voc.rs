//! Creative Voice File (VOC) read/write: reads 8-bit mono PCM (block types
//! 1/2/3/8/9), writes a **v1.10** file in block-1 chunks with the rate as a
//! block-1 time constant.

use vstd::prelude::*;
use vstd::string::StringSliceAdditionalSpecFns;
use vstd::utf8::{decode_utf8, valid_utf8};

use crate::error::{Error, Msg};
use crate::le::{le16, le32, push_le16};
use crate::signal::{sum_all, Pulses};
use crate::source::{runs_bytes, Encoding, Layout, Segment};
use crate::wav::{level_at, pcm8, HIGH_8, LOW_8};
use crate::text::{
    decimal, is_ascii_bytes, lemma_ascii_valid_utf8, lemma_concat_valid, lemma_decimal_valid,
    lemma_str_valid, push_decimal, push_str, text,
};

verus! {

/// The signature a VOC file opens with: "Creative Voice File" and 0x1A.
pub const MAGIC: [u8; 20] = [
    0x43, 0x72, 0x65, 0x61, 0x74, 0x69, 0x76, 0x65, 0x20, 0x56, 0x6F, 0x69, 0x63, 0x65, 0x20,
    0x46, 0x69, 0x6C, 0x65, 0x1A,
];

/// 1.10: block-1 files, the widely-played form.
pub const VERSION: u16 = 0x010A;

/// Where the block area starts, the only data offset accepted.
pub const MARK: u64 = 26;

/// The reader's buffer: past the end of the file, reads come from it.
pub const BUFFER: u64 = 0x40000;

/// The refusal for a VOC whose block-9 codec word is not PCM, printed bare.
pub const VOC_ONLY_8_BIT: &'static str = "Sorry, only 8-bit mono PCM VOC files are supported.";
/// The pack byte of a block 1: its own line, with no full stop.
pub const VOC_COMPRESSED: &'static str = "Sorry, compressed blocks are not yet supported";
/// A block **9** declaring more than one channel.
pub const VOC_STEREO: &'static str = "Sorry, stereo VOC files are not yet supported.";
/// The block-8 spelling of it, without the full stop.
pub const VOC_STEREO_EXT: &'static str = "Sorry, stereo VOC files are not yet supported";
/// A block 9 whose width is not 8. The text says 16 whatever the width is.
pub const VOC_16_BIT: &'static str = "Sorry, 16 bit samples are not yet supported.";
/// The line for a file that is not a VOC.
pub const WRONG_TYPE: &'static str = "Wrong file type";
/// The line for a VOC whose structure cannot be walked.
pub const CORRUPT: &'static str = "Input file is corrupted or in a wrong format";
/// The line for a block 8 with a nonzero pack byte.
pub const NONSENSE: &'static str = "Extended block contains nonsense data";

/// Why a VOC is turned down.
#[derive(Debug, Clone, Copy, PartialEq, Eq, Structural)]
pub enum VocFault {
    /// No magic.
    WrongType,
    /// A header, a data offset or a block type that cannot be walked.
    Corrupt,
    /// A repeat block, refused by name: the start of a loop (type 6), or
    /// its end (type 7) when the flag is set.
    Repeat(bool),
    /// A block 1 with a nonzero pack byte.
    Compressed,
    /// A block 8 with a nonzero pack byte.
    Nonsense,
    /// A block 8 declaring stereo.
    StereoExt,
    /// A block 9 whose width is not 8.
    Bits16,
    /// A block 9 declaring more than one channel.
    Stereo,
    /// A block 9 whose codec is not PCM.
    OnlyPcm,
}

/// The words of a repeat-block refusal, the type printed as a raw byte.
pub open spec fn block_type_line(btype: u8) -> Seq<u8> {
    "Sorry, block type ".spec_bytes() + seq![btype]
        + " of VOC files is not yet supported.".spec_bytes()
}

/// The error each fault is reported as.
pub open spec fn fault_reported(f: VocFault, e: Error) -> bool {
    match f {
        VocFault::WrongType => e matches Error::Fatal(m) && m.bytes() == WRONG_TYPE.spec_bytes(),
        VocFault::Corrupt => e matches Error::Fatal(m) && m.bytes() == CORRUPT.spec_bytes(),
        VocFault::Nonsense => e matches Error::Fatal(m) && m.bytes() == NONSENSE.spec_bytes(),
        VocFault::Repeat(end) => e matches Error::Refused(s) && s@ == decode_utf8(
            block_type_line(if end { 7 } else { 6 }),
        ),
        VocFault::Compressed => e matches Error::Refused(s) && s@ == VOC_COMPRESSED@,
        VocFault::StereoExt => e matches Error::Refused(s) && s@ == VOC_STEREO_EXT@,
        VocFault::Bits16 => e matches Error::Refused(s) && s@ == VOC_16_BIT@,
        VocFault::Stereo => e matches Error::Refused(s) && s@ == VOC_STEREO@,
        VocFault::OnlyPcm => e matches Error::Refused(s) && s@ == VOC_ONLY_8_BIT@,
    }
}

/// The error a fault is reported as.
pub fn fault_error(f: VocFault) -> (e: Error)
    ensures
        fault_reported(f, e),
{
    match f {
        VocFault::WrongType => Error::Fatal(Msg::from_text(WRONG_TYPE)),
        VocFault::Corrupt => Error::Fatal(Msg::from_text(CORRUPT)),
        VocFault::Nonsense => Error::Fatal(Msg::from_text(NONSENSE)),
        VocFault::Repeat(end) => {
            let t: u8 = if end {
                7
            } else {
                6
            };
            let mut v: Vec<u8> = Vec::new();
            push_str(&mut v, "Sorry, block type ");
            v.push(t);
            push_str(&mut v, " of VOC files is not yet supported.");
            proof {
                assert(v@ =~= block_type_line(t));
                lemma_str_valid("Sorry, block type ");
                lemma_str_valid(" of VOC files is not yet supported.");
                assert(is_ascii_bytes(seq![t]));
                lemma_ascii_valid_utf8(seq![t]);
                lemma_concat_valid("Sorry, block type ".spec_bytes(), seq![t]);
                lemma_concat_valid(
                    "Sorry, block type ".spec_bytes() + seq![t],
                    " of VOC files is not yet supported.".spec_bytes(),
                );
            }
            Error::Refused(text(v))
        },
        VocFault::Compressed => Error::Refused(VOC_COMPRESSED.to_owned()),
        VocFault::StereoExt => Error::Refused(VOC_STEREO_EXT.to_owned()),
        VocFault::Bits16 => Error::Refused(VOC_16_BIT.to_owned()),
        VocFault::Stereo => Error::Refused(VOC_STEREO.to_owned()),
        VocFault::OnlyPcm => Error::Refused(VOC_ONLY_8_BIT.to_owned()),
    }
}

/// `rate` read as a signed 32-bit number.
pub open spec fn signed_rate(rate: u32) -> int {
    if rate < 0x8000_0000 {
        rate as int
    } else {
        rate - 0x1_0000_0000
    }
}

/// `a / b` truncated toward zero.
pub open spec fn trunc_div(a: int, b: int) -> int {
    if (a >= 0) == (b > 0) {
        if a >= 0 {
            a / b
        } else {
            (-a) / (-b)
        }
    } else {
        if a >= 0 {
            -(a / (-b))
        } else {
            -((-a) / b)
        }
    }
}

/// The block-1 time constant for `rate`: `256 - 1e6/rate`, the half added
/// *before* truncation toward zero, taken as a byte with no range check. The
/// rate divides in as a **signed** int, and a rate of zero gives 0.
///
/// `256 - 1e6/r + 1/2` is `(513 r - 2e6) / 2r`, a fraction whose distance
/// from the nearest integer, when it is not one, is far above the error of
/// the floating-point computation that the format's writers perform; so the
/// exact quotient, truncated, is the constant they write.
pub open spec fn time_constant_of(rate: u32) -> u8 {
    let r = signed_rate(rate);
    if r == 0 {
        0
    } else {
        (trunc_div(513 * r - 2_000_000, 2 * r) % 256) as u8
    }
}

/// The block-1 time constant for `rate` (see [`time_constant_of`]).
///
/// Adding the half first is not rounding the division: at 16000 Hz and
/// 80000 Hz the two differ by one. Below 3906 Hz the constant wraps into the
/// byte, so 1000 Hz gives 25 and 1 Hz gives 193. A reader recovers
/// `1_000_000/(256-tc)`, so 44100 Hz comes back as 43478.
pub fn time_constant(rate: u32) -> (tc: u8)
    ensures
        tc == time_constant_of(rate),
{
    if rate == 0 {
        return 0;
    }
    // The quotient's magnitude, and whether it is negative.
    let (mag, negative): (u64, bool) = if rate < 0x8000_0000 {
        let r = rate as u64;
        let num_pos = 513 * r;
        if num_pos >= 2_000_000 {
            ((num_pos - 2_000_000) / (2 * r), false)
        } else {
            ((2_000_000 - num_pos) / (2 * r), true)
        }
    } else {
        // A negative rate: numerator and denominator are both negative.
        let s = 0x1_0000_0000u64 - rate as u64;
        ((513 * s + 2_000_000) / (2 * s), false)
    };
    let low = mag % 256;
    let tc: u64 = if negative && low != 0 {
        256 - low
    } else {
        low
    };
    proof {
        let r = signed_rate(rate);
        let q = trunc_div(513 * r - 2_000_000, 2 * r);
        if rate < 0x8000_0000 {
            if 513 * rate >= 2_000_000 {
                assert(q == mag);
            } else {
                assert(q == -(mag as int));
                assert((-(mag as int)) % 256 == if mag % 256 == 0 { 0 } else { 256 - mag % 256 })
                    by (nonlinear_arith);
            }
        } else {
            let s = 0x1_0000_0000int - rate;
            assert(513 * r - 2_000_000 == -(513 * s + 2_000_000));
            assert(2 * r == -(2 * s));
            assert(q == mag);
        }
    }
    tc as u8
}

/// VOC block-1 time constant -> sample rate (Hz).
pub fn tc_to_rate(tc: u8) -> (rate: u32)
    ensures
        rate == 1_000_000int / (256 - tc as int),
{
    1_000_000 / (256 - tc as u32)
}

/// A block's header, as far as the walks over a file need it.
#[derive(Debug, Clone, Copy, PartialEq, Eq, Structural)]
pub struct Block {
    /// The 24-bit length the block claims.
    pub claimed: u32,
    /// Bytes of header before the samples, inside the claimed length.
    pub header: u32,
    /// The claimed length less the header, wrapping at 32 bits.
    pub length: u32,
    /// Whether its payload is converted as sound.
    pub sound: bool,
    /// Whether its length counts towards the declared samples.
    pub counted: bool,
    /// The rate it carries.
    pub rate: Option<u32>,
    /// Whether it is one of the extended types (8 and 9).
    pub extended: bool,
}

/// The rate each kind of block carries, as the VOC format defines it: a
/// block 1 the `1000000 / (256 - tc)` of its 8-bit time constant, a block 8
/// (packing 0, mono) the `256000000 / (65536 - tc)` of its 16-bit time
/// constant, and a block 9 the 32-bit rate it spells out.
pub proof fn lemma_block_rates(btype: u8, h: Seq<u8>)
    requires
        h.len() >= 11,
    ensures
        btype == 1 && h[4] == 0 ==> (block_of(btype, h) matches Ok(b) && b.rate == Some(
            (1_000_000int / (256 - h[3])) as u32,
        )),
        btype == 8 && h[5] == 0 && h[6] == 0 ==> (block_of(btype, h) matches Ok(b) && b.rate == Some(
            (256_000_000int / (65536 - crate::le::from_le16(h[3], h[4]))) as u32,
        ) && b.rate->Some_0 == 256_000_000int / (65536 - crate::le::from_le16(h[3], h[4]))),
        btype == 9 && h[7] == 8 && h[8] <= 1 && h[9] == 0 && h[10] == 0 ==> (block_of(btype, h) matches Ok(
            b,
        ) && b.rate == Some(crate::le::from_le32(h[3], h[4], h[5], h[6]) as u32)),
        btype == 2 || btype == 3 || btype == 4 || btype == 5 ==> (block_of(btype, h) matches Ok(b)
            && b.rate is None),
{
    let tc = crate::le::from_le16(h[3], h[4]);
    assert(0 <= tc < 65536);
    assert(256_000_000int / (65536 - tc) <= 256_000_000) by (nonlinear_arith)
        requires
            0 <= tc < 65536,
    ;
}

/// For the rates a block 1 can carry, the time constant written is
/// `256 - 1000000 / rate` rounded to the nearest integer, halves up: `tc`
/// is the whole number with `tc <= 256 - 1000000 / rate + 1/2 < tc + 1`.
pub proof fn lemma_time_constant_rounds(rate: u32)
    requires
        3907 <= rate < 2_000_000,
    ensures
        2 * rate * time_constant_of(rate) <= 513 * rate - 2_000_000 < 2 * rate * (time_constant_of(rate) + 1),
{
    let r = rate as int;
    let q = (513 * r - 2_000_000) / (2 * r);
    assert(513 * r - 2_000_000 > 0);
    assert(0 <= q < 256) by (nonlinear_arith)
        requires
            3907 <= r < 2_000_000,
            q == (513 * r - 2_000_000) / (2 * r),
    ;
    assert(2 * r * q <= 513 * r - 2_000_000 < 2 * r * (q + 1)) by (nonlinear_arith)
        requires
            r > 0,
            q == (513 * r - 2_000_000) / (2 * r),
    ;
    assert(time_constant_of(rate) == q);
}

/// How many header bytes follow a block's type byte before its data: none
/// for a type that is refused before its length is read.
pub open spec fn header_len(btype: u8) -> nat {
    if btype == 1 {
        5
    } else if btype == 2 || btype == 4 || btype == 5 {
        3
    } else if btype == 3 {
        6
    } else if btype == 8 {
        7
    } else if btype == 9 {
        15
    } else {
        0
    }
}

/// The number of header bytes that follow a block's type byte.
pub fn header_len_of(btype: u8) -> (n: usize)
    ensures
        n == header_len(btype),
{
    if btype == 1 {
        5
    } else if btype == 2 || btype == 4 || btype == 5 {
        3
    } else if btype == 3 {
        6
    } else if btype == 8 {
        7
    } else if btype == 9 {
        15
    } else {
        0
    }
}

/// `x - y` wrapping at 32 bits.
pub open spec fn wrap_sub(x: u32, y: u32) -> u32 {
    if x < y {
        (x - y + 0x1_0000_0000) as u32
    } else {
        (x - y) as u32
    }
}

/// The block a type byte and the header bytes after it describe. `h` is the
/// 24-bit length, then the type's own fields:
/// - 1: time constant, pack byte (nonzero refused);
/// - 2: nothing (raw samples);
/// - 3: silence: a 16-bit length and a time constant, dropped;
/// - 4, 5: nothing; a marker or a text block is converted as sound,
///   uncounted;
/// - 8: a 16-bit time constant, pack byte (nonzero refused first), mode byte
///   (nonzero is stereo): rate `256000000 / (65536 - tc)`;
/// - 9: rate, width (8 only), channels (more than one refused), codec word
///   (0 only), four reserved bytes.
///
/// Repeat blocks (6, 7) are refused by name, and a type from 10 up is a
/// corrupt file, both before any length is read.
pub open spec fn block_of(btype: u8, h: Seq<u8>) -> Result<Block, VocFault> {
    if btype == 6 || btype == 7 {
        Err(VocFault::Repeat(btype == 7))
    } else if btype >= 10 {
        Err(VocFault::Corrupt)
    } else {
        let claimed = (h[0] + 256 * h[1] + 65536 * h[2]) as u32;
        let plain = Block {
            claimed,
            header: 0,
            length: claimed,
            sound: true,
            counted: false,
            rate: None,
            extended: false,
        };
        if btype == 1 {
            if h[4] != 0 {
                Err(VocFault::Compressed)
            } else {
                Ok(
                    Block {
                        header: 2,
                        length: wrap_sub(claimed, 2),
                        counted: true,
                        rate: Some((1_000_000int / (256 - h[3])) as u32),
                        ..plain
                    },
                )
            }
        } else if btype == 2 {
            Ok(Block { counted: true, ..plain })
        } else if btype == 3 {
            Ok(Block { header: 3, sound: false, ..plain })
        } else if btype == 8 {
            if h[5] != 0 {
                Err(VocFault::Nonsense)
            } else if h[6] != 0 {
                Err(VocFault::StereoExt)
            } else {
                Ok(
                    Block {
                        header: 4,
                        sound: false,
                        rate: Some((256_000_000int / (65536 - (h[3] + 256 * h[4]))) as u32),
                        extended: true,
                        ..plain
                    },
                )
            }
        } else if btype == 9 {
            if h[7] != 8 {
                Err(VocFault::Bits16)
            } else if h[8] > 1 {
                Err(VocFault::Stereo)
            } else if h[9] != 0 || h[10] != 0 {
                Err(VocFault::OnlyPcm)
            } else {
                Ok(
                    Block {
                        header: 12,
                        length: wrap_sub(claimed, 12),
                        counted: true,
                        rate: Some((h[3] + 256 * h[4] + 65536 * h[5] + 16777216 * h[6]) as u32),
                        extended: true,
                        ..plain
                    },
                )
            }
        } else {
            // A marker (4) or text (5) block.
            Ok(plain)
        }
    }
}

/// Parse a block from its type byte and the header bytes that follow it.
pub fn parse_block(btype: u8, h: &[u8]) -> (r: Result<Block, VocFault>)
    requires
        btype != 0,
        h@.len() == header_len(btype),
    ensures
        r == block_of(btype, h@),
{
    if btype == 6 || btype == 7 {
        return Err(VocFault::Repeat(btype == 7));
    }
    if btype >= 10 {
        return Err(VocFault::Corrupt);
    }
    let claimed: u32 = h[0] as u32 + 256 * h[1] as u32 + 65536 * h[2] as u32;
    let plain = Block {
        claimed,
        header: 0,
        length: claimed,
        sound: true,
        counted: false,
        rate: None,
        extended: false,
    };
    if btype == 1 {
        if h[4] != 0 {
            return Err(VocFault::Compressed);
        }
        Ok(
            Block {
                header: 2,
                length: claimed.wrapping_sub(2),
                counted: true,
                rate: Some(tc_to_rate(h[3])),
                ..plain
            },
        )
    } else if btype == 2 {
        Ok(Block { counted: true, ..plain })
    } else if btype == 3 {
        Ok(Block { header: 3, sound: false, ..plain })
    } else if btype == 8 {
        if h[5] != 0 {
            return Err(VocFault::Nonsense);
        }
        if h[6] != 0 {
            return Err(VocFault::StereoExt);
        }
        // A block 8 carries a *16-bit* time constant.
        let tc16: u32 = h[3] as u32 + 256 * h[4] as u32;
        Ok(
            Block {
                header: 4,
                sound: false,
                rate: Some(256_000_000 / (65536 - tc16)),
                extended: true,
                ..plain
            },
        )
    } else if btype == 9 {
        // The width is checked before the channel count, so a block that is
        // both stereo and 16-bit is reported as 16-bit; "more than one"
        // channel, so a block declaring zero is converted.
        if h[7] != 8 {
            return Err(VocFault::Bits16);
        }
        if h[8] > 1 {
            return Err(VocFault::Stereo);
        }
        if h[9] != 0 || h[10] != 0 {
            return Err(VocFault::OnlyPcm);
        }
        let rate: u32 = h[3] as u32 + 256 * h[4] as u32 + 65536 * h[5] as u32 + 16777216
            * h[6] as u32;
        Ok(
            Block {
                header: 12,
                length: claimed.wrapping_sub(12),
                counted: true,
                rate: Some(rate),
                extended: true,
                ..plain
            },
        )
    } else {
        Ok(plain)
    }
}

/// Where a VOC reader stands when the segments are spent: it reads on,
/// block by block, from the file and then from its buffer.
pub struct Tail {
    pos: u64,
    file_len: u64,
    btype: u8,
    length: u64,
    consumed: u64,
    phantom: Option<Vec<u8>>,
}

/// A [`Tail`] as a value.
pub struct TailModel {
    pub pos: int,
    pub file_len: int,
    pub btype: u8,
    pub length: int,
    pub consumed: int,
}

impl Tail {
    /// The buffer of reads past the end of the file, once it was filled.
    pub closed spec fn buffered(&self) -> Option<Seq<u8>> {
        match self.phantom {
            Some(p) => Some(p@),
            None => None,
        }
    }

    /// A reader over `data`: its buffer, once filled, is the one the file
    /// fills.
    pub closed spec fn ok(&self, data: Seq<u8>) -> bool {
        &&& self.file_len == data.len()
        &&& 27 <= data.len() < 0x100_0000_0000
        &&& self.pos <= data.len() + BUFFER + 16
        &&& self.consumed <= 0x1_0000_0000 + self.pos
        &&& self.length <= 0xFFFF_FFFF
        &&& (self.phantom matches Some(p) ==> p@ == phantom_of(data))
    }

    /// Nothing read past the end of the file yet.
    pub closed spec fn fresh(&self) -> bool {
        self.phantom is None
    }

    pub closed spec fn view(&self) -> TailModel {
        TailModel {
            pos: self.pos as int,
            file_len: self.file_len as int,
            btype: self.btype,
            length: self.length as int,
            consumed: self.consumed as int,
        }
    }
}

/// The byte at `p` as the scan reads it: past the end of the file, the
/// file's own bytes from its start.
pub open spec fn scan_byte(data: Seq<u8>, p: int) -> u8 {
    if p < data.len() {
        data[p]
    } else {
        data[p - data.len()]
    }
}

/// The `k` bytes from `at` as the scan reads them.
pub open spec fn scan_bytes(data: Seq<u8>, at: int, k: nat) -> Seq<u8> {
    Seq::new(k, |i: int| scan_byte(data, at + i))
}

/// The scan's walk over the blocks, as it stands between two of them.
pub struct ScanState {
    pub pos: int,
    pub rate: Option<u32>,
    pub segments: Seq<Segment>,
    pub empty_block: bool,
    pub count: u32,
    pub extended: bool,
    pub consumed: int,
    pub terminated: bool,
    pub overran: bool,
    pub node_len: int,
    pub last_btype: u8,
    pub last_consumed: int,
    pub done: bool,
}

/// `x + y` wrapping at 32 bits.
pub open spec fn wrap_add(x: u32, y: u32) -> u32 {
    if x + y > 0xFFFF_FFFF {
        (x + y - 0x1_0000_0000) as u32
    } else {
        (x + y) as u32
    }
}

/// The walk past a block of type `t` at `st.pos`.
///
/// The rate a block carries is taken unless an extended block was met and
/// this one is not extended. A sound block claiming more than the file holds
/// is clamped to what is there, and the bytes by which it runs past the end
/// come off the 32-bit sample count. The counted blocks' lengths, as their
/// headers leave them, make the sample count; one whose length read signed
/// is not positive marks the run as abandoned.
pub open spec fn past_block(st: ScanState, b: Block, t: u8, len: int) -> ScanState {
    let body = st.pos + 4;
    let ext = st.extended || b.extended;
    let rate = match b.rate {
        Some(r) => if b.extended || !ext {
            Some(r)
        } else {
            st.rate
        },
        None => st.rate,
    };
    if b.sound {
        let avail = if len > body {
            len - body
        } else {
            0
        };
        let l = if b.claimed < avail {
            b.claimed as int
        } else {
            avail
        };
        let present = if l > b.header {
            l - b.header
        } else {
            0
        };
        let count1 = if b.counted {
            wrap_add(st.count, b.length)
        } else {
            st.count
        };
        let over = body + b.claimed > len;
        let count2 = if over {
            wrap_sub(count1, (body + b.claimed - len) as u32)
        } else {
            count1
        };
        ScanState {
            pos: body + l,
            rate,
            segments: st.segments.push(Segment { offset: (body + b.header) as u64, bytes: present as u64 }),
            empty_block: st.empty_block || (b.counted && (b.length == 0 || b.length >= 0x8000_0000)),
            count: count2,
            extended: ext,
            overran: st.overran || over,
            node_len: b.length as int,
            last_btype: t,
            last_consumed: present,
            ..st
        }
    } else {
        ScanState {
            pos: body + b.header,
            rate,
            extended: ext,
            node_len: b.length as int,
            last_btype: t,
            last_consumed: b.length as int,
            ..st
        }
    }
}

/// One step of the scan at `st.pos`, inside the file: a terminator ends
/// the walk, as does a silence block cut by the end of the file (its missing
/// bytes come off the count); any other block is parsed from its header.
pub open spec fn scan_step(data: Seq<u8>, st: ScanState) -> Result<ScanState, VocFault> {
    let len = data.len() as int;
    let t = data[st.pos];
    if t == 0 {
        Ok(ScanState { consumed: st.pos + 1, terminated: true, done: true, ..st })
    } else if t == 3 && len - st.pos < 7 {
        Ok(
            ScanState {
                overran: true,
                count: wrap_sub(st.count, (st.pos + 7 - len) as u32),
                done: true,
                ..st
            },
        )
    } else {
        match block_of(t, scan_bytes(data, st.pos + 1, header_len(t))) {
            Err(f) => Err(f),
            Ok(b) => Ok(past_block(st, b, t, len)),
        }
    }
}

pub open spec fn scan_measure(data: Seq<u8>, st: ScanState) -> nat {
    ((if st.pos < data.len() {
        data.len() - st.pos
    } else {
        0
    }) * 2 + if st.done {
        0int
    } else {
        1int
    }) as nat
}

/// The scan's walk from `st` to the end of the file or the block that stops it.
pub open spec fn scan_walk(data: Seq<u8>, st: ScanState) -> Result<ScanState, VocFault>
    decreases scan_measure(data, st),
{
    if st.done || st.pos >= data.len() || st.pos < 0 {
        Ok(st)
    } else {
        match scan_step(data, st) {
            Err(f) => Err(f),
            Ok(st2) => scan_walk(data, st2),
        }
    }
}

/// Where the walk starts: at the first block, right after the header.
pub open spec fn scan_start(len: int) -> ScanState {
    ScanState {
        pos: MARK as int,
        rate: None,
        segments: Seq::empty(),
        empty_block: false,
        count: 0,
        extended: false,
        consumed: len,
        terminated: false,
        overran: false,
        node_len: 0,
        last_btype: 0,
        last_consumed: 0,
        done: false,
    }
}

/// A file without the 20-byte magic (an empty one included) is "Wrong file
/// type"; one that stops before the six header bytes after it, or holds no
/// block byte after them, or whose data offset is not 26, is "corrupted".
/// The version checksum is never checked.
pub open spec fn voc_walk(data: Seq<u8>) -> Result<ScanState, VocFault> {
    if data.len() < 20 || data.take(20) != MAGIC@ {
        Err(VocFault::WrongType)
    } else if data.len() < 27 || data[20] + 256 * data[21] != 26 {
        Err(VocFault::Corrupt)
    } else {
        scan_walk(data, scan_start(data.len() as int))
    }
}

/// The status line: version, STD or EXT, the bytes consumed (the whole file
/// unless a terminator stopped the walk), and the 32-bit sample count.
pub open spec fn voc_desc(data: Seq<u8>, st: ScanState) -> Seq<u8> {
    "Creative Voice File (VOC) v".spec_bytes() + decimal(data[23] as nat) + ".".spec_bytes()
        + decimal(data[22] as nat) + (if st.extended {
        " EXT, ".spec_bytes()
    } else {
        " STD, ".spec_bytes()
    }) + decimal(st.consumed as nat) + " bytes (".spec_bytes() + decimal(st.count as nat)
        + " samples)".spec_bytes()
}

/// Where the reader goes on once the segments are spent: at the
/// terminator, or, with none, where the walk stopped, inside the last block.
pub open spec fn tail_of(st: ScanState, len: int) -> TailModel {
    if st.terminated {
        TailModel { pos: st.pos, file_len: len, btype: 0, length: st.node_len, consumed: st.node_len }
    } else {
        TailModel {
            pos: st.pos,
            file_len: len,
            btype: st.last_btype,
            length: st.node_len,
            consumed: st.last_consumed,
        }
    }
}

/// What the scan of a VOC yields, for the state its walk ended in.
pub open spec fn voc_layout(data: Seq<u8>, st: ScanState, l: Layout) -> bool {
    &&& l.rate == (match st.rate {
        Some(r) => r,
        None => 0,
    })
    &&& l.shown_rate == (match st.rate {
        Some(r) => signed_rate(r),
        None => -0x8000_0000,
    })
    &&& l.rate_known == st.rate is Some
    &&& l.desc@ == decode_utf8(voc_desc(data, st))
    &&& l.integrity_check
    &&& l.encoding == Encoding::U8
    &&& l.channels == 1
    &&& l.segments@ == st.segments
    &&& l.unterminated == (!st.terminated && !st.overran)
    &&& l.empty_block == st.empty_block
    &&& (l.tail matches Some(t) && t.view() == tail_of(st, data.len() as int) && t.fresh() && t.ok(
        data,
    ))
    &&& l.total_samples == st.count
}

/// The `k` bytes from `at` as the scan reads them: past the end of the
/// file, the file's own bytes from its start.
fn scan_header(data: &[u8], at: u64, k: usize) -> (h: Vec<u8>)
    requires
        at + k <= 2 * data@.len(),
        data@.len() < 0x100_0000_0000,
    ensures
        h@ == scan_bytes(data@, at as int, k as nat),
{
    let len = data.len() as u64;
    let mut h: Vec<u8> = Vec::new();
    let mut i: usize = 0;
    while i < k
        invariant
            len == data@.len(),
            len < 0x100_0000_0000,
            at + k <= 2 * len,
            i <= k,
            h@ == scan_bytes(data@, at as int, i as nat),
        decreases k - i,
    {
        let p = at + i as u64;
        let b = if p < len {
            data[p as usize]
        } else {
            data[(p - len) as usize]
        };
        h.push(b);
        i = i + 1;
        proof {
            assert(h@ =~= scan_bytes(data@, at as int, i as nat));
        }
    }
    h
}

/// The scan's walk, executed.
struct Walker {
    pos: u64,
    rate: Option<u32>,
    segments: Vec<Segment>,
    empty_block: bool,
    count: u32,
    extended: bool,
    consumed: u64,
    terminated: bool,
    overran: bool,
    node_len: u64,
    last_btype: u8,
    last_consumed: u64,
    done: bool,
}

impl Walker {
    spec fn view(&self) -> ScanState {
        ScanState {
            pos: self.pos as int,
            rate: self.rate,
            segments: self.segments@,
            empty_block: self.empty_block,
            count: self.count,
            extended: self.extended,
            consumed: self.consumed as int,
            terminated: self.terminated,
            overran: self.overran,
            node_len: self.node_len as int,
            last_btype: self.last_btype,
            last_consumed: self.last_consumed as int,
            done: self.done,
        }
    }

    /// The walk past the block of type `t` just parsed.
    fn pass_block(&mut self, b: Block, t: u8, len: u64)
        requires
            old(self).pos < len < 0x100_0000_0000,
            b.header <= 12,
        ensures
            final(self).view() == past_block(old(self).view(), b, t, len as int),
            final(self).pos <= len + 16,
            final(self).node_len <= 0xFFFF_FFFF,
            final(self).last_consumed <= 0xFFFF_FFFF,
    {
        let body = self.pos + 4;
        self.extended = self.extended || b.extended;
        if let Some(r) = b.rate {
            if b.extended || !self.extended {
                self.rate = Some(r);
            }
        }
        self.last_btype = t;
        self.node_len = b.length as u64;
        if b.sound {
            let avail = if len > body {
                len - body
            } else {
                0
            };
            let l = if (b.claimed as u64) < avail {
                b.claimed as u64
            } else {
                avail
            };
            let present = if l > b.header as u64 {
                l - b.header as u64
            } else {
                0
            };
            if b.counted {
                self.count = self.count.wrapping_add(b.length);
                self.empty_block = self.empty_block || b.length == 0 || b.length >= 0x8000_0000;
            }
            self.segments.push(Segment { offset: body + b.header as u64, bytes: present });
            if body + b.claimed as u64 > len {
                self.overran = true;
                self.count = self.count.wrapping_sub((body + b.claimed as u64 - len) as u32);
            }
            self.last_consumed = present;
            self.pos = body + l;
        } else {
            self.last_consumed = b.length as u64;
            self.pos = body + b.header as u64;
        }
    }

    /// One step of the walk (see [`scan_step`]).
    fn step(&mut self, data: &[u8]) -> (r: Result<(), VocFault>)
        requires
            !old(self).done,
            old(self).pos < data@.len() < 0x100_0000_0000,
            data@.len() >= 27,
        ensures
            match scan_step(data@, old(self).view()) {
                Ok(st) => r is Ok && final(self).view() == st,
                Err(f) => r == Err::<(), VocFault>(f),
            },
            final(self).pos <= data@.len() + 16,
            old(self).node_len <= 0xFFFF_FFFF ==> final(self).node_len <= 0xFFFF_FFFF,
            old(self).last_consumed <= 0xFFFF_FFFF ==> final(self).last_consumed <= 0xFFFF_FFFF,
    {
        let len = data.len() as u64;
        let t = data[self.pos as usize];
        if t == 0 {
            self.consumed = self.pos + 1;
            self.terminated = true;
            self.done = true;
            return Ok(());
        }
        if t == 3 && len - self.pos < 7 {
            self.overran = true;
            self.count = self.count.wrapping_sub((self.pos + 7 - len) as u32);
            self.done = true;
            return Ok(());
        }
        let k = header_len_of(t);
        let h = scan_header(data, self.pos + 1, k);
        match parse_block(t, &h) {
            Err(f) => Err(f),
            Ok(b) => {
                self.pass_block(b, t, len);
                Ok(())
            },
        }
    }
}

/// The status line of [`voc_desc`].
fn describe(data: &[u8], w: &Walker) -> (s: String)
    requires
        data@.len() >= 27,
    ensures
        s@ == decode_utf8(voc_desc(data@, w.view())),
{
    let mut v: Vec<u8> = Vec::new();
    push_str(&mut v, "Creative Voice File (VOC) v");
    push_decimal(&mut v, data[23] as u64);
    push_str(&mut v, ".");
    push_decimal(&mut v, data[22] as u64);
    if w.extended {
        push_str(&mut v, " EXT, ");
    } else {
        push_str(&mut v, " STD, ");
    }
    push_decimal(&mut v, w.consumed);
    push_str(&mut v, " bytes (");
    push_decimal(&mut v, w.count as u64);
    push_str(&mut v, " samples)");
    proof {
        let st = w.view();
        let kind = if st.extended {
            " EXT, ".spec_bytes()
        } else {
            " STD, ".spec_bytes()
        };
        assert(v@ =~= voc_desc(data@, st));
        lemma_str_valid("Creative Voice File (VOC) v");
        lemma_str_valid(".");
        lemma_str_valid(" EXT, ");
        lemma_str_valid(" STD, ");
        lemma_str_valid(" bytes (");
        lemma_str_valid(" samples)");
        lemma_decimal_valid(data@[23] as nat);
        lemma_decimal_valid(data@[22] as nat);
        lemma_decimal_valid(st.consumed as nat);
        lemma_decimal_valid(st.count as nat);
        let p1 = "Creative Voice File (VOC) v".spec_bytes() + decimal(data@[23] as nat);
        lemma_concat_valid("Creative Voice File (VOC) v".spec_bytes(), decimal(data@[23] as nat));
        lemma_concat_valid(p1, ".".spec_bytes());
        let p2 = p1 + ".".spec_bytes();
        lemma_concat_valid(p2, decimal(data@[22] as nat));
        let p3 = p2 + decimal(data@[22] as nat);
        lemma_concat_valid(p3, kind);
        let p4 = p3 + kind;
        lemma_concat_valid(p4, decimal(st.consumed as nat));
        let p5 = p4 + decimal(st.consumed as nat);
        lemma_concat_valid(p5, " bytes (".spec_bytes());
        let p6 = p5 + " bytes (".spec_bytes();
        lemma_concat_valid(p6, decimal(st.count as nat));
        let p7 = p6 + decimal(st.count as nat);
        lemma_concat_valid(p7, " samples)".spec_bytes());
    }
    text(v)
}

/// The scan's walk from the header to the end of the file or the block
/// that stops it.
fn walk_blocks(data: &[u8]) -> (r: Result<Walker, VocFault>)
    requires
        27 <= data@.len() < 0x100_0000_0000,
    ensures
        match scan_walk(data@, scan_start(data@.len() as int)) {
            Ok(st) => r matches Ok(w) && w.view() == st,
            Err(f) => r == Err::<Walker, VocFault>(f),
        },
        r matches Ok(w) ==> w.node_len <= 0xFFFF_FFFF && w.last_consumed <= 0xFFFF_FFFF && w.pos
            <= data@.len() + 16,
{
    let len = data.len() as u64;
    let mut w = Walker {
        pos: MARK,
        rate: None,
        segments: Vec::new(),
        empty_block: false,
        count: 0,
        extended: false,
        consumed: len,
        terminated: false,
        overran: false,
        node_len: 0,
        last_btype: 0,
        last_consumed: 0,
        done: false,
    };
    proof {
        assert(w.segments@ =~= Seq::<Segment>::empty());
    }
    while !w.done && w.pos < len
        invariant
            len == data@.len(),
            27 <= len < 0x100_0000_0000,
            w.pos <= len + 16,
            w.node_len <= 0xFFFF_FFFF,
            w.last_consumed <= 0xFFFF_FFFF,
            scan_walk(data@, w.view()) == scan_walk(data@, scan_start(len as int)),
        decreases scan_measure(data@, w.view()),
    {
        match w.step(data) {
            Err(f) => {
                return Err(f);
            },
            Ok(()) => {},
        }
    }
    Ok(w)
}

/// Scan an 8-bit mono PCM VOC file held in memory: its rate, its sample
/// runs, its declared sample count and its status line (see [`voc_walk`]).
/// A file whose blocks carried no rate is converted all the same: the rate
/// line reports the indefinite integer and a rate of zero is written.
pub fn scan(data: &[u8]) -> (r: Result<Layout, Error>)
    requires
        data@.len() < 0x100_0000_0000,
    ensures
        match voc_walk(data@) {
            Ok(st) => r matches Ok(l) && voc_layout(data@, st, l),
            Err(f) => r matches Err(e) && fault_reported(f, e),
        },
{
    let len = data.len();
    let mut magic_ok = len >= 20;
    if magic_ok {
        let mut i: usize = 0;
        while i < 20
            invariant
                len == data@.len() >= 20,
                i <= 20,
                magic_ok == (forall|k: int| 0 <= k < i ==> data@[k] == MAGIC@[k]),
            decreases 20 - i,
        {
            magic_ok = magic_ok && data[i] == MAGIC[i];
            i = i + 1;
        }
        proof {
            assert(magic_ok == (data@.take(20) =~= MAGIC@));
        }
    }
    if !magic_ok {
        return Err(fault_error(VocFault::WrongType));
    }
    if len < 27 || data[20] as u16 + 256 * data[21] as u16 != 26 {
        return Err(fault_error(VocFault::Corrupt));
    }
    let w = match walk_blocks(data) {
        Err(f) => {
            return Err(fault_error(f));
        },
        Ok(w) => w,
    };
    let desc = describe(data, &w);
    let (rate, shown_rate, rate_known): (u32, i64, bool) = match w.rate {
        Some(r) => (r, if r < 0x8000_0000 {
            r as i64
        } else {
            r as i64 - 0x1_0000_0000
        }, true),
        None => (0, -0x8000_0000, false),
    };
    let tail = if w.terminated {
        Tail {
            pos: w.pos,
            file_len: len as u64,
            btype: 0,
            length: w.node_len,
            consumed: w.node_len,
            phantom: None,
        }
    } else {
        Tail {
            pos: w.pos,
            file_len: len as u64,
            btype: w.last_btype,
            length: w.node_len,
            consumed: w.last_consumed,
            phantom: None,
        }
    };
    Ok(
        Layout {
            rate,
            shown_rate,
            rate_known,
            desc,
            integrity_check: true,
            encoding: Encoding::U8,
            channels: 1,
            segments: w.segments,
            unterminated: !w.terminated && !w.overran,
            empty_block: w.empty_block,
            tail: Some(tail),
            total_samples: w.count as u64,
        },
    )
}

/// What a read past the sample runs gives.
#[derive(Debug, Clone, Copy, PartialEq, Eq, Structural)]
pub enum TailRead {
    /// A terminator block.
    Terminator,
    /// A byte, and whether it belongs to a block (a byte read after a
    /// terminator, inside the block before it, does not).
    Sample(u8, bool),
    /// A read past the end of the reader's buffer, of memory that is not the
    /// file's: the real run faults on it; a probe pass answers and goes on.
    Heap,
}

/// `buf` with its first `want` bytes replaced by the file's from `at`.
pub open spec fn overwritten(buf: Seq<u8>, data: Seq<u8>, at: int, want: int) -> Seq<u8> {
    Seq::new(buf.len(), |i: int| if i < want { data[at + i] } else { buf[i] })
}

/// `buf` after one read of the file at `at`: as much as is left of it, at
/// most a buffer's worth.
pub open spec fn chunk_read(buf: Seq<u8>, data: Seq<u8>, at: int) -> Seq<u8> {
    overwritten(
        buf,
        data,
        at,
        if data.len() - at < BUFFER {
            data.len() - at
        } else {
            BUFFER as int
        },
    )
}

/// `buf` after the reader fills it from `from` to the end of the file: of
/// the buffer-sized reads that takes, only the last two land in it.
pub open spec fn refilled(buf: Seq<u8>, data: Seq<u8>, from: int) -> Seq<u8> {
    let reads = (data.len() - from + BUFFER - 1) / (BUFFER as int);
    let b1 = if reads >= 2 {
        chunk_read(buf, data, from + (reads - 2) * BUFFER)
    } else {
        buf
    };
    if reads >= 1 {
        chunk_read(b1, data, from + (reads - 1) * BUFFER)
    } else {
        b1
    }
}

/// The reader's buffer when a read runs past the end of the file: filled
/// once from the start of the file and once from the block area.
pub open spec fn phantom_of(data: Seq<u8>) -> Seq<u8> {
    refilled(refilled(Seq::new(BUFFER as nat, |i: int| 0u8), data, 0), data, MARK as int)
}

/// The byte at `p` as the reader reads it: the file, then its buffer, then
/// zeros.
pub open spec fn tail_byte(data: Seq<u8>, p: int) -> u8 {
    if p < data.len() {
        data[p]
    } else if p - data.len() < BUFFER {
        phantom_of(data)[p - data.len()]
    } else {
        0
    }
}

/// The `k` bytes from `at` as the reader reads them.
pub open spec fn tail_bytes(data: Seq<u8>, at: int, k: nat) -> Seq<u8> {
    Seq::new(k, |i: int| tail_byte(data, at + i))
}

/// One sample of the current block.
pub open spec fn tail_sample(m: TailModel, data: Seq<u8>) -> (TailModel, Result<TailRead, VocFault>) {
    (
        TailModel { pos: m.pos + 1, consumed: m.consumed + 1, ..m },
        Ok(TailRead::Sample(tail_byte(data, m.pos), m.btype != 0)),
    )
}

pub open spec fn tail_measure(m: TailModel) -> nat {
    if m.pos <= m.file_len + BUFFER {
        (m.file_len + BUFFER + 1 - m.pos) as nat
    } else {
        0
    }
}

/// The reader at a block boundary: the next block's type byte, then its
/// header; blocks that are not sound are passed over.
pub open spec fn tail_blocks(m: TailModel, data: Seq<u8>) -> (TailModel, Result<TailRead, VocFault>)
    decreases tail_measure(m),
{
    let t = tail_byte(data, m.pos);
    let m1 = TailModel { pos: m.pos + 1, btype: t, ..m };
    if t == 0 || m.pos >= m.file_len + BUFFER {
        (m1, Ok(TailRead::Terminator))
    } else {
        let h = tail_bytes(data, m1.pos, header_len(t));
        let m2 = TailModel { pos: m1.pos + header_len(t), ..m1 };
        match block_of(t, h) {
            Err(f) => (m2, Err(f)),
            Ok(b) => {
                let m3 = TailModel { length: b.length as int, ..m2 };
                if b.sound {
                    tail_sample(m3, data)
                } else {
                    tail_blocks(m3, data)
                }
            },
        }
    }
}

/// One read past the sample runs: past the buffer, the heap; at the end of
/// a block, the next block; else the block's next byte.
pub open spec fn tail_next(m: TailModel, data: Seq<u8>) -> (TailModel, Result<TailRead, VocFault>) {
    if m.pos >= m.file_len + BUFFER {
        (m, Ok(TailRead::Heap))
    } else if m.consumed == m.length {
        tail_blocks(TailModel { consumed: 0, ..m }, data)
    } else {
        tail_sample(m, data)
    }
}

/// The reader's buffer for a file read past its end (see [`phantom_of`]).
fn phantom(data: &[u8]) -> (buf: Vec<u8>)
    requires
        MARK <= data@.len() < 0x100_0000_0000,
    ensures
        buf@ == phantom_of(data@),
{
    let mut buf: Vec<u8> = Vec::new();
    let mut i: usize = 0;
    while i < BUFFER as usize
        invariant
            i <= BUFFER,
            buf@ == Seq::new(i as nat, |k: int| 0u8),
        decreases BUFFER - i,
    {
        buf.push(0);
        i = i + 1;
        proof {
            assert(buf@ =~= Seq::new(i as nat, |k: int| 0u8));
        }
    }
    refill(&mut buf, data, 0);
    refill(&mut buf, data, MARK);
    buf
}

/// One read of the file at `at` into the front of `buf`.
fn read_chunk(buf: &mut Vec<u8>, data: &[u8], at: u64)
    requires
        old(buf)@.len() == BUFFER,
        at <= data@.len() < 0x100_0000_0000,
    ensures
        final(buf)@ == chunk_read(old(buf)@, data@, at as int),
{
    let len = data.len() as u64;
    let want: u64 = if len - at < BUFFER {
        len - at
    } else {
        BUFFER
    };
    let ghost start = buf@;
    let mut i: u64 = 0;
    while i < want
        invariant
            buf@.len() == BUFFER,
            want <= BUFFER,
            at + want <= len == data@.len(),
            i <= want,
            forall|k: int| 0 <= k < BUFFER ==> #[trigger] buf@[k] == if k < i {
                data@[at + k]
            } else {
                start[k]
            },
        decreases want - i,
    {
        buf.set(i as usize, data[(at + i) as usize]);
        i = i + 1;
    }
    proof {
        assert(buf@ =~= chunk_read(start, data@, at as int));
    }
}

/// Fill `buf` as the reader does, from `from` to the end of the file.
fn refill(buf: &mut Vec<u8>, data: &[u8], from: u64)
    requires
        old(buf)@.len() == BUFFER,
        from <= data@.len() < 0x100_0000_0000,
    ensures
        final(buf)@ == refilled(old(buf)@, data@, from as int),
        final(buf)@.len() == BUFFER,
{
    let len = data.len() as u64;
    let reads = (len - from + BUFFER - 1) / BUFFER;
    if reads >= 2 {
        proof {
            assert((reads - 2) * BUFFER < (reads - 1) * BUFFER) by (nonlinear_arith)
                requires
                    reads >= 2,
                    BUFFER == 0x40000,
            ;
            assert((reads - 1) * BUFFER < len - from) by (nonlinear_arith)
                requires
                    reads == (len - from + BUFFER - 1) / (BUFFER as int),
                    reads >= 1,
                    BUFFER == 0x40000,
            ;
        }
        read_chunk(buf, data, from + (reads - 2) * BUFFER);
    }
    if reads >= 1 {
        proof {
            assert((reads - 1) * BUFFER < len - from) by (nonlinear_arith)
                requires
                    reads == (len - from + BUFFER - 1) / (BUFFER as int),
                    reads >= 1,
                    BUFFER == 0x40000,
            ;
        }
        read_chunk(buf, data, from + (reads - 1) * BUFFER);
    }
}

impl Tail {
    /// Where the reader stands in the file, counting its buffer past the end.
    pub fn pos(&self) -> (p: u64)
        ensures
            p == self.view().pos,
    {
        self.pos
    }

    /// A reader standing where this one stands, with its buffer not yet
    /// filled.
    pub fn fresh_copy(&self) -> (t: Tail)
        ensures
            t.view() == self.view(),
            t.fresh(),
            forall|data: Seq<u8>| self.ok(data) ==> t.ok(data),
    {
        Tail {
            pos: self.pos,
            file_len: self.file_len,
            btype: self.btype,
            length: self.length,
            consumed: self.consumed,
            phantom: None,
        }
    }

    /// Back to where `fresh` stands, keeping the buffer already filled.
    pub fn reset(&mut self, fresh: &Tail)
        requires
            old(self).view().file_len == fresh.view().file_len,
        ensures
            final(self).view() == fresh.view(),
            final(self).buffered() == old(self).buffered(),
            forall|data: Seq<u8>| old(self).ok(data) && fresh.ok(data) ==> final(self).ok(data),
    {
        self.pos = fresh.pos;
        self.btype = fresh.btype;
        self.length = fresh.length;
        self.consumed = fresh.consumed;
    }

    /// The byte at the reader's position; it moves on by one.
    fn byte(&mut self, data: &[u8]) -> (b: u8)
        requires
            old(self).ok(data@),
            old(self).pos < data@.len() + BUFFER + 16,
        ensures
            final(self).ok(data@),
            b == tail_byte(data@, old(self).view().pos),
            final(self).view() == (TailModel { pos: old(self).view().pos + 1, ..old(self).view() }),
    {
        let len = self.file_len;
        let b = if self.pos < len {
            data[self.pos as usize]
        } else {
            if self.phantom.is_none() {
                self.phantom = Some(phantom(data));
            }
            let i = self.pos - len;
            if i < BUFFER {
                match &self.phantom {
                    Some(p) => p[i as usize],
                    None => 0,
                }
            } else {
                0
            }
        };
        self.pos = self.pos + 1;
        b
    }

    /// The next block, passing over those that are not sound.
    fn blocks(&mut self, data: &[u8]) -> (r: Result<TailRead, VocFault>)
        requires
            old(self).ok(data@),
            old(self).pos <= data@.len() + BUFFER,
        ensures
            final(self).ok(data@),
            (final(self).view(), r) == tail_blocks(old(self).view(), data@),
    {
        let ghost goal = tail_blocks(self.view(), data@);
        let len = self.file_len;
        loop
            invariant
                self.ok(data@),
                self.pos <= data@.len() + BUFFER + 15,
                len == data@.len(),
                tail_blocks(self.view(), data@) == goal,
                goal == tail_blocks(old(self).view(), data@),
            decreases tail_measure(self.view()),
        {
            let ghost m = self.view();
            let at = self.pos;
            let t = self.byte(data);
            self.btype = t;
            if t == 0 {
                proof {
                    assert(tail_blocks(m, data@) == (self.view(), Ok::<TailRead, VocFault>(TailRead::Terminator)));
                }
                return Ok(TailRead::Terminator);
            }
            proof {
                if at >= len + BUFFER {
                    assert(tail_byte(data@, at as int) == 0);
                }
            }
            let k = header_len_of(t);
            let mut h: Vec<u8> = Vec::new();
            let mut i: usize = 0;
            while i < k
                invariant
                    self.ok(data@),
                    i <= k == header_len(t),
                    len == data@.len(),
                    at < len + BUFFER,
                    self.view() == (TailModel { pos: at + 1 + i, btype: t, ..m }),
                    h@ == tail_bytes(data@, at + 1, i as nat),
                decreases k - i,
            {
                let b = self.byte(data);
                h.push(b);
                i = i + 1;
                proof {
                    assert(h@ =~= tail_bytes(data@, at + 1, i as nat));
                }
            }
            match parse_block(t, &h) {
                Err(f) => {
                    return Err(f);
                },
                Ok(b) => {
                    self.length = b.length as u64;
                    if b.sound {
                        let x = self.byte(data);
                        self.consumed = self.consumed + 1;
                        return Ok(TailRead::Sample(x, self.btype != 0));
                    }
                },
            }
        }
    }

    /// One read past the sample runs (see [`tail_next`]).
    pub(crate) fn advance(&mut self, data: &[u8]) -> (r: Result<TailRead, VocFault>)
        requires
            old(self).ok(data@),
        ensures
            final(self).ok(data@),
            (final(self).view(), r) == tail_next(old(self).view(), data@),
    {
        if self.pos >= self.file_len + BUFFER {
            return Ok(TailRead::Heap);
        }
        if self.consumed == self.length {
            self.consumed = 0;
            return self.blocks(data);
        }
        let b = self.byte(data);
        self.consumed = self.consumed + 1;
        Ok(TailRead::Sample(b, self.btype != 0))
    }

    /// One read past the sample runs (see [`tail_next`]), a refused block
    /// reported as its error.
    pub fn next(&mut self, data: &[u8]) -> (r: Result<TailRead, Error>)
        requires
            old(self).ok(data@),
        ensures
            final(self).ok(data@),
            final(self).view() == tail_next(old(self).view(), data@).0,
            match tail_next(old(self).view(), data@).1 {
                Ok(x) => r matches Ok(y) && y == x,
                Err(f) => r matches Err(e) && fault_reported(f, e),
            },
    {
        match self.advance(data) {
            Ok(x) => Ok(x),
            Err(f) => Err(fault_error(f)),
        }
    }
}

/// The writer's state: its buffer, how much of it is filled, and the
/// bytes written so far. What lies beyond `filled` is stale, and after a long
/// pulse so is what lies before it.
pub struct VocOut {
    pub buf: Seq<u8>,
    pub filled: int,
    pub out: Seq<u8>,
}

/// One block: `01`, a 24-bit length (data + time constant + pack byte), the
/// time constant, a pack byte of 0, then `n` bytes from the front of the
/// buffer, zero of them included.
pub open spec fn with_block(w: VocOut, n: int, tc: u8) -> VocOut {
    VocOut { out: w.out + seq![1u8] + le32(n + 2).take(3) + seq![tc, 0u8] + w.buf.take(n), ..w }
}

/// `buf` with the bytes from `from` to `to` set to `level`.
pub open spec fn filled_with(buf: Seq<u8>, from: int, to: int, level: u8) -> Seq<u8> {
    Seq::new(buf.len(), |i: int| if from <= i < to { level } else { buf[i] })
}

/// A pulse longer than the buffer: chunks of the buffer's size, each its own
/// block rendered from the front of the buffer; the fill count is left at
/// the last chunk's size.
pub open spec fn long_run(w: VocOut, left: nat, level: u8, tc: u8) -> VocOut
    decreases left,
{
    if left == 0 {
        w
    } else {
        let chunk: nat = if left < BUFFER {
            left
        } else {
            BUFFER as nat
        };
        let w1 = with_block(
            VocOut { buf: filled_with(w.buf, 0, chunk as int, level), filled: chunk as int, ..w },
            chunk as int,
            tc,
        );
        long_run(w1, (left - chunk) as nat, level, tc)
    }
}

/// One pulse of `len` samples at `level`, zero-length included: a block is
/// flushed when the pulse would not fit (`filled + len >= BUFFER`, an empty
/// block included).
pub open spec fn pulse_out(w: VocOut, len: nat, level: u8, tc: u8) -> VocOut {
    let w1 = if w.filled + len >= BUFFER {
        VocOut { filled: 0, ..with_block(w, w.filled, tc) }
    } else {
        w
    };
    if len > BUFFER {
        long_run(w1, len, level, tc)
    } else {
        VocOut {
            buf: filled_with(w1.buf, w1.filled, w1.filled + len, level),
            filled: w1.filled + len,
            ..w1
        }
    }
}

/// Every pulse, levels alternating from `high`.
pub open spec fn pulses_out(w: VocOut, ps: Seq<u32>, high: bool, tc: u8) -> VocOut
    decreases ps.len(),
{
    if ps.len() == 0 {
        w
    } else {
        pulse_out(
            pulses_out(w, ps.drop_last(), high, tc),
            ps.last() as nat,
            level_at(high, ps.len() - 1),
            tc,
        )
    }
}

/// The writer's buffer before anything is rendered.
pub open spec fn fresh_out() -> VocOut {
    VocOut { buf: Seq::new(BUFFER as nat, |i: int| 0u8), filled: 0, out: Seq::empty() }
}

/// The last block, if anything is buffered, and the terminator.
pub open spec fn finished(w: VocOut, tc: u8) -> Seq<u8> {
    (if w.filled > 0 {
        with_block(w, w.filled, tc)
    } else {
        w
    }).out.push(0u8)
}

/// The 26-byte file header: magic, data offset 26, version 1.10 and its
/// checksum (`!version + 0x1234`).
pub open spec fn voc_header() -> Seq<u8> {
    MAGIC@ + le16(26) + le16(VERSION as int) + le16(0x1129)
}

/// A VOC v1.10 file of 8-bit mono PCM in type-1 blocks, at the time
/// constant for `rate`.
pub open spec fn voc_image(rate: u32, ps: Seq<u32>, high: bool) -> Seq<u8> {
    let tc = time_constant_of(rate);
    voc_header() + finished(pulses_out(fresh_out(), ps, high, tc), tc)
}

/// `w` with `pre` written before everything it wrote.
pub open spec fn after(pre: Seq<u8>, w: VocOut) -> VocOut {
    VocOut { out: pre + w.out, ..w }
}

proof fn lemma_block_shift(pre: Seq<u8>, w: VocOut, n: int, tc: u8)
    ensures
        with_block(after(pre, w), n, tc) == after(pre, with_block(w, n, tc)),
{
    assert(with_block(after(pre, w), n, tc).out =~= after(pre, with_block(w, n, tc)).out);
}

proof fn lemma_long_run_shift(pre: Seq<u8>, w: VocOut, left: nat, level: u8, tc: u8)
    ensures
        long_run(after(pre, w), left, level, tc) == after(pre, long_run(w, left, level, tc)),
    decreases left,
{
    if left > 0 {
        let chunk: nat = if left < BUFFER {
            left
        } else {
            BUFFER as nat
        };
        let v = VocOut { buf: filled_with(w.buf, 0, chunk as int, level), filled: chunk as int, ..w };
        lemma_block_shift(pre, v, chunk as int, tc);
        assert(VocOut {
            buf: filled_with(after(pre, w).buf, 0, chunk as int, level),
            filled: chunk as int,
            ..after(pre, w)
        } == after(pre, v));
        lemma_long_run_shift(pre, with_block(v, chunk as int, tc), (left - chunk) as nat, level, tc);
    }
}

proof fn lemma_pulse_shift(pre: Seq<u8>, w: VocOut, len: nat, level: u8, tc: u8)
    ensures
        pulse_out(after(pre, w), len, level, tc) == after(pre, pulse_out(w, len, level, tc)),
{
    lemma_block_shift(pre, w, w.filled, tc);
    let w1 = if w.filled + len >= BUFFER {
        VocOut { filled: 0, ..with_block(w, w.filled, tc) }
    } else {
        w
    };
    if len > BUFFER {
        lemma_long_run_shift(pre, w1, len, level, tc);
    }
}

/// Writing after `pre` writes what it writes, after `pre`.
proof fn lemma_pulses_out_shift(w: VocOut, pre: Seq<u8>, ps: Seq<u32>, high: bool, tc: u8)
    ensures
        pulses_out(after(pre, w), ps, high, tc) == after(pre, pulses_out(w, ps, high, tc)),
        finished(after(pre, w), tc) == pre + finished(w, tc),
    decreases ps.len(),
{
    lemma_block_shift(pre, w, w.filled, tc);
    assert(finished(after(pre, w), tc) =~= pre + finished(w, tc));
    if ps.len() > 0 {
        lemma_pulses_out_shift(w, pre, ps.drop_last(), high, tc);
        lemma_pulse_shift(
            pre,
            pulses_out(w, ps.drop_last(), high, tc),
            ps.last() as nat,
            level_at(high, ps.len() - 1),
            tc,
        );
    }
}

/// The block writer, executed.
struct BlockWriter {
    tc: u8,
    buf: Vec<u8>,
    filled: usize,
}

impl BlockWriter {
    spec fn view(&self, out: Seq<u8>) -> VocOut {
        VocOut { buf: self.buf@, filled: self.filled as int, out }
    }

    spec fn ok(&self) -> bool {
        self.buf@.len() == BUFFER && self.filled <= BUFFER
    }

    /// One block of the first `n` buffered bytes.
    fn block(&self, out: &mut Vec<u8>, n: usize)
        requires
            self.ok(),
            n <= BUFFER,
        ensures
            final(out)@ == with_block(self.view(old(out)@), n as int, self.tc).out,
    {
        let ghost start = out@;
        out.push(1);
        let len: u32 = n as u32 + 2;
        out.push((len % 256) as u8);
        out.push(((len / 256) % 256) as u8);
        out.push(((len / 65536) % 256) as u8);
        out.push(self.tc);
        out.push(0);
        let ghost mid = out@;
        let mut i: usize = 0;
        while i < n
            invariant
                i <= n <= BUFFER == self.buf@.len(),
                out@ == mid + self.buf@.take(i as int),
            decreases n - i,
        {
            out.push(self.buf[i]);
            i = i + 1;
            proof {
                assert(out@ =~= mid + self.buf@.take(i as int));
            }
        }
        proof {
            assert(mid =~= start + seq![1u8] + le32(n + 2).take(3) + seq![self.tc, 0u8]);
        }
    }

    /// Set the buffered bytes from `from` to `to` to `level`.
    fn fill(&mut self, from: usize, to: usize, level: u8)
        requires
            old(self).ok(),
            from <= to <= BUFFER,
        ensures
            final(self).buf@ == filled_with(old(self).buf@, from as int, to as int, level),
            final(self).filled == old(self).filled,
            final(self).tc == old(self).tc,
            final(self).ok(),
    {
        let ghost start = self.buf@;
        let mut i = from;
        while i < to
            invariant
                from <= i <= to <= BUFFER == self.buf@.len(),
                self.buf@ == filled_with(start, from as int, i as int, level),
                start.len() == BUFFER,
                self.filled == old(self).filled,
                self.tc == old(self).tc,
            decreases to - i,
        {
            self.buf.set(i, level);
            i = i + 1;
            proof {
                assert(self.buf@ =~= filled_with(start, from as int, i as int, level));
            }
        }
    }

    /// One pulse of `len` samples at `level` (see [`pulse_out`]).
    fn pulse(&mut self, out: &mut Vec<u8>, len: u32, level: u8)
        requires
            old(self).ok(),
        ensures
            final(self).ok(),
            final(self).tc == old(self).tc,
            final(self).view(final(out)@) == pulse_out(
                old(self).view(old(out)@),
                len as nat,
                level,
                old(self).tc,
            ),
    {
        let len = len as u64;
        if self.filled as u64 + len >= BUFFER {
            self.block(out, self.filled);
            self.filled = 0;
        }
        if len > BUFFER {
            let ghost w0 = self.view(out@);
            let mut left = len;
            while left > 0
                invariant
                    self.ok(),
                    self.tc == old(self).tc,
                    left <= len,
                    long_run(self.view(out@), left as nat, level, self.tc) == long_run(
                        w0,
                        len as nat,
                        level,
                        self.tc,
                    ),
                decreases left,
            {
                let chunk: usize = if left < BUFFER {
                    left as usize
                } else {
                    BUFFER as usize
                };
                self.fill(0, chunk, level);
                self.filled = chunk;
                self.block(out, chunk);
                left = left - chunk as u64;
            }
        } else {
            let f = self.filled;
            let n = len as usize;
            self.fill(f, f + n, level);
            self.filled = f + n;
        }
    }
}

/// Write pulses to `out` as a VOC v1.10 file (8-bit mono PCM in type-1
/// blocks, see [`voc_image`]), returning the file size. Every pulse is
/// rendered, a zero-length one included: it flips the level with nothing
/// between.
pub fn write_to(out: &mut Vec<u8>, sig: &Pulses) -> (n: u64)
    ensures
        final(out)@ == old(out)@ + voc_image(sig.rate, sig.pulses@, sig.initial_high),
        n == voc_image(sig.rate, sig.pulses@, sig.initial_high).len(),
{
    let ghost start = out@;
    let start_len = out.len();
    let mut i: usize = 0;
    while i < 20
        invariant
            i <= 20,
            out@ == start + MAGIC@.take(i as int),
        decreases 20 - i,
    {
        out.push(MAGIC[i]);
        i = i + 1;
        proof {
            assert(out@ =~= start + MAGIC@.take(i as int));
        }
    }
    push_le16(out, 26);
    push_le16(out, VERSION);
    push_le16(out, (!VERSION).wrapping_add(0x1234));
    proof {
        assert((!VERSION).wrapping_add(0x1234) == 0x1129u16) by (bit_vector);
        assert(MAGIC@.take(20) =~= MAGIC@);
        assert(out@ =~= start + voc_header());
    }
    let tc = time_constant(sig.rate);
    let mut buf: Vec<u8> = Vec::new();
    let mut k: usize = 0;
    while k < BUFFER as usize
        invariant
            k <= BUFFER,
            buf@ == Seq::new(k as nat, |j: int| 0u8),
        decreases BUFFER - k,
    {
        buf.push(0);
        k = k + 1;
        proof {
            assert(buf@ =~= Seq::new(k as nat, |j: int| 0u8));
        }
    }
    let mut w = BlockWriter { tc, buf, filled: 0 };
    let ghost head = out@;
    let ghost base = VocOut { out: head, ..fresh_out() };
    let mut high = sig.initial_high;
    let mut p: usize = 0;
    while p < sig.pulses.len()
        invariant
            w.ok(),
            w.tc == tc == time_constant_of(sig.rate),
            p <= sig.pulses@.len(),
            high == (sig.initial_high == (p % 2 == 0)),
            w.view(out@) == pulses_out(base, sig.pulses@.take(p as int), sig.initial_high, tc),
        decreases sig.pulses@.len() - p,
    {
        let level = if high {
            HIGH_8
        } else {
            LOW_8
        };
        w.pulse(out, sig.pulses[p], level);
        high = !high;
        p = p + 1;
        proof {
            assert(sig.pulses@.take(p as int).drop_last() =~= sig.pulses@.take(p - 1));
        }
    }
    if w.filled > 0 {
        w.block(out, w.filled);
    }
    out.push(0);
    proof {
        assert(sig.pulses@.take(p as int) =~= sig.pulses@);
        assert(base == after(head, fresh_out()));
        let done = pulses_out(fresh_out(), sig.pulses@, sig.initial_high, tc);
        lemma_pulses_out_shift(fresh_out(), head, sig.pulses@, sig.initial_high, tc);
        lemma_pulses_out_shift(done, head, Seq::empty(), sig.initial_high, tc);
        assert(out@ =~= start + voc_image(sig.rate, sig.pulses@, sig.initial_high));
    }
    (out.len() - start_len) as u64
}

/// The reads past the sample runs, from `m` on: every sample and
/// terminator up to the heap or the block that is refused.
pub open spec fn tail_reads(m: TailModel, data: Seq<u8>) -> (Seq<TailRead>, Result<(), VocFault>)
    decreases tail_measure(m),
{
    let (m1, r) = tail_next(m, data);
    match r {
        Ok(TailRead::Heap) => (Seq::empty(), Ok(())),
        Err(f) => (Seq::empty(), Err(f)),
        Ok(x) => {
            proof {
                lemma_tail_next_advances(m, data);
            }
            let (rest, e) = tail_reads(m1, data);
            (seq![x] + rest, e)
        },
    }
}

/// A read that is not of the heap moves the reader on.
pub proof fn lemma_tail_next_advances(m: TailModel, data: Seq<u8>)
    ensures
        tail_next(m, data).1 != Ok::<TailRead, VocFault>(TailRead::Heap) ==> tail_next(m, data).0.pos > m.pos
            && tail_next(m, data).0.file_len == m.file_len && m.pos < m.file_len + BUFFER,
{
    if m.pos < m.file_len + BUFFER && m.consumed == m.length {
        lemma_tail_blocks_advances(TailModel { consumed: 0, ..m }, data);
    }
}

proof fn lemma_tail_blocks_advances(m: TailModel, data: Seq<u8>)
    ensures
        tail_blocks(m, data).0.pos > m.pos,
        tail_blocks(m, data).0.file_len == m.file_len,
    decreases tail_measure(m),
{
    let t = tail_byte(data, m.pos);
    if !(t == 0 || m.pos >= m.file_len + BUFFER) {
        let m1 = TailModel { pos: m.pos + 1, btype: t, ..m };
        let h = tail_bytes(data, m1.pos, header_len(t));
        let m2 = TailModel { pos: m1.pos + header_len(t), ..m1 };
        match block_of(t, h) {
            Err(f) => {},
            Ok(b) => {
                let m3 = TailModel { length: b.length as int, ..m2 };
                if !b.sound {
                    lemma_tail_blocks_advances(m3, data);
                }
            },
        }
    }
}

impl Tail {
    /// A copy of this reader with its buffer not yet filled, if it reads
    /// `data` (its file length is `data`'s and its counters are in range).
    pub fn reading(&self, data: &[u8]) -> (r: Option<Tail>)
        ensures
            r matches Some(t) ==> t.ok(data@) && t.view() == self.view() && t.fresh(),
            self.ok(data@) ==> r is Some,
    {
        let len = data.len() as u64;
        if len < 27 || len >= 0x100_0000_0000 || self.file_len != len || self.pos > len + BUFFER + 16
            || self.consumed > 0x1_0000_0000 + self.pos || self.length > 0xFFFF_FFFF {
            return None;
        }
        Some(
            Tail {
                pos: self.pos,
                file_len: self.file_len,
                btype: self.btype,
                length: self.length,
                consumed: self.consumed,
                phantom: None,
            },
        )
    }

    /// Every read past the sample runs, up to the heap or the block that is
    /// refused (see [`tail_reads`]).
    pub fn reads(&mut self, data: &[u8]) -> (r: (Vec<TailRead>, Result<(), VocFault>))
        requires
            old(self).ok(data@),
        ensures
            (r.0@, r.1) == tail_reads(old(self).view(), data@),
    {
        let ghost goal = tail_reads(self.view(), data@);
        let mut out: Vec<TailRead> = Vec::new();
        loop
            invariant
                self.ok(data@),
                goal == tail_reads(old(self).view(), data@),
                ({
                    let (rest, e) = tail_reads(self.view(), data@);
                    (out@ + rest, e) == goal
                }),
            decreases tail_measure(self.view()),
        {
            let ghost m = self.view();
            proof {
                lemma_tail_next_advances(m, data@);
            }
            match self.advance(data) {
                Ok(TailRead::Heap) => {
                    proof {
                        assert(out@ + Seq::<TailRead>::empty() =~= out@);
                    }
                    return (out, Ok(()));
                },
                Err(f) => {
                    proof {
                        assert(out@ + Seq::<TailRead>::empty() =~= out@);
                    }
                    return (out, Err(f));
                },
                Ok(x) => {
                    proof {
                        let (rest, e) = tail_reads(self.view(), data@);
                        assert(out@ + (seq![x] + rest) =~= out@.push(x) + rest);
                    }
                    out.push(x);
                },
            }
        }
    }
}


/// The sum of the lengths, the last taken apart.
proof fn lemma_sum_last(ps: Seq<u32>)
    requires
        ps.len() > 0,
    ensures
        sum_all(ps) == sum_all(ps.drop_last()) + ps.last(),
{
    let one = seq![ps.last()];
    assert(one.skip(1) =~= Seq::<u32>::empty());
    assert(sum_all(one.skip(1)) == 0);
    assert(sum_all(one) == ps.last());
    crate::signal::lemma_sum_concat(ps.drop_last(), one);
    assert(ps.drop_last() + one =~= ps);
}

/// Pulses that fill less than the writer's buffer are only buffered:
/// nothing is written, the fill count is their sum, and the buffer's front
/// holds their levels.
#[verifier::spinoff_prover]
proof fn lemma_short_pulses_buffered(ps: Seq<u32>, high: bool, tc: u8)
    requires
        sum_all(ps) < BUFFER,
    ensures
        ({
            let w = pulses_out(fresh_out(), ps, high, tc);
            &&& w.out == Seq::<u8>::empty()
            &&& w.filled == sum_all(ps)
            &&& w.buf.len() == BUFFER
            &&& w.buf.take(sum_all(ps)) == pcm8(ps, high)
        }),
    decreases ps.len(),
{
    if ps.len() == 0 {
        assert(fresh_out().buf.take(0) =~= Seq::<u8>::empty());
    } else {
        let init = ps.drop_last();
        lemma_sum_last(ps);
        crate::signal::lemma_declared_le_sum(init);
        lemma_short_pulses_buffered(init, high, tc);
        let w0 = pulses_out(fresh_out(), init, high, tc);
        let s0 = sum_all(init);
        let len = ps.last() as nat;
        let level = level_at(high, ps.len() - 1);
        let w = pulse_out(w0, len, level, tc);
        assert(w == pulses_out(fresh_out(), ps, high, tc));
        assert(w.buf == filled_with(w0.buf, s0, s0 + len, level));
        assert(w.buf.take(sum_all(ps)) =~= w0.buf.take(s0) + Seq::new(len, |i: int| level));
    }
}

/// A block-1 header before `n` samples at time constant `tc`.
pub open spec fn block1_head(n: int, tc: u8) -> Seq<u8> {
    seq![1u8] + le32(n + 2).take(3) + seq![tc, 0u8]
}

/// The image of pulses that fill less than the writer's buffer: the
/// header, one block holding their levels when there are any, and the
/// terminator.
#[verifier::spinoff_prover]
proof fn lemma_short_image(rate: u32, ps: Seq<u32>, high: bool)
    requires
        sum_all(ps) < BUFFER,
    ensures
        pcm8(ps, high).len() == sum_all(ps),
        sum_all(ps) == 0 ==> voc_image(rate, ps, high) == voc_header() + seq![0u8],
        sum_all(ps) > 0 ==> voc_image(rate, ps, high) == voc_header() + block1_head(
            sum_all(ps),
            time_constant_of(rate),
        ) + pcm8(ps, high) + seq![0u8],
{
    let tc = time_constant_of(rate);
    lemma_short_pulses_buffered(ps, high, tc);
    crate::signal::lemma_declared_le_sum(ps);
    let w = pulses_out(fresh_out(), ps, high, tc);
    let n = sum_all(ps);
    if n == 0 {
        assert(voc_image(rate, ps, high) =~= voc_header() + seq![0u8]);
    } else {
        assert(with_block(w, n, tc).out =~= block1_head(n, tc) + pcm8(ps, high));
        assert(voc_image(rate, ps, high) =~= voc_header() + block1_head(n, tc) + pcm8(ps, high)
            + seq![0u8]);
    }
}

/// The walk over a file of no block but the terminator.
proof fn lemma_empty_walk()
    ensures
        voc_walk(voc_header() + seq![0u8]) matches Ok(st) && st.terminated && !st.empty_block
            && st.count == 0 && st.segments.len() == 0,
{
    let data = voc_header() + seq![0u8];
    assert(data.take(20) =~= MAGIC@);
    assert(data[20] == 26 && data[21] == 0);
    let st0 = scan_start(data.len() as int);
    let st1 = ScanState { consumed: 27, terminated: true, done: true, ..st0 };
    assert(scan_step(data, st0) == Ok::<ScanState, VocFault>(st1));
    reveal_with_fuel(scan_walk, 2);
    assert(scan_walk(data, st1) == Ok::<ScanState, VocFault>(st1));
}

/// The walk over a file of one block-1 of `pcm` and the terminator: the
/// block's run is the samples, counted, at the time constant's rate.
#[verifier::spinoff_prover]
proof fn lemma_one_block_walk(tc: u8, pcm: Seq<u8>)
    requires
        0 < pcm.len() < BUFFER,
    ensures
        ({
            let data = voc_header() + block1_head(pcm.len() as int, tc) + pcm + seq![0u8];
            voc_walk(data) matches Ok(st) && st.terminated && !st.empty_block && st.count
                == pcm.len() && st.segments == seq![Segment { offset: 32, bytes: pcm.len() as u64 }]
                && st.rate == Some((1_000_000int / (256 - tc)) as u32)
        }),
{
    let n = pcm.len() as int;
    let head = voc_header();
    let data = head + block1_head(n, tc) + pcm + seq![0u8];
    assert(data.take(20) =~= MAGIC@);
    assert(data[20] == 26 && data[21] == 0);
    assert(data.len() == n + 33);
    let st0 = scan_start(data.len() as int);
    let h = scan_bytes(data, 27, header_len(1));
    assert(h =~= data.subrange(27, 32));
    assert(h[0] + 256 * h[1] + 65536 * h[2] == n + 2) by {
        crate::le::lemma_le32_roundtrip(n + 2);
    }
    assert(h[4] == 0);
    let b = Block {
        claimed: (n + 2) as u32,
        header: 2,
        length: n as u32,
        sound: true,
        counted: true,
        rate: Some((1_000_000int / (256 - tc)) as u32),
        extended: false,
    };
    assert(block_of(1, h) == Ok::<Block, VocFault>(b));
    let st1 = past_block(st0, b, 1, data.len() as int);
    assert(st1.pos == n + 32);
    assert(st1.segments =~= seq![Segment { offset: 32, bytes: n as u64 }]);
    assert(scan_step(data, st0) == Ok::<ScanState, VocFault>(st1));
    let st2 = ScanState { consumed: st1.pos + 1, terminated: true, done: true, ..st1 };
    assert(data[n + 32] == 0);
    assert(scan_step(data, st1) == Ok::<ScanState, VocFault>(st2));
    reveal_with_fuel(scan_walk, 3);
    assert(scan_walk(data, st0) == Ok::<ScanState, VocFault>(st2));
}

/// What a VOC reader reads of a file this writer wrote is what was written:
/// for pulses that fill less than the writer's buffer, the scan walks one
/// sound block to the terminator, counts the pulses' samples, takes the
/// rate the block's time constant stands for, and the block's run holds
/// the pulses' levels, sample for sample.
#[verifier::spinoff_prover]
pub proof fn lemma_voc_roundtrip(rate: u32, ps: Seq<u32>, high: bool)
    requires
        sum_all(ps) < BUFFER,
    ensures
        voc_walk(voc_image(rate, ps, high)) matches Ok(st) && {
            &&& st.terminated
            &&& !st.empty_block
            &&& st.count == sum_all(ps)
            &&& runs_bytes(voc_image(rate, ps, high), st.segments) == Some(pcm8(ps, high))
            &&& sum_all(ps) > 0 ==> st.rate == Some(
                (1_000_000int / (256 - time_constant_of(rate))) as u32,
            )
        },
{
    let tc = time_constant_of(rate);
    let n = sum_all(ps);
    let pcm = pcm8(ps, high);
    lemma_short_image(rate, ps, high);
    if n == 0 {
        lemma_empty_walk();
        assert(pcm =~= Seq::<u8>::empty());
        let st = voc_walk(voc_image(rate, ps, high))->Ok_0;
        assert(runs_bytes(voc_image(rate, ps, high), st.segments) == Some(Seq::<u8>::empty())) by {
            reveal_with_fuel(runs_bytes, 1);
        }
    } else {
        lemma_one_block_walk(tc, pcm);
        let head = voc_header() + block1_head(n, tc);
        crate::source::lemma_single_run(head, pcm, seq![0u8]);
    }
}

} // verus!
