//! Amiga IFF / 8SVX read: big-endian FORM, VHDR (rate at offset 12,
//! `sCompression` at 15, which must be 0) and BODY, whose samples are 8-bit
//! *signed*, so the midpoint is 0.

use vstd::prelude::*;
use vstd::string::StringSliceAdditionalSpecFns;
use vstd::utf8::decode_utf8;

use crate::error::{Error, Msg};
use crate::source::{Encoding, Layout, Segment};
use crate::text::{decimal, lemma_concat_valid, lemma_decimal_valid, lemma_str_valid, push_decimal, push_str, text};
use crate::wav::tag_at;

verus! {

/// "FORM", "8SVX", "VHDR" and "BODY".
pub const FORM: [u8; 4] = [0x46, 0x4F, 0x52, 0x4D];
pub const SVX8: [u8; 4] = [0x38, 0x53, 0x56, 0x58];
pub const VHDR: [u8; 4] = [0x56, 0x48, 0x44, 0x52];
pub const BODY: [u8; 4] = [0x42, 0x4F, 0x44, 0x59];

/// Chunk headers each search looks at before it gives up.
pub const BUDGET: u32 = 5;

/// Why an IFF is turned down.
#[derive(Debug, Clone, Copy, PartialEq, Eq, Structural)]
pub enum IffFault {
    /// Not a FORM of 8SVX, or a VHDR or BODY that is not found.
    WrongType,
    /// A VHDR whose `sCompression` is not 0.
    Compressed,
}

/// The 32-bit big-endian word at `at`.
pub open spec fn be32_at(data: Seq<u8>, at: int) -> int {
    data[at] * 16777216 + data[at + 1] * 65536 + data[at + 2] * 256 + data[at + 3]
}

/// Where the search for `tag` from the chunk header at `pos` finds it, with
/// `budget` headers left to look at. No pad byte is skipped after an
/// odd-sized chunk.
pub open spec fn find_chunk(data: Seq<u8>, pos: int, budget: nat, tag: Seq<u8>) -> Option<int>
    decreases budget,
{
    if pos < 0 || pos + 8 > data.len() {
        None
    } else if tag_at(data, pos, tag) {
        Some(pos)
    } else {
        let next = pos + 8 + be32_at(data, pos + 4);
        if budget <= 1 || next >= data.len() {
            None
        } else {
            find_chunk(data, next, (budget - 1) as nat, tag)
        }
    }
}

/// The byte `j` of the twenty a VHDR is read as: the bytes it does not have
/// read as zero.
pub open spec fn vhdr_byte(data: Seq<u8>, at: int, j: int) -> u8 {
    let body = at + 8;
    let claimed = be32_at(data, at + 4);
    if j < claimed && j < data.len() - body {
        data[body + j]
    } else {
        0
    }
}

/// What the scan of an 8SVX finds: the rate, where the BODY's bytes start
/// and how many it declares.
///
/// The VHDR must be among the first five chunks and the BODY among the five
/// after it. Twenty bytes of VHDR are read whatever its length says; a second
/// VHDR is never read. The FORM's own size is not used.
pub open spec fn iff_scan(data: Seq<u8>) -> Result<(u32, int, int), IffFault> {
    if data.len() < 12 || !tag_at(data, 0, FORM@) || !tag_at(data, 8, SVX8@) {
        Err(IffFault::WrongType)
    } else {
        match find_chunk(data, 12, BUDGET as nat, VHDR@) {
            None => Err(IffFault::WrongType),
            Some(v) => {
                let rate = (vhdr_byte(data, v, 12) * 256 + vhdr_byte(data, v, 13)) as u32;
                if vhdr_byte(data, v, 15) != 0 {
                    Err(IffFault::Compressed)
                } else {
                    match find_chunk(data, v + 8 + be32_at(data, v + 4), BUDGET as nat, BODY@) {
                        None => Err(IffFault::WrongType),
                        Some(b) => Ok((rate, b + 8, be32_at(data, b + 4))),
                    }
                }
            },
        }
    }
}

/// The status line of an 8SVX declaring `n` bytes.
pub open spec fn iff_desc(n: nat) -> Seq<u8> {
    "IFF/8SVX (IFF), ".spec_bytes() + decimal(n) + " samples.".spec_bytes()
}

/// What the scan of an 8SVX yields: one run from the BODY's offset to the
/// end of the **file** (whatever follows the BODY is converted as sound,
/// chunk headers included), and the declared length as the sample count.
pub open spec fn iff_layout(data: Seq<u8>, rate: u32, body: int, declared: int, l: Layout) -> bool {
    &&& l.rate == rate
    &&& l.shown_rate == rate
    &&& l.rate_known
    &&& l.desc@ == decode_utf8(iff_desc(declared as nat))
    &&& !l.integrity_check
    &&& l.encoding == Encoding::S8
    &&& l.channels == 1
    &&& l.segments@ == seq![Segment { offset: body as u64, bytes: (data.len() - body) as u64 }]
    &&& !l.unterminated
    &&& !l.empty_block
    &&& l.tail is None
    &&& l.total_samples == declared
}

/// Whether the four bytes at `at` are `tag`.
fn has_tag(data: &[u8], at: usize, tag: &[u8; 4]) -> (r: bool)
    requires
        at + 4 <= data@.len(),
    ensures
        r == tag_at(data@, at as int, tag@),
{
    let r = data[at] == tag[0] && data[at + 1] == tag[1] && data[at + 2] == tag[2] && data[at + 3]
        == tag[3];
    proof {
        if r {
            assert(data@.subrange(at as int, at + 4) =~= tag@);
        } else {
            assert(exists|k: int| 0 <= k < 4 && data@.subrange(at as int, at + 4)[k] != tag@[k]);
        }
    }
    r
}

/// The big-endian word at `at`.
fn be32(data: &[u8], at: usize) -> (w: u64)
    requires
        at + 4 <= data@.len(),
    ensures
        w == be32_at(data@, at as int),
{
    data[at] as u64 * 16777216 + data[at + 1] as u64 * 65536 + data[at + 2] as u64 * 256
        + data[at + 3] as u64
}

/// The search for `tag` (see [`find_chunk`]).
fn find(data: &[u8], from: u64, tag: &[u8; 4]) -> (r: Option<usize>)
    requires
        data@.len() < 0x100_0000_0000,
        from < 0x200_0000_0000,
    ensures
        r matches Some(p) ==> find_chunk(data@, from as int, BUDGET as nat, tag@) == Some(p as int)
            && p + 8 <= data@.len(),
        r is None ==> find_chunk(data@, from as int, BUDGET as nat, tag@) is None,
{
    let n: usize = data.len();
    let len = n as u64;
    let mut pos = from;
    let mut budget: u32 = BUDGET;
    let ghost goal = find_chunk(data@, from as int, BUDGET as nat, tag@);
    loop
        invariant
            goal == find_chunk(data@, from as int, BUDGET as nat, tag@),
            len == n == data@.len() < 0x100_0000_0000,
            1 <= budget <= BUDGET,
            pos < 0x200_0000_0000,
            find_chunk(data@, pos as int, budget as nat, tag@) == goal,
        decreases budget,
    {
        if pos > len || len - pos < 8 {
            return None;
        }
        let p: usize = pos as usize;
        if has_tag(data, p, tag) {
            return Some(p);
        }
        let next = pos + 8 + be32(data, p + 4);
        if budget <= 1 || next >= len {
            return None;
        }
        pos = next;
        budget = budget - 1;
    }
}

/// Scan an 8SVX IFF container held in memory: locate VHDR and BODY, and
/// describe the signal without reading a sample (see [`iff_scan`]). The BODY
/// has to be *reached*, not to hold anything: one declaring zero bytes
/// converts to an empty CSW.
pub fn scan(data: &[u8]) -> (r: Result<Layout, Error>)
    requires
        data@.len() < 0x100_0000_0000,
    ensures
        match iff_scan(data@) {
            Ok((rate, body, declared)) => r matches Ok(l) && iff_layout(data@, rate, body, declared, l),
            Err(IffFault::WrongType) => r matches Err(Error::Fatal(m)) && m.bytes()
                == "Wrong file type".spec_bytes(),
            Err(IffFault::Compressed) => r matches Err(Error::Rejected(s, c)) && s@
                == "Sorry, compressed IFF data not yet supported."@ && c == 246,
        },
{
    let len = data.len();
    if len < 12 || !has_tag(data, 0, &FORM) || !has_tag(data, 8, &SVX8) {
        return Err(Error::Fatal(Msg::from_text("Wrong file type")));
    }
    let v = match find(data, 12, &VHDR) {
        None => {
            return Err(Error::Fatal(Msg::from_text("Wrong file type")));
        },
        Some(v) => v,
    };
    let claimed = be32(data, v + 4);
    let body = v as u64 + 8;
    let have: u64 = if claimed < (len as u64 - body) {
        claimed
    } else {
        len as u64 - body
    };
    let b12: u8 = if 12 < have {
        data[(body + 12) as usize]
    } else {
        0
    };
    let b13: u8 = if 13 < have {
        data[(body + 13) as usize]
    } else {
        0
    };
    let b15: u8 = if 15 < have {
        data[(body + 15) as usize]
    } else {
        0
    };
    let rate = b12 as u32 * 256 + b13 as u32;
    if b15 != 0 {
        return Err(Error::Rejected("Sorry, compressed IFF data not yet supported.".to_owned(), 246));
    }
    let b = match find(data, body + claimed, &BODY) {
        None => {
            return Err(Error::Fatal(Msg::from_text("Wrong file type")));
        },
        Some(b) => b,
    };
    let declared = be32(data, b + 4);
    let start = b as u64 + 8;
    let mut segments: Vec<Segment> = Vec::new();
    segments.push(Segment { offset: start, bytes: len as u64 - start });
    let mut t: Vec<u8> = Vec::new();
    push_str(&mut t, "IFF/8SVX (IFF), ");
    push_decimal(&mut t, declared);
    push_str(&mut t, " samples.");
    proof {
        assert(t@ =~= iff_desc(declared as nat));
        lemma_str_valid("IFF/8SVX (IFF), ");
        lemma_str_valid(" samples.");
        lemma_decimal_valid(declared as nat);
        lemma_concat_valid("IFF/8SVX (IFF), ".spec_bytes(), decimal(declared as nat));
        lemma_concat_valid(
            "IFF/8SVX (IFF), ".spec_bytes() + decimal(declared as nat),
            " samples.".spec_bytes(),
        );
        assert(segments@ =~= seq![Segment { offset: start, bytes: (len - start) as u64 }]);
    }
    Ok(
        Layout {
            rate,
            shown_rate: rate as i64,
            rate_known: true,
            desc: text(t),
            integrity_check: false,
            encoding: Encoding::S8,
            channels: 1,
            segments,
            unterminated: false,
            empty_block: false,
            tail: None,
            total_samples: declared,
        },
    )
}

} // verus!
