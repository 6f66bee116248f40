//! CSW run-length codec, shared by v1 and v2: one byte per pulse length, a
//! length over 255 escaped as `0x00` followed by the length as a
//! little-endian u32 (`0xCDE9` -> `00 E9 CD 00 00`).

use vstd::prelude::*;

use crate::error::{Error, Result};
use crate::le::{from_le32, le32, lemma_le32_roundtrip, push_le32, read_le32};
use crate::text::{
    decimal, lemma_concat_valid, lemma_decimal_valid, lemma_str_valid, push_decimal, push_str, text,
};
use vstd::string::StringSliceAdditionalSpecFns;
use vstd::utf8::decode_utf8;

verus! {

/// The bytes one pulse length is written as.
pub open spec fn pulse_bytes(p: u32) -> Seq<u8> {
    if 1 <= p <= 255 {
        seq![p as u8]
    } else {
        seq![0u8] + le32(p as int)
    }
}

/// The RLE stream of a pulse list.
pub open spec fn rle_stream(ps: Seq<u32>) -> Seq<u8>
    decreases ps.len(),
{
    if ps.len() == 0 {
        Seq::empty()
    } else {
        pulse_bytes(ps[0]) + rle_stream(ps.skip(1))
    }
}

/// The pulse lengths an RLE stream holds. A zero byte escapes a four-byte
/// length; fewer than four bytes behind it is padding or truncation, and ends
/// the stream.
pub open spec fn rle_pulses(data: Seq<u8>) -> Seq<u32>
    decreases data.len(),
{
    if data.len() == 0 {
        Seq::empty()
    } else if data[0] != 0 {
        seq![data[0] as u32] + rle_pulses(data.skip(1))
    } else if data.len() < 5 {
        Seq::empty()
    } else {
        seq![from_le32(data[1], data[2], data[3], data[4]) as u32] + rle_pulses(data.skip(5))
    }
}

/// No pulse is of zero length.
pub open spec fn all_positive(ps: Seq<u32>) -> bool {
    forall|i: int| 0 <= i < ps.len() ==> #[trigger] ps[i] > 0
}

/// The first zero-length pulse, at `i`.
pub open spec fn first_zero_at(ps: Seq<u32>, i: int) -> bool {
    &&& 0 <= i < ps.len()
    &&& ps[i] == 0
    &&& forall|k: int| 0 <= k < i ==> #[trigger] ps[k] > 0
}

/// The message a zero-length pulse at `i` is refused with.
pub open spec fn zero_pulse_message(i: nat) -> Seq<u8> {
    "pulse ".spec_bytes() + decimal(i) + " is 0 samples: a pulse lasts at least one sample".spec_bytes()
}

/// Appending a pulse appends its bytes.
pub proof fn lemma_rle_stream_push(ps: Seq<u32>, p: u32)
    ensures
        rle_stream(ps.push(p)) == rle_stream(ps) + pulse_bytes(p),
    decreases ps.len(),
{
    if ps.len() == 0 {
        assert(ps.push(p).skip(1) =~= Seq::<u32>::empty());
        assert(rle_stream(ps.push(p)) =~= pulse_bytes(p) + rle_stream(Seq::<u32>::empty()));
    } else {
        lemma_rle_stream_push(ps.skip(1), p);
        assert(ps.push(p).skip(1) =~= ps.skip(1).push(p));
        assert(rle_stream(ps.push(p)) =~= pulse_bytes(ps[0]) + (rle_stream(ps.skip(1)) + pulse_bytes(p)));
    }
}

/// A stream of positive pulses decodes to those pulses.
pub proof fn lemma_decode_encode(ps: Seq<u32>)
    requires
        all_positive(ps),
    ensures
        rle_pulses(rle_stream(ps)) == ps,
    decreases ps.len(),
{
    if ps.len() > 0 {
        let p = ps[0];
        let rest = rle_stream(ps.skip(1));
        assert(all_positive(ps.skip(1)));
        lemma_decode_encode(ps.skip(1));
        let s = pulse_bytes(p) + rest;
        if p <= 255 {
            assert(s.skip(1) =~= rest);
        } else {
            lemma_le32_roundtrip(p as int);
            assert(s.skip(5) =~= rest);
        }
        assert(rle_pulses(s) =~= seq![p] + ps.skip(1));
        assert(seq![p] + ps.skip(1) =~= ps);
    }
}

/// Encoding a list of positive pulses and decoding the result gives the list
/// back: the codec loses nothing.
pub proof fn lemma_roundtrip(ps: Seq<u32>)
    requires
        all_positive(ps),
    ensures
        rle_pulses(rle_stream(ps)) == ps,
{
    lemma_decode_encode(ps);
}

/// A pulse of 1 to 255 samples is written as the one byte of its length.
pub proof fn lemma_short_pulse_is_one_byte(p: u32)
    requires
        1 <= p <= 255,
    ensures
        rle_stream(seq![p]) == seq![p as u8],
        rle_stream(seq![p]).len() == 1,
{
    assert(seq![p].skip(1) =~= Seq::<u32>::empty());
    assert(rle_stream(Seq::<u32>::empty()) == Seq::<u8>::empty());
    assert(rle_stream(seq![p]) == pulse_bytes(seq![p][0]) + rle_stream(seq![p].skip(1)));
    assert(rle_stream(seq![p]) =~= seq![p as u8]);
}

/// A pulse of no samples, or of more than 255, is escaped: a zero byte,
/// then its length in four bytes, least significant first.
pub proof fn lemma_long_pulse_is_escaped(p: u32)
    requires
        p == 0 || p > 255,
    ensures
        rle_stream(seq![p]) == seq![
            0u8,
            (p % 256) as u8,
            ((p / 256) % 256) as u8,
            ((p / 65536) % 256) as u8,
            ((p / 16777216) % 256) as u8,
        ],
{
    assert(seq![p].skip(1) =~= Seq::<u32>::empty());
    assert(rle_stream(Seq::<u32>::empty()) == Seq::<u8>::empty());
    assert(rle_stream(seq![p]) == pulse_bytes(seq![p][0]) + rle_stream(seq![p].skip(1)));
    assert(rle_stream(seq![p]) =~= seq![
        0u8,
        (p % 256) as u8,
        ((p / 256) % 256) as u8,
        ((p / 65536) % 256) as u8,
        ((p / 16777216) % 256) as u8,
    ]);
}

/// The stream of two pulse lists one after the other is their streams one
/// after the other: each pulse is written on its own.
pub proof fn lemma_rle_stream_concat(a: Seq<u32>, b: Seq<u32>)
    ensures
        rle_stream(a + b) == rle_stream(a) + rle_stream(b),
    decreases a.len(),
{
    if a.len() == 0 {
        assert(a + b =~= b);
        assert(rle_stream(a) =~= Seq::<u8>::empty());
        assert(rle_stream(a) + rle_stream(b) =~= rle_stream(b));
    } else {
        lemma_rle_stream_concat(a.skip(1), b);
        assert((a + b).skip(1) =~= a.skip(1) + b);
        assert((a + b)[0] == a[0]);
        assert(rle_stream(a + b) =~= rle_stream(a) + rle_stream(b));
    }
}

/// Encode pulse lengths into an RLE byte stream. A zero-length pulse has no
/// representation and is refused, the first one named by its index.
pub fn encode(pulses: &[u32]) -> (r: Result<Vec<u8>>)
    ensures
        all_positive(pulses@) ==> (r matches Ok(v) && v@ == rle_stream(pulses@)),
        !all_positive(pulses@) ==> (r matches Err(Error::Format(m)) && exists|i: int|
            first_zero_at(pulses@, i) && m@ == decode_utf8(zero_pulse_message(i as nat))),
{
    let mut out: Vec<u8> = Vec::new();
    let mut index: usize = 0;
    while index < pulses.len()
        invariant
            index <= pulses.len(),
            all_positive(pulses@.subrange(0, index as int)),
            out@ == rle_stream(pulses@.subrange(0, index as int)),
        decreases pulses.len() - index,
    {
        let length = pulses[index];
        if length == 0 {
            let mut msg: Vec<u8> = Vec::new();
            push_str(&mut msg, "pulse ");
            push_decimal(&mut msg, index as u64);
            push_str(&mut msg, " is 0 samples: a pulse lasts at least one sample");
            proof {
                lemma_str_valid("pulse ");
                lemma_decimal_valid(index as nat);
                lemma_str_valid(" is 0 samples: a pulse lasts at least one sample");
                lemma_concat_valid("pulse ".spec_bytes(), decimal(index as nat));
                lemma_concat_valid(
                    "pulse ".spec_bytes() + decimal(index as nat),
                    " is 0 samples: a pulse lasts at least one sample".spec_bytes(),
                );
                assert(msg@ =~= zero_pulse_message(index as nat));
                assert(first_zero_at(pulses@, index as int)) by {
                    assert forall|k: int| 0 <= k < index implies #[trigger] pulses@[k] > 0 by {
                        assert(pulses@.subrange(0, index as int)[k] == pulses@[k]);
                    }
                }
            }
            return Err(Error::Format(text(msg)));
        }
        proof {
            lemma_rle_stream_push(pulses@.subrange(0, index as int), length);
            assert(pulses@.subrange(0, index as int).push(length) =~= pulses@.subrange(
                0,
                index + 1,
            ));
        }
        if length <= 255 {
            out.push(length as u8);
        } else {
            out.push(0);
            push_le32(&mut out, length);
        }
        index = index + 1;
        proof {
            assert(out@ =~= rle_stream(pulses@.subrange(0, index as int)));
        }
    }
    proof {
        assert(pulses@.subrange(0, pulses.len() as int) =~= pulses@);
    }
    Ok(out)
}

/// Decode an RLE byte stream into pulse lengths. A zero-length pulse, which
/// only the four-byte form can express, is accepted.
pub fn decode(data: &[u8]) -> (pulses: Vec<u32>)
    ensures
        pulses@ == rle_pulses(data@),
{
    let mut pulses: Vec<u32> = Vec::new();
    let mut i: usize = 0;
    proof {
        assert(data@.skip(0) =~= data@);
        assert(pulses@ + rle_pulses(data@) =~= rle_pulses(data@));
    }
    while i < data.len()
        invariant
            i <= data.len(),
            pulses@ + rle_pulses(data@.skip(i as int)) == rle_pulses(data@),
        decreases data.len() - i,
    {
        proof {
            assert(i == 0 ==> data@.skip(0) =~= data@);
        }
        let rest = Ghost(data@.skip(i as int));
        let b = data[i];
        if b != 0 {
            pulses.push(b as u32);
            proof {
                assert(rest@.skip(1) =~= data@.skip(i + 1));
                assert(pulses@ + rle_pulses(data@.skip(i + 1)) =~= rle_pulses(data@));
            }
            i = i + 1;
        } else {
            if data.len() - i < 5 {
                proof {
                    assert(data@.skip(data.len() as int) =~= Seq::<u8>::empty());
                }
                i = data.len();
            } else {
                let n = read_le32(data[i + 1], data[i + 2], data[i + 3], data[i + 4]);
                pulses.push(n);
                proof {
                    assert(rest@.skip(5) =~= data@.skip(i + 5));
                    assert(pulses@ + rle_pulses(data@.skip(i + 5)) =~= rle_pulses(data@));
                }
                i = i + 5;
            }
        }
    }
    proof {
        assert(data@.skip(data.len() as int) =~= Seq::<u8>::empty());
        assert(pulses@ =~= rle_pulses(data@));
    }
    pulses
}

/// One step of a walk over an RLE stream: from what was still to read,
/// `before`, the next pulse and what is left, `after`; `None`, and nothing
/// left, at the end of the stream.
pub open spec fn walk_step(before: Seq<u8>, item: Option<u32>, after: Seq<u8>) -> bool {
    if rle_pulses(before).len() == 0 {
        item is None && rle_pulses(after).len() == 0
    } else {
        item == Some(rle_pulses(before)[0]) && rle_pulses(after) == rle_pulses(before).skip(1)
    }
}

/// A walk over an RLE stream gives what [`decode`] gives: for what was left
/// to read at each step, `rests`, the pulses each step yielded, `items`,
/// and a last step that found the end, the pulses are those of the stream
/// the walk started from.
pub proof fn lemma_walk_decodes(rests: Seq<Seq<u8>>, items: Seq<u32>, end: Seq<u8>)
    requires
        rests.len() == items.len() + 1,
        forall|k: int| 0 <= k < items.len() ==> walk_step(rests[k], Some(items[k]), #[trigger] rests[k + 1]),
        walk_step(rests[items.len() as int], None, end),
    ensures
        items == rle_pulses(rests[0]),
    decreases items.len(),
{
    if items.len() == 0 {
        assert(rle_pulses(rests[0]) =~= Seq::<u32>::empty());
    } else {
        let r1 = rests.skip(1);
        let i1 = items.skip(1);
        assert forall|k: int| 0 <= k < i1.len() implies walk_step(r1[k], Some(i1[k]), #[trigger] r1[k + 1]) by {
            assert(rests[k + 1 + 1] == r1[k + 1]);
            assert(walk_step(rests[k + 1], Some(items[k + 1]), rests[k + 1 + 1]));
        }
        assert(r1[i1.len() as int] == rests[items.len() as int]);
        lemma_walk_decodes(r1, i1, end);
        assert(walk_step(rests[0], Some(items[0]), rests[1]));
        assert(items =~= seq![items[0]] + i1);
        assert(rle_pulses(rests[0]) =~= seq![rle_pulses(rests[0])[0]] + rle_pulses(rests[0]).skip(1));
    }
}

/// Pulse lengths read one at a time from an RLE byte stream, in constant
/// memory: the same codec as [`decode`], walked (see [`lemma_walk_decodes`]).
pub struct Decoder<'a> {
    data: &'a [u8],
    pos: usize,
}

impl<'a> Decoder<'a> {
    /// What the walk has still to read.
    pub closed spec fn rest(&self) -> Seq<u8> {
        self.data@.skip(self.pos as int)
    }

    pub closed spec fn wf(&self) -> bool {
        self.pos <= self.data@.len()
    }

    pub fn new(data: &'a [u8]) -> (d: Decoder<'a>)
        ensures
            d.wf(),
            rle_pulses(d.rest()) == rle_pulses(data@),
    {
        proof {
            assert(data@.skip(0) =~= data@);
        }
        Decoder { data, pos: 0 }
    }

    /// The next pulse, `None` at the end of the stream (a truncated escape
    /// included).
    pub fn next(&mut self) -> (r: Option<u32>)
        requires
            old(self).wf(),
        ensures
            final(self).wf(),
            walk_step(old(self).rest(), r, final(self).rest()),
    {
        let ghost rest = self.data@.skip(self.pos as int);
        if self.pos >= self.data.len() {
            return None;
        }
        let b = self.data[self.pos];
        if b != 0 {
            self.pos = self.pos + 1;
            proof {
                assert(rest.skip(1) =~= self.data@.skip(self.pos as int));
                assert(rle_pulses(rest).skip(1) =~= rle_pulses(rest.skip(1)));
            }
            return Some(b as u32);
        }
        if self.data.len() - self.pos < 5 {
            self.pos = self.data.len();
            proof {
                assert(self.data@.skip(self.pos as int) =~= Seq::<u8>::empty());
            }
            return None;
        }
        let p = self.pos;
        let n = read_le32(self.data[p + 1], self.data[p + 2], self.data[p + 3], self.data[p + 4]);
        self.pos = p + 5;
        proof {
            assert(rest.skip(5) =~= self.data@.skip(self.pos as int));
            assert(rle_pulses(rest).skip(1) =~= rle_pulses(rest.skip(5)));
        }
        Some(n)
    }
}

} // verus!
