//! Sampled input as a stream: a container scan yields a [`Layout`] (rate,
//! sample encoding, where the sample bytes are), and [`SampleSource`] hands
//! out those runs a chunk at a time.

use vstd::prelude::*;

use crate::error::Error;
use crate::voc::{tail_reads, Tail, TailRead, VocFault};

verus! {

/// Samples handed out per chunk.
pub const CHUNK: usize = 65_536;

/// How the sample bytes are encoded, and how they map onto the 0..=255
/// domain the detector works in.
#[derive(Debug, Clone, Copy, PartialEq, Eq, Structural)]
pub enum Encoding {
    /// 8-bit unsigned, as WAV and VOC store it: midpoint 128.
    U8,
    /// 8-bit signed, as IFF/8SVX stores it: midpoint 0.
    S8,
}

/// A run of sample bytes in the file.
#[derive(Debug, Clone, Copy, PartialEq, Eq, Structural)]
pub struct Segment {
    pub offset: u64,
    pub bytes: u64,
}

/// What a container scan yields: everything about the signal except the
/// samples themselves.
pub struct Layout {
    pub rate: u32,
    /// The rate the console reports, which is `rate` for every container but
    /// a VOC whose blocks carried none.
    pub shown_rate: i64,
    /// Whether the container declared a rate at all (a VOC may not: its
    /// filter is then designed for an infinite rate).
    pub rate_known: bool,
    /// The status line describing the format.
    pub desc: String,
    /// Print the checking line as `Checking input file integrity...` (VOC).
    pub integrity_check: bool,
    pub encoding: Encoding,
    pub channels: usize,
    /// Where the sample bytes are, in file order.
    pub segments: Vec<Segment>,
    /// A VOC whose blocks ran into the end of the file with no terminator:
    /// the console carries a warning and the samples are read twice.
    pub unterminated: bool,
    /// A VOC sound block whose length, read signed, is not positive: no
    /// samples, or a header longer than its claim. It abandons the run.
    pub empty_block: bool,
    /// Where a VOC reader goes on reading when the segments are spent.
    pub tail: Option<Tail>,
    /// Mono samples the container *declares*: reported as such, even when a
    /// truncated file's segments hold fewer. Only the samples present are
    /// converted.
    pub total_samples: u64,
}

impl Layout {
    /// Samples a run of `bytes` decodes to, channels folded: one byte a
    /// sample of a channel, whole frames only, none when there is no channel.
    pub fn samples_in(&self, bytes: u64) -> (n: u64)
        ensures
            self.channels == 0 ==> n == 0,
            self.channels > 0 ==> n == bytes as int / self.channels as int,
    {
        if self.channels == 0 {
            0
        } else {
            bytes / (self.channels as u64)
        }
    }
}

/// How the reads past the sample runs end.
#[derive(Debug, Clone, Copy, PartialEq, Eq, Structural)]
pub enum TailEnd {
    /// There are none: the input ends with its samples.
    Nothing,
    /// At the end of the VOC reader's buffer.
    Heap,
    /// At a block the VOC reader refuses.
    Fault(VocFault),
}

/// A sampled input as the detector reads it: the sample bytes of every run,
/// in file order, then what a VOC reader reads past them.
pub struct Stream {
    pub main: Vec<u8>,
    pub tail: Vec<TailRead>,
    pub end: TailEnd,
}

/// The bytes of the runs, in order; `None` when a run lies outside the file.
pub open spec fn runs_bytes(data: Seq<u8>, segs: Seq<Segment>) -> Option<Seq<u8>>
    decreases segs.len(),
{
    if segs.len() == 0 {
        Some(Seq::empty())
    } else {
        match runs_bytes(data, segs.drop_last()) {
            None => None,
            Some(m) => {
                let s = segs.last();
                if s.offset + s.bytes > data.len() {
                    None
                } else {
                    Some(m + data.subrange(s.offset as int, s.offset + s.bytes))
                }
            },
        }
    }
}

/// One run over the bytes between a head and a rest is those bytes.
pub(crate) proof fn lemma_single_run(head: Seq<u8>, body: Seq<u8>, rest: Seq<u8>)
    requires
        head.len() + body.len() < 0x1_0000_0000_0000_0000,
    ensures
        runs_bytes(
            head + body + rest,
            seq![Segment { offset: head.len() as u64, bytes: body.len() as u64 }],
        ) == Some(body),
{
    let segs = seq![Segment { offset: head.len() as u64, bytes: body.len() as u64 }];
    let d = head + body + rest;
    reveal_with_fuel(runs_bytes, 2);
    assert(segs.drop_last() =~= Seq::<Segment>::empty());
    assert(d.subrange(head.len() as int, (head.len() + body.len()) as int) =~= body);
    assert(Seq::<u8>::empty() + body =~= body);
}

/// The line for a run that the file does not hold.
pub open spec fn mid_sample(e: Error) -> bool {
    e matches Error::Format(s) && s@ == "input file ends mid-sample"@
}

/// The stream `layout` describes over `data`: the runs' bytes, then the
/// VOC reader's reads past them, ending at its buffer's end or at the block
/// it refuses. A run the file does not hold, or a reader that does not read
/// `data`, is the file ending mid-sample.
pub fn stream_of(layout: &Layout, data: &[u8]) -> (r: Result<Stream, Error>)
    ensures
        match runs_bytes(data@, layout.segments@) {
            None => r matches Err(e) && mid_sample(e),
            Some(m) => match layout.tail {
                None => r matches Ok(st) && st.main@ == m && st.tail@.len() == 0 && st.end
                    == TailEnd::Nothing,
                Some(t) => t.ok(data@) ==> (r matches Ok(st) && st.main@ == m && ({
                    let (reads, e) = tail_reads(t.view(), data@);
                    &&& st.tail@ == reads
                    &&& st.end == match e {
                        Ok(()) => TailEnd::Heap,
                        Err(f) => TailEnd::Fault(f),
                    }
                })),
            },
        },
        r matches Err(e) ==> mid_sample(e),
{
    let mut main: Vec<u8> = Vec::new();
    let len = data.len() as u64;
    let mut k: usize = 0;
    while k < layout.segments.len()
        invariant
            len == data@.len(),
            k <= layout.segments@.len(),
            runs_bytes(data@, layout.segments@.take(k as int)) == Some(main@),
        decreases layout.segments@.len() - k,
    {
        let seg = layout.segments[k];
        proof {
            assert(layout.segments@.take(k + 1).drop_last() =~= layout.segments@.take(k as int));
        }
        if seg.offset > len || seg.bytes > len - seg.offset {
            proof {
                lemma_runs_fail(data@, layout.segments@, (k + 1) as int);
            }
            return Err(Error::Format("input file ends mid-sample".to_owned()));
        }
        let ghost before = main@;
        let mut j: u64 = seg.offset;
        let stop = seg.offset + seg.bytes;
        while j < stop
            invariant
                seg.offset <= j <= stop <= len == data@.len(),
                main@ == before + data@.subrange(seg.offset as int, j as int),
            decreases stop - j,
        {
            main.push(data[j as usize]);
            j = j + 1;
            proof {
                assert(main@ =~= before + data@.subrange(seg.offset as int, j as int));
            }
        }
        k = k + 1;
    }
    proof {
        assert(layout.segments@.take(k as int) =~= layout.segments@);
    }
    match &layout.tail {
        None => Ok(Stream { main, tail: Vec::new(), end: TailEnd::Nothing }),
        Some(t) => match t.reading(data) {
            None => Err(Error::Format("input file ends mid-sample".to_owned())),
            Some(mut reader) => {
                let (tail, e) = reader.reads(data);
                let end = match e {
                    Ok(()) => TailEnd::Heap,
                    Err(f) => TailEnd::Fault(f),
                };
                Ok(Stream { main, tail, end })
            },
        },
    }
}

/// Once a run lies outside the file, every longer list of runs does.
proof fn lemma_runs_fail(data: Seq<u8>, segs: Seq<Segment>, k: int)
    requires
        0 < k <= segs.len(),
        runs_bytes(data, segs.take(k)) is None,
    ensures
        runs_bytes(data, segs) is None,
    decreases segs.len() - k,
{
    if k < segs.len() {
        assert(segs.take(k + 1).drop_last() =~= segs.take(k));
        lemma_runs_fail(data, segs, k + 1);
    } else {
        assert(segs.take(k) =~= segs);
    }
}

} // verus!
