//! The encode pipeline: samples in, pulses out. The detector reads the
//! signal three times from its first sample: two polarity probes, then the
//! run that emits; past the sample runs, a VOC reader reads on.

use vstd::prelude::*;

use crate::detect::{
    detector_ok, finished, initial_detector, lemma_drained_stage, lemma_probe_ended_answers,
    lemma_probed_stage, probe_ended, probe_fed, probed, pushed, stage_rank, stepped,
    PulseDetector, Stage, READ_LIMIT,
};
use crate::error::Error;
use crate::signal::Pulses;
use crate::source::{Encoding, Stream, TailEnd};
use crate::voc::{fault_error, fault_reported, TailRead, VocFault};

verus! {

/// A sample byte in the detector's domain, which centres on 128: an
/// unsigned byte as it is, a signed one moved up by 128.
pub open spec fn plain_byte(enc: Encoding, b: u8) -> u8 {
    match enc {
        Encoding::U8 => b,
        Encoding::S8 => ((b + 128) % 256) as u8,
    }
}

/// A read past the sample runs in the detector's domain, and whether it is
/// valid: a terminator reads as an invalid 0, with no conversion.
pub open spec fn plain_read(enc: Encoding, r: TailRead) -> (u8, bool) {
    match r {
        TailRead::Sample(b, v) => (plain_byte(enc, b), v),
        _ => (0, false),
    }
}

/// A stream in the detector's domain.
pub struct Conditioned {
    pub main: Vec<u8>,
    pub tail: Vec<(u8, bool)>,
    pub end: TailEnd,
}

/// One sample byte in the detector's domain (see [`plain_byte`]).
pub fn to_detector_byte(enc: Encoding, b: u8) -> (r: u8)
    ensures
        r == plain_byte(enc, b),
{
    match enc {
        Encoding::U8 => b,
        Encoding::S8 => ((b as u16 + 128) % 256) as u8,
    }
}

/// A stream in the detector's domain, with no filter between.
pub fn condition_plain(s: &Stream, enc: Encoding) -> (c: Conditioned)
    ensures
        c.main@ == s.main@.map_values(|b: u8| plain_byte(enc, b)),
        c.tail@ == s.tail@.map_values(|r: TailRead| plain_read(enc, r)),
        c.end == s.end,
{
    let mut main: Vec<u8> = Vec::new();
    let mut i: usize = 0;
    while i < s.main.len()
        invariant
            i <= s.main@.len(),
            main@ == s.main@.take(i as int).map_values(|b: u8| plain_byte(enc, b)),
        decreases s.main@.len() - i,
    {
        main.push(to_detector_byte(enc, s.main[i]));
        i = i + 1;
        proof {
            assert(main@ =~= s.main@.take(i as int).map_values(|b: u8| plain_byte(enc, b)));
        }
    }
    let mut tail: Vec<(u8, bool)> = Vec::new();
    let mut j: usize = 0;
    while j < s.tail.len()
        invariant
            j <= s.tail@.len(),
            tail@ == s.tail@.take(j as int).map_values(|r: TailRead| plain_read(enc, r)),
        decreases s.tail@.len() - j,
    {
        let read = match s.tail[j] {
            TailRead::Sample(b, v) => (to_detector_byte(enc, b), v),
            _ => (0u8, false),
        };
        tail.push(read);
        j = j + 1;
        proof {
            assert(tail@ =~= s.tail@.take(j as int).map_values(|r: TailRead| plain_read(enc, r)));
        }
    }
    proof {
        assert(s.main@.take(i as int) =~= s.main@);
        assert(s.tail@.take(j as int) =~= s.tail@);
    }
    Conditioned { main, tail, end: s.end }
}

/// Why a run that emits stops short.
#[derive(Debug, Clone, Copy, PartialEq, Eq, Structural)]
pub enum RunFault {
    /// A block the VOC reader refuses.
    Voc(VocFault),
    /// A read past the end of the VOC reader's buffer.
    Heap,
}

/// A probe's reads past the sample runs, into the probe until it answers;
/// at their end, the probe reads on past the end of input (the heap
/// included); at a refused block, the pass fails.
pub open spec fn probe_reads(d: PulseDetector, tail: Seq<(u8, bool)>, end: TailEnd) -> Result<
    PulseDetector,
    (PulseDetector, VocFault),
>
    decreases tail.len(),
{
    if tail.len() == 0 {
        match end {
            TailEnd::Fault(f) => Err((d, f)),
            _ => Ok(probe_ended(d)),
        }
    } else {
        let (d1, answered) = probe_fed(d, Some(tail[0].0), Some(tail[0].1));
        if answered {
            Ok(d1)
        } else {
            probe_reads(d1, tail.skip(1), end)
        }
    }
}

/// One probe pass from the first sample.
pub open spec fn probe_once(d: PulseDetector, main: Seq<u8>, tail: Seq<(u8, bool)>, end: TailEnd) -> Result<
    PulseDetector,
    (PulseDetector, VocFault),
> {
    let (d1, answered) = probed(d, main);
    if answered {
        Ok(d1)
    } else {
        probe_reads(d1, tail, end)
    }
}

/// The probe passes still to make.
pub open spec fn probe_passes(
    d: PulseDetector,
    main: Seq<u8>,
    tail: Seq<(u8, bool)>,
    end: TailEnd,
    left: nat,
) -> Result<PulseDetector, (PulseDetector, VocFault)>
    decreases left,
{
    if left == 0 || d.stage == Stage::Real {
        Ok(d)
    } else {
        match probe_once(d, main, tail, end) {
            Err(x) => Err(x),
            Ok(d1) => probe_passes(d1, main, tail, end, (left - 1) as nat),
        }
    }
}

/// The run's reads past the sample runs, until it is done: at their end it
/// drains, at the heap or a refused block it stops.
pub open spec fn real_reads(d: PulseDetector, tail: Seq<(u8, bool)>, end: TailEnd) -> (
    PulseDetector,
    Seq<u32>,
    Option<RunFault>,
)
    decreases tail.len(),
{
    if d.done {
        (d, Seq::empty(), None)
    } else if tail.len() == 0 {
        match end {
            TailEnd::Nothing => {
                let (d1, out) = finished(d);
                (d1, out, None)
            },
            TailEnd::Heap => (d, Seq::empty(), Some(RunFault::Heap)),
            TailEnd::Fault(f) => (d, Seq::empty(), Some(RunFault::Voc(f))),
        }
    } else {
        let (d1, out) = stepped(d, Some(tail[0].0), Some(tail[0].1));
        let (d2, more, e) = real_reads(d1, tail.skip(1), end);
        (d2, out + more, e)
    }
}

/// The detector's three reads of a stream: the probe passes, then the run
/// that emits over the samples and on past them. The detector it ends in, the
/// pulses emitted, and what stopped it short, if anything.
pub open spec fn encoded(d: PulseDetector, main: Seq<u8>, tail: Seq<(u8, bool)>, end: TailEnd) -> (
    PulseDetector,
    Seq<u32>,
    Option<RunFault>,
) {
    match probe_passes(d, main, tail, end, stage_rank(d.stage)) {
        Err((d1, f)) => (d1, Seq::empty(), Some(RunFault::Voc(f))),
        Ok(d1) => {
            let (d2, out) = pushed(d1, main);
            let (d3, more, e) = real_reads(d2, tail, end);
            (d3, out + more, e)
        },
    }
}

/// The detector an encode starts from.
pub open spec fn encoder_start(zrle: bool, per_sample: bool) -> PulseDetector {
    PulseDetector { zero_stale_cand: zrle, valid_per_sample: per_sample, ..initial_detector() }
}

/// The error each fault is reported as.
pub open spec fn run_fault_reported(f: RunFault, e: Error) -> bool {
    match f {
        RunFault::Voc(v) => fault_reported(v, e),
        RunFault::Heap => e matches Error::Silent(s) && s@
            == "VOC read past the reader's 256 KiB buffer"@,
    }
}

/// A probe fed a read either answers, with a fresh run and one probe fewer
/// to go, or stays in its stage.
proof fn lemma_probe_fed_stage(d: PulseDetector, x: u8, v: bool)
    requires
        d.stage == Stage::Probe(1) || d.stage == Stage::Probe(2),
    ensures
        probe_fed(d, Some(x), Some(v)).1 ==> probe_fed(d, Some(x), Some(v)).0.run.reads == 0
            && stage_rank(probe_fed(d, Some(x), Some(v)).0.stage) + 1 == stage_rank(d.stage),
        !probe_fed(d, Some(x), Some(v)).1 ==> probe_fed(d, Some(x), Some(v)).0.stage == d.stage,
{
}

/// The probe's reads past the samples (see [`probe_reads`]).
fn probe_on(det: &mut PulseDetector, c: &Conditioned) -> (r: Result<(), VocFault>)
    requires
        detector_ok(*old(det)),
        old(det).stage == Stage::Probe(1) || old(det).stage == Stage::Probe(2),
        old(det).run.reads <= c.main@.len(),
        c.main@.len() + c.tail@.len() + 64 <= READ_LIMIT,
    ensures
        detector_ok(*final(det)),
        match probe_reads(*old(det), c.tail@, c.end) {
            Ok(d) => r is Ok && *final(det) == d && final(det).run.reads == 0 && stage_rank(d.stage)
                + 1 == stage_rank(old(det).stage),
            Err((d, f)) => r == Err::<(), VocFault>(f) && *final(det) == d,
        },
{
    let ghost d0 = *det;
    let mut i: usize = 0;
    proof {
        assert(c.tail@.skip(0) =~= c.tail@);
    }
    while i < c.tail.len()
        invariant
            detector_ok(*det),
            det.stage == d0.stage,
            d0.stage == Stage::Probe(1) || d0.stage == Stage::Probe(2),
            i <= c.tail@.len(),
            det.run.reads <= c.main@.len() + i,
            c.main@.len() + c.tail@.len() + 64 <= READ_LIMIT,
            probe_reads(d0, c.tail@, c.end) == probe_reads(*det, c.tail@.skip(i as int), c.end),
            d0 == *old(det),
        decreases c.tail@.len() - i,
    {
        let (x, v) = c.tail[i];
        let ghost before = *det;
        proof {
            lemma_probe_fed_stage(before, x, v);
            assert(c.tail@.skip(i as int)[0] == (x, v));
            assert(c.tail@.skip(i as int).skip(1) =~= c.tail@.skip(i + 1));
        }
        if det.probe_read(x, v) {
            return Ok(());
        }
        i = i + 1;
    }
    proof {
        assert(c.tail@.skip(i as int).len() == 0);
    }
    match c.end {
        TailEnd::Fault(f) => Err(f),
        _ => {
            proof {
                lemma_probe_ended_answers(*det);
                lemma_drained_stage(*det, det.stage->Probe_0, 0);
            }
            det.probe_eof();
            Ok(())
        },
    }
}

/// The run's reads past the samples (see [`real_reads`]).
#[verifier::rlimit(40)]
fn real_on(det: &mut PulseDetector, c: &Conditioned, out: &mut Vec<u32>) -> (r: Option<RunFault>)
    requires
        detector_ok(*old(det)),
        old(det).stage == Stage::Real,
        old(det).run.reads <= c.main@.len(),
        c.main@.len() + c.tail@.len() + 64 <= READ_LIMIT,
    ensures
        detector_ok(*final(det)),
        *final(det) == real_reads(*old(det), c.tail@, c.end).0,
        final(out)@ == old(out)@ + real_reads(*old(det), c.tail@, c.end).1,
        r == real_reads(*old(det), c.tail@, c.end).2,
        final(det).stage == Stage::Real,
        r is None ==> final(det).done,
{
    let ghost d0 = *det;
    let ghost start = out@;
    let mut i: usize = 0;
    proof {
        assert(c.tail@.skip(0) =~= c.tail@);
        assert(out@ + real_reads(d0, c.tail@, c.end).1 =~= start + real_reads(d0, c.tail@, c.end).1);
    }
    loop
        invariant
            detector_ok(*det),
            det.stage == Stage::Real,
            i <= c.tail@.len(),
            det.run.reads <= c.main@.len() + i,
            c.main@.len() + c.tail@.len() + 64 <= READ_LIMIT,
            real_reads(*det, c.tail@.skip(i as int), c.end).0 == real_reads(d0, c.tail@, c.end).0,
            out@ + real_reads(*det, c.tail@.skip(i as int), c.end).1 == start + real_reads(
                d0,
                c.tail@,
                c.end,
            ).1,
            real_reads(*det, c.tail@.skip(i as int), c.end).2 == real_reads(d0, c.tail@, c.end).2,
            d0 == *old(det),
            start == old(out)@,
        decreases c.tail@.len() - i,
    {
        if det.is_done() {
            proof {
                assert(out@ + Seq::<u32>::empty() =~= out@);
            }
            return None;
        }
        if i >= c.tail.len() {
            proof {
                assert(c.tail@.skip(i as int).len() == 0);
            }
            match c.end {
                TailEnd::Nothing => {
                    let ghost o0 = out@;
                    det.finish(out);
                    proof {
                        assert(out@ =~= o0 + out@.skip(o0.len() as int));
                    }
                    return None;
                },
                TailEnd::Heap => {
                    proof {
                        assert(out@ + Seq::<u32>::empty() =~= out@);
                    }
                    return Some(RunFault::Heap);
                },
                TailEnd::Fault(f) => {
                    proof {
                        assert(out@ + Seq::<u32>::empty() =~= out@);
                    }
                    return Some(RunFault::Voc(f));
                },
            }
        }
        let (x, v) = c.tail[i];
        let ghost o0 = out@;
        let ghost before = *det;
        proof {
            lemma_real_reads_step(before, c.tail@.skip(i as int), c.end);
            assert(c.tail@.skip(i as int)[0] == (x, v));
            assert(c.tail@.skip(i as int).skip(1) =~= c.tail@.skip(i + 1));
        }
        det.push_read(x, v, out);
        proof {
            let o1 = stepped(before, Some(x), Some(v)).1;
            assert(out@.skip(o0.len() as int) == o1);
            assert(out@ =~= o0 + o1);
            let more = real_reads(*det, c.tail@.skip(i + 1), c.end).1;
            assert(o0 + (o1 + more) =~= out@ + more);
        }
        i = i + 1;
    }
}

/// One read of the run's reads past the samples, unfolded.
proof fn lemma_real_reads_step(d: PulseDetector, tail: Seq<(u8, bool)>, end: TailEnd)
    requires
        !d.done,
        tail.len() > 0,
    ensures
        real_reads(d, tail, end) == ({
            let (d1, out) = stepped(d, Some(tail[0].0), Some(tail[0].1));
            let (d2, more, e) = real_reads(d1, tail.skip(1), end);
            (d2, out + more, e)
        }),
{
}

/// One probe pass, unfolded: when it answers, the passes left are one fewer.
proof fn lemma_probe_passes_step(
    d: PulseDetector,
    d1: PulseDetector,
    main: Seq<u8>,
    tail: Seq<(u8, bool)>,
    end: TailEnd,
)
    requires
        d.stage != Stage::Real,
        stage_rank(d.stage) > 0,
        probe_once(d, main, tail, end) == Ok::<PulseDetector, (PulseDetector, VocFault)>(d1),
        stage_rank(d1.stage) + 1 == stage_rank(d.stage),
    ensures
        probe_passes(d, main, tail, end, stage_rank(d.stage)) == probe_passes(
            d1,
            main,
            tail,
            end,
            stage_rank(d1.stage),
        ),
{
}

/// The probe passes (see [`probe_passes`]).
fn probe_all(det: &mut PulseDetector, c: &Conditioned) -> (r: Result<(), VocFault>)
    requires
        detector_ok(*old(det)),
        old(det).run.reads == 0,
        c.main@.len() + c.tail@.len() + 64 <= READ_LIMIT,
    ensures
        detector_ok(*final(det)),
        match probe_passes(*old(det), c.main@, c.tail@, c.end, stage_rank(old(det).stage)) {
            Ok(d) => r is Ok && *final(det) == d && d.stage == Stage::Real && d.run.reads == 0,
            Err((d, f)) => r == Err::<(), VocFault>(f) && *final(det) == d,
        },
{
    let ghost d0 = *det;
    while !det.ready()
        invariant
            detector_ok(*det),
            det.run.reads == 0,
            c.main@.len() + c.tail@.len() + 64 <= READ_LIMIT,
            d0 == *old(det),
            probe_passes(d0, c.main@, c.tail@, c.end, stage_rank(d0.stage)) == probe_passes(
                *det,
                c.main@,
                c.tail@,
                c.end,
                stage_rank(det.stage),
            ),
        decreases stage_rank(det.stage),
    {
        let ghost before = *det;
        let answered = det.probe(&c.main);
        proof {
            lemma_probed_stage(before, c.main@);
        }
        if !answered {
            let r = probe_on(det, c);
            if let Err(f) = r {
                return Err(f);
            }
        }
        proof {
            assert(probe_once(before, c.main@, c.tail@, c.end) == Ok::<
                PulseDetector,
                (PulseDetector, VocFault),
            >(*det));
            lemma_probe_passes_step(before, *det, c.main@, c.tail@, c.end);
        }
    }
    Ok(())
}

/// The probe passes alone, from the detector [`encode`] starts from: whether
/// they end at a block the VOC reader refuses, reported as its error. A
/// conversion makes them before it announces its work, so such a block is
/// reported with nothing written.
pub fn probe(zrle: bool, per_sample: bool, c: &Conditioned) -> (r: Result<(), Error>)
    requires
        c.main@.len() + c.tail@.len() + 64 <= READ_LIMIT,
    ensures
        match probe_passes(
            encoder_start(zrle, per_sample),
            c.main@,
            c.tail@,
            c.end,
            stage_rank(encoder_start(zrle, per_sample).stage),
        ) {
            Ok(_) => r is Ok,
            Err((_, f)) => r matches Err(e) && fault_reported(f, e),
        },
{
    let mut det = PulseDetector::new().with_zrle_frame(zrle).with_valid_per_sample(per_sample);
    match probe_all(&mut det, c) {
        Ok(()) => Ok(()),
        Err(f) => Err(fault_error(f)),
    }
}

/// The three reads of a conditioned stream (see [`encoded`]), from a fresh
/// detector that models the Z-RLE frame when `zrle` is set and reads each
/// sample's valid flag when `per_sample` is: the pulses at `rate`, with the
/// polarity the probes decided and the detector's call count. A run stopped
/// short is reported with the pulses it had emitted, their count left at 0.
pub fn encode(rate: u32, zrle: bool, per_sample: bool, c: &Conditioned) -> (r: Result<
    Pulses,
    (Error, Pulses),
>)
    requires
        c.main@.len() + c.tail@.len() + 64 <= READ_LIMIT,
    ensures
        ({
            let (d, out, e) = encoded(encoder_start(zrle, per_sample), c.main@, c.tail@, c.end);
            match e {
                None => r matches Ok(p) && p.rate == rate && p.pulses@ == out + finished(d).1
                    && p.initial_high == (finished(d).0.decided == Some(true)) && p.declared == (
                if finished(d).0.calls < 1 {
                    1
                } else {
                    finished(d).0.calls
                }),
                Some(f) => r matches Err((err, p)) && run_fault_reported(f, err) && p.rate == rate
                    && p.pulses@ == out && p.initial_high == (d.decided == Some(true)) && p.declared
                    == 0,
            }
        }),
{
    let mut det = PulseDetector::new().with_zrle_frame(zrle).with_valid_per_sample(per_sample);
    let mut pulses: Vec<u32> = Vec::new();
    if let Err(f) = probe_all(&mut det, c) {
        let p = Pulses { rate, pulses, initial_high: det.initial_high(), declared: 0 };
        return Err((fault_error(f), p));
    }
    det.push(&c.main, &mut pulses);
    let ghost o1 = pulses@;
    let e = real_on(&mut det, c, &mut pulses);
    match e {
        None => {
            let declared = det.pulse_count();
            let initial_high = det.initial_high();
            proof {
                assert(pulses@ =~= pulses@ + finished(det).1);
            }
            Ok(Pulses { rate, pulses, initial_high, declared })
        },
        Some(f) => {
            let err = match f {
                RunFault::Heap => Error::Silent("VOC read past the reader's 256 KiB buffer".to_owned()),
                RunFault::Voc(v) => fault_error(v),
            };
            let p = Pulses { rate, pulses, initial_high: det.initial_high(), declared: 0 };
            Err((err, p))
        },
    }
}

} // verus!
