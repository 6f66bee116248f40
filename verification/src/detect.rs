//! The pulse detector: samples in the 0..=255 byte domain to pulse lengths.
//!
//! The detector is a state machine fed a sample at a time. Its transitions
//! are stated as spec functions over the machine's state, and each public
//! method is proved to take exactly the transitions they describe; the laws
//! at the end of the file follow from that.

use vstd::prelude::*;

use crate::signal::Pulses;

verus! {

/// Samples one run may read before its counters could leave 64 bits: far
/// more than any file or recording holds.
pub const READ_LIMIT: u64 = 0x100_0000_0000;

/// The part of the state rebuilt for each of the three runs.
#[derive(Clone, Copy, Debug)]
pub struct Node {
    /// Current direction, 0 or 1, flipped on every emit.
    pub dir: u8,
    /// Level the current pulse starts from; 128 seeds it.
    pub last: u8,
    /// Samples of a reversal seen but not yet believed.
    pub pending: i64,
    /// The start-up counter, seeded -2: a call returns nothing until three
    /// emits have happened, and from then on the routine is two pulses
    /// behind the signal.
    pub counter: i32,
    /// The rise reference, run length and amplitude of the emits two ago
    /// (`*_2`), one ago (`*_3`) and newest (`*_4`). A call returns entry 2.
    pub refv_2: u8,
    pub refv_3: u8,
    pub refv_4: u8,
    pub run_2: i64,
    pub run_3: i64,
    pub run_4: i64,
    pub amp_2: i64,
    pub amp_3: i64,
    pub amp_4: i64,
}

/// The state a rewind does **not** restore: the second and third runs
/// inherit what the previous run left here.
#[derive(Clone, Copy, Debug)]
pub struct Globals {
    /// The "sample is valid" flag. While clear, every sample read is an
    /// emit.
    pub valid: bool,
    /// The sample at the last emit; breaks the polarity tie.
    pub last_emit: u8,
    /// Level on entering the current rise, from which the deadband derives.
    pub refv: i32,
    /// Level at the previous turning point; 128 seeds it.
    pub prev_turn: u8,
    /// The candidate turning point, persisting across calls.
    pub cand: u8,
}

/// One run of the detector routine.
#[derive(Clone, Copy, Debug)]
pub struct Run {
    pub node: Node,
    /// Samples in the pulse being measured.
    pub run: i64,
    /// Total movement within it, for the 13% test.
    pub totvar: i64,
    /// Amplitude of the previous pulse, the yardstick for the 13% test.
    pub amp: i64,
    /// "Emit after this sample", surviving from one sample to the next.
    pub emit_flag: bool,
    /// The sample last read.
    pub cur: u8,
    /// Samples this run has read, the end of input included.
    pub reads: u64,
}

/// Which of the three runs is in progress.
#[derive(Clone, Copy, Debug, PartialEq, Eq, Structural)]
pub enum Stage {
    /// The two polarity probes, 1 with direction 0 and 2 with direction 1,
    /// each stopped at its first returned value.
    Probe(u8),
    /// The run whose pulses are written.
    Real,
}

/// Recover pulses from a sampled signal.
///
/// Three runs: seeded 0, then after a rewind seeded 1, each giving its first
/// pulse length. Those decide the header's polarity: high if the first is
/// longer, low if shorter, on a tie high iff the sample at the last emit was
/// below 128. A third run, seeded to the *opposite* of that, is the one
/// written. The node is restored for each run; the globals are not.
///
/// A jump over 127 is an edge; any other reversal must hold `m` samples and
/// move more than 13% of the previous pulse's amplitude, `m` and the deadband
/// `d` scaled from the level the rise started at.
#[derive(Clone, Copy, Debug)]
pub struct PulseDetector {
    pub g: Globals,
    pub run: Run,
    pub stage: Stage,
    /// The first probe's result, awaiting the second's.
    pub p1: i64,
    pub decided: Option<bool>,
    /// Calls the real run has returned from.
    pub calls: u64,
    /// The detector loop has ended: a call returned with the flag clear.
    pub done: bool,
    /// Read the valid-sample flag from every sample, as a VOC's reader does.
    pub valid_per_sample: bool,
    /// Zero the stale candidate turning point after every pulse written.
    pub zero_stale_cand: bool,
}

// ---------------------------------------------------------------------------
// The transitions.

pub open spec fn abs(x: int) -> int {
    if x < 0 {
        -x
    } else {
        x
    }
}

pub open spec fn fresh_node(dir: u8) -> Node {
    Node {
        dir,
        last: 0x80,
        pending: 0,
        counter: -2i32,
        refv_2: 0,
        refv_3: 0,
        refv_4: 0,
        run_2: 0,
        run_3: 0,
        run_4: 0,
        amp_2: 0,
        amp_3: 0,
        amp_4: 0,
    }
}

pub open spec fn fresh_globals() -> Globals {
    Globals { valid: true, last_emit: 0, refv: 0, prev_turn: 128, cand: 0 }
}

/// What the routine does on entry: the locals for one call.
pub open spec fn begun(r: Run) -> Run {
    Run {
        totvar: 0,
        amp: r.node.amp_2,
        run: r.node.pending,
        emit_flag: false,
        node: Node { pending: 0, ..r.node },
        cur: r.node.last,
        ..r
    }
}

pub open spec fn fresh_run(dir: u8) -> Run {
    begun(
        Run {
            node: fresh_node(dir),
            run: 0,
            totvar: 0,
            amp: 0,
            emit_flag: false,
            cur: 0,
            reads: 0,
        },
    )
}

/// The deadband: a sixth of the rise level's distance from the midpoint,
/// at most 4.
pub open spec fn deadband(refv: int) -> int {
    let q = abs(128 - refv) / 6;
    if q < 4 {
        q
    } else {
        4
    }
}

/// Samples a reversal must hold to be believed.
pub open spec fn hold(refv: int) -> int {
    if abs(refv - 128) > 6 {
        2
    } else {
        1
    }
}

/// The hysteresis proper, for one valid sample.
pub open spec fn processed(r: Run, g: Globals, prev: u8, cur: u8) -> (Run, Globals) {
    let delta = cur - prev;
    let r = Run { totvar: (r.totvar + abs(delta)) as i64, ..r };
    if abs(delta) > 127 {
        // A jump that large is an edge on its own.
        (
            Run {
                run: (r.run + r.node.pending) as i64,
                node: Node { pending: 1, ..r.node },
                emit_flag: true,
                ..r
            },
            g,
        )
    } else if cur == prev {
        (Run { run: (r.run + 1) as i64, emit_flag: false, ..r }, g)
    } else {
        let rising: u8 = if delta > 0 { 1 } else { 0 };
        let g = if rising == 1 && r.node.dir == 0 { Globals { refv: prev as i32, ..g } } else { g };
        let d = deadband(g.refv as int);
        let m = hold(g.refv as int);
        if rising != r.node.dir {
            let g = Globals { cand: cur, ..g };
            let pending = r.node.pending + 1;
            if pending <= m {
                (Run { node: Node { pending: pending as i64, ..r.node }, ..r }, g)
            } else if 100 * r.totvar > 13 * r.amp {
                (Run { node: Node { pending: pending as i64, ..r.node }, emit_flag: true, ..r }, g)
            } else {
                // movement too small relative to the last real pulse
                (Run { run: (r.run + 1) as i64, ..r }, g)
            }
        } else {
            let pend = r.node.pending;
            let r = Run { run: (r.run + pend + 1) as i64, node: Node { pending: 0, ..r.node }, ..r };
            let ad = abs(delta);
            if ad >= 128 - 4 * d && ad > d {
                (Run { emit_flag: true, ..r }, Globals { cand: cur, ..g })
            } else {
                (Run { emit_flag: false, ..r }, g)
            }
        }
    }
}

/// An emit: record the pulse, then run the start-up/drain counter. Returns
/// the value the call hands back, if it returns.
pub open spec fn settled(r: Run, g: Globals) -> (Run, Globals, Option<i64>) {
    let cur = r.cur;
    let amp = abs(g.prev_turn - cur);
    let n = Node {
        dir: (1 - r.node.dir) as u8,
        last: cur,
        run_2: r.node.run_3,
        run_3: r.node.run_4,
        run_4: r.run,
        refv_2: r.node.refv_3,
        refv_3: r.node.refv_4,
        refv_4: g.refv as u8,
        amp_2: r.node.amp_3,
        amp_3: r.node.amp_4,
        amp_4: amp as i64,
        ..r.node
    };
    let g = Globals { last_emit: cur, prev_turn: g.cand, ..g };
    let run = if g.valid { n.pending } else { 0 };
    let c = n.counter;
    let (n, g) = if c == 1 && g.valid {
        (n, g)
    } else if n.pending != 0 && c > 0 {
        (n, Globals { valid: true, ..g })
    } else {
        let c = c + 1;
        if c <= 1 {
            (Node { counter: c as i32, ..n }, g)
        } else if c > 3 {
            (Node { counter: 4, ..n }, Globals { valid: false, ..g })
        } else {
            (Node { counter: c as i32, ..n }, Globals { valid: true, ..g })
        }
    };
    let r = Run { node: n, run, amp: amp as i64, ..r };
    if n.counter <= 0 {
        // loop again inside the same call
        (Run { node: Node { pending: 0, ..n }, ..r }, g, None)
    } else {
        let g = Globals { refv: n.refv_2 as i32, ..g };
        (begun(r), g, Some(n.run_2))
    }
}

/// One read -- a sample, or `None` at the end of input -- and what follows
/// it within the call.
pub open spec fn fed(r: Run, g: Globals, input: Option<u8>) -> (Run, Globals, Option<i64>) {
    let prev = r.cur;
    let (cur, g) = match input {
        Some(s) => (s, g),
        None => (0u8, Globals { valid: false, ..g }),
    };
    let r = Run { cur, reads: (r.reads + 1) as u64, ..r };
    if g.valid {
        let (r, g) = processed(r, g, prev, cur);
        if !r.emit_flag {
            (r, g, None)
        } else {
            settled(r, g)
        }
    } else {
        settled(r, g)
    }
}

/// A pulse length as the format can carry it: clamped to a DWORD.
pub open spec fn clamp_pulse(run: i64) -> u32 {
    if run < 0 {
        0
    } else if run > 0xFFFF_FFFF {
        0xFFFF_FFFF
    } else {
        run as u32
    }
}

/// The valid flag a read leaves before the routine sees it.
pub open spec fn with_valid(d: PulseDetector, input: Option<u8>, valid: Option<bool>) -> PulseDetector {
    match valid {
        Some(v) => PulseDetector { g: Globals { valid: v, ..d.g }, ..d },
        None => if d.valid_per_sample && input is Some {
            PulseDetector { g: Globals { valid: true, ..d.g }, ..d }
        } else {
            d
        },
    }
}

/// A returned value: a pulse if nonzero, skipped if zero; the loop ends when
/// the flag is clear.
pub open spec fn taken(d: PulseDetector, v: Option<i64>) -> (PulseDetector, Seq<u32>) {
    match v {
        None => (d, Seq::empty()),
        Some(x) => {
            let d = PulseDetector { calls: (d.calls + 1) as u64, ..d };
            let (d, out) = if x != 0 {
                let d = if d.zero_stale_cand {
                    PulseDetector { g: Globals { cand: 0, ..d.g }, ..d }
                } else {
                    d
                };
                (d, seq![clamp_pulse(x)])
            } else {
                (d, Seq::empty())
            };
            if !d.g.valid {
                (PulseDetector { done: true, ..d }, out)
            } else {
                (d, out)
            }
        },
    }
}

/// How far the drain has still to go: it ends within this many calls.
pub open spec fn drain_measure(d: PulseDetector) -> int {
    if d.done {
        0
    } else {
        5 - d.run.node.counter
    }
}

/// The calls made without reading while the counter is past 1.
pub open spec fn pumped(d: PulseDetector) -> (PulseDetector, Seq<u32>)
    decreases drain_measure(d),
{
    if d.done || d.run.node.counter <= 1 {
        (d, Seq::empty())
    } else {
        let (r, g, v) = settled(d.run, d.g);
        let (d2, out) = taken(PulseDetector { run: r, g, ..d }, v);
        if drain_measure(d2) < drain_measure(d) && drain_measure(d2) >= 0 {
            let (d3, more) = pumped(d2);
            (d3, out + more)
        } else {
            (d2, out)
        }
    }
}

/// One read into the real run, then every call it makes without reading.
pub open spec fn stepped(d: PulseDetector, input: Option<u8>, valid: Option<bool>) -> (
    PulseDetector,
    Seq<u32>,
) {
    let d = with_valid(d, input, valid);
    let (r, g, v) = fed(d.run, d.g, input);
    let (d, out) = taken(PulseDetector { run: r, g, ..d }, v);
    let (d, more) = pumped(d);
    (d, out + more)
}

/// Samples fed to the real run, each a step, none once it is done.
pub open spec fn pushed(d: PulseDetector, samples: Seq<u8>) -> (PulseDetector, Seq<u32>)
    decreases samples.len(),
{
    if samples.len() == 0 || d.done || d.stage != Stage::Real {
        (d, Seq::empty())
    } else {
        let (d1, out) = stepped(d, Some(samples[0]), None);
        let (d2, more) = pushed(d1, samples.skip(1));
        (d2, out + more)
    }
}

/// One read into the running probe; `true` when that probe has just
/// answered.
pub open spec fn probe_fed(d: PulseDetector, input: Option<u8>, valid: Option<bool>) -> (
    PulseDetector,
    bool,
) {
    match d.stage {
        Stage::Real => (d, false),
        Stage::Probe(which) => {
            let d = with_valid(d, input, valid);
            let (r, g, v) = fed(d.run, d.g, input);
            let d = PulseDetector { run: r, g, ..d };
            match v {
                None => (d, false),
                Some(x) => if which == 1 {
                    (PulseDetector { p1: x, stage: Stage::Probe(2), run: fresh_run(1), ..d }, true)
                } else {
                    let high = if d.p1 > x {
                        true
                    } else if d.p1 < x {
                        false
                    } else {
                        d.g.last_emit < 128
                    };
                    (
                        PulseDetector {
                            decided: Some(high),
                            run: fresh_run(if high { 0 } else { 1 }),
                            stage: Stage::Real,
                            ..d
                        },
                        true,
                    )
                },
            }
        },
    }
}

/// Samples fed to the running probe, up to the one it answers on.
pub open spec fn probed(d: PulseDetector, samples: Seq<u8>) -> (PulseDetector, bool)
    decreases samples.len(),
{
    if samples.len() == 0 {
        (d, false)
    } else {
        let (d1, answered) = probe_fed(d, Some(samples[0]), None);
        if answered {
            (d1, true)
        } else {
            probed(d1, samples.skip(1))
        }
    }
}

/// The probe reads on past the end of input until it answers, at most 64
/// reads.
pub open spec fn probe_drained(d: PulseDetector, which: u8, guard: nat) -> PulseDetector
    decreases 64 - guard,
{
    if guard >= 64 || d.stage != Stage::Probe(which) {
        d
    } else {
        probe_drained(probe_fed(d, None, None).0, which, guard + 1)
    }
}

pub open spec fn probe_ended(d: PulseDetector) -> PulseDetector {
    match d.stage {
        Stage::Real => d,
        Stage::Probe(which) => probe_drained(d, which, 0),
    }
}

/// End of input fed to the real run until it is done, at most 64 reads.
pub open spec fn drained(d: PulseDetector, guard: nat) -> (PulseDetector, Seq<u32>)
    decreases 64 - guard,
{
    if guard >= 64 || d.done {
        (d, Seq::empty())
    } else {
        let (d1, out) = stepped(d, None, None);
        let (d2, more) = drained(d1, guard + 1);
        (d2, out + more)
    }
}

pub open spec fn finished(d: PulseDetector) -> (PulseDetector, Seq<u32>) {
    if d.done {
        (d, Seq::empty())
    } else {
        let (d1, out) = drained(d, 0);
        (PulseDetector { done: true, ..d1 }, out)
    }
}

pub open spec fn initial_detector() -> PulseDetector {
    PulseDetector {
        g: fresh_globals(),
        run: fresh_run(0),
        stage: Stage::Probe(1),
        p1: 0,
        decided: None,
        calls: 0,
        done: false,
        valid_per_sample: false,
        zero_stale_cand: false,
    }
}

// ---------------------------------------------------------------------------
// The bounds every state keeps.

/// The counters of a run stay within what the samples it has read allow.
pub open spec fn run_ok(r: Run) -> bool {
    &&& r.reads <= READ_LIMIT
    &&& 0 <= r.node.pending
    &&& 0 <= r.run
    &&& r.run + r.node.pending <= r.reads
    &&& 0 <= r.totvar <= 255 * r.reads
    &&& 0 <= r.amp <= 255
    &&& 0 <= r.node.amp_2 <= 255
    &&& 0 <= r.node.amp_3 <= 255
    &&& 0 <= r.node.amp_4 <= 255
    &&& 0 <= r.node.run_2 <= r.reads
    &&& 0 <= r.node.run_3 <= r.reads
    &&& 0 <= r.node.run_4 <= r.reads
    &&& -2 <= r.node.counter <= 4
    &&& r.node.dir <= 1
}

pub open spec fn globals_ok(g: Globals) -> bool {
    0 <= g.refv <= 255
}

/// The invariant of the detector between public calls.
pub open spec fn detector_ok(d: PulseDetector) -> bool {
    &&& run_ok(d.run)
    &&& globals_ok(d.g)
    &&& !d.done ==> d.run.node.counter <= 1
    &&& d.stage != Stage::Real ==> !d.done
    &&& d.stage matches Stage::Probe(w) ==> (w == 1 || w == 2) && d.calls == 0
    &&& d.stage == Stage::Real ==> d.calls <= 4 * d.run.reads
    &&& 0 <= d.p1 <= READ_LIMIT
}

/// A drain call with the counter past 1 and nothing pending moves the
/// drain on.
proof fn lemma_pump_progress(d: PulseDetector)
    requires
        run_ok(d.run),
        globals_ok(d.g),
        !d.done,
        1 < d.run.node.counter <= 4,
        d.run.node.pending == 0,
    ensures
        ({
            let (r, g, v) = settled(d.run, d.g);
            let (d2, out) = taken(PulseDetector { run: r, g, ..d }, v);
            &&& drain_measure(d2) < drain_measure(d)
            &&& drain_measure(d2) >= 0
            &&& !d2.done ==> d2.run.node.pending == 0 && 1 < d2.run.node.counter <= 4
            &&& v is Some
        }),
{
}

/// A push is a step on its first sample and a push of the rest.
proof fn lemma_pushed_step(d: PulseDetector, samples: Seq<u8>)
    requires
        samples.len() > 0,
        !d.done,
        d.stage == Stage::Real,
    ensures
        pushed(d, samples) == ({
            let (d1, out) = stepped(d, Some(samples[0]), None);
            let (d2, more) = pushed(d1, samples.skip(1));
            (d2, out + more)
        }),
{
}

/// How many probes are still to answer.
pub open spec fn stage_rank(stage: Stage) -> nat {
    match stage {
        Stage::Probe(1) => 2,
        Stage::Probe(2) => 1,
        _ => 0,
    }
}

/// One pass of a probe over the whole signal: it answers within the
/// samples, or reads on past their end until it does.
pub open spec fn probe_pass(d: PulseDetector, samples: Seq<u8>) -> PulseDetector {
    let (d1, answered) = probed(d, samples);
    if answered {
        d1
    } else {
        probe_ended(d1)
    }
}

/// The probe passes still to make, each over the whole signal.
pub open spec fn probes_done(d: PulseDetector, samples: Seq<u8>, left: nat) -> PulseDetector
    decreases left,
{
    if left == 0 || d.stage == Stage::Real {
        d
    } else {
        probes_done(probe_pass(d, samples), samples, (left - 1) as nat)
    }
}

/// The pulses a signal held in one buffer yields, and the detector after:
/// two probe passes, then the real run over the signal and its drain.
pub open spec fn detected(samples: Seq<u8>) -> (Seq<u32>, PulseDetector) {
    let d = probes_done(initial_detector(), samples, 2);
    let (d1, out) = pushed(d, samples);
    let (d2, more) = finished(d1);
    (out + more, d2)
}

/// A probe pass over samples either answers -- and the detector moves on
/// one stage, with the count of reads started afresh -- or stays in the
/// stage it was in.
pub proof fn lemma_probed_stage(d: PulseDetector, samples: Seq<u8>)
    requires
        d.stage == Stage::Probe(1) || d.stage == Stage::Probe(2),
    ensures
        probed(d, samples).1 ==> probed(d, samples).0.run.reads == 0 && stage_rank(probed(d, samples).0.stage) + 1 == stage_rank(d.stage),
        !probed(d, samples).1 ==> probed(d, samples).0.stage == d.stage,
    decreases samples.len(),
{
    if samples.len() > 0 {
        let (d1, answered) = probe_fed(d, Some(samples[0]), None);
        if !answered {
            lemma_probed_stage(d1, samples.skip(1));
        }
    }
}

/// A probe reading on past the end of input either stays in its stage or
/// answers, moving on one stage with the count of reads started afresh.
pub proof fn lemma_drained_stage(d: PulseDetector, which: u8, guard: nat)
    requires
        d.stage == Stage::Probe(which),
        which == 1 || which == 2,
    ensures
        probe_drained(d, which, guard).stage == d.stage || (probe_drained(d, which, guard).run.reads == 0
            && stage_rank(probe_drained(d, which, guard).stage) + 1 == stage_rank(d.stage)),
    decreases 64 - guard,
{
    if guard < 64 {
        let d1 = probe_fed(d, None, None).0;
        if d1.stage == d.stage {
            lemma_drained_stage(d1, which, guard + 1);
        }
    }
}

/// At the end of input every read is an emit, and the start-up counter
/// reaches 1 within three of them: a probe reading on past the end answers.
pub proof fn lemma_probe_drain_answers(d: PulseDetector, which: u8, guard: nat)
    requires
        d.stage == Stage::Probe(which),
        -2 <= d.run.node.counter <= 1,
        guard + 2 - d.run.node.counter < 64,
    ensures
        probe_drained(d, which, guard).stage != Stage::Probe(which),
    decreases 2 - d.run.node.counter,
{
    let (d1, answered) = probe_fed(d, None, None);
    if d1.stage == Stage::Probe(which) {
        assert(d1.run.node.counter == d.run.node.counter + 1);
        lemma_probe_drain_answers(d1, which, guard + 1);
    }
}

/// A probe that meets the end of input always answers: its stage moves on.
pub proof fn lemma_probe_ended_answers(d: PulseDetector)
    requires
        detector_ok(d),
        d.stage != Stage::Real,
    ensures
        probe_ended(d).stage != d.stage,
{
    let which = d.stage->Probe_0;
    lemma_probe_drain_answers(d, which, 0);
}

/// The three passes a caller with a re-readable signal makes, made here over
/// one buffer: probe, probe, run.
pub fn run_detector(bytes: &[u8]) -> (r: (Vec<u32>, PulseDetector))
    requires
        bytes@.len() + 64 <= READ_LIMIT,
    ensures
        r.0@ == detected(bytes@).0,
        r.1 == detected(bytes@).1,
{
    let mut det = PulseDetector::new();
    while !det.ready()
        invariant
            detector_ok(det),
            det.run.reads == 0,
            bytes@.len() + 64 <= READ_LIMIT,
            probes_done(initial_detector(), bytes@, 2) == probes_done(det, bytes@, stage_rank(det.stage)),
        decreases stage_rank(det.stage),
    {
        let ghost before = det;
        let answered = det.probe(bytes);
        proof {
            lemma_probed_stage(before, bytes@);
        }
        if !answered {
            proof {
                lemma_probe_ended_answers(det);
                lemma_drained_stage(det, det.stage->Probe_0, 0);
            }
            det.probe_eof();
        }
        proof {
            assert(det == probe_pass(before, bytes@));
        }
    }
    let mut out: Vec<u32> = Vec::new();
    det.push(bytes, &mut out);
    det.finish(&mut out);
    (out, det)
}

/// The pulses a signal held in one buffer, in the detector's domain, yields
/// at `rate`: the polarity the probes decided, and the detector's call count
/// as the declared count.
pub fn bytes_to_pulses(rate: u32, bytes: &[u8]) -> (p: Pulses)
    requires
        bytes@.len() + 64 <= READ_LIMIT,
    ensures
        p.rate == rate,
        p.pulses@ == detected(bytes@).0,
        p.initial_high == (detected(bytes@).1.decided == Some(true)),
        p.declared == (if detected(bytes@).1.calls < 1 {
            1
        } else {
            detected(bytes@).1.calls
        }),
{
    let (pulses, det) = run_detector(bytes);
    let initial_high = det.initial_high();
    let declared = det.pulse_count();
    Pulses { rate, pulses, initial_high, declared }
}

/// Detect pulses over a whole buffer in the detector's domain.
pub fn detect_pulses(bytes: &[u8]) -> (v: Vec<u32>)
    requires
        bytes@.len() + 64 <= READ_LIMIT,
    ensures
        v@ == detected(bytes@).0,
{
    run_detector(bytes).0
}

// ---------------------------------------------------------------------------
// Laws.

/// The detector carries its state across buffer boundaries: feeding the real
/// run `a` and then `b` leaves the state, and emits the pulses, that feeding
/// it `a + b` at once does.
pub proof fn lemma_push_chunks(d: PulseDetector, a: Seq<u8>, b: Seq<u8>)
    ensures
        pushed(d, a + b) == ({
            let (d1, out1) = pushed(d, a);
            let (d2, out2) = pushed(d1, b);
            (d2, out1 + out2)
        }),
    decreases a.len(),
{
    if a.len() == 0 {
        assert(a + b =~= b);
        let (d2, out2) = pushed(d, b);
        assert(Seq::<u32>::empty() + out2 =~= out2);
    } else if d.done || d.stage != Stage::Real {
        let (d2, out2) = pushed(d, b);
        if b.len() == 0 {
            assert(Seq::<u32>::empty() + Seq::<u32>::empty() =~= Seq::<u32>::empty());
        } else {
            assert(Seq::<u32>::empty() + Seq::<u32>::empty() =~= Seq::<u32>::empty());
        }
    } else {
        assert((a + b).skip(1) =~= a.skip(1) + b);
        assert((a + b)[0] == a[0]);
        let (d1, out) = stepped(d, Some(a[0]), None);
        lemma_push_chunks(d1, a.skip(1), b);
        let (e1, o1) = pushed(d1, a.skip(1));
        let (e2, o2) = pushed(e1, b);
        assert(out + (o1 + o2) =~= (out + o1) + o2);
    }
}

/// A probe fed in two pieces answers where it answers fed at once: within
/// the first piece if it answers there, else within the second, from the
/// state the first left.
pub proof fn lemma_probe_chunks(d: PulseDetector, a: Seq<u8>, b: Seq<u8>)
    ensures
        probed(d, a + b) == ({
            let (d1, answered) = probed(d, a);
            if answered {
                (d1, true)
            } else {
                probed(d1, b)
            }
        }),
    decreases a.len(),
{
    if a.len() == 0 {
        assert(a + b =~= b);
    } else {
        assert((a + b).skip(1) =~= a.skip(1) + b);
        assert((a + b)[0] == a[0]);
        let (d1, answered) = probe_fed(d, Some(a[0]), None);
        if !answered {
            lemma_probe_chunks(d1, a.skip(1), b);
        }
    }
}

/// Once done, the real run takes nothing more: further samples change no
/// state and emit no pulse.
pub proof fn lemma_done_is_final(d: PulseDetector, samples: Seq<u8>)
    requires
        d.done,
    ensures
        pushed(d, samples) == (d, Seq::<u32>::empty()),
        finished(d) == (d, Seq::<u32>::empty()),
{
}

/// A probe fed the pieces of a signal one after another, until it answers.
pub open spec fn probed_pieces(d: PulseDetector, pieces: Seq<Seq<u8>>) -> (PulseDetector, bool)
    decreases pieces.len(),
{
    if pieces.len() == 0 {
        (d, false)
    } else {
        let (d1, answered) = probed(d, pieces.first());
        if answered {
            (d1, true)
        } else {
            probed_pieces(d1, pieces.drop_first())
        }
    }
}

/// The real run fed the pieces of a signal one after another.
pub open spec fn pushed_pieces(d: PulseDetector, pieces: Seq<Seq<u8>>) -> (PulseDetector, Seq<u32>)
    decreases pieces.len(),
{
    if pieces.len() == 0 {
        (d, Seq::empty())
    } else {
        let (d1, out) = pushed(d, pieces.first());
        let (d2, more) = pushed_pieces(d1, pieces.drop_first());
        (d2, out + more)
    }
}

/// One probe pass over a signal held in pieces: it answers within them, or
/// reads on past their end until it does.
pub open spec fn probe_pass_pieces(d: PulseDetector, pieces: Seq<Seq<u8>>) -> PulseDetector {
    let (d1, answered) = probed_pieces(d, pieces);
    if answered {
        d1
    } else {
        probe_ended(d1)
    }
}

/// The probe passes still to make, each over the signal's pieces.
pub open spec fn probes_done_pieces(d: PulseDetector, pieces: Seq<Seq<u8>>, left: nat) -> PulseDetector
    decreases left,
{
    if left == 0 || d.stage == Stage::Real {
        d
    } else {
        probes_done_pieces(probe_pass_pieces(d, pieces), pieces, (left - 1) as nat)
    }
}

/// The pulses a signal held in pieces yields, and the detector after: two
/// probe passes over the pieces, the real run over them, and its drain.
pub open spec fn detected_in_pieces(pieces: Seq<Seq<u8>>) -> (Seq<u32>, PulseDetector) {
    let d = probes_done_pieces(initial_detector(), pieces, 2);
    let (d1, out) = pushed_pieces(d, pieces);
    let (d2, more) = finished(d1);
    (out + more, d2)
}

proof fn lemma_probed_pieces(d: PulseDetector, pieces: Seq<Seq<u8>>)
    ensures
        probed_pieces(d, pieces) == probed(d, pieces.flatten()),
    decreases pieces.len(),
{
    if pieces.len() > 0 {
        let rest = pieces.drop_first();
        lemma_probe_chunks(d, pieces.first(), rest.flatten());
        let (d1, answered) = probed(d, pieces.first());
        if !answered {
            lemma_probed_pieces(d1, rest);
        }
    }
}

proof fn lemma_pushed_pieces(d: PulseDetector, pieces: Seq<Seq<u8>>)
    ensures
        pushed_pieces(d, pieces) == pushed(d, pieces.flatten()),
    decreases pieces.len(),
{
    if pieces.len() == 0 {
        assert(pushed(d, Seq::<u8>::empty()) == (d, Seq::<u32>::empty()));
    } else {
        let rest = pieces.drop_first();
        lemma_push_chunks(d, pieces.first(), rest.flatten());
        let (d1, out) = pushed(d, pieces.first());
        lemma_pushed_pieces(d1, rest);
    }
}

proof fn lemma_probes_done_pieces(d: PulseDetector, pieces: Seq<Seq<u8>>, left: nat)
    ensures
        probes_done_pieces(d, pieces, left) == probes_done(d, pieces.flatten(), left),
    decreases left,
{
    if left > 0 && d.stage != Stage::Real {
        lemma_probed_pieces(d, pieces);
        assert(probe_pass_pieces(d, pieces) == probe_pass(d, pieces.flatten()));
        lemma_probes_done_pieces(probe_pass_pieces(d, pieces), pieces, (left - 1) as nat);
    }
}

/// Detection does not depend on how the signal is cut: probing piece by
/// piece (reading on past the end when no piece answers), pushing piece by
/// piece and draining gives the pulses, and leaves the detector, that one
/// buffer of the whole signal does; and a further drain adds nothing.
pub proof fn lemma_detection_in_pieces(pieces: Seq<Seq<u8>>)
    ensures
        detected_in_pieces(pieces) == detected(pieces.flatten()),
        finished(detected_in_pieces(pieces).1) == (detected_in_pieces(pieces).1, Seq::<u32>::empty()),
{
    let s = pieces.flatten();
    lemma_probes_done_pieces(initial_detector(), pieces, 2);
    let d = probes_done(initial_detector(), s, 2);
    lemma_pushed_pieces(d, pieces);
}

// ---------------------------------------------------------------------------
// The machine, executed.

impl Run {
    fn fresh(dir: u8) -> (r: Run)
        requires
            dir <= 1,
        ensures
            r == fresh_run(dir),
            run_ok(r),
    {
        let mut r = Run {
            node: Node {
                dir,
                last: 0x80,
                pending: 0,
                counter: -2,
                refv_2: 0,
                refv_3: 0,
                refv_4: 0,
                run_2: 0,
                run_3: 0,
                run_4: 0,
                amp_2: 0,
                amp_3: 0,
                amp_4: 0,
            },
            run: 0,
            totvar: 0,
            amp: 0,
            emit_flag: false,
            cur: 0,
            reads: 0,
        };
        r.begin_call();
        r
    }

    /// What the routine does on entry: the locals for one call.
    fn begin_call(&mut self)
        ensures
            *final(self) == begun(*old(self)),
    {
        self.totvar = 0;
        self.amp = self.node.amp_2;
        self.run = self.node.pending;
        self.emit_flag = false;
        self.node.pending = 0;
        self.cur = self.node.last;
    }

    /// The next call would emit without reading.
    fn needs_no_input(&self) -> (r: bool)
        ensures
            r == (self.node.counter > 1),
    {
        self.node.counter > 1
    }

    /// The hysteresis proper, for one valid sample.
    fn process(&mut self, g: &mut Globals, prev: u8, cur: u8)
        requires
            old(self).reads <= READ_LIMIT,
            0 <= old(self).node.pending,
            0 <= old(self).run,
            old(self).run + old(self).node.pending + 1 <= old(self).reads,
            0 <= old(self).totvar,
            old(self).totvar + 255 <= 255 * old(self).reads,
            0 <= old(self).amp <= 255,
            globals_ok(*old(g)),
        ensures
            (*final(self), *final(g)) == processed(*old(self), *old(g), prev, cur),
            globals_ok(*final(g)),
    {
        let delta: i32 = cur as i32 - prev as i32;
        let ad: i32 = if delta < 0 { -delta } else { delta };
        self.totvar = self.totvar + ad as i64;
        if ad > 127 {
            // A jump that large is an edge on its own.
            self.run = self.run + self.node.pending;
            self.node.pending = 1;
            self.emit_flag = true;
            return;
        }
        if cur == prev {
            self.run = self.run + 1;
            self.emit_flag = false;
            return;
        }
        let rising: u8 = if delta > 0 { 1 } else { 0 };
        if rising == 1 && self.node.dir == 0 {
            g.refv = prev as i32;
        }
        let dist: i32 = if g.refv < 128 { 128 - g.refv } else { g.refv - 128 };
        let d: i32 = if dist / 6 < 4 { dist / 6 } else { 4 };
        let m: i64 = if dist > 6 { 2 } else { 1 };
        if rising != self.node.dir {
            g.cand = cur;
            self.node.pending = self.node.pending + 1;
            if self.node.pending <= m {
                // reversal not held long enough to be believed yet
            } else if 100 * self.totvar > 13 * self.amp {
                // the movement is more than 13% of the last pulse's amplitude
                self.emit_flag = true;
            } else {
                // movement too small relative to the last real pulse
                self.run = self.run + 1;
                self.node.pending = self.node.pending - 1;
            }
        } else {
            let pend = self.node.pending;
            self.run = self.run + pend + 1;
            if pend != 0 {
                self.node.pending = 0;
            }
            if ad >= 128 - 4 * d && ad > d {
                g.cand = cur;
                self.emit_flag = true;
            } else {
                self.emit_flag = false;
            }
        }
    }

    /// An emit: record the pulse, then run the start-up/drain counter.
    /// Returns the value the call hands back, if it returns.
    fn settle(&mut self, g: &mut Globals) -> (v: Option<i64>)
        requires
            run_ok(*old(self)),
            globals_ok(*old(g)),
        ensures
            (*final(self), *final(g), v) == settled(*old(self), *old(g)),
            run_ok(*final(self)),
            globals_ok(*final(g)),
    {
        let cur = self.cur;
        let amp: i64 = if g.prev_turn >= cur {
            (g.prev_turn - cur) as i64
        } else {
            (cur - g.prev_turn) as i64
        };
        self.node.dir = 1 - self.node.dir;
        self.node.last = cur;
        g.last_emit = cur;
        g.prev_turn = g.cand;
        self.node.run_2 = self.node.run_3;
        self.node.run_3 = self.node.run_4;
        self.node.run_4 = self.run;
        self.node.refv_2 = self.node.refv_3;
        self.node.refv_3 = self.node.refv_4;
        self.node.refv_4 = g.refv as u8;
        self.node.amp_2 = self.node.amp_3;
        self.node.amp_3 = self.node.amp_4;
        self.node.amp_4 = amp;
        self.amp = amp;
        self.run = if g.valid { self.node.pending } else { 0 };
        let c = self.node.counter;
        if c == 1 && g.valid {
            // steady state: one pulse per call
        } else if self.node.pending != 0 && c > 0 {
            g.valid = true;
        } else {
            let c = c + 1;
            if c <= 1 {
                // still priming: keep reading within this call
                self.node.counter = c;
            } else if c > 3 {
                g.valid = false;
                self.node.counter = 4;
            } else {
                g.valid = true;
                self.node.counter = c;
            }
        }
        if self.node.counter <= 0 {
            // loop again inside the same call
            self.node.pending = 0;
            return None;
        }
        g.refv = self.node.refv_2 as i32;
        let v = self.node.run_2;
        self.begin_call();
        Some(v)
    }

    /// One read -- `Some(sample)`, or `None` at the end of input -- and what
    /// follows it within the call.
    fn feed(&mut self, g: &mut Globals, input: Option<u8>) -> (v: Option<i64>)
        requires
            run_ok(*old(self)),
            old(self).reads < READ_LIMIT,
            globals_ok(*old(g)),
        ensures
            (*final(self), *final(g), v) == fed(*old(self), *old(g), input),
            run_ok(*final(self)),
            globals_ok(*final(g)),
            final(self).reads == old(self).reads + 1,
    {
        let prev = self.cur;
        let cur = match input {
            Some(s) => s,
            None => {
                g.valid = false;
                0
            },
        };
        self.cur = cur;
        self.reads = self.reads + 1;
        if g.valid {
            self.process(g, prev, cur);
            if !self.emit_flag {
                return None;
            }
        }
        self.settle(g)
    }
}

impl PulseDetector {
    /// The machine's state, as the spec functions take it.
    pub open spec fn state(&self) -> PulseDetector {
        *self
    }

    pub fn new() -> (d: PulseDetector)
        ensures
            d == initial_detector(),
            detector_ok(d),
    {
        PulseDetector {
            g: Globals { valid: true, last_emit: 0, refv: 0, prev_turn: 128, cand: 0 },
            run: Run::fresh(0),
            stage: Stage::Probe(1),
            p1: 0,
            decided: None,
            calls: 0,
            done: false,
            valid_per_sample: false,
            zero_stale_cand: false,
        }
    }

    /// Model the frame the Z-RLE writer leaves under the detector between
    /// calls. Off for plain-RLE and v1 output.
    pub fn with_zrle_frame(self, zrle: bool) -> (d: PulseDetector)
        ensures
            d == (PulseDetector { zero_stale_cand: zrle, ..self }),
    {
        PulseDetector { zero_stale_cand: zrle, ..self }
    }

    /// Read the valid-sample flag from every sample, as a VOC's reader does.
    /// Off for WAV and IFF.
    pub fn with_valid_per_sample(self, on: bool) -> (d: PulseDetector)
        ensures
            d == (PulseDetector { valid_per_sample: on, ..self }),
    {
        PulseDetector { valid_per_sample: on, ..self }
    }

    /// The header's initial polarity: decided by the two probes.
    pub fn initial_high(&self) -> (r: bool)
        ensures
            r == (self.decided == Some(true)),
    {
        match self.decided {
            Some(h) => h,
            None => false,
        }
    }

    /// The pulse count reported on the console and stamped in the header:
    /// calls to the detector, at least one.
    pub fn pulse_count(&self) -> (r: u64)
        ensures
            r == if self.calls < 1 { 1 } else { self.calls },
    {
        if self.calls < 1 { 1 } else { self.calls }
    }

    /// True once both probes have answered and `push` is what to call.
    pub fn ready(&self) -> (r: bool)
        ensures
            r == (self.stage == Stage::Real),
    {
        match self.stage {
            Stage::Real => true,
            Stage::Probe(_) => false,
        }
    }

    pub fn is_done(&self) -> (r: bool)
        ensures
            r == self.done,
    {
        self.done
    }

    fn set_valid(&mut self, input: Option<u8>, valid: Option<bool>)
        ensures
            *final(self) == with_valid(*old(self), input, valid),
    {
        match valid {
            Some(v) => self.g.valid = v,
            None => {
                if self.valid_per_sample && input.is_some() {
                    self.g.valid = true;
                }
            },
        }
    }

    /// One sample into the running probe. `true` when that probe has just
    /// answered, the caller's cue to rewind.
    fn feed_probe(&mut self, input: Option<u8>, valid: Option<bool>) -> (answered: bool)
        requires
            detector_ok(*old(self)),
            old(self).run.reads < READ_LIMIT,
        ensures
            (*final(self), answered) == probe_fed(*old(self), input, valid),
            detector_ok(*final(self)),
            final(self).run.reads <= old(self).run.reads + 1,
    {
        let which = match self.stage {
            Stage::Real => {
                return false;
            },
            Stage::Probe(w) => w,
        };
        self.set_valid(input, valid);
        let v = self.run.feed(&mut self.g, input);
        match v {
            None => false,
            Some(x) => {
                proof {
                    assert(0 <= x <= READ_LIMIT);
                }
                if which == 1 {
                    self.p1 = x;
                    self.stage = Stage::Probe(2);
                    self.run = Run::fresh(1);
                    return true;
                }
                let high = if self.p1 > x {
                    true
                } else if self.p1 < x {
                    false
                } else {
                    self.g.last_emit < 128
                };
                self.decided = Some(high);
                self.run = Run::fresh(if high { 0 } else { 1 });
                self.stage = Stage::Real;
                true
            },
        }
    }

    /// A returned value: a pulse if nonzero, skipped if zero.
    fn take(&mut self, v: Option<i64>, out: &mut Vec<u32>)
        requires
            old(self).calls < 0xFFFF_FFFF_FFFF_FFFF,
        ensures
            (*final(self), final(out)@.skip(old(out)@.len() as int)) == taken(*old(self), v),
            final(out)@.len() >= old(out)@.len(),
            final(out)@.take(old(out)@.len() as int) == old(out)@,
            final(self).run == old(self).run,
            final(self).stage == old(self).stage,
            final(self).calls <= old(self).calls + 1,
            final(self).p1 == old(self).p1,
            final(self).g.refv == old(self).g.refv,
    {
        let ghost start = out@;
        match v {
            None => {
                proof {
                    assert(out@.skip(start.len() as int) =~= Seq::<u32>::empty());
                }
            },
            Some(x) => {
                self.calls = self.calls + 1;
                if x != 0 {
                    let p: u32 = if x < 0 {
                        0
                    } else if x > 0xFFFF_FFFF {
                        0xFFFF_FFFF
                    } else {
                        x as u32
                    };
                    out.push(p);
                    if self.zero_stale_cand {
                        self.g.cand = 0;
                    }
                }
                if !self.g.valid {
                    self.done = true;
                }
                proof {
                    assert(out@.take(start.len() as int) =~= start);
                    if x != 0 {
                        assert(out@.skip(start.len() as int) =~= seq![clamp_pulse(x)]);
                    } else {
                        assert(out@.skip(start.len() as int) =~= Seq::<u32>::empty());
                    }
                }
            },
        }
    }
    /// One read into the real run, then every call it makes without reading,
    /// interpreting each returned value as it comes.
    fn step(&mut self, input: Option<u8>, valid: Option<bool>, out: &mut Vec<u32>)
        requires
            detector_ok(*old(self)),
            old(self).stage == Stage::Real,
            !old(self).done,
            old(self).run.reads < READ_LIMIT,
        ensures
            (*final(self), final(out)@.skip(old(out)@.len() as int)) == stepped(*old(self), input, valid),
            final(out)@.take(old(out)@.len() as int) == old(out)@,
            final(out)@.len() >= old(out)@.len(),
            detector_ok(*final(self)),
            final(self).run.reads == old(self).run.reads + 1,
            final(self).stage == Stage::Real,
    {
        let ghost start = out@;
        let ghost d_in = *self;
        self.set_valid(input, valid);
        let ghost d_valid = *self;
        let v = self.run.feed(&mut self.g, input);
        let ghost fed_state = PulseDetector { run: self.run, g: self.g, ..d_valid };
        proof {
            assert(fed_state == *self);
            assert(self.calls <= 4 * (self.run.reads - 1));
        }
        self.take(v, out);
        let ghost d0 = *self;
        let ghost o0 = out@;
        proof {
            assert(taken(fed_state, v) == (d0, out@.skip(start.len() as int)));
            assert(out@.skip(start.len() as int).skip(o0.len() - start.len()) =~= Seq::<u32>::empty());
        }
        while !self.done && self.run.needs_no_input()
            invariant
                run_ok(self.run),
                globals_ok(self.g),
                self.stage == Stage::Real,
                self.run.reads == d_in.run.reads + 1,
                !self.done && self.run.node.counter > 1 ==> self.run.node.pending == 0,
                !self.done && self.run.node.counter > 1 ==> self.run.node.counter <= 4,
                self.calls + (if !self.done && self.run.node.counter > 1 {
                    drain_measure(*self)
                } else {
                    0
                }) <= 4 * self.run.reads,
                0 <= self.p1 <= READ_LIMIT,
                out@.len() >= o0.len(),
                out@.take(o0.len() as int) == o0,
                o0.len() >= start.len(),
                o0.take(start.len() as int) == start,
                pumped(d0).0 == pumped(*self).0,
                pumped(d0).1 == out@.skip(o0.len() as int) + pumped(*self).1,
            decreases drain_measure(*self),
        {
            let ghost d_before = *self;
            let ghost o_before = out@;
            proof {
                lemma_pump_progress(*self);
            }
            let v = self.run.settle(&mut self.g);
            let ghost settled_state = PulseDetector { run: self.run, g: self.g, ..d_before };
            proof {
                assert(settled_state == *self);
            }
            self.take(v, out);
            proof {
                let (d2, more) = taken(settled_state, v);
                assert(d2 == *self);
                assert(more == out@.skip(o_before.len() as int));
                assert(pumped(d_before) == (pumped(d2).0, more + pumped(d2).1));
                assert(out@.take(o0.len() as int) =~= o0) by {
                    assert(out@.take(o_before.len() as int) == o_before);
                    assert(o_before.take(o0.len() as int) == o0);
                }
                assert(out@.skip(o0.len() as int) =~= o_before.skip(o0.len() as int) + more) by {
                    assert(out@.take(o_before.len() as int) == o_before);
                }
            }
        }
        proof {
            assert(pumped(*self).1 =~= Seq::<u32>::empty());
            assert(out@.take(start.len() as int) =~= start) by {
                assert(out@.take(o0.len() as int) == o0);
            }
            assert(out@.skip(start.len() as int) =~= o0.skip(start.len() as int) + out@.skip(o0.len() as int)) by {
                assert(out@.take(o0.len() as int) == o0);
            }
        }
    }

    /// Feed samples to whichever probe is running. `true` means that probe
    /// has answered and wants no more of this pass: rewind to the first
    /// sample and call again.
    pub fn probe(&mut self, samples: &[u8]) -> (answered: bool)
        requires
            detector_ok(*old(self)),
            old(self).run.reads + samples@.len() <= READ_LIMIT,
        ensures
            (*final(self), answered) == probed(*old(self), samples@),
            detector_ok(*final(self)),
            final(self).run.reads <= old(self).run.reads + samples@.len(),
    {
        let ghost d_in = *self;
        let mut i: usize = 0;
        proof {
            assert(samples@.skip(0) =~= samples@);
        }
        while i < samples.len()
            invariant
                i <= samples@.len(),
                detector_ok(*self),
                self.run.reads <= d_in.run.reads + i,
                d_in.run.reads + samples@.len() <= READ_LIMIT,
                probed(d_in, samples@) == probed(*self, samples@.skip(i as int)),
                d_in == *old(self),
            decreases samples@.len() - i,
        {
            let ghost d_before = *self;
            proof {
                assert(samples@.skip(i as int).skip(1) =~= samples@.skip(i + 1));
                assert(samples@.skip(i as int)[0] == samples@[i as int]);
            }
            let answered = self.feed_probe(Some(samples[i]), None);
            if answered {
                proof {
                    assert(probed(d_before, samples@.skip(i as int)) == (*self, true));
                }
                return true;
            }
            i = i + 1;
        }
        proof {
            assert(samples@.skip(i as int) =~= Seq::<u8>::empty());
        }
        false
    }

    /// The pass ran out of samples before the probe answered. Reading
    /// continues past the end, and each read at the end is an emit, so this
    /// answers.
    pub fn probe_eof(&mut self)
        requires
            detector_ok(*old(self)),
            old(self).run.reads + 64 <= READ_LIMIT,
        ensures
            *final(self) == probe_ended(*old(self)),
            detector_ok(*final(self)),
    {
        let which = match self.stage {
            Stage::Real => {
                return;
            },
            Stage::Probe(w) => w,
        };
        let ghost d_in = *self;
        let mut guard: usize = 0;
        while guard < 64 && self.stage == Stage::Probe(which)
            invariant
                guard <= 64,
                detector_ok(*self),
                self.run.reads <= d_in.run.reads + guard,
                d_in.run.reads + 64 <= READ_LIMIT,
                probe_drained(d_in, which, 0) == probe_drained(*self, which, guard as nat),
            decreases 64 - guard,
        {
            self.feed_probe(None, None);
            guard = guard + 1;
        }
    }

    /// Feed samples to the real run, appending every pulse that completes
    /// within them. Call only once `ready`, and from the first sample.
    pub fn push(&mut self, samples: &[u8], out: &mut Vec<u32>)
        requires
            detector_ok(*old(self)),
            old(self).run.reads + samples@.len() <= READ_LIMIT,
        ensures
            (*final(self), final(out)@.skip(old(out)@.len() as int)) == pushed(*old(self), samples@),
            final(out)@.take(old(out)@.len() as int) == old(out)@,
            final(out)@.len() >= old(out)@.len(),
            detector_ok(*final(self)),
            final(self).run.reads <= old(self).run.reads + samples@.len(),
            final(self).stage == old(self).stage,
    {
        let ghost d_in = *self;
        let ghost start = out@;
        if self.done || !self.ready() {
            proof {
                assert(out@.skip(start.len() as int) =~= Seq::<u32>::empty());
            }
            return;
        }
        let mut i: usize = 0;
        proof {
            assert(samples@.skip(0) =~= samples@);
            assert(out@.skip(start.len() as int) =~= Seq::<u32>::empty());
            assert(out@.take(start.len() as int) =~= start);
        }
        while i < samples.len()
            invariant
                i <= samples@.len(),
                detector_ok(*self),
                self.stage == Stage::Real,
                self.run.reads <= d_in.run.reads + i,
                d_in.run.reads + samples@.len() <= READ_LIMIT,
                out@.len() >= start.len(),
                out@.take(start.len() as int) == start,
                pushed(d_in, samples@).0 == pushed(*self, samples@.skip(i as int)).0,
                d_in == *old(self),
                start == old(out)@,
                pushed(d_in, samples@).1 == out@.skip(start.len() as int) + pushed(*self, samples@.skip(i as int)).1,
            decreases samples@.len() - i,
        {
            let ghost o_before = out@;
            let ghost d_before = *self;
            proof {
                assert(samples@.skip(i as int).skip(1) =~= samples@.skip(i + 1));
                assert(samples@.skip(i as int)[0] == samples@[i as int]);
            }
            if self.done {
                proof {
                    assert(pushed(*self, samples@.skip(i as int)).1 =~= Seq::<u32>::empty());
                    assert(pushed(*self, samples@.skip(i as int)).0 == *self);
                    assert(out@.skip(start.len() as int) + Seq::<u32>::empty() =~= out@.skip(start.len() as int));
                }
                return;
            }
            self.step(Some(samples[i]), None, out);
            proof {
                lemma_pushed_step(d_before, samples@.skip(i as int));
                assert(out@.take(start.len() as int) =~= start) by {
                    assert(out@.take(o_before.len() as int) == o_before);
                }
                assert(out@.skip(start.len() as int) =~= o_before.skip(start.len() as int) + out@.skip(o_before.len() as int)) by {
                    assert(out@.take(o_before.len() as int) == o_before);
                }
            }
            i = i + 1;
        }
        proof {
            assert(samples@.skip(i as int) =~= Seq::<u8>::empty());
            assert(out@.skip(start.len() as int) + Seq::<u32>::empty() =~= out@.skip(start.len() as int));
        }
    }

    /// One sample read by a reader that also says whether it is valid (the
    /// VOC walk past its end), into the running probe.
    pub fn probe_read(&mut self, sample: u8, valid: bool) -> (answered: bool)
        requires
            detector_ok(*old(self)),
            old(self).run.reads < READ_LIMIT,
        ensures
            (*final(self), answered) == probe_fed(*old(self), Some(sample), Some(valid)),
            detector_ok(*final(self)),
            final(self).run.reads <= old(self).run.reads + 1,
    {
        self.feed_probe(Some(sample), Some(valid))
    }

    /// The same read, into the real run.
    pub fn push_read(&mut self, sample: u8, valid: bool, out: &mut Vec<u32>)
        requires
            detector_ok(*old(self)),
            old(self).run.reads < READ_LIMIT,
        ensures
            old(self).done || old(self).stage != Stage::Real ==> *final(self) == *old(self)
                && final(out)@ == old(out)@,
            !old(self).done && old(self).stage == Stage::Real ==> ((*final(self), final(out)@.skip(old(out)@.len() as int))
                == stepped(*old(self), Some(sample), Some(valid)) && final(out)@.take(old(out)@.len() as int)
                == old(out)@),
            final(out)@.len() >= old(out)@.len(),
            final(self).stage == old(self).stage,
            detector_ok(*final(self)),
            final(self).run.reads <= old(self).run.reads + 1,
    {
        if self.done || !self.ready() {
            return;
        }
        self.step(Some(sample), Some(valid), out);
    }

    /// End of signal: drain the real run's two-pulse backlog. Each read at
    /// end of input is an emit, and the counter machine bounds how many it
    /// takes before the run is done.
    pub fn finish(&mut self, out: &mut Vec<u32>)
        requires
            detector_ok(*old(self)),
            old(self).run.reads + 64 <= READ_LIMIT,
            old(self).stage == Stage::Real,
        ensures
            (*final(self), final(out)@.skip(old(out)@.len() as int)) == finished(*old(self)),
            final(out)@.take(old(out)@.len() as int) == old(out)@,
            final(out)@.len() >= old(out)@.len(),
            detector_ok(*final(self)),
            final(self).done,
    {
        let ghost d_in = *self;
        let ghost start = out@;
        if self.done {
            proof {
                assert(out@.skip(start.len() as int) =~= Seq::<u32>::empty());
            }
            return;
        }
        let mut guard: usize = 0;
        while !self.done && guard < 64
            invariant
                guard <= 64,
                detector_ok(*self),
                self.stage == Stage::Real,
                self.run.reads <= d_in.run.reads + guard,
                d_in.run.reads + 64 <= READ_LIMIT,
                out@.len() >= start.len(),
                out@.take(start.len() as int) == start,
                drained(d_in, 0).0 == drained(*self, guard as nat).0,
                drained(d_in, 0).1 == out@.skip(start.len() as int) + drained(*self, guard as nat).1,
            decreases 64 - guard,
        {
            let ghost o_before = out@;
            self.step(None, None, out);
            proof {
                assert(out@.take(start.len() as int) =~= start) by {
                    assert(out@.take(o_before.len() as int) == o_before);
                }
                assert(out@.skip(start.len() as int) =~= o_before.skip(start.len() as int) + out@.skip(o_before.len() as int)) by {
                    assert(out@.take(o_before.len() as int) == o_before);
                }
            }
            guard = guard + 1;
        }
        proof {
            assert(drained(*self, guard as nat).1 =~= Seq::<u32>::empty());
            assert(out@.skip(start.len() as int) + Seq::<u32>::empty() =~= out@.skip(start.len() as int));
        }
        self.done = true;
    }

}

} // verus!
