//! Z80 emulator "OUT" trace input: five-byte little-endian records (T-state
//! offset in a 1/200 s frame, 16-bit port, value written); a port whose low
//! byte is 0xFE ends a pulse of `tstates * rate / 3.5 MHz` samples.

use vstd::prelude::*;

use crate::error::{Error, Result};
use crate::signal::Pulses;

verus! {

/// ZX Spectrum CPU clock (T-states per second).
pub const Z80_CLOCK: u64 = 3_500_000;

/// What the walk of a trace carries from record to record.
pub struct Trace {
    pub pulses: Seq<u32>,
    pub prev_ts: u32,
    pub accum: u32,
    pub events: nat,
    pub t_total: u32,
}

/// `x + y` wrapping at 32 bits.
pub open spec fn wadd(x: u32, y: u32) -> u32 {
    if x + y > 0xFFFF_FFFF {
        (x + y - 0x1_0000_0000) as u32
    } else {
        (x + y) as u32
    }
}

/// `x - y` wrapping at 32 bits.
pub open spec fn wsub(x: u32, y: u32) -> u32 {
    if x < y {
        (x - y + 0x1_0000_0000) as u32
    } else {
        (x - y) as u32
    }
}

/// The record starting at `at`: its timestamp word, its port's low byte and
/// its port word.
pub open spec fn word_a(data: Seq<u8>, at: int) -> u32 {
    (data[at] + 256 * data[at + 1]) as u32
}

pub open spec fn word_b(data: Seq<u8>, at: int) -> u32 {
    (data[at + 2] + 256 * data[at + 3]) as u32
}

/// The samples a gap of `accum` T-states lasts at `rate`, truncated.
#[verifier::opaque]
pub open spec fn gap_samples(accum: u32, rate: u32) -> int {
    accum * rate / (Z80_CLOCK as int)
}

fn pulse_samples(accum: u32, rate: u32) -> (r: u64)
    ensures
        r == gap_samples(accum, rate),
{
    proof {
        reveal(gap_samples);
        assert(accum * rate <= 0xFFFF_FFFF * 0xFFFF_FFFF) by (nonlinear_arith)
            requires
                accum <= 0xFFFF_FFFF,
                rate <= 0xFFFF_FFFF,
        ;
    }
    (accum as u64) * (rate as u64) / Z80_CLOCK
}

/// One record applied to the walk; `true` when it ended a pulse. The
/// accumulator and the timestamp are 32-bit unsigned and wrap; a gap is
/// truncated to samples per pulse with no fractional carry.
pub open spec fn applied(t: Trace, data: Seq<u8>, at: int, rate: u32) -> (Trace, bool) {
    let a = word_a(data, at);
    let b = word_b(data, at);
    let port_fe = data[at + 2] == 0xFE;
    let t = Trace { events: if port_fe { t.events + 1 } else { t.events }, ..t };
    if a == 0xFFFE {
        (t, false)
    } else if a == 0xFFFF {
        let gap = wsub(b, t.prev_ts);
        (
            Trace {
                accum: wadd(t.accum, gap),
                t_total: wadd(t.t_total, gap),
                prev_ts: 0,
                ..t
            },
            false,
        )
    } else if port_fe {
        let gap = wsub(a, t.prev_ts);
        let accum = wadd(t.accum, gap);
        let samples = gap_samples(accum, rate);
        (
            Trace {
                accum: 0,
                t_total: wadd(t.t_total, gap),
                prev_ts: a,
                pulses: if samples > 0 {
                    t.pulses.push((samples % 0x1_0000_0000) as u32)
                } else {
                    t.pulses
                },
                ..t
            },
            true,
        )
    } else {
        (t, false)
    }
}

/// The walk over the records before byte `end`: the trace it leaves,
/// whether the last record ended a pulse, and where the first record that
/// ended one starts.
pub open spec fn walked(t: Trace, data: Seq<u8>, end: int, rate: u32) -> (Trace, bool, Option<int>)
    decreases end,
{
    if end < 5 {
        (t, false, None)
    } else {
        let (t1, _, first) = walked(t, data, end - 5, rate);
        let (t2, flag) = applied(t1, data, end - 5, rate);
        (t2, flag, if first is None && flag { Some(end - 5) } else { first })
    }
}

pub open spec fn empty_trace() -> Trace {
    Trace { pulses: Seq::empty(), prev_ts: 0, accum: 0, events: 0, t_total: 0 }
}

/// The pulses, the T-state total and the count of port-0xFE writes a trace
/// of whole records holds. When the last record ended no pulse, the walk
/// reads on from the start of the file up to and including the first
/// record that ended one, growing a final pulse; those records count towards
/// neither the total nor the writes.
pub open spec fn trace_of(data: Seq<u8>, rate: u32) -> Trace {
    let (t, flag, first) = walked(empty_trace(), data, data.len() as int, rate);
    match first {
        Some(at) if !flag => {
            let (t2, _, _) = walked(t, data, at + 5, rate);
            Trace { events: t.events, t_total: t.t_total, ..t2 }
        },
        _ => t,
    }
}

/// What is kept of the pulses: fewer than four and only the first.
pub open spec fn kept(ps: Seq<u32>) -> Seq<u32> {
    if ps.len() < 4 {
        ps.take(if ps.len() == 0 { 0int } else { 1int })
    } else {
        ps
    }
}

/// The walk's state, executed.
struct Walk {
    pulses: Vec<u32>,
    prev_ts: u32,
    accum: u32,
    events: u64,
    t_total: u32,
}

impl Walk {
    spec fn view(&self) -> Trace {
        Trace {
            pulses: self.pulses@,
            prev_ts: self.prev_ts,
            accum: self.accum,
            events: self.events as nat,
            t_total: self.t_total,
        }
    }

    /// One five-byte record, carrying the trace's state from record to
    /// record. Returns whether this record ended a pulse.
    fn apply(&mut self, data: &[u8], at: usize, rate: u32) -> (ended: bool)
        requires
            at + 5 <= data@.len(),
            old(self).events < 0xFFFF_FFFF_FFFF_FFFF,
        ensures
            (final(self).view(), ended) == applied(old(self).view(), data@, at as int, rate),
            final(self).events <= old(self).events + 1,
    {
        let word_a: u32 = data[at] as u32 + (data[at + 1] as u32) * 256;
        let word_b: u32 = data[at + 2] as u32 + (data[at + 3] as u32) * 256;
        // The count is every record naming port 0xFE, whatever its
        // timestamp.
        let port_fe = data[at + 2] == 0xFE;
        if port_fe {
            self.events = self.events + 1;
        }
        if word_a == 0xFFFE {
            return false;
        }
        if word_a == 0xFFFF {
            let gap = word_b.wrapping_sub(self.prev_ts);
            self.accum = self.accum.wrapping_add(gap);
            self.t_total = self.t_total.wrapping_add(gap);
            self.prev_ts = 0;
            return false;
        }
        if port_fe {
            let gap = word_a.wrapping_sub(self.prev_ts);
            self.accum = self.accum.wrapping_add(gap);
            self.t_total = self.t_total.wrapping_add(gap);
            self.prev_ts = word_a;
            // Truncated per pulse, no fractional carry.
            let samples: u64 = pulse_samples(self.accum, rate);
            if samples > 0 {
                self.pulses.push((samples % 0x1_0000_0000) as u32);
            }
            self.accum = 0;
            return true;
        }
        false
    }
}

/// The records from the start of `data` up to byte `end`, applied to `w`:
/// whether the last one ended a pulse, and where the first that did starts.
fn walk_to(w: &mut Walk, data: &[u8], end: usize, rate: u32) -> (r: (bool, Option<usize>))
    requires
        end <= data@.len(),
        end % 5 == 0,
        old(w).events + end < 0xFFFF_FFFF_FFFF_FFFF,
    ensures
        ({
            let (t, flag, first) = walked(old(w).view(), data@, end as int, rate);
            &&& final(w).view() == t
            &&& r.0 == flag
            &&& (first is None <==> r.1 is None)
            &&& (first matches Some(f) ==> r.1 == Some(f as usize) && f % 5 == 0 && 0 <= f
                && f + 5 <= end)
        }),
        final(w).events <= old(w).events + end,
{
    let ghost w0 = w.view();
    let mut flagged = false;
    let mut first_end: Option<usize> = None;
    let mut pos: usize = 0;
    while pos < end
        invariant
            end <= data@.len(),
            end % 5 == 0,
            pos % 5 == 0,
            pos <= end,
            w0.events + end < 0xFFFF_FFFF_FFFF_FFFF,
            w.events <= w0.events + pos,
            ({
                let (t, flag, first) = walked(w0, data@, pos as int, rate);
                &&& w.view() == t
                &&& flagged == flag
                &&& (first is None <==> first_end is None)
                &&& (first matches Some(f) ==> first_end == Some(f as usize) && f % 5 == 0
                    && 0 <= f && f + 5 <= pos)
            }),
        decreases end - pos,
    {
        flagged = w.apply(data, pos, rate);
        if flagged && first_end.is_none() {
            first_end = Some(pos);
        }
        pos = pos + 5;
    }
    (flagged, first_end)
}

/// Decode an OUT trace into pulses at `rate`: the pulses, the T-state total
/// (which wraps at 32 bits) and the count of writes to port 0xFE. A length
/// that is not a whole number of records is refused.
pub fn read(data: &[u8], rate: u32) -> (r: Result<(Pulses, u32, usize)>)
    requires
        data@.len() < 0x1_0000_0000_0000,
    ensures
        data@.len() % 5 != 0 ==> (r matches Err(Error::CheckedFatal(a, b)) && a@ == "bad size!"@
            && b@ == "Input file is corrupted or in a wrong format"@),
        data@.len() % 5 == 0 ==> (r matches Ok((sig, t_total, described)) && {
            let t = trace_of(data@, rate);
            &&& sig.pulses@ == kept(t.pulses)
            &&& sig.initial_high == (t.pulses.len() != 1)
            &&& sig.rate == rate
            &&& sig.declared == if kept(t.pulses).len() == 0 { 1 } else { kept(t.pulses).len() }
            &&& t_total == t.t_total
            &&& described == t.events
        }),
{
    let len = data.len();
    // An empty trace is read, not refused.
    if len % 5 != 0 {
        return Err(Error::CheckedFatal(
            "bad size!".to_owned(),
            "Input file is corrupted or in a wrong format".to_owned(),
        ));
    }
    let mut w = Walk { pulses: Vec::new(), prev_ts: 0, accum: 0, events: 0, t_total: 0 };
    let (flagged, first_end) = walk_to(&mut w, data, len, rate);
    let events = w.events;
    let t_total = w.t_total;
    // One more pulse when the last record ended none: the walk reads on from
    // the start of the file up to the first record that ends a pulse; those
    // records count towards neither the total nor the writes.
    if !flagged {
        if let Some(end) = first_end {
            walk_to(&mut w, data, end + 5, rate);
        }
    }
    // Fewer than four pulses and only the first is kept. A single-pulse
    // trace stamps the initial polarity low, every other trace high.
    let described = events as usize;
    let mut pulses = w.pulses;
    let initial_high = pulses.len() != 1;
    if pulses.len() < 4 {
        pulses.truncate(1);
    }
    let mut sig = Pulses::new(rate, pulses, initial_high);
    if sig.declared < 1 {
        sig.declared = 1;
    }
    proof {
        assert(sig.pulses@ =~= kept(trace_of(data@, rate).pulses));
    }
    Ok((sig, t_total, described))
}

} // verus!
