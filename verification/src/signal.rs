//! A square wave as a run-length list of pulse durations: `pulses[i]` is how
//! many samples the level holds before it flips, starting from
//! `initial_high`.

use vstd::prelude::*;

verus! {

#[derive(Debug, Clone, PartialEq, Eq)]
pub struct Pulses {
    /// Sample rate in Hz.
    pub rate: u32,
    /// Pulse lengths, in samples, alternating logical high/low.
    pub pulses: Vec<u32>,
    /// If true, the waveform starts at logical high.
    pub initial_high: bool,
    /// The pulse count the v2 header declares and the console reports:
    /// detector *calls*, which exceed `pulses.len()` when a call yields no
    /// pulse.
    pub declared: u64,
}

/// What one walk of a pulse list found: enough to size a header with.
#[derive(Debug, Clone, Copy, PartialEq, Eq)]
pub struct Survey {
    /// Pulses in the stream, all of them.
    pub pulses: u64,
    /// Samples the file *declares*. The sum **stops at a zero-length
    /// pulse**; the rendering does not.
    pub total_samples: u64,
}

/// The samples a pulse list declares: the sum of its lengths up to, not
/// including, its first zero.
pub open spec fn declared_samples(ps: Seq<u32>) -> int
    decreases ps.len(),
{
    if ps.len() == 0 || ps[0] == 0 {
        0
    } else {
        ps[0] + declared_samples(ps.skip(1))
    }
}

/// The sum of every length, a zero included.
pub open spec fn sum_all(ps: Seq<u32>) -> int
    decreases ps.len(),
{
    if ps.len() == 0 {
        0
    } else {
        ps[0] + sum_all(ps.skip(1))
    }
}

/// Whether a zero occurs among the lengths.
pub open spec fn has_zero(ps: Seq<u32>) -> bool {
    exists|i: int| 0 <= i < ps.len() && ps[i] == 0
}

/// The declared count of `a + b` is `a`'s when `a` holds a zero, and `a`'s
/// plus `b`'s when it does not.
pub proof fn lemma_declared_concat(a: Seq<u32>, b: Seq<u32>)
    ensures
        has_zero(a) ==> declared_samples(a + b) == declared_samples(a),
        !has_zero(a) ==> declared_samples(a + b) == declared_samples(a) + declared_samples(b),
    decreases a.len(),
{
    if a.len() == 0 {
        assert(a + b =~= b);
    } else {
        lemma_declared_concat(a.skip(1), b);
        assert((a + b).skip(1) =~= a.skip(1) + b);
        if a[0] != 0 {
            assert(has_zero(a) ==> has_zero(a.skip(1))) by {
                if has_zero(a) {
                    let i = choose|i: int| 0 <= i < a.len() && a[i] == 0;
                    assert(a.skip(1)[i - 1] == 0);
                }
            }
            assert(has_zero(a.skip(1)) ==> has_zero(a)) by {
                if has_zero(a.skip(1)) {
                    let i = choose|i: int| 0 <= i < a.skip(1).len() && a.skip(1)[i] == 0;
                    assert(a[i + 1] == 0);
                }
            }
        }
    }
}

/// The sum of `a + b` is the sum of `a` plus the sum of `b`.
pub proof fn lemma_sum_concat(a: Seq<u32>, b: Seq<u32>)
    ensures
        sum_all(a + b) == sum_all(a) + sum_all(b),
    decreases a.len(),
{
    if a.len() == 0 {
        assert(a + b =~= b);
    } else {
        lemma_sum_concat(a.skip(1), b);
        assert((a + b).skip(1) =~= a.skip(1) + b);
    }
}

/// A declared count never exceeds the full sum.
pub proof fn lemma_declared_le_sum(ps: Seq<u32>)
    ensures
        0 <= declared_samples(ps) <= sum_all(ps),
        sum_all(ps) <= ps.len() * 0xFFFF_FFFF,
    decreases ps.len(),
{
    if ps.len() > 0 {
        lemma_declared_le_sum(ps.skip(1));
    }
}

/// The declared count as the 64-bit counter of a survey holds it: it
/// wraps past 2^64 - 1.
pub open spec fn surveyed_samples(ps: Seq<u32>) -> int {
    declared_samples(ps) % 0x1_0000_0000_0000_0000
}

/// Walk a pulse list once and measure it: every pulse is counted, and the
/// samples are summed in 64 bits up to the first zero-length pulse.
pub fn survey(pulses: &[u32]) -> (s: Survey)
    ensures
        s.pulses == pulses@.len(),
        s.total_samples == surveyed_samples(pulses@),
{
    let mut out = Survey { pulses: 0, total_samples: 0 };
    let mut summing = true;
    let mut i: usize = 0;
    while i < pulses.len()
        invariant
            i <= pulses.len(),
            out.pulses == i,
            summing == !has_zero(pulses@.subrange(0, i as int)),
            out.total_samples == surveyed_samples(pulses@.subrange(0, i as int)),
        decreases pulses.len() - i,
    {
        let pulse = pulses[i];
        let ghost pre = pulses@.subrange(0, i as int);
        proof {
            assert(pulses@.subrange(0, i + 1) =~= pre + seq![pulse]);
            lemma_declared_concat(pre, seq![pulse]);
            if has_zero(pre + seq![pulse]) && !has_zero(pre) {
                let k = choose|k: int| 0 <= k < pre.len() + 1 && (pre + seq![pulse])[k] == 0;
                if k < pre.len() {
                    assert(pre[k] == 0);
                }
            }
            if has_zero(pre) {
                let k = choose|k: int| 0 <= k < pre.len() && pre[k] == 0;
                assert((pre + seq![pulse])[k] == 0);
            }
            if pulse == 0 {
                assert((pre + seq![pulse])[pre.len() as int] == 0);
            }
            assert(declared_samples(seq![pulse]) == if pulse == 0 { 0 } else { pulse as int }) by {
                assert(seq![pulse].skip(1) =~= Seq::<u32>::empty());
                assert(declared_samples(Seq::<u32>::empty()) == 0);
                assert(seq![pulse][0] == pulse);
            }
            lemma_declared_le_sum(pre);
            vstd::arithmetic::div_mod::lemma_add_mod_noop(
                declared_samples(pre),
                pulse as int,
                0x1_0000_0000_0000_0000,
            );
            vstd::arithmetic::div_mod::lemma_mod_twice(pulse as int, 0x1_0000_0000_0000_0000);
            vstd::arithmetic::div_mod::lemma_small_mod(pulse as nat, 0x1_0000_0000_0000_0000);
        }
        out.pulses = out.pulses + 1;
        if pulse == 0 {
            summing = false;
        }
        if summing {
            out.total_samples = out.total_samples.wrapping_add(pulse as u64);
        }
        i = i + 1;
    }
    proof {
        assert(pulses@.subrange(0, pulses.len() as int) =~= pulses@);
    }
    out
}

impl Pulses {
    /// Pulses with every call yielding one: the declared count is the length.
    pub fn new(rate: u32, pulses: Vec<u32>, initial_high: bool) -> (p: Pulses)
        ensures
            p.rate == rate,
            p.pulses@ == pulses@,
            p.initial_high == initial_high,
            p.declared == pulses@.len(),
    {
        let declared = pulses.len() as u64;
        Pulses { rate, pulses, initial_high, declared }
    }

    /// The total sample count, as [`survey`] measures it.
    pub fn total_samples(&self) -> (n: u64)
        ensures
            n == surveyed_samples(self.pulses@),
    {
        survey(self.pulses.as_slice()).total_samples
    }
}

} // verus!
