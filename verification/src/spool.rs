//! How much DirectMode may record: the spool shares the free disk space
//! with the files written beside it.

use vstd::prelude::*;

verus! {

/// Bytes one spooled sample takes.
pub const BYTES_PER_SAMPLE: u64 = 1;

/// How many samples may be spooled into `free` bytes.
///
/// The spool is still on disk when the CSW is written beside it, and `-k`
/// adds a WAV of the spool's size, so the space is shared out: two parts
/// spool, one part CSW, two more for the keep-file when there is one.
pub fn sample_budget(free: u64, keep: bool) -> (n: u64)
    requires
        free <= 0x7FFF_FFFF_FFFF_FFFF,
    ensures
        n == (free as int) / (BYTES_PER_SAMPLE as int) * 2 / (if keep { 5int } else { 3int }),
        n + n / 2 + (if keep { n as int } else { 0int }) <= free,
{
    let parts: u64 = if keep {
        5
    } else {
        3
    };
    let n = free / BYTES_PER_SAMPLE * 2 / parts;
    proof {
        lemma_budget_fits(free, keep);
    }
    n
}

/// The spool and what is written beside it fit in the space the budget was
/// taken from: `n` samples of spool, half as many bytes of CSW, and with
/// `-k` a keep-file of `n` more.
pub proof fn lemma_budget_fits(free: u64, keep: bool)
    ensures
        ({
            let n = (free as int) / (BYTES_PER_SAMPLE as int) * 2 / (if keep { 5int } else { 3int });
            n + n / 2 + (if keep { n } else { 0int }) <= free
        }),
{
    let parts: int = if keep {
        5
    } else {
        3
    };
    let n = (free as int) * 2 / parts;
    assert(n * parts <= free * 2) by (nonlinear_arith)
        requires
            n == (free as int) * 2 / parts,
            parts > 0,
    ;
    assert(n / 2 * 2 <= n) by (nonlinear_arith)
        requires
            n >= 0,
    ;
}

} // verus!
