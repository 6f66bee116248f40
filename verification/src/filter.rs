//! The plain settings of the digital filter (`-f`): its band, its analog
//! prototype and its order, as the switches give them and as the status
//! line and the help screen report them. The cutoffs and the ripple are
//! floating-point and the design itself is too; they are not here.

use vstd::prelude::*;

verus! {

/// Filter response shape.
#[derive(Debug, Clone, Copy, PartialEq, Eq, Structural)]
pub enum Band {
    LowPass,
    BandPass,
    HighPass,
    /// A `-ft` value outside 3/4/5, carried as given. The status line prints
    /// `??? ` in place of the band and no band step runs.
    Unknown(i32),
}

/// Analog prototype family.
#[derive(Debug, Clone, Copy, PartialEq, Eq, Structural)]
pub enum Design {
    Butterworth,
    Chebyshev,
    /// A `-fp` value outside 1/2, carried as given. The status line names
    /// it "Chebyshev" with no ripple clause, and neither prototype is
    /// computed.
    Other(i32),
}

/// Highest filter order the design supports. The requested order is clamped
/// into `1..=MAX_ORDER` silently: `o99` designs order 16, `o0` order 1.
pub const MAX_ORDER: i32 = 16;

/// The band a `-ft` code selects: 3 low-pass, 4 band-pass, 5 high-pass, and
/// any other number carried as given.
pub open spec fn band_for(code: i32) -> Band {
    if code == 3 {
        Band::LowPass
    } else if code == 4 {
        Band::BandPass
    } else if code == 5 {
        Band::HighPass
    } else {
        Band::Unknown(code)
    }
}

/// The `-ft` code a band is shown by on the help screen.
pub open spec fn code_for_band(b: Band) -> i32 {
    match b {
        Band::LowPass => 3,
        Band::BandPass => 4,
        Band::HighPass => 5,
        Band::Unknown(n) => n,
    }
}

/// The prototype a `-fp` code selects: 1 Butterworth, 2 Chebyshev, and any
/// other number carried as given.
pub open spec fn design_for(code: i32) -> Design {
    if code == 1 {
        Design::Butterworth
    } else if code == 2 {
        Design::Chebyshev
    } else {
        Design::Other(code)
    }
}

/// The `-fp` code a prototype is shown by on the help screen.
pub open spec fn code_for_design(d: Design) -> i32 {
    match d {
        Design::Butterworth => 1,
        Design::Chebyshev => 2,
        Design::Other(n) => n,
    }
}

/// The band of a `-ft` code (see [`band_for`]).
pub fn band_of(code: i32) -> (b: Band)
    ensures
        b == band_for(code),
{
    if code == 3 {
        Band::LowPass
    } else if code == 4 {
        Band::BandPass
    } else if code == 5 {
        Band::HighPass
    } else {
        Band::Unknown(code)
    }
}

/// The `-ft` code of a band (see [`code_for_band`]).
pub fn band_code(b: Band) -> (code: i32)
    ensures
        code == code_for_band(b),
{
    match b {
        Band::LowPass => 3,
        Band::BandPass => 4,
        Band::HighPass => 5,
        Band::Unknown(n) => n,
    }
}

/// The prototype of a `-fp` code (see [`design_for`]).
pub fn design_of(code: i32) -> (d: Design)
    ensures
        d == design_for(code),
{
    if code == 1 {
        Design::Butterworth
    } else if code == 2 {
        Design::Chebyshev
    } else {
        Design::Other(code)
    }
}

/// The `-fp` code of a prototype (see [`code_for_design`]).
pub fn design_code(d: Design) -> (code: i32)
    ensures
        code == code_for_design(d),
{
    match d {
        Design::Butterworth => 1,
        Design::Chebyshev => 2,
        Design::Other(n) => n,
    }
}

/// The name the status line gives a prototype: anything but Butterworth is
/// "Chebyshev".
pub fn design_name(d: Design) -> (s: &'static str)
    ensures
        s@ == (if d == Design::Butterworth {
            "Butterworth"@
        } else {
            "Chebyshev"@
        }),
{
    match d {
        Design::Butterworth => "Butterworth",
        _ => "Chebyshev",
    }
}

/// Whether the status line carries the ripple: for Chebyshev proper only,
/// not for a prototype code carried as given.
pub fn shows_ripple(d: Design) -> (r: bool)
    ensures
        r == (d == Design::Chebyshev),
{
    match d {
        Design::Chebyshev => true,
        _ => false,
    }
}

/// `order` clamped into `1..=MAX_ORDER`.
pub open spec fn clamped_order(order: i32) -> int {
    if order < 1 {
        1
    } else if order > MAX_ORDER {
        MAX_ORDER as int
    } else {
        order as int
    }
}

/// The clamped order, rounded up to even for a band-pass.
pub open spec fn announced_order(order: i32, band: Band) -> int {
    if band == Band::BandPass && clamped_order(order) % 2 == 1 {
        clamped_order(order) + 1
    } else {
        clamped_order(order)
    }
}

/// The order actually designed for (see [`clamped_order`]).
pub fn effective_order(order: i32) -> (n: u32)
    ensures
        n == clamped_order(order),
{
    if order < 1 {
        1
    } else if order > MAX_ORDER {
        MAX_ORDER as u32
    } else {
        order as u32
    }
}

/// The order the design ends up with, which the status line reports (see
/// [`announced_order`]): `-fo3` announces order 4 for a band-pass.
pub fn designed_order(order: i32, band: Band) -> (n: u32)
    ensures
        n == announced_order(order, band),
{
    let e = effective_order(order);
    if band == Band::BandPass && e % 2 == 1 {
        e + 1
    } else {
        e
    }
}

/// A `-ft` code read back from the band it selected is the code given:
/// the help screen shows `-ft-1` as `[-1]`.
pub proof fn lemma_band_code_roundtrip(code: i32)
    ensures
        code_for_band(band_for(code)) == code,
{
}

/// A band other than one carried as given is selected by its own code; a
/// carried code of 3, 4 or 5 is the only way two bands share a code.
pub proof fn lemma_band_from_code(b: Band)
    requires
        !(b matches Band::Unknown(n) && 3 <= n <= 5),
    ensures
        band_for(code_for_band(b)) == b,
{
}

/// A `-fp` code read back from the prototype it selected is the code given.
pub proof fn lemma_design_code_roundtrip(code: i32)
    ensures
        code_for_design(design_for(code)) == code,
{
}

/// A prototype other than one carried as given is selected by its own code.
pub proof fn lemma_design_from_code(d: Design)
    requires
        !(d matches Design::Other(n) && 1 <= n <= 2),
    ensures
        design_for(code_for_design(d)) == d,
{
}

/// The order the status line announces is one the design supports, even
/// for a band-pass, and never below an order asked for within range.
pub proof fn lemma_announced_order_range(order: i32, band: Band)
    ensures
        1 <= announced_order(order, band) <= MAX_ORDER,
        band == Band::BandPass ==> announced_order(order, band) % 2 == 0,
        1 <= order <= MAX_ORDER ==> order <= announced_order(order, band),
{
}

} // verus!
