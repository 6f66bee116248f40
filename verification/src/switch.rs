//! Command-line switches as argv spells them: bytes, folded letter by
//! letter, dispatched, with the integer arguments read as `sscanf("%i")`
//! reads them.

use vstd::prelude::*;
use vstd::string::StringSliceAdditionalSpecFns;

use crate::convert::DecodeTarget;
use crate::error::{Error, Msg};
use crate::text::{push_bytes, push_str};

verus! {

/// The 128 bytes a switch letter with the high bit set is folded through.
///
/// A letter from 0x80 up indexes this table: 0xD6 gives `r` and starts
/// DirectMode, 0x85 gives `1` and writes a v1 file. 48 entries are NUL,
/// which ends a quoted token where it stands, so 0xFF is reported as a bare
/// `-`.
pub const HIGH_FOLD: [u8; 128] = [
    0x20, 0x32, 0x2E, 0x38, 0x2E, 0x31, 0x20, 0x24, 0x00, 0x40, 0x28, 0x23, 0x29, 0x20, 0x44, 0x4A, 0x47, 0x50, 0x50, 0x20, 0x6C, 0x69, 0x62, 0x63, 0x20, 0x62, 0x75, 0x69, 0x6C, 0x74, 0x20, 0x44, 0x65, 0x63, 0x20, 0x32, 0x34, 0x20, 0x32, 0x30, 0x30, 0x31, 0x20, 0x32, 0x31, 0x3A, 0x32, 0x34, 0x3A, 0x33, 0x39, 0x20, 0x62, 0x79, 0x20, 0x67, 0x63, 0x63, 0x20, 0x32, 0x2E, 0x38, 0x2E, 0x31, 0x20, 0x24, 0x00, 0x00, 0x00, 0x00, 0x00, 0x00, 0x00, 0x00, 0x00, 0x00, 0x00, 0x00, 0x00, 0x02, 0x00, 0x00, 0x00, 0x20, 0x21, 0x70, 0x72, 0x6F, 0x78, 0x79, 0x00, 0x07, 0x00, 0x00, 0x00, 0x00, 0x00, 0x00, 0x00, 0xF4, 0xD7, 0x11, 0x00, 0x00, 0x00, 0x00, 0x00, 0x00, 0x00, 0x00, 0x00, 0x00, 0x00, 0x00, 0x00, 0x9C, 0x5D, 0x03, 0x00, 0x00, 0x00, 0x00, 0x00, 0x00, 0x00, 0x00, 0x00, 0x00
];

/// A byte lower-cased if it is an ASCII capital.
pub open spec fn lower_of(b: u8) -> u8 {
    if 65 <= b <= 90 {
        (b + 32) as u8
    } else {
        b
    }
}

/// One switch or sub-option letter, folded: plain lower-casing below 0x80,
/// and [`HIGH_FOLD`] at or above it.
pub open spec fn folded(b: u8) -> u8 {
    if b >= 128 {
        HIGH_FOLD@[b - 128]
    } else {
        lower_of(b)
    }
}

/// One switch or sub-option letter, folded (see [`folded`]).
pub fn fold(b: u8) -> (r: u8)
    ensures
        r == folded(b),
{
    if b >= 128 {
        HIGH_FOLD[(b - 128) as usize]
    } else if 65 <= b && b <= 90 {
        b + 32
    } else {
        b
    }
}

/// The token an unrecognised switch is quoted by: argv's own bytes with the
/// folded letter written back into them; a letter folding to NUL ends the
/// token there.
pub open spec fn token_of(head: Seq<u8>, folded: u8, tail: Seq<u8>) -> Seq<u8> {
    if folded == 0 {
        head
    } else {
        head.push(folded) + tail
    }
}

pub fn switch_token(head: &[u8], folded: u8, tail: &[u8]) -> (t: Vec<u8>)
    ensures
        t@ == token_of(head@, folded, tail@),
{
    let mut token: Vec<u8> = Vec::new();
    push_bytes(&mut token, head);
    if folded == 0 {
        return token;
    }
    token.push(folded);
    push_bytes(&mut token, tail);
    token
}

/// "`<token>` is an invalid switch", quoting the whole token.
pub fn invalid_switch(token: &[u8]) -> (e: Error)
    ensures
        e matches Error::Fatal(m) && m.bytes() == token@ + " is an invalid switch".spec_bytes(),
{
    let mut msg: Vec<u8> = Vec::new();
    push_bytes(&mut msg, token);
    push_str(&mut msg, " is an invalid switch");
    Error::Fatal(Msg::from_bytes(msg))
}

/// The error a `-f` sub-option whose argument converts to nothing raises:
/// the line for a bad sampling rate, whichever sub-option it was.
pub fn suboption_fail() -> (e: Error)
    ensures
        e matches Error::Fatal(m) && m.bytes() == "Invalid sample rate".spec_bytes(),
{
    Error::Fatal(Msg::from_text("Invalid sample rate"))
}

/// What `sscanf("%i")` makes of an argument: nothing to read at all (the
/// tail is empty), a value, or text it cannot convert.
#[derive(Debug, Clone, Copy, PartialEq, Eq, Structural)]
pub enum Scan {
    Eof,
    Value(i32),
    Fail,
}

/// White space as `u8::is_ascii_whitespace` has it.
pub open spec fn is_ascii_ws(b: u8) -> bool {
    b == 32 || b == 9 || b == 10 || b == 12 || b == 13
}

/// The value of a digit in `radix`, if it is one.
pub open spec fn digit_in(b: u8, radix: int) -> Option<int> {
    if 48 <= b <= 57 && b - 48 < radix {
        Some(b - 48)
    } else if radix == 16 && 97 <= b <= 102 {
        Some(b - 87)
    } else if radix == 16 && 65 <= b <= 70 {
        Some(b - 55)
    } else {
        None
    }
}

/// Where the leading white space from `i` ends.
pub open spec fn skip_ws(s: Seq<u8>, i: int) -> int
    decreases s.len() - i,
{
    if i < 0 || i >= s.len() || !is_ascii_ws(s[i]) {
        i
    } else {
        skip_ws(s, i + 1)
    }
}

/// Where the run of digits in `radix` from `i` ends.
pub open spec fn digits_end(s: Seq<u8>, i: int, radix: int) -> int
    decreases s.len() - i,
{
    if i < 0 || i >= s.len() || digit_in(s[i], radix) is None {
        i
    } else {
        digits_end(s, i + 1, radix)
    }
}

/// The number the digits `s[from..to]` spell in `radix`.
pub open spec fn run_value(s: Seq<u8>, from: int, to: int, radix: int) -> int
    decreases to - from,
{
    if to <= from {
        0
    } else {
        run_value(s, from, to - 1, radix) * radix + digit_in(s[to - 1], radix)->Some_0
    }
}

/// `x` read as a 32-bit two's-complement number.
pub open spec fn as_i32(x: int) -> int {
    if x >= 0x8000_0000 {
        x - 0x1_0000_0000
    } else {
        x
    }
}

/// `sscanf("%i")`: optional white space and sign, then hexadecimal after
/// `0x` (when a hex digit follows), octal after a leading `0`, decimal
/// otherwise; it stops at the first byte that does not belong. Stored into
/// an `int`: the magnitude wraps at 2^32 and the sign is applied after.
pub open spec fn scanned_i(t: Seq<u8>) -> Scan {
    let p = skip_ws(t, 0);
    if p >= t.len() {
        Scan::Eof
    } else {
        let neg = t[p] == 45;
        let q = if t[p] == 45 || t[p] == 43 {
            p + 1
        } else {
            p
        };
        let hex = q + 2 < t.len() && t[q] == 48 && (t[q + 1] == 120 || t[q + 1] == 88) && digit_in(
            t[q + 2],
            16,
        ) is Some;
        let radix: int = if hex {
            16
        } else if q < t.len() && t[q] == 48 {
            8
        } else {
            10
        };
        let start = if hex {
            q + 2
        } else {
            q
        };
        let end = digits_end(t, start, radix);
        if end == start {
            Scan::Fail
        } else {
            let u = run_value(t, start, end, radix) % 0x1_0000_0000;
            let w = if neg {
                (0x1_0000_0000 - u) % 0x1_0000_0000
            } else {
                u
            };
            Scan::Value(as_i32(w) as i32)
        }
    }
}

fn digit(b: u8, radix: u32) -> (r: Option<u32>)
    requires
        radix == 8 || radix == 10 || radix == 16,
    ensures
        match digit_in(b, radix as int) {
            Some(d) => r == Some(d as u32),
            None => r is None,
        },
{
    if 48 <= b && b <= 57 && ((b - 48) as u32) < radix {
        Some((b - 48) as u32)
    } else if radix == 16 && 97 <= b && b <= 102 {
        Some((b - 87) as u32)
    } else if radix == 16 && 65 <= b && b <= 70 {
        Some((b - 55) as u32)
    } else {
        None
    }
}

proof fn lemma_wrap_step(v: int, radix: int, d: int)
    requires
        v >= 0,
        radix > 0,
        0 <= d < radix,
    ensures
        ((v % 0x1_0000_0000) * radix + d) % 0x1_0000_0000 == (v * radix + d) % 0x1_0000_0000,
{
    let m = 0x1_0000_0000int;
    vstd::arithmetic::div_mod::lemma_mul_mod_noop_left(v, radix, m);
    vstd::arithmetic::div_mod::lemma_add_mod_noop((v % m) * radix, d, m);
    vstd::arithmetic::div_mod::lemma_add_mod_noop(v * radix, d, m);
}

/// `acc * radix + d`, wrapping at 32 bits.
fn wrap_step(acc: u32, radix: u32, d: u32) -> (r: u32)
    requires
        radix <= 16,
        d < 16,
    ensures
        r == (acc * radix + d) % 0x1_0000_0000,
{
    proof {
        assert(acc * radix <= 0xFFFF_FFFF * 16) by (nonlinear_arith)
            requires
                acc <= 0xFFFF_FFFF,
                radix <= 16,
        ;
    }
    let r = (acc as u64 * radix as u64 + d as u64) % 0x1_0000_0000;
    r as u32
}

proof fn lemma_run_nonneg(s: Seq<u8>, from: int, to: int, radix: int)
    requires
        radix > 0,
        forall|k: int| from <= k < to ==> digit_in(#[trigger] s[k], radix) is Some,
    ensures
        run_value(s, from, to, radix) >= 0,
    decreases to - from,
{
    if to > from {
        lemma_run_nonneg(s, from, to - 1, radix);
        assert(digit_in(s[to - 1], radix) is Some);
        assert(run_value(s, from, to - 1, radix) * radix >= 0) by (nonlinear_arith)
            requires
                run_value(s, from, to - 1, radix) >= 0,
                radix > 0,
        ;
    }
}

/// The digits `t[start..end]` in `radix`, wrapping at 32 bits.
fn wrapped_value(t: &[u8], start: usize, end: usize, radix: u32) -> (r: u32)
    requires
        start <= end <= t@.len(),
        radix == 8 || radix == 10 || radix == 16,
        forall|k: int| start <= k < end ==> digit_in(#[trigger] t@[k], radix as int) is Some,
    ensures
        r == run_value(t@, start as int, end as int, radix as int) % 0x1_0000_0000,
{
    let mut i = start;
    let mut acc: u32 = 0;
    while i < end
        invariant
            start <= i <= end <= t@.len(),
            radix == 8 || radix == 10 || radix == 16,
            forall|k: int| start <= k < end ==> digit_in(#[trigger] t@[k], radix as int) is Some,
            acc == run_value(t@, start as int, i as int, radix as int) % 0x1_0000_0000,
        decreases end - i,
    {
        let d = match digit(t[i], radix) {
            Some(d) => d,
            None => 0,
        };
        proof {
            assert(digit_in(t@[i as int], radix as int) is Some);
            lemma_run_nonneg(t@, start as int, i as int, radix as int);
            lemma_wrap_step(run_value(t@, start as int, i as int, radix as int), radix as int, d as int);
        }
        acc = wrap_step(acc, radix, d);
        i = i + 1;
    }
    acc
}

/// `sscanf("%i")` over an argument's bytes (see [`scanned_i`]).
pub fn scan_i(t: &[u8]) -> (r: Scan)
    ensures
        r == scanned_i(t@),
{
    let n = t.len();
    let mut p: usize = 0;
    while p < n && (t[p] == 32 || t[p] == 9 || t[p] == 10 || t[p] == 12 || t[p] == 13)
        invariant
            p <= n == t@.len(),
            skip_ws(t@, p as int) == skip_ws(t@, 0),
        decreases n - p,
    {
        p = p + 1;
    }
    if p >= n {
        return Scan::Eof;
    }
    let neg = t[p] == 45;
    let q = if t[p] == 45 || t[p] == 43 {
        p + 1
    } else {
        p
    };
    let hex = q < n && n - q > 2 && t[q] == 48 && (t[q + 1] == 120 || t[q + 1] == 88) && digit(
        t[q + 2],
        16,
    ).is_some();
    let radix: u32 = if hex {
        16
    } else if q < n && t[q] == 48 {
        8
    } else {
        10
    };
    let start = if hex {
        q + 2
    } else {
        q
    };
    let mut e = start;
    while e < n && digit(t[e], radix).is_some()
        invariant
            start <= e <= n == t@.len(),
            radix == 8 || radix == 10 || radix == 16,
            digits_end(t@, e as int, radix as int) == digits_end(t@, start as int, radix as int),
            forall|k: int| start <= k < e ==> digit_in(#[trigger] t@[k], radix as int) is Some,
        decreases n - e,
    {
        e = e + 1;
    }
    if e == start {
        return Scan::Fail;
    }
    let acc = wrapped_value(t, start, e, radix);
    let w: u32 = if neg {
        0u32.wrapping_sub(acc)
    } else {
        acc
    };
    let v: i32 = if w >= 0x8000_0000 {
        (w as i64 - 0x1_0000_0000) as i32
    } else {
        w as i32
    };
    Scan::Value(v)
}

/// The number `sscanf("%lf")` found in an argument: its sign, and the
/// bytes `start..end` that spell its magnitude. The value itself is
/// floating-point and is the caller's to convert.
#[derive(Debug, Clone, Copy, PartialEq, Eq, Structural)]
pub struct FloatSpan {
    pub negative: bool,
    pub start: usize,
    pub end: usize,
}

/// How far `sscanf("%lf")` reads an argument: nothing at all (the argument
/// is blank), a number, or text that is no number.
#[derive(Debug, Clone, Copy, PartialEq, Eq, Structural)]
pub enum FloatScan {
    Eof,
    Number(FloatSpan),
    Fail,
}

/// A scanned number where a stored one is wanted: a failed conversion is
/// refused, an empty argument keeps the setting.
pub open spec fn kept_float(r: FloatScan) -> Option<Option<FloatSpan>> {
    match r {
        FloatScan::Number(n) => Some(Some(n)),
        FloatScan::Eof => Some(None),
        FloatScan::Fail => None,
    }
}

/// Where a run of decimal digits from `i` ends.
pub open spec fn decimal_end(s: Seq<u8>, i: int) -> int {
    digits_end(s, i, 10)
}

/// `sscanf("%lf")`'s reach: optional white space and sign, digits with an
/// optional fraction, at least one digit in all, then an exponent only when
/// `e` or `E`, an optional sign and at least one digit follow. `inf` and
/// `nan` are no numbers here: `-fhinf` converts to nothing.
pub open spec fn scanned_lf(t: Seq<u8>) -> FloatScan {
    let p = skip_ws(t, 0);
    if p >= t.len() {
        FloatScan::Eof
    } else {
        let neg = t[p] == 45;
        let q = if t[p] == 45 || t[p] == 43 {
            p + 1
        } else {
            p
        };
        let i = decimal_end(t, q);
        let dot = i < t.len() && t[i] == 46;
        let after = if dot {
            decimal_end(t, i + 1)
        } else {
            i
        };
        let digits = (i - q) + if dot {
            after - (i + 1)
        } else {
            0
        };
        if digits == 0 {
            FloatScan::Fail
        } else {
            let j0 = after + 1;
            let j = if j0 < t.len() && (t[j0] == 43 || t[j0] == 45) {
                j0 + 1
            } else {
                j0
            };
            let exponent = after < t.len() && (t[after] == 101 || t[after] == 69) && j < t.len()
                && digit_in(t[j], 10) is Some;
            let end = if exponent {
                decimal_end(t, j)
            } else {
                after
            };
            FloatScan::Number(FloatSpan { negative: neg, start: q as usize, end: end as usize })
        }
    }
}

/// Where the decimal digits from `i` end (see [`decimal_end`]).
fn decimal_run(t: &[u8], i: usize) -> (e: usize)
    requires
        i <= t@.len(),
    ensures
        e as int == decimal_end(t@, i as int),
        i <= e <= t@.len(),
{
    let n = t.len();
    let mut e = i;
    while e < n && 48 <= t[e] && t[e] <= 57
        invariant
            i <= e <= n == t@.len(),
            digits_end(t@, e as int, 10) == digits_end(t@, i as int, 10),
        decreases n - e,
    {
        e = e + 1;
    }
    e
}

/// `sscanf("%lf")` over an argument's bytes, the value aside (see
/// [`scanned_lf`]).
pub fn scan_lf(t: &[u8]) -> (r: FloatScan)
    ensures
        r == scanned_lf(t@),
        r matches FloatScan::Number(n) ==> n.start < n.end <= t@.len(),
{
    let n = t.len();
    let mut p: usize = 0;
    while p < n && (t[p] == 32 || t[p] == 9 || t[p] == 10 || t[p] == 12 || t[p] == 13)
        invariant
            p <= n == t@.len(),
            skip_ws(t@, p as int) == skip_ws(t@, 0),
        decreases n - p,
    {
        p = p + 1;
    }
    if p >= n {
        return FloatScan::Eof;
    }
    let neg = t[p] == 45;
    let q = if t[p] == 45 || t[p] == 43 {
        p + 1
    } else {
        p
    };
    let i = decimal_run(t, q);
    let dot = i < n && t[i] == 46;
    let after = if dot {
        decimal_run(t, i + 1)
    } else {
        i
    };
    let digits = (i - q) + if dot {
        after - (i + 1)
    } else {
        0
    };
    if digits == 0 {
        return FloatScan::Fail;
    }
    let mut end = after;
    if after < n && (t[after] == 101 || t[after] == 69) {
        let mut j = after + 1;
        if j < n && (t[j] == 43 || t[j] == 45) {
            j = j + 1;
        }
        if j < n && 48 <= t[j] && t[j] <= 57 {
            end = decimal_run(t, j);
        }
    }
    FloatScan::Number(FloatSpan { negative: neg, start: q, end })
}

/// What one switch asks for. The arguments of `-t` and of the filter's
/// frequency and ripple sub-options are floating-point: they are carried as
/// the span of the number in the bytes after the letter (after the key, for
/// a sub-option), for the caller to convert.
#[derive(Debug, Clone, Copy, PartialEq, Eq, Structural)]
pub enum SwitchAction {
    /// `-?`: the help screen, ending the parse where it stands.
    Help,
    /// `-d`: decode, to a VOC when the byte after the letter is `v`.
    Decode(DecodeTarget),
    /// `-s`: the DirectMode rate, set only when a value is read.
    Rate(Scan),
    /// `-r`: record from the soundcard.
    Direct,
    /// `-k`: keep the DirectMode samples.
    Keep,
    /// `-c`: take the device's own configuration.
    Compat,
    /// `-t`: the recording time, set only when a number is read.
    Time(FloatScan),
    /// `-1`: write a v1 file.
    Version1,
    /// `-z`: plain RLE.
    OldCompression,
    /// `-i`: the recording input selector, parsed and never read.
    InputSource(Scan),
    /// `-f`: the filter, with this sub-option.
    Filter(FilterOption),
}

/// One `-f` sub-option -- the first only: anything after its digits is
/// ignored.
#[derive(Debug, Clone, Copy, PartialEq, Eq, Structural)]
pub enum FilterOption {
    /// `-f` alone, or a key folding to NUL: the filter, nothing set.
    Select,
    /// `o`: the order, when a value is read.
    Order(Option<i32>),
    /// `h`, `l`, `r`: the upper and lower cutoffs and the ripple, when a
    /// number is read.
    High(Option<FloatSpan>),
    Low(Option<FloatSpan>),
    Ripple(Option<FloatSpan>),
    /// `t`: the band code, when a value is read.
    Band(Option<i32>),
    /// `p`: the prototype code, when a value is read.
    Prototype(Option<i32>),
    /// `3`: accepted and ignored.
    Three,
}

/// `s` from `i` on, empty past its end.
pub open spec fn rest_from(s: Seq<u8>, i: int) -> Seq<u8> {
    if i < s.len() {
        s.skip(i)
    } else {
        Seq::empty()
    }
}

/// The first byte of `s`, 0 when it is empty (a bare `-` folds its own
/// terminator).
pub open spec fn first_or_nul(s: Seq<u8>) -> u8 {
    if s.len() > 0 {
        s[0]
    } else {
        0
    }
}

/// A scanned value where a stored one is wanted: a failed conversion is
/// refused, an empty argument keeps the setting.
pub open spec fn kept_value(r: Scan) -> Option<Option<i32>> {
    match r {
        Scan::Value(v) => Some(Some(v)),
        Scan::Eof => Some(None),
        Scan::Fail => None,
    }
}

/// The sub-option a `-f` token's tail selects: the key is folded as a
/// switch letter is. `Err(true)` is an argument that converts to nothing
/// ("Invalid sample rate"), `Err(false)` a key that is none.
pub open spec fn filter_option_of(tail: Seq<u8>) -> Result<FilterOption, bool> {
    let key = folded(first_or_nul(tail));
    let arg = rest_from(tail, 1);
    if key == 0 {
        Ok(FilterOption::Select)
    } else if key == 111 || key == 116 || key == 112 {
        match kept_value(scanned_i(arg)) {
            Some(v) => Ok(
                if key == 111 {
                    FilterOption::Order(v)
                } else if key == 116 {
                    FilterOption::Band(v)
                } else {
                    FilterOption::Prototype(v)
                },
            ),
            None => Err(true),
        }
    } else if key == 104 || key == 108 || key == 114 {
        match kept_float(scanned_lf(arg)) {
            Some(v) => Ok(
                if key == 104 {
                    FilterOption::High(v)
                } else if key == 108 {
                    FilterOption::Low(v)
                } else {
                    FilterOption::Ripple(v)
                },
            ),
            None => Err(true),
        }
    } else if key == 51 {
        Ok(FilterOption::Three)
    } else {
        Err(false)
    }
}

/// The bytes after the first of `s`.
fn tail_of(s: &[u8]) -> (t: &[u8])
    ensures
        t@ == rest_from(s@, 1),
{
    if s.len() > 1 {
        let t = vstd::slice::slice_subrange(s, 1, s.len());
        proof {
            assert(t@ =~= s@.skip(1));
        }
        t
    } else {
        let t = vstd::slice::slice_subrange(s, 0, 0);
        proof {
            assert(t@ =~= Seq::<u8>::empty());
            if s@.len() == 1 {
                assert(s@.skip(1) =~= Seq::<u8>::empty());
            }
        }
        t
    }
}

fn first_byte(s: &[u8]) -> (b: u8)
    ensures
        b == first_or_nul(s@),
{
    if s.len() > 0 {
        s[0]
    } else {
        0
    }
}

/// One `-f` sub-option (see [`filter_option_of`]): a failed conversion is
/// "Invalid sample rate", a key that is none an invalid switch quoting the
/// whole token.
pub fn parse_filter_option(tail: &[u8]) -> (r: Result<FilterOption, Error>)
    ensures
        match filter_option_of(tail@) {
            Ok(o) => r == Ok::<FilterOption, Error>(o),
            Err(true) => r matches Err(Error::Fatal(m)) && m.bytes() == "Invalid sample rate".spec_bytes(),
            Err(false) => r matches Err(Error::Fatal(m)) && m.bytes() == token_of(
                "-f".spec_bytes(),
                folded(first_or_nul(tail@)),
                rest_from(tail@, 1),
            ) + " is an invalid switch".spec_bytes(),
        },
{
    let key = fold(first_byte(tail));
    if key == 0 {
        return Ok(FilterOption::Select);
    }
    let arg = tail_of(tail);
    if key == 111 || key == 116 || key == 112 {
        let v = match scan_i(arg) {
            Scan::Value(v) => Some(v),
            Scan::Eof => None,
            Scan::Fail => {
                return Err(suboption_fail());
            },
        };
        return Ok(
            if key == 111 {
                FilterOption::Order(v)
            } else if key == 116 {
                FilterOption::Band(v)
            } else {
                FilterOption::Prototype(v)
            },
        );
    }
    if key == 104 || key == 108 || key == 114 {
        let v = match scan_lf(arg) {
            FloatScan::Number(n) => Some(n),
            FloatScan::Eof => None,
            FloatScan::Fail => {
                return Err(suboption_fail());
            },
        };
        return Ok(
            if key == 104 {
                FilterOption::High(v)
            } else if key == 108 {
                FilterOption::Low(v)
            } else {
                FilterOption::Ripple(v)
            },
        );
    }
    if key == 51 {
        Ok(FilterOption::Three)
    } else {
        let token = switch_token("-f".as_bytes(), key, arg);
        Err(invalid_switch(&token))
    }
}

/// What a switch's bytes after the `-` ask for, dispatched on the folded
/// first letter; `None` is an invalid switch. The byte after `d` is read
/// where it lies and never folded.
pub open spec fn action_of(rest: Seq<u8>) -> Option<SwitchAction> {
    let flag = folded(first_or_nul(rest));
    let tail = rest_from(rest, 1);
    if flag == 63 {
        Some(SwitchAction::Help)
    } else if flag == 100 {
        Some(
            SwitchAction::Decode(
                if tail.len() > 0 && tail[0] == 118 {
                    DecodeTarget::Voc
                } else {
                    DecodeTarget::Wav
                },
            ),
        )
    } else if flag == 115 {
        Some(SwitchAction::Rate(scanned_i(tail)))
    } else if flag == 114 {
        Some(SwitchAction::Direct)
    } else if flag == 107 {
        Some(SwitchAction::Keep)
    } else if flag == 99 {
        Some(SwitchAction::Compat)
    } else if flag == 116 {
        Some(SwitchAction::Time(scanned_lf(tail)))
    } else if flag == 49 {
        Some(SwitchAction::Version1)
    } else if flag == 122 {
        Some(SwitchAction::OldCompression)
    } else if flag == 105 {
        Some(SwitchAction::InputSource(scanned_i(tail)))
    } else if flag == 102 {
        match filter_option_of(tail) {
            Ok(o) => Some(SwitchAction::Filter(o)),
            Err(_) => None,
        }
    } else {
        None
    }
}

/// What one switch asks for (see [`action_of`]). A refused `-f` sub-option
/// reports as [`parse_filter_option`] does; any other switch that is none
/// is "`-<token>` is an invalid switch", quoting the whole token.
pub fn parse_switch(rest: &[u8]) -> (r: Result<SwitchAction, Error>)
    ensures
        action_of(rest@) matches Some(a) ==> r == Ok::<SwitchAction, Error>(a),
        action_of(rest@) is None && folded(first_or_nul(rest@)) != 102 ==> (r matches Err(
            Error::Fatal(m),
        ) && m.bytes() == token_of("-".spec_bytes(), folded(first_or_nul(rest@)), rest_from(rest@, 1))
            + " is an invalid switch".spec_bytes()),
        action_of(rest@) is None && folded(first_or_nul(rest@)) == 102 ==> (match filter_option_of(
            rest_from(rest@, 1),
        ) {
            Err(true) => r matches Err(Error::Fatal(m)) && m.bytes() == "Invalid sample rate".spec_bytes(),
            Err(false) => r matches Err(Error::Fatal(m)) && m.bytes() == token_of(
                "-f".spec_bytes(),
                folded(first_or_nul(rest_from(rest@, 1))),
                rest_from(rest_from(rest@, 1), 1),
            ) + " is an invalid switch".spec_bytes(),
            Ok(_) => false,
        }),
{
    let flag = fold(first_byte(rest));
    let tail = tail_of(rest);
    if flag == 63 {
        Ok(SwitchAction::Help)
    } else if flag == 100 {
        Ok(
            SwitchAction::Decode(
                if tail.len() > 0 && tail[0] == 118 {
                    DecodeTarget::Voc
                } else {
                    DecodeTarget::Wav
                },
            ),
        )
    } else if flag == 115 {
        Ok(SwitchAction::Rate(scan_i(tail)))
    } else if flag == 114 {
        Ok(SwitchAction::Direct)
    } else if flag == 107 {
        Ok(SwitchAction::Keep)
    } else if flag == 99 {
        Ok(SwitchAction::Compat)
    } else if flag == 116 {
        Ok(SwitchAction::Time(scan_lf(tail)))
    } else if flag == 49 {
        Ok(SwitchAction::Version1)
    } else if flag == 122 {
        Ok(SwitchAction::OldCompression)
    } else if flag == 105 {
        Ok(SwitchAction::InputSource(scan_i(tail)))
    } else if flag == 102 {
        match parse_filter_option(tail) {
            Ok(o) => Ok(SwitchAction::Filter(o)),
            Err(e) => Err(e),
        }
    } else {
        let token = switch_token("-".as_bytes(), flag, tail);
        Err(invalid_switch(&token))
    }
}

/// The file names a command line gives, and whether it asks for the help
/// screen by their count.
pub struct Names {
    pub input: Vec<u8>,
    pub output: Option<Vec<u8>>,
    pub help: bool,
}

/// The names as values: the first is the input, the second the output; no
/// name at all is the help screen, and so is a third -- which, outside
/// DirectMode, still sets the first two.
pub open spec fn names_spec(pos: Seq<Seq<u8>>, direct: bool) -> (Seq<u8>, Option<Seq<u8>>, bool) {
    if pos.len() == 0 {
        (Seq::empty(), None, true)
    } else if pos.len() == 1 {
        (pos[0], None, false)
    } else if pos.len() == 2 {
        (pos[0], Some(pos[1]), false)
    } else if direct {
        (Seq::empty(), None, true)
    } else {
        (pos[0], Some(pos[1]), true)
    }
}

fn copy_bytes(v: &Vec<u8>) -> (r: Vec<u8>)
    ensures
        r@ == v@,
{
    let mut r: Vec<u8> = Vec::new();
    push_bytes(&mut r, v.as_slice());
    r
}

/// The names the positional arguments give (see [`names_spec`]).
pub fn names(pos: &Vec<Vec<u8>>, direct: bool) -> (n: Names)
    ensures
        ({
            let (input, output, help) = names_spec(pos@.map_values(|v: Vec<u8>| v@), direct);
            &&& n.input@ == input
            &&& n.help == help
            &&& match output {
                Some(o) => n.output matches Some(v) && v@ == o,
                None => n.output is None,
            }
        }),
{
    let k = pos.len();
    if k == 0 || (k > 2 && direct) {
        return Names { input: Vec::new(), output: None, help: true };
    }
    let input = copy_bytes(&pos[0]);
    if k == 1 {
        return Names { input, output: None, help: false };
    }
    let output = copy_bytes(&pos[1]);
    Names { input, output: Some(output), help: k > 2 }
}

/// Whether an input names a CSW: its name, ASCII case folded, ends in
/// `.csw`, which implies a decode.
pub open spec fn names_csw(name: Seq<u8>) -> bool {
    name.len() >= 4 && lower_of(name[name.len() - 4]) == 46 && lower_of(name[name.len() - 3]) == 99
        && lower_of(name[name.len() - 2]) == 115 && lower_of(name[name.len() - 1]) == 119
}

/// Which way a run converts.
#[derive(Debug, Clone, Copy, PartialEq, Eq, Structural)]
pub enum Direction {
    /// Encode an input sound file to CSW (the default).
    Encode,
    /// Decode CSW back to a waveform (`-d`).
    Decode,
}

/// The direction a run settles on once its names are read: an input named
/// as a CSW turns an encode into a decode, and `-d` stays a decode.
pub fn csw_input_implies_decode(input: &[u8], direction: Direction) -> (d: Direction)
    ensures
        d == (if direction == Direction::Encode && names_csw(input@) {
            Direction::Decode
        } else {
            direction
        }),
{
    if implies_decode(input) && direction == Direction::Encode {
        Direction::Decode
    } else {
        direction
    }
}

/// Whether an input names a CSW (see [`names_csw`]).
pub fn implies_decode(name: &[u8]) -> (r: bool)
    ensures
        r == names_csw(name@),
{
    let n = name.len();
    n >= 4 && fold_lower(name[n - 4]) == 46 && fold_lower(name[n - 3]) == 99 && fold_lower(
        name[n - 2],
    ) == 115 && fold_lower(name[n - 1]) == 119
}

fn fold_lower(b: u8) -> (r: u8)
    ensures
        r == lower_of(b),
{
    if 65 <= b && b <= 90 {
        b + 32
    } else {
        b
    }
}

} // verus!
