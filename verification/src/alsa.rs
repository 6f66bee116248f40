//! The kernel's ALSA interface as the raw capture backend speaks it: the
//! ioctl numbers, the hardware-parameter masks and intervals, the rates worth
//! asking for, and the device names a user may give.

use vstd::prelude::*;
use vstd::string::{StrSliceExecFns, StringSliceAdditionalSpecFns};
use vstd::utf8::decode_utf8;

use crate::audio::{rank_of, Format, OpenSpec};
use crate::text::{
    decimal, is_ascii_bytes, lemma_ascii_valid_utf8, lemma_concat_valid, lemma_decimal_valid,
    lemma_str_valid, push_decimal, push_str, text,
};

verus! {

/// Rates DirectMode will settle for, best first, when the one it asked for
/// is not on offer. The requested rate is tried ahead of all of them.
pub const RATES: [u32; 9] = [48_000, 44_100, 32_000, 96_000, 22_050, 16_000, 11_025, 8_000, 192_000];

/// Target period, in milliseconds.
pub const PERIOD_MS: u32 = 20;

/// Periods per buffer.
pub const PERIODS: u32 = 4;

// The asm-generic ioctl encoding.
pub const NR_SHIFT: u32 = 0;
pub const TYPE_SHIFT: u32 = 8;
pub const SIZE_SHIFT: u32 = 16;
pub const DIR_SHIFT: u32 = 30;
pub const DIR_NONE: u32 = 0;
pub const DIR_WRITE: u32 = 1;
pub const DIR_READ: u32 = 2;
/// `'A'`, the PCM ioctl family.
pub const PCM: u32 = 0x41;

/// The sizes of the kernel's structures on a 64-bit host: `int`,
/// `snd_pcm_info`, `snd_pcm_hw_params`, `snd_pcm_sw_params`, `snd_xferi`.
pub const INT_SIZE: u32 = 4;
pub const PCM_INFO_SIZE: u32 = 288;
pub const HW_PARAMS_SIZE: u32 = 608;
pub const SW_PARAMS_SIZE: u32 = 136;
pub const XFERI_SIZE: u32 = 24;

/// An ioctl number of the PCM family: direction, argument size and number.
pub open spec fn ioc_number(dir: u32, nr: u32, size: u32) -> u32 {
    (dir << DIR_SHIFT) | (size << SIZE_SHIFT) | (PCM << TYPE_SHIFT) | (nr << NR_SHIFT)
}

/// The ioctl number of the PCM family for `dir`, `nr` and an argument of
/// `size` bytes (see [`ioc_number`]): the constants below are these.
pub fn ioc(dir: u32, nr: u32, size: u32) -> (r: u32)
    ensures
        r == ioc_number(dir, nr, size),
{
    (dir << DIR_SHIFT) | (size << SIZE_SHIFT) | (PCM << TYPE_SHIFT) | (nr << NR_SHIFT)
}

/// `_IOR('A', 0x00, int)`
pub const PVERSION: u32 = (DIR_READ << DIR_SHIFT) | (INT_SIZE << SIZE_SHIFT) | (PCM << TYPE_SHIFT) | (
0x00 << NR_SHIFT);
/// `_IOR('A', 0x01, struct snd_pcm_info)`
pub const INFO: u32 = (DIR_READ << DIR_SHIFT) | (PCM_INFO_SIZE << SIZE_SHIFT) | (PCM << TYPE_SHIFT)
    | (0x01 << NR_SHIFT);
/// `_IOWR('A', 0x10, struct snd_pcm_hw_params)`
pub const HW_REFINE: u32 = ((DIR_READ | DIR_WRITE) << DIR_SHIFT) | (HW_PARAMS_SIZE << SIZE_SHIFT) | (
PCM << TYPE_SHIFT) | (0x10 << NR_SHIFT);
/// `_IOWR('A', 0x11, struct snd_pcm_hw_params)`
pub const HW_PARAMS: u32 = ((DIR_READ | DIR_WRITE) << DIR_SHIFT) | (HW_PARAMS_SIZE << SIZE_SHIFT) | (
PCM << TYPE_SHIFT) | (0x11 << NR_SHIFT);
/// `_IOWR('A', 0x13, struct snd_pcm_sw_params)`
pub const SW_PARAMS: u32 = ((DIR_READ | DIR_WRITE) << DIR_SHIFT) | (SW_PARAMS_SIZE << SIZE_SHIFT) | (
PCM << TYPE_SHIFT) | (0x13 << NR_SHIFT);
/// `_IO('A', 0x40)`
pub const PREPARE: u32 = (DIR_NONE << DIR_SHIFT) | (PCM << TYPE_SHIFT) | (0x40 << NR_SHIFT);
/// `_IO('A', 0x42)`
pub const START: u32 = (DIR_NONE << DIR_SHIFT) | (PCM << TYPE_SHIFT) | (0x42 << NR_SHIFT);
/// `_IO('A', 0x43)`
pub const DROP: u32 = (DIR_NONE << DIR_SHIFT) | (PCM << TYPE_SHIFT) | (0x43 << NR_SHIFT);
/// `_IOR('A', 0x51, struct snd_xferi)`
pub const READI_FRAMES: u32 = (DIR_READ << DIR_SHIFT) | (XFERI_SIZE << SIZE_SHIFT) | (PCM << TYPE_SHIFT)
    | (0x51 << NR_SHIFT);

/// `SNDRV_PCM_ACCESS_RW_INTERLEAVED`
pub const ACCESS_RW_INTERLEAVED: u32 = 3;

/// `SNDRV_PCM_FORMAT_*`, only the ones the backend can convert.
pub const FORMAT_S8: u32 = 0;
pub const FORMAT_U8: u32 = 1;
pub const FORMAT_S16_LE: u32 = 2;
pub const FORMAT_U16_LE: u32 = 4;
pub const FORMAT_S32_LE: u32 = 10;
pub const FORMAT_FLOAT_LE: u32 = 14;
pub const FORMAT_FLOAT64_LE: u32 = 16;

/// Interval flags, packed from the least significant bit.
pub const INTERVAL_OPENMIN: u32 = 1;
pub const INTERVAL_OPENMAX: u32 = 2;
pub const INTERVAL_INTEGER: u32 = 4;

/// `struct snd_mask`: a 256-bit set, one bit per enum value.
#[derive(Debug, Clone, Copy, PartialEq, Eq)]
pub struct Mask {
    pub bits: [u32; 8],
}

/// Whether bit `bit` of the mask is set.
pub open spec fn mask_has(m: Mask, bit: u32) -> bool {
    m.bits@[(bit / 32) as int] & (1u32 << (bit % 32)) != 0
}

proof fn lemma_single_bit(k: u32, j: u32)
    requires
        k < 32,
        j < 32,
    ensures
        ((1u32 << k) & (1u32 << j) != 0) == (k == j),
        0u32 & (1u32 << j) == 0,
        0xFFFF_FFFFu32 & (1u32 << j) != 0,
{
    assert(((1u32 << k) & (1u32 << j) != 0) == (k == j)) by (bit_vector)
        requires
            k < 32,
            j < 32,
    ;
    assert(0u32 & (1u32 << j) == 0) by (bit_vector);
    assert(0xFFFF_FFFFu32 & (1u32 << j) != 0) by (bit_vector)
        requires
            j < 32,
    ;
}

impl Mask {
    /// Every value allowed.
    pub fn any() -> (m: Mask)
        ensures
            forall|b: u32| b < 256 ==> mask_has(m, b),
    {
        let m = Mask { bits: [0xFFFF_FFFFu32; 8] };
        proof {
            assert forall|b: u32| b < 256 implies mask_has(m, b) by {
                lemma_single_bit(b % 32, b % 32);
            }
        }
        m
    }

    /// Whether `bit` is allowed.
    pub fn test(&self, bit: u32) -> (r: bool)
        requires
            bit < 256,
        ensures
            r == mask_has(*self, bit),
    {
        self.bits[(bit / 32) as usize] & (1u32 << (bit % 32)) != 0
    }

    /// Allow `bit` alone.
    pub fn set_single(&mut self, bit: u32)
        requires
            bit < 256,
        ensures
            forall|b: u32| b < 256 ==> (mask_has(*final(self), b) == (b == bit)),
    {
        self.bits = [0u32; 8];
        self.bits[(bit / 32) as usize] = 1u32 << (bit % 32);
        proof {
            assert forall|b: u32| b < 256 implies (mask_has(*self, b) == (b == bit)) by {
                lemma_single_bit(bit % 32, b % 32);
                if b / 32 == bit / 32 && b % 32 == bit % 32 {
                    assert(b == bit);
                }
            }
        }
    }
}

/// `struct snd_interval`: an inclusive range plus its flags.
#[derive(Debug, Clone, Copy, PartialEq, Eq, Structural)]
pub struct Interval {
    pub min: u32,
    pub max: u32,
    pub flags: u32,
}

/// Whether the interval holds `value`: an open bound excludes its end.
pub open spec fn interval_holds(i: Interval, value: u32) -> bool {
    let low = if i.flags & INTERVAL_OPENMIN != 0 && i.min < 0xFFFF_FFFF {
        i.min + 1
    } else {
        i.min as int
    };
    let high = if i.flags & INTERVAL_OPENMAX != 0 && i.max > 0 {
        i.max - 1
    } else {
        i.max as int
    };
    low <= value <= high
}

impl Interval {
    /// Every value.
    pub fn any() -> (i: Interval)
        ensures
            i == (Interval { min: 0, max: 0xFFFF_FFFF, flags: 0 }),
    {
        Interval { min: 0, max: 0xFFFF_FFFF, flags: 0 }
    }

    /// Pin the interval to one value, as `snd_interval_set_value` does.
    pub fn set_single(&mut self, value: u32)
        ensures
            *final(self) == (Interval { min: value, max: value, flags: INTERVAL_INTEGER }),
    {
        self.min = value;
        self.max = value;
        self.flags = INTERVAL_INTEGER;
    }

    /// The value a refined interval has settled on, if it has settled.
    pub fn settled(&self) -> (v: u32)
        ensures
            v == self.min,
    {
        self.min
    }

    /// Whether the interval holds `value` (see [`interval_holds`]).
    pub fn contains(&self, value: u32) -> (r: bool)
        ensures
            r == interval_holds(*self, value),
    {
        let low = if self.flags & INTERVAL_OPENMIN != 0 {
            self.min.saturating_add(1)
        } else {
            self.min
        };
        let high = if self.flags & INTERVAL_OPENMAX != 0 {
            self.max.saturating_sub(1)
        } else {
            self.max
        };
        low <= value && value <= high
    }
}

/// The channel count asked of a device whose channel range is `available`:
/// mono when it offers it, else the fewest it has (never 0); the sink folds
/// the channels down.
pub fn channel_count(available: &Interval) -> (n: u32)
    ensures
        interval_holds(*available, 1) ==> n == 1,
        !interval_holds(*available, 1) ==> n == (if available.min > 1 {
            available.min
        } else {
            1
        }),
{
    if available.contains(1) {
        1
    } else if available.min > 1 {
        available.min
    } else {
        1
    }
}

/// The period asked of the device at `rate`, in frames: `PERIOD_MS` worth,
/// at least one.
pub fn period_frames(rate: u32) -> (n: u32)
    requires
        rate * PERIOD_MS <= u32::MAX,
    ensures
        n == (if rate * PERIOD_MS / 1000 > 1 {
            rate * PERIOD_MS / 1000
        } else {
            1
        }),
{
    let target = rate * PERIOD_MS / 1000;
    if target > 1 {
        target
    } else {
        1
    }
}

/// The rates asked for, before the device's range is applied: the one
/// requested first unless `-c`, then [`RATES`].
pub open spec fn rate_order(spec: OpenSpec) -> Seq<u32> {
    if spec.device_compat {
        RATES@
    } else {
        seq![spec.rate] + RATES@
    }
}

/// `s` with each run of equal neighbours cut to its first.
pub open spec fn dedup(s: Seq<u32>) -> Seq<u32>
    decreases s.len(),
{
    if s.len() == 0 {
        s
    } else {
        let d = dedup(s.drop_last());
        if d.len() > 0 && d.last() == s.last() {
            d
        } else {
            d.push(s.last())
        }
    }
}

/// Rates to try, best first: the ones asked for that the device can take,
/// a repeat of the one before it dropped.
pub fn rate_candidates(spec: &OpenSpec, available: &Interval) -> (r: Vec<u32>)
    ensures
        r@ == dedup(rate_order(*spec).filter(|x: u32| interval_holds(*available, x))),
{
    let mut all: Vec<u32> = Vec::new();
    if !spec.device_compat {
        all.push(spec.rate);
    }
    let mut k: usize = 0;
    while k < 9
        invariant
            k <= 9,
            all@ == (if spec.device_compat {
                Seq::<u32>::empty()
            } else {
                seq![spec.rate]
            }) + RATES@.take(k as int),
        decreases 9 - k,
    {
        all.push(RATES[k]);
        k = k + 1;
        proof {
            assert(all@ =~= (if spec.device_compat {
                Seq::<u32>::empty()
            } else {
                seq![spec.rate]
            }) + RATES@.take(k as int));
        }
    }
    proof {
        assert(RATES@.take(9) =~= RATES@);
        assert(all@ =~= rate_order(*spec));
    }
    let ghost keep = |x: u32| interval_holds(*available, x);
    let mut out: Vec<u32> = Vec::new();
    let mut i: usize = 0;
    while i < all.len()
        invariant
            i <= all@.len(),
            all@ == rate_order(*spec),
            keep == (|x: u32| interval_holds(*available, x)),
            out@ == dedup(all@.take(i as int).filter(keep)),
        decreases all@.len() - i,
    {
        let r = all[i];
        proof {
            assert(all@.take(i + 1).drop_last() =~= all@.take(i as int));
            assert(all@.take(i + 1).last() == r);
            reveal(Seq::filter);
            let f = all@.take(i as int).filter(keep);
            assert(f.push(r).drop_last() =~= f);
        }
        if available.contains(r) {
            let n = out.len();
            if n == 0 || out[n - 1] != r {
                out.push(r);
            }
        }
        i = i + 1;
    }
    proof {
        assert(all@.take(i as int) =~= all@);
    }
    out
}

/// This crate's formats as ALSA numbers them, little-endian throughout.
pub open spec fn alsa_number(f: Format) -> u32 {
    match f {
        Format::I8 => FORMAT_S8,
        Format::U8 => FORMAT_U8,
        Format::I16 => FORMAT_S16_LE,
        Format::U16 => FORMAT_U16_LE,
        Format::I32 => FORMAT_S32_LE,
        Format::F32 => FORMAT_FLOAT_LE,
        Format::F64 => FORMAT_FLOAT64_LE,
    }
}

/// The ALSA number of a format (see [`alsa_number`]).
pub fn alsa_format(format: Format) -> (n: u32)
    ensures
        n == alsa_number(format),
{
    match format {
        Format::I8 => FORMAT_S8,
        Format::U8 => FORMAT_U8,
        Format::I16 => FORMAT_S16_LE,
        Format::U16 => FORMAT_U16_LE,
        Format::I32 => FORMAT_S32_LE,
        Format::F32 => FORMAT_FLOAT_LE,
        Format::F64 => FORMAT_FLOAT64_LE,
    }
}

/// The best format a mask of formats offers, by the shared ranking: `None`
/// when it offers none the backend can convert.
pub fn best_format(mask: &Mask) -> (r: Option<Format>)
    ensures
        r matches Some(f) ==> mask_has(*mask, alsa_number(f)) && forall|g: Format| #[trigger]
            mask_has(*mask, alsa_number(g)) ==> rank_of(f) <= rank_of(g),
        r is None ==> forall|g: Format| !#[trigger] mask_has(*mask, alsa_number(g)),
{
    if mask.test(FORMAT_FLOAT_LE) {
        Some(Format::F32)
    } else if mask.test(FORMAT_S16_LE) {
        Some(Format::I16)
    } else if mask.test(FORMAT_S32_LE) {
        Some(Format::I32)
    } else if mask.test(FORMAT_FLOAT64_LE) {
        Some(Format::F64)
    } else if mask.test(FORMAT_S8) {
        Some(Format::I8)
    } else if mask.test(FORMAT_U16_LE) {
        Some(Format::U16)
    } else if mask.test(FORMAT_U8) {
        Some(Format::U8)
    } else {
        None
    }
}

/// A Unicode white-space character, as `char::is_whitespace` has it.
pub open spec fn is_white(c: char) -> bool {
    let u = c as u32;
    (0x09 <= u <= 0x0D) || u == 0x20 || u == 0x85 || u == 0xA0 || u == 0x1680 || (0x2000 <= u
        <= 0x200A) || u == 0x2028 || u == 0x2029 || u == 0x202F || u == 0x205F || u == 0x3000
}

fn white(c: char) -> (r: bool)
    ensures
        r == is_white(c),
{
    let u = c as u32;
    (0x09 <= u && u <= 0x0D) || u == 0x20 || u == 0x85 || u == 0xA0 || u == 0x1680 || (0x2000 <= u
        && u <= 0x200A) || u == 0x2028 || u == 0x2029 || u == 0x202F || u == 0x205F || u == 0x3000
}

/// `s` with its leading and trailing white space removed: the run from the
/// first character that is not white space to the last.
pub open spec fn is_trim_of(s: Seq<char>, lo: int, hi: int) -> bool {
    &&& 0 <= lo <= hi <= s.len()
    &&& forall|k: int| 0 <= k < lo ==> is_white(#[trigger] s[k])
    &&& forall|k: int| hi <= k < s.len() ==> is_white(#[trigger] s[k])
    &&& lo < hi ==> !is_white(s[lo]) && !is_white(s[hi - 1])
}

/// Where the trimmed run of `s[from..to]` starts and ends.
fn trim_bounds(s: &Vec<char>, from: usize, to: usize) -> (r: (usize, usize))
    requires
        from <= to <= s@.len(),
    ensures
        is_trim_of(s@.subrange(from as int, to as int), r.0 - from, r.1 - from),
        from <= r.0 <= r.1 <= to,
{
    let mut lo = from;
    while lo < to && white(s[lo])
        invariant
            from <= lo <= to <= s@.len(),
            forall|k: int| from <= k < lo ==> is_white(#[trigger] s@[k]),
        decreases to - lo,
    {
        lo = lo + 1;
    }
    let mut hi = to;
    while hi > lo && white(s[hi - 1])
        invariant
            from <= lo <= hi <= to <= s@.len(),
            forall|k: int| hi <= k < to ==> is_white(#[trigger] s@[k]),
            lo < to ==> !is_white(s@[lo as int]),
        decreases hi - lo,
    {
        hi = hi - 1;
    }
    proof {
        let t = s@.subrange(from as int, to as int);
        assert forall|k: int| 0 <= k < lo - from implies is_white(#[trigger] t[k]) by {
            assert(t[k] == s@[from + k]);
        }
        assert forall|k: int| hi - from <= k < t.len() implies is_white(#[trigger] t[k]) by {
            assert(t[k] == s@[from + k]);
        }
    }
    (lo, hi)
}

/// A decimal digit's value.
pub open spec fn digit_value(c: char) -> int {
    c as u32 - 48
}

pub open spec fn is_digit(c: char) -> bool {
    48 <= c as u32 <= 57
}

/// The number the digits of `s` spell.
pub open spec fn digits_value(s: Seq<char>) -> int
    decreases s.len(),
{
    if s.len() == 0 {
        0
    } else {
        digits_value(s.drop_last()) * 10 + digit_value(s.last())
    }
}

/// `s` less a leading `+`.
pub open spec fn unsigned_part(s: Seq<char>) -> Seq<char> {
    if s.len() > 0 && s[0] == '+' {
        s.skip(1)
    } else {
        s
    }
}

pub open spec fn all_digits(d: Seq<char>) -> bool {
    forall|k: int| 0 <= k < d.len() ==> is_digit(#[trigger] d[k])
}

/// What `u32::from_str` reads from `s`: an optional `+`, then at least one
/// digit and nothing else, of a value that fits.
pub open spec fn parsed_u32(s: Seq<char>) -> Option<u32> {
    let d = unsigned_part(s);
    if d.len() == 0 || !all_digits(d) {
        None
    } else if digits_value(d) > 0xFFFF_FFFF {
        None
    } else {
        Some(digits_value(d) as u32)
    }
}

proof fn lemma_digits_grow(s: Seq<char>, k: int)
    requires
        0 <= k <= s.len(),
        forall|j: int| 0 <= j < s.len() ==> is_digit(#[trigger] s[j]),
    ensures
        digits_value(s.take(k)) <= digits_value(s),
        digits_value(s.take(k)) >= 0,
    decreases s.len() - k,
{
    if k < s.len() {
        lemma_digits_grow(s, k + 1);
        assert(s.take(k + 1).drop_last() =~= s.take(k));
        assert(digits_value(s.take(k)) >= 0) by {
            lemma_digits_nonneg(s.take(k));
        }
    } else {
        assert(s.take(k) =~= s);
        lemma_digits_nonneg(s);
    }
}

proof fn lemma_digits_nonneg(s: Seq<char>)
    requires
        forall|j: int| 0 <= j < s.len() ==> is_digit(#[trigger] s[j]),
    ensures
        digits_value(s) >= 0,
    decreases s.len(),
{
    if s.len() > 0 {
        lemma_digits_nonneg(s.drop_last());
    }
}

/// `u32::from_str` over `s[from..to]` (see [`parsed_u32`]).
fn parse_u32(s: &Vec<char>, from: usize, to: usize) -> (r: Option<u32>)
    requires
        from <= to <= s@.len(),
    ensures
        r == parsed_u32(s@.subrange(from as int, to as int)),
{
    let ghost t = s@.subrange(from as int, to as int);
    let mut start = from;
    if start < to && s[start] == '+' {
        start = start + 1;
    }
    let ghost d = s@.subrange(start as int, to as int);
    proof {
        assert(d =~= unsigned_part(t));
    }
    if start == to {
        return None;
    }
    let mut i = start;
    while i < to
        invariant
            start <= i <= to <= s@.len(),
            d == s@.subrange(start as int, to as int),
            t == s@.subrange(from as int, to as int),
            d == unsigned_part(t),
            forall|j: int| start <= j < i ==> is_digit(#[trigger] s@[j]),
        decreases to - i,
    {
        let c = s[i];
        let u = c as u32;
        if !(u >= 48 && u <= 57) {
            proof {
                assert(d[i - start] == c);
                assert(!is_digit(d[i - start]));
                assert(!all_digits(d));
            }
            return None;
        }
        i = i + 1;
    }
    proof {
        assert forall|j: int| 0 <= j < d.len() implies is_digit(#[trigger] d[j]) by {
            assert(d[j] == s@[start + j]);
        }
    }
    let mut v: u64 = 0;
    let mut k = start;
    while k < to
        invariant
            start <= k <= to <= s@.len(),
            d == s@.subrange(start as int, to as int),
            t == s@.subrange(from as int, to as int),
            d == unsigned_part(t),
            d.len() > 0,
            forall|j: int| 0 <= j < d.len() ==> is_digit(#[trigger] d[j]),
            v == digits_value(d.take(k - start)),
            v <= 0xFFFF_FFFF,
        decreases to - k,
    {
        let c = s[k];
        proof {
            assert(d.take(k + 1 - start).drop_last() =~= d.take(k - start));
            assert(d[k - start] == c);
        }
        v = v * 10 + (c as u32 - 48) as u64;
        k = k + 1;
        if v > 0xFFFF_FFFF {
            proof {
                lemma_digits_grow(d, k - start);
                assert(all_digits(d));
                assert(digits_value(d) > 0xFFFF_FFFF);
            }
            return None;
        }
    }
    proof {
        assert(d.take(k - start) =~= d);
    }
    Some(v as u32)
}

/// Where `ch` first occurs in `s` from `i` on.
pub open spec fn first_from(s: Seq<char>, ch: char, i: int) -> Option<int>
    decreases s.len() - i,
{
    if i < 0 || i >= s.len() {
        None
    } else if s[i] == ch {
        Some(i)
    } else {
        first_from(s, ch, i + 1)
    }
}

/// The characters of a string, held for indexing.
fn chars_of(s: &str) -> (v: Vec<char>)
    ensures
        v@ == s@,
{
    let n = s.unicode_len();
    let mut v: Vec<char> = Vec::new();
    let mut i: usize = 0;
    while i < n
        invariant
            n == s@.len(),
            i <= n,
            v@ == s@.take(i as int),
        decreases n - i,
    {
        v.push(s.get_char(i));
        i = i + 1;
        proof {
            assert(v@ =~= s@.take(i as int));
        }
    }
    proof {
        assert(s@.take(n as int) =~= s@);
    }
    v
}

/// Where `ch` first occurs in `v[i..to]` (see [`first_from`]).
fn find_char(v: &Vec<char>, ch: char, i: usize, to: usize) -> (r: Option<usize>)
    requires
        i <= to <= v@.len(),
    ensures
        match first_from(v@.subrange(0, to as int), ch, i as int) {
            Some(k) => r == Some(k as usize),
            None => r is None,
        },
        first_from(v@.subrange(0, to as int), ch, i as int) matches Some(k) ==> i <= k < to,
        r matches Some(k) ==> i <= k < to,
    decreases to - i,
{
    if i >= to {
        return None;
    }
    if v[i] == ch {
        return Some(i);
    }
    find_char(v, ch, i + 1, to)
}

/// `pcmC<card>D<device>c`: a capture device's node under `/dev/snd`, read
/// as its card and device numbers (the first `D` after the prefix divides
/// them). A playback node (`p`) or anything else is not one.
pub open spec fn pcm_name(c: Seq<char>) -> Option<(u32, u32)> {
    if c.len() < 4 || c.take(4) != seq!['p', 'c', 'm', 'C'] {
        None
    } else {
        let rest = c.skip(4);
        match first_from(rest, 'D', 0) {
            None => None,
            Some(d) => {
                let dev = rest.skip(d + 1);
                if dev.len() == 0 || dev.last() != 'c' {
                    None
                } else {
                    match (parsed_u32(rest.take(d)), parsed_u32(dev.drop_last())) {
                        (Some(a), Some(b)) => Some((a, b)),
                        _ => None,
                    }
                }
            },
        }
    }
}

/// The card and device a `/dev/snd` node name gives (see [`pcm_name`]).
pub fn parse_pcm_name(name: &str) -> (r: Option<(u32, u32)>)
    ensures
        r == pcm_name(name@),
{
    let c = chars_of(name);
    let n = c.len();
    if n < 4 || c[0] != 'p' || c[1] != 'c' || c[2] != 'm' || c[3] != 'C' {
        proof {
            if n >= 4 {
                assert(c@.take(4)[0] == c@[0]);
                assert(c@.take(4)[1] == c@[1]);
                assert(c@.take(4)[2] == c@[2]);
                assert(c@.take(4)[3] == c@[3]);
            }
        }
        return None;
    }
    proof {
        assert(c@.take(4) =~= seq!['p', 'c', 'm', 'C']);
    }
    let ghost rest = c@.skip(4);
    let d = match find_char(&c, 'D', 4, n) {
        None => {
            proof {
                lemma_first_from_shift(c@, 'D', 4, 0);
                assert(c@.subrange(0, n as int) =~= c@);
            }
            return None;
        },
        Some(d) => d,
    };
    proof {
        lemma_first_from_shift(c@, 'D', 4, 0);
        assert(c@.subrange(0, n as int) =~= c@);
        assert(first_from(c@, 'D', 4) == Some(d as int));
        assert(first_from(rest, 'D', 0) == Some(d - 4));
    }
    if d + 1 == n || c[n - 1] != 'c' {
        proof {
            let dev = rest.skip(d - 4 + 1);
            if dev.len() > 0 {
                assert(dev.last() == c@[n - 1]);
            }
        }
        return None;
    }
    let card = parse_u32(&c, 4, d);
    let device = parse_u32(&c, d + 1, n - 1);
    proof {
        assert(rest.take(d - 4) =~= c@.subrange(4, d as int));
        let dev = rest.skip(d - 4 + 1);
        assert(dev.drop_last() =~= c@.subrange(d + 1, n - 1));
        assert(dev.last() == c@[n - 1]);
    }
    match (card, device) {
        (Some(a), Some(b)) => Some((a, b)),
        _ => None,
    }
}

/// The search in `c` from `base + i` is the search in `c.skip(base)` from
/// `i`, moved by `base`.
proof fn lemma_first_from_shift(c: Seq<char>, ch: char, base: int, i: int)
    requires
        0 <= base <= c.len(),
        0 <= i,
    ensures
        match first_from(c.skip(base), ch, i) {
            Some(k) => first_from(c, ch, base + i) == Some(k + base),
            None => first_from(c, ch, base + i) is None,
        },
    decreases c.len() - base - i,
{
    if base + i < c.len() {
        assert(c.skip(base)[i] == c[base + i]);
        lemma_first_from_shift(c, ch, base, i + 1);
    }
}

/// `s` with its leading and trailing white space removed.
pub open spec fn trimmed(s: Seq<char>) -> Seq<char> {
    let (lo, hi) = choose|lo: int, hi: int| is_trim_of(s, lo, hi);
    s.subrange(lo, hi)
}

proof fn lemma_trim_unique(s: Seq<char>, lo: int, hi: int)
    requires
        is_trim_of(s, lo, hi),
    ensures
        trimmed(s) == s.subrange(lo, hi),
{
    assert(is_trim_of(s, lo, hi));
    let r = trimmed(s);
    let (a, b) = choose|a: int, b: int| is_trim_of(s, a, b);
    if lo < hi && a < b {
        if a < lo {
            assert(is_white(s[a]));
        }
        if lo < a {
            assert(is_white(s[lo]));
        }
        if b < hi {
            assert(is_white(s[b]));
            assert(!is_white(s[hi - 1]));
            assert(is_white(s[hi - 1]));
        }
        if hi < b {
            assert(is_white(s[hi]));
            assert(is_white(s[b - 1]));
        }
        assert(a == lo && b == hi);
    } else if lo < hi {
        assert(is_white(s[lo])) by {
            if lo < a {
            } else {
                assert(b <= lo);
            }
        }
    } else if a < b {
        assert(is_white(s[a])) by {
            if a < lo {
            } else {
                assert(hi <= a);
            }
        }
    } else {
        assert(r =~= s.subrange(lo, hi));
    }
}

/// How a device override names the device: a path as given, or a card and
/// a device number.
pub enum DeviceName {
    Path(Seq<char>),
    Node(u32, u32),
}

/// A device override (`CSW_ALSA_DEVICE`) in any of the spellings a user is
/// likely to reach for, white space around it and around its parts ignored:
/// a path starting with `/`; or `hw:CARD,DEV`, `CARD,DEV` or `CARD`, the
/// device 0 when it is not given.
pub open spec fn device_name(s: Seq<char>) -> Option<DeviceName> {
    let t = trimmed(s);
    if t.len() > 0 && t[0] == '/' {
        Some(DeviceName::Path(t))
    } else {
        let rest = if t.len() >= 3 && t.take(3) == seq!['h', 'w', ':'] {
            t.skip(3)
        } else {
            t
        };
        match numbers_of(rest) {
            (Some(a), Some(b)) => Some(DeviceName::Node(a, b)),
            _ => None,
        }
    }
}

/// The card and device numbers of `CARD,DEV` or `CARD`, each part trimmed.
pub open spec fn numbers_of(rest: Seq<char>) -> (Option<u32>, Option<u32>) {
    let (c, d) = match first_from(rest, ',', 0) {
        Some(i) => (trimmed(rest.take(i)), trimmed(rest.skip(i + 1))),
        None => (rest, seq!['0']),
    };
    (parsed_u32(c), parsed_u32(d))
}

/// The card and device numbers in `c[start..hi]` (see [`numbers_of`]).
fn numbers(c: &Vec<char>, start: usize, hi: usize) -> (r: (Option<u32>, Option<u32>))
    requires
        start <= hi <= c@.len(),
    ensures
        r == numbers_of(c@.subrange(start as int, hi as int)),
{
    let ghost rest = c@.subrange(start as int, hi as int);
    let comma = find_char(c, ',', start, hi);
    proof {
        lemma_first_from_sub(c@, ',', start as int, hi as int);
    }
    match comma {
        Some(i) => {
            let (a0, a1) = trim_bounds(c, start, i);
            let (b0, b1) = trim_bounds(c, i + 1, hi);
            proof {
                assert(rest.take(i - start) =~= c@.subrange(start as int, i as int));
                assert(rest.skip(i - start + 1) =~= c@.subrange(i + 1, hi as int));
                lemma_trim_unique(c@.subrange(start as int, i as int), a0 - start, a1 - start);
                lemma_trim_unique(c@.subrange(i + 1, hi as int), b0 - (i + 1), b1 - (i + 1));
                assert(c@.subrange(start as int, i as int).subrange(a0 - start, a1 - start)
                    =~= c@.subrange(a0 as int, a1 as int));
                assert(c@.subrange(i + 1, hi as int).subrange(b0 - (i + 1), b1 - (i + 1))
                    =~= c@.subrange(b0 as int, b1 as int));
            }
            (parse_u32(c, a0, a1), parse_u32(c, b0, b1))
        },
        None => {
            let zero: Vec<char> = vec!['0'];
            proof {
                assert(zero@.subrange(0, 1) =~= seq!['0']);
            }
            (parse_u32(c, start, hi), parse_u32(&zero, 0, 1))
        },
    }
}

/// The path of a card's and device's capture node, as text.
fn node_string(a: u32, b: u32) -> (s: String)
    ensures
        s@ == decode_utf8(node_path(a, b)),
{
    let mut v: Vec<u8> = Vec::new();
    push_str(&mut v, "/dev/snd/pcmC");
    push_decimal(&mut v, a as u64);
    push_str(&mut v, "D");
    push_decimal(&mut v, b as u64);
    push_str(&mut v, "c");
    proof {
        assert(v@ =~= node_path(a, b));
        lemma_str_valid("/dev/snd/pcmC");
        lemma_str_valid("D");
        lemma_str_valid("c");
        lemma_decimal_valid(a as nat);
        lemma_decimal_valid(b as nat);
        let p1 = "/dev/snd/pcmC".spec_bytes() + decimal(a as nat);
        lemma_concat_valid("/dev/snd/pcmC".spec_bytes(), decimal(a as nat));
        lemma_concat_valid(p1, "D".spec_bytes());
        lemma_concat_valid(p1 + "D".spec_bytes(), decimal(b as nat));
        lemma_concat_valid(p1 + "D".spec_bytes() + decimal(b as nat), "c".spec_bytes());
    }
    text(v)
}

/// The capture node of a card and device.
pub open spec fn node_path(card: u32, device: u32) -> Seq<u8> {
    "/dev/snd/pcmC".spec_bytes() + decimal(card as nat) + "D".spec_bytes() + decimal(device as nat)
        + "c".spec_bytes()
}

/// The device path a device override names (see [`device_name`]).
#[verifier::spinoff_prover]
#[verifier::rlimit(40)]
pub fn parse_device(spec: &str) -> (r: Option<String>)
    ensures
        match device_name(spec@) {
            None => r is None,
            Some(DeviceName::Path(p)) => r matches Some(s) && s@ == p,
            Some(DeviceName::Node(a, b)) => r matches Some(s) && s@ == decode_utf8(node_path(a, b)),
        },
{
    let c = chars_of(spec);
    let n = c.len();
    let (lo, hi) = trim_bounds(&c, 0, n);
    proof {
        assert(c@.subrange(0, n as int) =~= c@);
        lemma_trim_unique(c@, lo as int, hi as int);
    }
    let ghost t = c@.subrange(lo as int, hi as int);
    if lo < hi && c[lo] == '/' {
        let p = spec.substring_char(lo, hi);
        return Some(p.to_owned());
    }
    let mut start = lo;
    if hi - lo >= 3 && c[lo] == 'h' && c[lo + 1] == 'w' && c[lo + 2] == ':' {
        start = lo + 3;
        proof {
            assert(t.take(3) =~= seq!['h', 'w', ':']);
            assert(t.skip(3) =~= c@.subrange(start as int, hi as int));
        }
    } else {
        proof {
            if t.len() >= 3 {
                assert(t.take(3)[0] == c@[lo as int]);
                assert(t.take(3)[1] == c@[lo + 1]);
                assert(t.take(3)[2] == c@[lo + 2]);
            }
        }
    }
    match numbers(&c, start, hi) {
        (Some(a), Some(b)) => Some(node_string(a, b)),
        _ => None,
    }
}

/// The search in `c[..to]` from `start` is the search in `c[start..to]`
/// from 0, moved by `start`.
proof fn lemma_first_from_sub(c: Seq<char>, ch: char, start: int, to: int)
    requires
        0 <= start <= to <= c.len(),
    ensures
        match first_from(c.subrange(start, to), ch, 0) {
            Some(k) => first_from(c.subrange(0, to), ch, start) == Some(k + start),
            None => first_from(c.subrange(0, to), ch, start) is None,
        },
{
    assert(c.subrange(0, to).skip(start) =~= c.subrange(start, to));
    lemma_first_from_shift(c.subrange(0, to), ch, start, 0);
}

} // verus!
