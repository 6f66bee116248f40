//! What DirectMode asks of an audio input: the configuration it wants, the
//! one it got, and the sample formats a device may deliver.

use vstd::prelude::*;

verus! {

/// What DirectMode wants from a device before it knows what it can have.
#[derive(Debug, Clone, Copy, PartialEq, Eq, Structural)]
pub struct OpenSpec {
    /// The capture rate to ask for (`-s`, or DirectMode's default).
    pub rate: u32,
    /// `-c`: don't negotiate, take the device's own configuration.
    pub device_compat: bool,
}

/// The sample types a backend may deliver.
#[derive(Debug, Clone, Copy, PartialEq, Eq, Structural)]
pub enum Format {
    U8,
    I8,
    I16,
    U16,
    I32,
    F32,
    F64,
}

/// What a backend settled on once the device had its say.
#[derive(Debug, Clone, Copy, PartialEq, Eq, Structural)]
pub struct Config {
    /// Capture rate in Hz.
    pub rate: u32,
    /// Interleaved channel count.
    pub channels: u16,
    /// The sample type frames will arrive in.
    pub format: Format,
}

/// Preference order when several formats would serve: the ones that
/// survive conversion to 32-bit float without losing range come first.
pub open spec fn rank_of(f: Format) -> u8 {
    match f {
        Format::F32 => 0,
        Format::I16 => 1,
        Format::I32 => 2,
        Format::F64 => 3,
        Format::I8 => 4,
        Format::U16 => 5,
        Format::U8 => 6,
    }
}

impl Format {
    /// The preference rank (see [`rank_of`]); both backends apply it.
    pub fn rank(self) -> (r: u8)
        ensures
            r == rank_of(self),
    {
        match self {
            Format::F32 => 0,
            Format::I16 => 1,
            Format::I32 => 2,
            Format::F64 => 3,
            Format::I8 => 4,
            Format::U16 => 5,
            Format::U8 => 6,
        }
    }

    /// The format's name as Rust names the type (`i16`, `f32`, ...).
    pub fn name(self) -> (s: &'static str)
        ensures
            self == Format::U8 ==> s@ == "u8"@,
            self == Format::I8 ==> s@ == "i8"@,
            self == Format::I16 ==> s@ == "i16"@,
            self == Format::U16 ==> s@ == "u16"@,
            self == Format::I32 ==> s@ == "i32"@,
            self == Format::F32 ==> s@ == "f32"@,
            self == Format::F64 ==> s@ == "f64"@,
    {
        match self {
            Format::U8 => "u8",
            Format::I8 => "i8",
            Format::I16 => "i16",
            Format::U16 => "u16",
            Format::I32 => "i32",
            Format::F32 => "f32",
            Format::F64 => "f64",
        }
    }
}

/// No two formats share a rank: the preference is a total order.
pub proof fn lemma_rank_distinct(a: Format, b: Format)
    ensures
        rank_of(a) == rank_of(b) ==> a == b,
{
}

} // verus!
