//! Sampled tape audio and emulator port traces to CSW pulses and back: the
//! format readers, the pulse detector and the CSW container, each with its
//! contract.

pub mod le;

pub mod text;
pub mod error;
pub mod rle;
pub mod signal;
pub mod container;
pub mod detect;
pub mod out;
pub mod voc;
pub mod source;
pub mod wav;
pub mod iff;
pub mod encode;
pub mod convert;
pub mod naming;
pub mod term;
pub mod spool;
pub mod audio;
pub mod alsa;
pub mod filter;
pub mod switch;
pub mod ui;
pub mod session;
