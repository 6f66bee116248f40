//! Console lines, fixed byte for byte: CP437 status bullets (0xFE), errors
//! on stdout. A line's prefix, its ending and whether a blank line follows it
//! are all part of the contract. Each line is appended to a buffer the
//! caller writes out.

use vstd::prelude::*;
use vstd::string::StringSliceAdditionalSpecFns;
use vstd::utf8::encode_utf8;

use crate::convert::{clock_text, push_clock};
use crate::filter::{announced_order, design_name, designed_order, shows_ripple, Band, Design};
use crate::text::{decimal, padded, push_bytes, push_decimal, push_padded, push_signed, push_str, signed_decimal};

verus! {

/// Status-line bullet: "■" in code page 437.
pub const BULLET_CP437: u8 = 0xFE;

/// The banner. Fixed text: it identifies the format version, not the build.
pub const BANNER: &'static str = "\n-=[ CSW v2.00 ]=-  Ramsoft's CSW converter, recreated (GPL v2.0+).\n\n";

/// The help screen up to the filter's sub-options. Fixed text, and
/// complete: the switches it lists are the switches there are.
pub const HELP_HEAD: &'static str = "Squares and compresses sample files to CSW format and vice versa.\nSupports VOC/WAV/IFF/OUT and realtime conversion from soundcard input.\nSyntax : CSW [options] inputfile [outputfile]\n\nOptions:\t-d:  Decompress to WAV file. Use -dv to write a VOC file.\n\t\t     Can be omitted if the inputfile extension is .CSW\n\t\t-r:  Enable realtime soundcard input processing (DirectMode)\n\t\t-s<rate>: Set sampling rate for DirectMode [default: 32258 Hz]\n\t\t-t<secs>: Set recording time (seconds) for DirectMode.\n\t\t-k:  Save DirectMode sampling data as WAV file.\n\t\t-c:  Enable SoundBlaster compatibility mode (DirectMode)\n\t\t-f:  Enable digital filter\n";

/// The rest of the help screen, from the `3` sub-option on.
pub const HELP_TAIL: &'static str = "\t\t     3: disable 3DNow! acceleration\n\nFor more info, please read the enclosed documentation and MakeTZX's manual.\n";

/// The bracketed values on the help screen: the filter settings in force,
/// so `csw -fo4 -fh300` shows order 4 and a 300 Hz upper cutoff. The band
/// and prototype are their codes as `-ft` and `-fp` take them, carried as
/// given (`-ft-1` shows `[-1]`); the frequencies and the ripple come
/// formatted, being floating-point.
pub struct HelpValues {
    pub order: i32,
    pub band: i32,
    pub design: i32,
    pub high_hz: String,
    pub low_hz: String,
    pub ripple_db: String,
}

/// One bracketed line of the help screen's filter sub-options.
pub open spec fn help_line(label: Seq<u8>, value: Seq<u8>, unit: Seq<u8>) -> Seq<u8> {
    "\t\t     ".spec_bytes() + label + " [".spec_bytes() + value + unit + "]\n".spec_bytes()
}

/// The help screen, the values in force in its brackets.
pub open spec fn help_text(v: HelpValues) -> Seq<u8> {
    HELP_HEAD.spec_bytes() + help_line(
        "o<n>: set filter order".spec_bytes(),
        signed_decimal(v.order as int),
        Seq::empty(),
    ) + help_line(
        "t<n>: set type (3=Low-Pass 4=Band-Pass 5=High-Pass)".spec_bytes(),
        signed_decimal(v.band as int),
        Seq::empty(),
    ) + help_line("h<n>: set upper cutoff freq".spec_bytes(), encode_utf8(v.high_hz@), " Hz".spec_bytes())
        + help_line("l<n>: set lower cutoff freq".spec_bytes(), encode_utf8(v.low_hz@), " Hz".spec_bytes())
        + help_line(
        "p<n>: prototype, 1=Butterworth 2=Chebyshev".spec_bytes(),
        signed_decimal(v.design as int),
        Seq::empty(),
    ) + help_line(
        "r<n>: set ripple (Chebyshev only)".spec_bytes(),
        encode_utf8(v.ripple_db@),
        " dB".spec_bytes(),
    ) + HELP_TAIL.spec_bytes()
}

/// The figures the filter's status line quotes, formatted by the caller
/// (they are floating-point): each cutoff in whole hertz and to two
/// places, and the ripple to two places.
pub struct FilterFigures {
    pub low_whole: String,
    pub high_whole: String,
    pub low_cents: String,
    pub high_cents: String,
    pub ripple_cents: String,
}

/// How the filter's status line names its band: the cutoff that bounds
/// it, to two places, for a low- or high-pass; both, in whole hertz, for
/// a band-pass; and `??? ` for a code carried as given.
pub open spec fn band_phrase(band: Band, f: FilterFigures) -> Seq<u8> {
    match band {
        Band::LowPass => "low-pass ".spec_bytes() + encode_utf8(f.high_cents@) + " Hz".spec_bytes(),
        Band::HighPass => "high-pass ".spec_bytes() + encode_utf8(f.low_cents@) + " Hz".spec_bytes(),
        Band::BandPass => "band-pass ".spec_bytes() + encode_utf8(f.low_whole@) + "-".spec_bytes()
            + encode_utf8(f.high_whole@) + " Hz".spec_bytes(),
        Band::Unknown(_) => "??? ".spec_bytes(),
    }
}

/// The filter's status line: its prototype's name, its band, the order
/// the design ends up with, and the ripple for Chebyshev proper.
pub open spec fn filter_text(order: i32, band: Band, design: Design, f: FilterFigures) -> Seq<u8> {
    "Digital filter: ".spec_bytes() + (if design == Design::Butterworth {
        "Butterworth".spec_bytes()
    } else {
        "Chebyshev".spec_bytes()
    }) + " ".spec_bytes() + band_phrase(band, f) + ", order ".spec_bytes() + decimal(
        announced_order(order, band) as nat,
    ) + (if design == Design::Chebyshev {
        ", ripple ".spec_bytes() + encode_utf8(f.ripple_cents@)
    } else {
        Seq::empty()
    })
}

/// Cells across a meter: one per column of an 80-column terminal.
pub const METER_CELLS: usize = 80;
/// Lines the meter block occupies: the prompt, the two bars, and the
/// recording line.
pub const METER_LINES: usize = 4;
/// Columns the readouts need after a bar.
pub const LABEL_COLUMNS: usize = 13;

/// The meter-phase prompt and the pause notice, and the runs that blank
/// them.
pub const PROMPT_START: &'static str = "* Press any key to start conversion when done with volume meter...";
pub const PROMPT_PAUSED: &'static str = "* PAUSED, press any key to continue...";
pub const ERASE_START: &'static str = "\r\t\t\t\t\t\t\t\t\t\r";
pub const ERASE_PAUSED: &'static str = "\r\t\t\t\t\t\t\t\t\r";

/// A volume-meter cell: the glyph CP437 0xFE draws, in UTF-8, for the meter
/// is only drawn to a live terminal.
pub const CELL: &'static str = "\u{25A0}";
/// The meter's colours, as the CGA palette gives them: bright green for the
/// level bar, bright red for the clipping bar, blue for what is unfilled.
pub const LEVEL_COLOUR: &'static str = "\x1b[38;2;85;255;85m";
pub const CLIP_COLOUR: &'static str = "\x1b[38;2;255;85;85m";
pub const EMPTY_COLOUR: &'static str = "\x1b[38;2;0;0;170m";
pub const RESET_COLOUR: &'static str = "\x1b[0m";
/// Erase from the cursor to the end of the line.
pub const ERASE_LINE: &'static str = "\x1b[K";
/// Back to the first line of the meter block.
pub const CURSOR_TO_BLOCK_TOP: &'static str = "\x1b[3A";
/// Hide and show the cursor, which parks on the first cell of the block
/// between redraws.
pub const HIDE_CURSOR: &'static str = "\x1b[?25l";
pub const SHOW_CURSOR: &'static str = "\x1b[?25h";

/// Console writer. `terminal` says whether the destination is one: the
/// output is code page 437, and a destination that is not a terminal keeps
/// every byte as written.
pub struct Console {
    terminal: bool,
}

/// The bullet: the CP437 byte 0xFE to a redirected stream, the glyph it
/// stands for (U+25A0, in UTF-8) to a terminal.
pub open spec fn bullet_of(terminal: bool) -> Seq<u8> {
    if terminal {
        seq![0xE2u8, 0x96u8, 0xA0u8]
    } else {
        seq![BULLET_CP437]
    }
}

/// A status line: the bullet, a space, the message and a line feed.
pub open spec fn status_line(terminal: bool, msg: Seq<u8>) -> Seq<u8> {
    bullet_of(terminal) + seq![32u8] + msg + seq![10u8]
}

/// The header line of a decode: version, rate (read as a signed 32-bit
/// number) and the file's name as typed.
pub open spec fn csw_header_text(major: u8, minor: u8, rate: u32, file: Seq<u8>) -> Seq<u8> {
    "Compressed Square Wave v".spec_bytes() + decimal(major as nat) + ".".spec_bytes() + padded(
        minor as nat,
        2,
    ) + " at ".spec_bytes() + signed_decimal(
        if rate < 0x8000_0000 {
            rate as int
        } else {
            rate - 0x1_0000_0000
        },
    ) + " Hz (file '".spec_bytes() + file + "').".spec_bytes()
}

/// The application line of a v2 decode.
pub open spec fn csw_app_text(app: Seq<u8>, comp: u8) -> Seq<u8> {
    "CSW created by application '".spec_bytes() + app + "' using compression type ".spec_bytes()
        + decimal(comp as nat)
}

/// The sample count of a decode and its playing time.
pub open spec fn total_text(samples: u64, rate: u32) -> Seq<u8> {
    "Total ".spec_bytes() + decimal(samples as nat) + " samples, playing time ".spec_bytes() + decimal(
        (samples as int / rate as int / 60) as nat,
    ) + ":".spec_bytes() + padded((samples as int / rate as int % 60) as nat, 2) + ".".spec_bytes()
}

/// The line naming what a decode wrote.
pub open spec fn writing_text(kind: Seq<u8>, file: Seq<u8>) -> Seq<u8> {
    "Writing ".spec_bytes() + kind + " file '".spec_bytes() + file + "'... done!".spec_bytes()
}

/// The milliseconds of a playing time, zero-padded to three places with
/// the sign counted in the width: `-5` is "-05".
pub open spec fn millis_text(ms: int) -> Seq<u8> {
    if ms < 0 {
        seq![45u8] + padded((-ms) as nat, 2)
    } else {
        padded(ms as nat, 3)
    }
}

/// A playing time: the clock of its whole seconds, a point and its
/// milliseconds.
pub open spec fn play_text(whole: int, ms: int) -> Seq<u8> {
    clock_text(whole) + ".".spec_bytes() + millis_text(ms)
}

/// The sampling-rate line of a sampled input.
pub open spec fn sampling_rate_text(rate: int, whole: int, ms: int) -> Seq<u8> {
    "Sampling rate: ".spec_bytes() + signed_decimal(rate) + " Hz (playing time: ".spec_bytes()
        + play_text(whole, ms) + ")".spec_bytes()
}

impl Console {
    pub closed spec fn on_terminal(&self) -> bool {
        self.terminal
    }

    pub fn new(terminal: bool) -> (c: Console)
        ensures
            c.on_terminal() == terminal,
    {
        Console { terminal }
    }

    pub fn is_terminal(&self) -> (r: bool)
        ensures
            r == self.on_terminal(),
    {
        self.terminal
    }

    fn bullet(&self, w: &mut Vec<u8>)
        ensures
            final(w)@ == old(w)@ + bullet_of(self.on_terminal()),
    {
        if self.terminal {
            w.push(0xE2);
            w.push(0x96);
            w.push(0xA0);
        } else {
            w.push(BULLET_CP437);
        }
        proof {
            assert(final(w)@ =~= old(w)@ + bullet_of(self.on_terminal()));
        }
    }

    /// The banner, printed before anything else, the help screen included.
    pub fn banner(&self, w: &mut Vec<u8>)
        ensures
            final(w)@ == old(w)@ + BANNER.spec_bytes(),
    {
        push_str(w, BANNER);
    }

    /// The help screen, with the filter settings in force in its brackets
    /// (see [`help_text`]).
    pub fn help(&self, w: &mut Vec<u8>, v: &HelpValues)
        ensures
            final(w)@ == old(w)@ + help_text(*v),
    {
        let ghost start = w@;
        push_str(w, HELP_HEAD);
        help_value_line(w, "o<n>: set filter order", v.order, "");
        help_value_line(w, "t<n>: set type (3=Low-Pass 4=Band-Pass 5=High-Pass)", v.band, "");
        help_text_line(w, "h<n>: set upper cutoff freq", v.high_hz.as_str(), " Hz");
        help_text_line(w, "l<n>: set lower cutoff freq", v.low_hz.as_str(), " Hz");
        help_value_line(w, "p<n>: prototype, 1=Butterworth 2=Chebyshev", v.design, "");
        help_text_line(w, "r<n>: set ripple (Chebyshev only)", v.ripple_db.as_str(), " dB");
        push_str(w, HELP_TAIL);
        proof {
            reveal_strlit("");
            assert(w@ =~= start + help_text(*v));
        }
    }

    /// `"■ Digital filter: <design> <band>, order <n>[, ripple <r>]"`, for a
    /// sampled input run through the filter (see [`filter_text`]).
    pub fn digital_filter(&self, w: &mut Vec<u8>, order: i32, band: Band, design: Design, f: &FilterFigures)
        ensures
            final(w)@ == old(w)@ + status_line(self.on_terminal(), filter_text(order, band, design, *f)),
    {
        let mut m: Vec<u8> = Vec::new();
        push_str(&mut m, "Digital filter: ");
        push_str(&mut m, design_name(design));
        push_str(&mut m, " ");
        let ghost at_band = m@;
        match band {
            Band::LowPass => {
                push_str(&mut m, "low-pass ");
                push_str(&mut m, f.high_cents.as_str());
                push_str(&mut m, " Hz");
            },
            Band::HighPass => {
                push_str(&mut m, "high-pass ");
                push_str(&mut m, f.low_cents.as_str());
                push_str(&mut m, " Hz");
            },
            Band::BandPass => {
                push_str(&mut m, "band-pass ");
                push_str(&mut m, f.low_whole.as_str());
                push_str(&mut m, "-");
                push_str(&mut m, f.high_whole.as_str());
                push_str(&mut m, " Hz");
            },
            Band::Unknown(_) => push_str(&mut m, "??? "),
        }
        proof {
            assert(m@ =~= at_band + band_phrase(band, *f));
        }
        push_str(&mut m, ", order ");
        push_decimal(&mut m, designed_order(order, band) as u64);
        if shows_ripple(design) {
            push_str(&mut m, ", ripple ");
            push_str(&mut m, f.ripple_cents.as_str());
        }
        proof {
            assert(m@ =~= filter_text(order, band, design, *f));
        }
        self.status_raw(w, &m);
    }

    /// `"* Packed size: <bytes> bytes (<pulses> pulses), compression ratio:
    /// P% (R:1)"`, then a blank line. `percent` and `ratio` come formatted
    /// (they are floating-point); a recording, which has no input size to
    /// measure against, prints `-Inf% (0:1)` in their place.
    pub fn packed(&self, w: &mut Vec<u8>, packed_bytes: u64, pulses: u64, orig_bytes: u64, percent: &str, ratio: &str)
        ensures
            final(w)@ == old(w)@ + "\r* Packed size: ".spec_bytes() + decimal(packed_bytes as nat) + " bytes (".spec_bytes()
                + decimal(pulses as nat) + " pulses), compression ratio: ".spec_bytes() + (if orig_bytes > 0 {
                percent.spec_bytes()
            } else {
                "-Inf".spec_bytes()
            }) + "% (".spec_bytes() + (if orig_bytes > 0 {
                ratio.spec_bytes()
            } else {
                "0".spec_bytes()
            }) + ":1)\n\n".spec_bytes(),
    {
        push_str(w, "\r* Packed size: ");
        push_decimal(w, packed_bytes);
        push_str(w, " bytes (");
        push_decimal(w, pulses);
        push_str(w, " pulses), compression ratio: ");
        if orig_bytes > 0 {
            push_str(w, percent);
        } else {
            push_str(w, "-Inf");
        }
        push_str(w, "% (");
        if orig_bytes > 0 {
            push_str(w, ratio);
        } else {
            push_str(w, "0");
        }
        push_str(w, ":1)\n\n");
    }

    /// `"* Completed, conversion rate: <kbps> KBps."`, the closing line of a
    /// decode, the rate come formatted.
    pub fn completed(&self, w: &mut Vec<u8>, kbps: &str)
        ensures
            final(w)@ == old(w)@ + "* Completed, conversion rate: ".spec_bytes() + kbps.spec_bytes()
                + " KBps.\n".spec_bytes(),
    {
        push_str(w, "* Completed, conversion rate: ");
        push_str(w, kbps);
        push_str(w, " KBps.\n");
    }

    /// A status line from bytes, for a message carrying bytes printed
    /// straight out of memory.
    pub fn status_raw(&self, w: &mut Vec<u8>, msg: &[u8])
        ensures
            final(w)@ == old(w)@ + status_line(self.on_terminal(), msg@),
    {
        self.bullet(w);
        w.push(32);
        push_bytes(w, msg);
        w.push(10);
        proof {
            assert(final(w)@ =~= old(w)@ + status_line(self.on_terminal(), msg@));
        }
    }

    /// The input-format description line.
    pub fn describe(&self, w: &mut Vec<u8>, desc: &str)
        ensures
            final(w)@ == old(w)@ + status_line(self.on_terminal(), desc.spec_bytes()),
    {
        self.status_raw(w, desc.as_bytes());
    }

    /// The checking line up to its completion, and no further: a carriage
    /// return, the bullet, the words and a space.
    pub fn checking_start(&self, w: &mut Vec<u8>, integrity: bool)
        ensures
            final(w)@ == old(w)@ + seq![13u8] + bullet_of(self.on_terminal()) + (if integrity {
                " Checking input file integrity... ".spec_bytes()
            } else {
                " Checking input file... ".spec_bytes()
            }),
    {
        w.push(13);
        self.bullet(w);
        if integrity {
            push_str(w, " Checking input file integrity... ");
        } else {
            push_str(w, " Checking input file... ");
        }
        proof {
            assert(final(w)@ =~= old(w)@ + seq![13u8] + bullet_of(self.on_terminal()) + (if integrity {
                " Checking input file integrity... ".spec_bytes()
            } else {
                " Checking input file... ".spec_bytes()
            }));
        }
    }

    /// How the checking line ends: "ok!", or the refusal in its place.
    pub fn checking_completion(&self, w: &mut Vec<u8>, completion: &str)
        ensures
            final(w)@ == old(w)@ + completion.spec_bytes() + seq![10u8],
    {
        push_str(w, completion);
        w.push(10);
    }

    /// The progress line, left open: the closing line opens with the
    /// carriage return that overwrites it.
    pub fn working(&self, w: &mut Vec<u8>)
        ensures
            final(w)@ == old(w)@ + "* Working...".spec_bytes(),
    {
        push_str(w, "* Working...");
    }

    /// Printed only when writing plain RLE: a v1 file names its exact
    /// revision, a v2 file only its major.
    pub fn writing_old_compression(&self, w: &mut Vec<u8>, version: u8)
        ensures
            final(w)@ == old(w)@ + "* Writing CSW ".spec_bytes() + (if version == 1 {
                "v1.01".spec_bytes()
            } else {
                "v2".spec_bytes()
            }) + " with old compression method\n".spec_bytes(),
    {
        push_str(w, "* Writing CSW ");
        if version == 1 {
            push_str(w, "v1.01");
        } else {
            push_str(w, "v2");
        }
        push_str(w, " with old compression method\n");
    }

    /// The header line of a decode: version (minor in two digits), the rate
    /// read as a signed number, and the file.
    pub fn csw_header(&self, w: &mut Vec<u8>, major: u8, minor: u8, rate: u32, file: &[u8])
        ensures
            final(w)@ == old(w)@ + status_line(self.on_terminal(), csw_header_text(major, minor, rate, file@)),
    {
        let mut m: Vec<u8> = Vec::new();
        push_str(&mut m, "Compressed Square Wave v");
        push_decimal(&mut m, major as u64);
        push_str(&mut m, ".");
        push_padded(&mut m, minor as u64, 2);
        push_str(&mut m, " at ");
        let r: i64 = if rate < 0x8000_0000 {
            rate as i64
        } else {
            rate as i64 - 0x1_0000_0000
        };
        push_signed(&mut m, r);
        push_str(&mut m, " Hz (file '");
        push_bytes(&mut m, file);
        push_str(&mut m, "').");
        self.status_raw(w, &m);
    }

    /// The application line of a v2 decode; `app` is bytes, not text.
    pub fn csw_app(&self, w: &mut Vec<u8>, app: &[u8], comp: u8)
        ensures
            final(w)@ == old(w)@ + status_line(self.on_terminal(), csw_app_text(app@, comp)),
    {
        let mut m: Vec<u8> = Vec::new();
        push_str(&mut m, "CSW created by application '");
        push_bytes(&mut m, app);
        push_str(&mut m, "' using compression type ");
        push_decimal(&mut m, comp as u64);
        self.status_raw(w, &m);
    }

    /// The sample count of a decode and its playing time, whole seconds as
    /// minutes and two-digit seconds.
    pub fn total_samples(&self, w: &mut Vec<u8>, samples: u64, rate: u32)
        requires
            rate > 0,
        ensures
            final(w)@ == old(w)@ + status_line(self.on_terminal(), total_text(samples, rate)),
    {
        let secs = samples / rate as u64;
        let mut m: Vec<u8> = Vec::new();
        push_str(&mut m, "Total ");
        push_decimal(&mut m, samples);
        push_str(&mut m, " samples, playing time ");
        push_decimal(&mut m, secs / 60);
        push_str(&mut m, ":");
        push_padded(&mut m, secs % 60, 2);
        push_str(&mut m, ".");
        self.status_raw(w, &m);
    }

    /// The closing status line of a decode.
    pub fn writing(&self, w: &mut Vec<u8>, kind: &str, file: &[u8])
        ensures
            final(w)@ == old(w)@ + status_line(self.on_terminal(), writing_text(kind.spec_bytes(), file@)),
    {
        let mut m: Vec<u8> = Vec::new();
        push_str(&mut m, "Writing ");
        push_str(&mut m, kind);
        push_str(&mut m, " file '");
        push_bytes(&mut m, file);
        push_str(&mut m, "'... done!");
        self.status_raw(w, &m);
    }

    /// `"\rFATAL ERROR: <msg>"` and a blank line.
    pub fn fatal(&self, w: &mut Vec<u8>, msg: &[u8])
        ensures
            final(w)@ == old(w)@ + "\rFATAL ERROR: ".spec_bytes() + msg@ + "\n\n".spec_bytes(),
    {
        push_str(w, "\rFATAL ERROR: ");
        push_bytes(w, msg);
        push_str(w, "\n\n");
    }

    /// A fatal message of several lines, printed flat: no leading CR and no
    /// blank line after it.
    pub fn fatal_block(&self, w: &mut Vec<u8>, msg: &[u8])
        ensures
            final(w)@ == old(w)@ + "FATAL ERROR: ".spec_bytes() + msg@ + "\n".spec_bytes(),
    {
        push_str(w, "FATAL ERROR: ");
        push_bytes(w, msg);
        push_str(w, "\n");
    }

    /// `"ERROR: <msg>"`: the input-file report.
    pub fn error(&self, w: &mut Vec<u8>, msg: &[u8])
        ensures
            final(w)@ == old(w)@ + "ERROR: ".spec_bytes() + msg@ + "\n".spec_bytes(),
    {
        push_str(w, "ERROR: ");
        push_bytes(w, msg);
        push_str(w, "\n");
    }

    /// A refusal with no prefix at all, on a line of its own.
    pub fn refused(&self, w: &mut Vec<u8>, msg: &str)
        ensures
            final(w)@ == old(w)@ + "\n".spec_bytes() + msg.spec_bytes() + "\n\n".spec_bytes(),
    {
        push_str(w, "\n");
        push_str(w, msg);
        push_str(w, "\n\n");
    }

    /// A warning between the status lines and the writer's.
    pub fn warn_block(&self, w: &mut Vec<u8>, msg: &str)
        ensures
            final(w)@ == old(w)@ + "\n".spec_bytes() + msg.spec_bytes() + "\n".spec_bytes(),
    {
        push_str(w, "\n");
        push_str(w, msg);
        push_str(w, "\n");
    }

    /// The device line of DirectMode.
    pub fn input_device(&self, w: &mut Vec<u8>, name: &str, channels: u16, format: &str)
        ensures
            final(w)@ == old(w)@ + status_line(
                self.on_terminal(),
                "Input device: '".spec_bytes() + name.spec_bytes() + "' (".spec_bytes() + decimal(
                    channels as nat,
                ) + " ch, ".spec_bytes() + format.spec_bytes() + ").".spec_bytes(),
            ),
    {
        let mut m: Vec<u8> = Vec::new();
        push_str(&mut m, "Input device: '");
        push_str(&mut m, name);
        push_str(&mut m, "' (");
        push_decimal(&mut m, channels as u64);
        push_str(&mut m, " ch, ");
        push_str(&mut m, format);
        push_str(&mut m, ").");
        self.status_raw(w, &m);
    }

    /// `-c`: the device's own configuration, unnegotiated.
    pub fn device_compat_mode(&self, w: &mut Vec<u8>)
        ensures
            final(w)@ == old(w)@ + status_line(
                self.on_terminal(),
                "Operating in compatibility mode.".spec_bytes(),
            ),
    {
        self.status_raw(w, "Operating in compatibility mode.".as_bytes());
    }

    /// The rate the device settled on, and the one asked for.
    pub fn capture_rate(&self, w: &mut Vec<u8>, rate: u32, asked: u32)
        ensures
            final(w)@ == old(w)@ + status_line(
                self.on_terminal(),
                "Sampling rate: ".spec_bytes() + decimal(rate as nat) + " Hz (rounded from: ".spec_bytes()
                    + decimal(asked as nat) + " Hz).".spec_bytes(),
            ),
    {
        let mut m: Vec<u8> = Vec::new();
        push_str(&mut m, "Sampling rate: ");
        push_decimal(&mut m, rate as u64);
        push_str(&mut m, " Hz (rounded from: ");
        push_decimal(&mut m, asked as u64);
        push_str(&mut m, " Hz).");
        self.status_raw(w, &m);
    }

    /// `-k`: the keep-file line.
    pub fn keeping(&self, w: &mut Vec<u8>, file: &[u8])
        ensures
            final(w)@ == old(w)@ + status_line(
                self.on_terminal(),
                "Keeping samples in file \"".spec_bytes() + file@ + "\"".spec_bytes(),
            ),
    {
        let mut m: Vec<u8> = Vec::new();
        push_str(&mut m, "Keeping samples in file \"");
        push_bytes(&mut m, file);
        push_str(&mut m, "\"");
        self.status_raw(w, &m);
    }

    /// The dropped-sample warning.
    pub fn overrun(&self, w: &mut Vec<u8>, lost: u64)
        ensures
            final(w)@ == old(w)@ + "WARNING: DMA buffer OVERRUN!!! Lost ".spec_bytes() + decimal(
                lost as nat,
            ) + " samples\n".spec_bytes(),
    {
        push_str(w, "WARNING: DMA buffer OVERRUN!!! Lost ");
        push_decimal(w, lost);
        push_str(w, " samples\n");
    }

    /// A recording the spool ended before the user did.
    pub fn recording_cut_short(&self, w: &mut Vec<u8>, reason: &str)
        ensures
            final(w)@ == old(w)@ + "WARNING: the recording ended early: ".spec_bytes()
                + reason.spec_bytes() + "; keeping what was captured\n".spec_bytes(),
    {
        push_str(w, "WARNING: the recording ended early: ");
        push_str(w, reason);
        push_str(w, "; keeping what was captured\n");
    }

    /// Text drawn over, with no line ending.
    pub fn transient(&self, w: &mut Vec<u8>, text: &str)
        ensures
            final(w)@ == old(w)@ + text.spec_bytes(),
    {
        push_str(w, text);
    }

    /// Erase the meter block before anything permanent is printed, leaving
    /// the cursor where the block began, shown again.
    pub fn clear_transient(&self, w: &mut Vec<u8>)
        ensures
            final(w)@ == old(w)@ + cleared_block(),
    {
        let mut i: usize = 0;
        while i < METER_LINES
            invariant
                i <= METER_LINES,
                w@ == old(w)@ + erased_lines(i as nat),
            decreases METER_LINES - i,
        {
            w.push(13u8);
            push_str(w, ERASE_LINE);
            if i + 1 < METER_LINES {
                w.push(10u8);
            }
            proof {
                assert(w@ =~= old(w)@ + erased_lines((i + 1) as nat));
            }
            i = i + 1;
        }
        w.push(13u8);
        push_str(w, CURSOR_TO_BLOCK_TOP);
        push_str(w, SHOW_CURSOR);
        proof {
            assert(final(w)@ =~= old(w)@ + cleared_block());
        }
    }

    /// `"■ Max recording time is <clock> (<n> bytes)."`: the limit, its
    /// whole seconds given.
    pub fn max_recording_time(&self, w: &mut Vec<u8>, whole: i64, bytes: u64)
        ensures
            final(w)@ == old(w)@ + status_line(
                self.on_terminal(),
                "Max recording time is ".spec_bytes() + clock_text(whole as int) + " (".spec_bytes()
                    + decimal(bytes as nat) + " bytes).".spec_bytes(),
            ),
    {
        let mut m: Vec<u8> = Vec::new();
        push_str(&mut m, "Max recording time is ");
        push_clock(&mut m, whole);
        push_str(&mut m, " (");
        push_decimal(&mut m, bytes);
        push_str(&mut m, " bytes).");
        self.status_raw(w, &m);
    }

    /// `"■ Recorded <n> samples in <clock>"`, the recording's whole seconds
    /// given.
    pub fn recorded(&self, w: &mut Vec<u8>, samples: u64, whole: i64)
        ensures
            final(w)@ == old(w)@ + status_line(
                self.on_terminal(),
                "Recorded ".spec_bytes() + decimal(samples as nat) + " samples in ".spec_bytes()
                    + clock_text(whole as int),
            ),
    {
        let mut m: Vec<u8> = Vec::new();
        push_str(&mut m, "Recorded ");
        push_decimal(&mut m, samples);
        push_str(&mut m, " samples in ");
        push_clock(&mut m, whole);
        self.status_raw(w, &m);
    }

    /// `"■ Sampling rate: <rate> Hz (playing time: <clock>.<ms>)"`: the
    /// playing time given as its whole seconds and its milliseconds, each
    /// truncated on its own (see [`play_text`]).
    pub fn sampling_rate(&self, w: &mut Vec<u8>, rate: i64, whole: i32, ms: i32)
        ensures
            final(w)@ == old(w)@ + status_line(self.on_terminal(), sampling_rate_text(rate as int, whole as int, ms as int)),
    {
        let mut m: Vec<u8> = Vec::new();
        push_str(&mut m, "Sampling rate: ");
        push_signed(&mut m, rate);
        push_str(&mut m, " Hz (playing time: ");
        push_clock(&mut m, whole as i64);
        push_str(&mut m, ".");
        if ms < 0 {
            m.push(45u8);
            let mag: u64 = if ms == i32::MIN {
                0x8000_0000u64
            } else {
                (-ms) as u64
            };
            push_padded(&mut m, mag, 2);
        } else {
            push_padded(&mut m, ms as u64, 3);
        }
        push_str(&mut m, ")");
        proof {
            assert(m@ =~= sampling_rate_text(rate as int, whole as int, ms as int));
        }
        self.status_raw(w, &m);
    }

    /// The meter block, redrawn in place: the prompt or note, the level and
    /// clipping bars with their readouts when there is room (blanked while
    /// recording, the block keeping its height), and the elapsed clock and
    /// sample count while recording. The bar lengths and readouts are
    /// worked out by the caller; `width` is the bars' width.
    pub fn meter_frame(
        &self,
        w: &mut Vec<u8>,
        note: &str,
        bars: Option<(usize, usize)>,
        readouts: Option<(&str, &str)>,
        width: usize,
        progress: Option<(i64, u64)>,
    )
        ensures
            final(w)@ == old(w)@ + meter_bytes(
                note.spec_bytes(),
                bars,
                match readouts {
                    Some((a, b)) => Some((a.spec_bytes(), b.spec_bytes())),
                    None => None,
                },
                width as nat,
                progress,
            ),
    {
        let ghost start = w@;
        let ghost rb = match readouts {
            Some((a, b)) => Some((a.spec_bytes(), b.spec_bytes())),
            None => None,
        };
        push_str(w, HIDE_CURSOR);
        w.push(13u8);
        push_str(w, note);
        push_str(w, ERASE_LINE);
        w.push(10u8);
        push_bars(w, bars, readouts, width);
        push_progress(w, progress);
        push_str(w, ERASE_LINE);
        push_str(w, CURSOR_TO_BLOCK_TOP);
        proof {
            assert(final(w)@ =~= start + meter_bytes(note.spec_bytes(), bars, rb, width as nat, progress));
        }
    }
}

/// The first `n` lines of the erased meter block.
pub open spec fn erased_lines(n: nat) -> Seq<u8>
    decreases n,
{
    if n == 0 {
        Seq::empty()
    } else {
        erased_lines((n - 1) as nat) + seq![13u8] + ERASE_LINE.spec_bytes() + (if n < METER_LINES {
            seq![10u8]
        } else {
            Seq::empty()
        })
    }
}

/// The meter block erased, the cursor back at its top and shown.
pub open spec fn cleared_block() -> Seq<u8> {
    erased_lines(METER_LINES as nat) + seq![13u8] + CURSOR_TO_BLOCK_TOP.spec_bytes()
        + SHOW_CURSOR.spec_bytes()
}

/// `n` meter cells.
pub open spec fn cells(n: nat) -> Seq<u8>
    decreases n,
{
    if n == 0 {
        Seq::empty()
    } else {
        cells((n - 1) as nat) + CELL.spec_bytes()
    }
}

/// One bar: `filled` cells in `colour` (no more than `width`), the rest of
/// the `width` in the unfilled colour, every cell the same glyph.
pub open spec fn bar_bytes(filled: nat, width: nat, colour: Seq<u8>) -> Seq<u8> {
    let f = if filled < width {
        filled
    } else {
        width
    };
    seq![13u8] + colour + cells(f) + EMPTY_COLOUR.spec_bytes() + cells((width - f) as nat)
        + RESET_COLOUR.spec_bytes()
}

/// `n` spaces.
pub open spec fn spaces(n: nat) -> Seq<u8> {
    Seq::new(n, |i: int| 32u8)
}

/// A readout after its bar: two spaces, then the label right-aligned in
/// ten columns.
pub open spec fn readout_bytes(label: Seq<u8>) -> Seq<u8> {
    "  ".spec_bytes() + spaces(if label.len() < 10 {
        (10 - label.len()) as nat
    } else {
        0
    }) + label
}

/// The two bar lines of the meter block, or the blanked pair.
pub open spec fn bars_bytes(bars: Option<(usize, usize)>, readouts: Option<(Seq<u8>, Seq<u8>)>, width: nat) -> Seq<u8> {
    match bars {
        Some((level, clip)) => bar_bytes(level as nat, width, LEVEL_COLOUR.spec_bytes()) + (match readouts {
            Some((a, _)) => readout_bytes(a),
            None => Seq::empty(),
        }) + ERASE_LINE.spec_bytes() + seq![10u8] + bar_bytes(clip as nat, width, CLIP_COLOUR.spec_bytes())
            + (match readouts {
            Some((_, b)) => readout_bytes(b),
            None => Seq::empty(),
        }) + ERASE_LINE.spec_bytes() + seq![10u8, 13u8],
        None => seq![13u8] + ERASE_LINE.spec_bytes() + seq![10u8, 13u8] + ERASE_LINE.spec_bytes() + seq![
            10u8,
            13u8,
        ],
    }
}

/// The recording line: the elapsed clock and the samples taken.
pub open spec fn progress_bytes(progress: Option<(i64, u64)>) -> Seq<u8> {
    match progress {
        Some((secs, samples)) => seq![32u8] + clock_text(secs as int) + "  ".spec_bytes() + decimal(
            samples as nat,
        ) + " samples".spec_bytes(),
        None => Seq::empty(),
    }
}

/// The meter block as drawn (see [`Console::meter_frame`]).
pub open spec fn meter_bytes(
    note: Seq<u8>,
    bars: Option<(usize, usize)>,
    readouts: Option<(Seq<u8>, Seq<u8>)>,
    width: nat,
    progress: Option<(i64, u64)>,
) -> Seq<u8> {
    HIDE_CURSOR.spec_bytes() + seq![13u8] + note + ERASE_LINE.spec_bytes() + seq![10u8] + bars_bytes(
        bars,
        readouts,
        width,
    ) + progress_bytes(progress) + ERASE_LINE.spec_bytes() + CURSOR_TO_BLOCK_TOP.spec_bytes()
}

fn push_cells(w: &mut Vec<u8>, n: usize)
    ensures
        final(w)@ == old(w)@ + cells(n as nat),
{
    let mut i: usize = 0;
    while i < n
        invariant
            i <= n,
            w@ == old(w)@ + cells(i as nat),
        decreases n - i,
    {
        push_str(w, CELL);
        proof {
            assert(w@ =~= old(w)@ + cells((i + 1) as nat));
        }
        i = i + 1;
    }
}

/// Draw one bar (see [`bar_bytes`]).
pub fn bar(w: &mut Vec<u8>, filled: usize, width: usize, colour: &str)
    ensures
        final(w)@ == old(w)@ + bar_bytes(filled as nat, width as nat, colour.spec_bytes()),
{
    let f = if filled < width {
        filled
    } else {
        width
    };
    w.push(13u8);
    push_str(w, colour);
    push_cells(w, f);
    push_str(w, EMPTY_COLOUR);
    push_cells(w, width - f);
    push_str(w, RESET_COLOUR);
    proof {
        assert(final(w)@ =~= old(w)@ + bar_bytes(filled as nat, width as nat, colour.spec_bytes()));
    }
}

/// The bar line of one bar, with its readout when there is one.
#[verifier::spinoff_prover]
fn push_bar_line(w: &mut Vec<u8>, filled: usize, width: usize, colour: &str, label: Option<&str>)
    ensures
        final(w)@ == old(w)@ + bar_bytes(filled as nat, width as nat, colour.spec_bytes()) + (match label {
            Some(a) => readout_bytes(a.spec_bytes()),
            None => Seq::empty(),
        }) + ERASE_LINE.spec_bytes() + seq![10u8],
{
    let ghost start = w@;
    bar(w, filled, width, colour);
    let ghost mid = w@;
    if let Some(a) = label {
        push_readout(w, a);
    }
    let ghost lab = w@;
    push_str(w, ERASE_LINE);
    w.push(10u8);
    proof {
        assert(final(w)@ =~= lab + ERASE_LINE.spec_bytes() + seq![10u8]);
    }
}

/// The bar lines of the meter block (see [`bars_bytes`]).
#[verifier::spinoff_prover]
fn push_bars(w: &mut Vec<u8>, bars: Option<(usize, usize)>, readouts: Option<(&str, &str)>, width: usize)
    ensures
        final(w)@ == old(w)@ + bars_bytes(
            bars,
            match readouts {
                Some((a, b)) => Some((a.spec_bytes(), b.spec_bytes())),
                None => None,
            },
            width as nat,
        ),
{
    let ghost start = w@;
    match bars {
        Some((level, clip)) => {
            let (la, lb) = match readouts {
                Some((a, b)) => (Some(a), Some(b)),
                None => (None, None),
            };
            push_bar_line(w, level, width, LEVEL_COLOUR, la);
            push_bar_line(w, clip, width, CLIP_COLOUR, lb);
            w.push(13u8);
        },
        None => {
            w.push(13u8);
            push_str(w, ERASE_LINE);
            w.push(10u8);
            w.push(13u8);
            push_str(w, ERASE_LINE);
            w.push(10u8);
            w.push(13u8);
        },
    }
    proof {
        let rb = match readouts {
            Some((a, b)) => Some((a.spec_bytes(), b.spec_bytes())),
            None => None,
        };
        assert(final(w)@ =~= start + bars_bytes(bars, rb, width as nat));
    }
}

/// The recording line of the meter block (see [`progress_bytes`]).
fn push_progress(w: &mut Vec<u8>, progress: Option<(i64, u64)>)
    ensures
        final(w)@ == old(w)@ + progress_bytes(progress),
{
    if let Some((secs, samples)) = progress {
        w.push(32u8);
        push_clock(w, secs);
        push_str(w, "  ");
        push_decimal(w, samples);
        push_str(w, " samples");
        proof {
            assert(final(w)@ =~= old(w)@ + progress_bytes(progress));
        }
    }
}

fn push_readout(w: &mut Vec<u8>, label: &str)
    ensures
        final(w)@ == old(w)@ + readout_bytes(label.spec_bytes()),
{
    push_str(w, "  ");
    let n = label.as_bytes().len();
    let pad: usize = if n < 10 {
        10 - n
    } else {
        0
    };
    let ghost before = w@;
    let mut i: usize = 0;
    while i < pad
        invariant
            i <= pad,
            w@ == before + spaces(i as nat),
        decreases pad - i,
    {
        w.push(32u8);
        proof {
            assert(w@ =~= before + spaces((i + 1) as nat));
        }
        i = i + 1;
    }
    push_str(w, label);
    proof {
        assert(final(w)@ =~= old(w)@ + readout_bytes(label.spec_bytes()));
    }
}

/// How wide the meter's bars are, and whether the window has room for the
/// readouts beside them: 80 cells unless the window cannot hold them, the
/// readouts going first. A window reporting no width, or zero, is taken as
/// 80 columns.
pub open spec fn layout_of(cols: Option<u16>) -> (usize, bool) {
    let c: int = match cols {
        Some(n) => if n > 0 {
            n as int
        } else {
            METER_CELLS as int
        },
        None => METER_CELLS as int,
    };
    if c >= METER_CELLS + LABEL_COLUMNS {
        (METER_CELLS, true)
    } else if c < METER_CELLS {
        (c as usize, false)
    } else {
        (METER_CELLS, false)
    }
}

/// The meter's layout for a window `cols` wide (see [`layout_of`]).
pub fn layout_for(cols: Option<u16>) -> (r: (usize, bool))
    ensures
        r == layout_of(cols),
{
    let c: usize = match cols {
        Some(n) => if n > 0 {
            n as usize
        } else {
            METER_CELLS
        },
        None => METER_CELLS,
    };
    if c >= METER_CELLS + LABEL_COLUMNS {
        (METER_CELLS, true)
    } else if c < METER_CELLS {
        (c, false)
    } else {
        (METER_CELLS, false)
    }
}

/// A help line whose value is a number.
fn help_value_line(w: &mut Vec<u8>, label: &str, value: i32, unit: &str)
    ensures
        final(w)@ == old(w)@ + help_line(label.spec_bytes(), signed_decimal(value as int), unit.spec_bytes()),
{
    let ghost start = w@;
    push_str(w, "\t\t     ");
    push_str(w, label);
    push_str(w, " [");
    push_signed(w, value as i64);
    push_str(w, unit);
    push_str(w, "]\n");
    proof {
        assert(w@ =~= start + help_line(label.spec_bytes(), signed_decimal(value as int), unit.spec_bytes()));
    }
}

/// A help line whose value comes formatted.
fn help_text_line(w: &mut Vec<u8>, label: &str, value: &str, unit: &str)
    ensures
        final(w)@ == old(w)@ + help_line(label.spec_bytes(), value.spec_bytes(), unit.spec_bytes()),
{
    let ghost start = w@;
    push_str(w, "\t\t     ");
    push_str(w, label);
    push_str(w, " [");
    push_str(w, value);
    push_str(w, unit);
    push_str(w, "]\n");
    proof {
        assert(w@ =~= start + help_line(label.spec_bytes(), value.spec_bytes(), unit.spec_bytes()));
    }
}

} // verus!
