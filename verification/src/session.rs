//! DirectMode's session as decisions: the meter phase until a key, then the
//! recording until a stop, `P` pausing it in between, and how much of what
//! the device delivered the spool takes. The caller draws, polls the
//! keyboard and moves samples to the spool; each report it gives back
//! yields the next thing to do.

use vstd::prelude::*;
use vstd::string::StringSliceAdditionalSpecFns;

use crate::error::{Error, Msg};
use crate::term::KeyPress;

verus! {

/// The capture rate DirectMode asks for when `-s` gives none (or 0).
pub const DEFAULT_RATE: u32 = 32258;

/// The lowest capture rate DirectMode asks for.
pub const MIN_RATE: u32 = 5000;

/// The highest capture rate DirectMode asks for.
pub const MAX_RATE: u32 = 45454;

/// The rate `-s` gave, as typed: its default when absent or 0.
pub open spec fn typed_rate(rate: Option<i64>) -> i64 {
    match rate {
        Some(r) => if r != 0 {
            r
        } else {
            DEFAULT_RATE as i64
        },
        None => DEFAULT_RATE as i64,
    }
}

/// The rate `-s` gave, as typed (see [`typed_rate`]).
pub fn rate_as_typed(rate: Option<i64>) -> (r: i64)
    ensures
        r == typed_rate(rate),
{
    match rate {
        Some(r) => if r != 0 {
            r
        } else {
            DEFAULT_RATE as i64
        },
        None => DEFAULT_RATE as i64,
    }
}

/// The rate asked of the device: the typed rate brought into
/// `MIN_RATE..=MAX_RATE`.
pub fn rate_asked(rate: Option<i64>) -> (r: u32)
    ensures
        typed_rate(rate) < MIN_RATE ==> r == MIN_RATE,
        typed_rate(rate) > MAX_RATE ==> r == MAX_RATE,
        MIN_RATE <= typed_rate(rate) <= MAX_RATE ==> r == typed_rate(rate),
{
    let t = rate_as_typed(rate);
    if t < MIN_RATE as i64 {
        MIN_RATE
    } else if t > MAX_RATE as i64 {
        MAX_RATE
    } else {
        t as u32
    }
}

/// How many samples a recording may take: the `-t` budget or the disk's,
/// whichever is smaller, and no limit when neither applies.
pub fn recording_limit(by_time: Option<u64>, by_space: Option<u64>) -> (r: Option<u64>)
    ensures
        match (by_time, by_space) {
            (Some(t), Some(s)) => r == Some(if t < s {
                t
            } else {
                s
            }),
            (Some(t), None) => r == Some(t),
            (None, Some(s)) => r == Some(s),
            (None, None) => r is None,
        },
{
    match (by_time, by_space) {
        (Some(t), Some(s)) => Some(if t < s {
            t
        } else {
            s
        }),
        (Some(t), None) => Some(t),
        (None, Some(s)) => Some(s),
        (None, None) => None,
    }
}

/// What a keypress means during a session.
#[derive(Debug, Clone, Copy, PartialEq, Eq, Structural)]
pub enum Key {
    /// `P`: pause, or resume.
    Pause,
    /// Any other key: stop (start, in the meter phase).
    Stop,
    /// Ctrl-C, the one key that never means "go".
    Abort,
}

/// The meaning of a keypress.
pub open spec fn meaning(k: KeyPress) -> Key {
    if k.ctrl && k.ch == Some('c') {
        Key::Abort
    } else if !k.ctrl && k.ch == Some('p') {
        Key::Pause
    } else {
        Key::Stop
    }
}

/// The meaning of a keypress (see [`meaning`]).
pub fn key_meaning(k: &KeyPress) -> (r: Key)
    ensures
        r == meaning(*k),
{
    if k.is_interrupt() {
        Key::Abort
    } else if k.is('p') {
        Key::Pause
    } else {
        Key::Stop
    }
}

/// The transient lines a console that draws no meter gets in its place.
#[derive(Debug, Clone, Copy, PartialEq, Eq, Structural)]
pub enum Text {
    PromptStart,
    EraseStart,
    ErasePaused,
    PromptPaused,
}

/// The meter as it is drawn: before the recording, while it runs (bars
/// blanked, progress shown), and while it is paused.
#[derive(Debug, Clone, Copy, PartialEq, Eq, Structural)]
pub enum Meter {
    Start,
    Recording,
    Paused,
}

/// Where a session stands.
#[derive(Debug, Clone, Copy, PartialEq, Eq, Structural)]
pub enum Pc {
    PromptStart,
    MeterDraw,
    MeterPoll,
    MeterEnd,
    Aborted,
    Limit,
    Begin,
    Check,
    Drain,
    RecDraw,
    RecPoll,
    PauseHalt,
    PauseDrain,
    PauseErase,
    PausePrompt,
    PausedDraw,
    PausedPoll,
    PausedErase,
    Resume,
    CloseHalt,
    CloseDrain,
    CloseClear,
    Finish,
}

/// What the caller is asked to do next.
#[derive(Debug, Clone, Copy, PartialEq, Eq, Structural)]
pub enum Command {
    /// Write a transient line; answer [`Event::Done`].
    Text(Text),
    /// Draw the meter; answer [`Event::Done`].
    Meter(Meter),
    /// Erase the meter block; answer [`Event::Done`].
    Clear,
    /// Print the maximum recording time; answer [`Event::Done`].
    ShowLimit,
    /// Empty the capture buffer and start capturing; answer [`Event::Done`].
    Begin,
    /// Start capturing again, the buffer as it stands; answer [`Event::Done`].
    Resume,
    /// Stop capturing: what arrives from here on is dropped; answer
    /// [`Event::Done`].
    Halt,
    /// Say whether the device has failed; answer [`Event::Failed`].
    Check,
    /// Move the captured samples to the spool, at most this many; answer
    /// [`Event::Drained`].
    Drain(u64),
    /// Wait a tick for a key; answer [`Event::Polled`].
    Poll,
    /// The recording is over: finish the spool, and say the recording was
    /// cut short when the flag is set.
    Finish(bool),
    /// The session ends with "Aborted", nothing recorded.
    Abort,
}

/// What the caller reports back.
#[derive(Debug, Clone, Copy, PartialEq, Eq, Structural)]
pub enum Event {
    Done,
    Failed(bool),
    /// How many samples went to the spool, or `None` when its write failed.
    Drained(Option<u64>),
    /// The key pressed in the tick, if any, and whether the device has
    /// failed.
    Polled(Option<Key>, bool),
}

/// A session: where it stands, how it shows itself, its limit, and what it
/// has spooled.
#[derive(Debug, Clone, Copy)]
pub struct Session {
    pub pc: Pc,
    /// Keys can be read (stdin is a terminal).
    pub interactive: bool,
    /// The meter is drawn: keys and a console that is a terminal.
    pub draw_meter: bool,
    pub limit: Option<u64>,
    pub spooled: u64,
    /// A spool write failed: the recording ends, what is on disk is kept.
    pub cut_short: bool,
    /// Ctrl-C ended the meter phase or the pause.
    pub aborted: bool,
}

/// The spool holds no more than the limit.
pub open spec fn within_limit(s: Session) -> bool {
    s.limit matches Some(l) ==> s.spooled <= l
}

/// The most the next drain may move.
pub open spec fn room(s: Session) -> u64 {
    match s.limit {
        Some(l) => if s.spooled <= l {
            (l - s.spooled) as u64
        } else {
            0
        },
        None => (u64::MAX - s.spooled) as u64,
    }
}

/// Whether the spool holds the limit.
pub open spec fn at_limit(s: Session) -> bool {
    s.limit matches Some(l) && s.spooled >= l
}

/// What a session at `s` asks of its caller.
pub open spec fn command_of(s: Session) -> Command {
    match s.pc {
        Pc::PromptStart => Command::Text(Text::PromptStart),
        Pc::MeterDraw => Command::Meter(Meter::Start),
        Pc::MeterPoll => Command::Poll,
        Pc::MeterEnd => if s.draw_meter {
            Command::Clear
        } else {
            Command::Text(Text::EraseStart)
        },
        Pc::Aborted => Command::Abort,
        Pc::Limit => Command::ShowLimit,
        Pc::Begin => Command::Begin,
        Pc::Check => Command::Check,
        Pc::Drain => Command::Drain(room(s)),
        Pc::RecDraw => Command::Meter(Meter::Recording),
        Pc::RecPoll => Command::Poll,
        Pc::PauseHalt => Command::Halt,
        Pc::PauseDrain => Command::Drain(room(s)),
        Pc::PauseErase => Command::Text(Text::ErasePaused),
        Pc::PausePrompt => Command::Text(Text::PromptPaused),
        Pc::PausedDraw => Command::Meter(Meter::Paused),
        Pc::PausedPoll => Command::Poll,
        Pc::PausedErase => Command::Text(Text::ErasePaused),
        Pc::Resume => Command::Resume,
        Pc::CloseHalt => Command::Halt,
        Pc::CloseDrain => Command::Drain(room(s)),
        Pc::CloseClear => Command::Clear,
        Pc::Finish => Command::Finish(s.cut_short),
    }
}

/// Whether the device delivers into the capture buffer while the session
/// is at `pc`: from the start of the recording to a pause or its close, and
/// from a resume on.
pub open spec fn capturing(pc: Pc) -> bool {
    match pc {
        Pc::Check | Pc::Drain | Pc::RecDraw | Pc::RecPoll | Pc::PauseHalt | Pc::CloseHalt => true,
        _ => false,
    }
}

/// The meter phase's end, the pause's, the spool's close: where each leads.
pub open spec fn meter_ended(s: Session, aborted: bool) -> Session {
    Session { pc: Pc::MeterEnd, aborted, ..s }
}

pub open spec fn paused_ended(s: Session, aborted: bool) -> Session {
    if !s.draw_meter {
        Session { pc: Pc::PausedErase, aborted, ..s }
    } else if aborted {
        Session { pc: Pc::CloseHalt, aborted, ..s }
    } else {
        Session { pc: Pc::Resume, aborted, ..s }
    }
}

pub open spec fn closed(s: Session) -> Session {
    if s.draw_meter {
        Session { pc: Pc::CloseClear, ..s }
    } else {
        Session { pc: Pc::Finish, ..s }
    }
}

/// The meter's next tick, or the poll alone when no meter is drawn.
pub open spec fn tick(s: Session, draw: Pc, poll: Pc) -> Session {
    if s.draw_meter {
        Session { pc: draw, ..s }
    } else {
        Session { pc: poll, ..s }
    }
}

/// Where a session at `s` goes on the caller's report `ev`. A report that
/// does not answer the command asked leaves it where it stands.
pub open spec fn next(s: Session, ev: Event) -> Session {
    match (s.pc, ev) {
        (Pc::PromptStart, Event::Done) => if s.interactive {
            tick(s, Pc::MeterDraw, Pc::MeterPoll)
        } else {
            meter_ended(s, false)
        },
        (Pc::MeterDraw, Event::Done) => Session { pc: Pc::MeterPoll, ..s },
        (Pc::MeterPoll, Event::Polled(k, failed)) => match k {
            Some(Key::Abort) => meter_ended(s, true),
            Some(_) => meter_ended(s, false),
            None => if failed {
                meter_ended(s, false)
            } else {
                tick(s, Pc::MeterDraw, Pc::MeterPoll)
            },
        },
        (Pc::MeterEnd, Event::Done) => if s.aborted {
            Session { pc: Pc::Aborted, ..s }
        } else if s.limit is Some {
            Session { pc: Pc::Limit, ..s }
        } else {
            Session { pc: Pc::Begin, ..s }
        },
        (Pc::Limit, Event::Done) => Session { pc: Pc::Begin, ..s },
        (Pc::Begin, Event::Done) => Session { pc: Pc::Check, ..s },
        (Pc::Check, Event::Failed(f)) => if f {
            Session { pc: Pc::CloseHalt, ..s }
        } else {
            Session { pc: Pc::Drain, ..s }
        },
        (Pc::Drain, Event::Drained(r)) => match r {
            None => Session { pc: Pc::CloseHalt, cut_short: true, ..s },
            Some(n) => {
                let t = Session { spooled: (s.spooled + n) as u64, ..s };
                if at_limit(t) {
                    Session { pc: Pc::CloseHalt, ..t }
                } else {
                    tick(t, Pc::RecDraw, Pc::RecPoll)
                }
            },
        },
        (Pc::RecDraw, Event::Done) => Session { pc: Pc::RecPoll, ..s },
        (Pc::RecPoll, Event::Polled(k, _)) => match k {
            None => Session { pc: Pc::Check, ..s },
            Some(Key::Pause) => Session { pc: Pc::PauseHalt, ..s },
            Some(_) => Session { pc: Pc::CloseHalt, ..s },
        },
        (Pc::PauseHalt, Event::Done) => Session { pc: Pc::PauseDrain, ..s },
        (Pc::PauseDrain, Event::Drained(r)) => match r {
            None => Session { pc: Pc::CloseHalt, cut_short: true, ..s },
            Some(n) => {
                let t = Session { spooled: (s.spooled + n) as u64, ..s };
                if t.draw_meter {
                    Session { pc: Pc::PausedDraw, aborted: false, ..t }
                } else {
                    Session { pc: Pc::PauseErase, aborted: false, ..t }
                }
            },
        },
        (Pc::PauseErase, Event::Done) => Session { pc: Pc::PausePrompt, ..s },
        (Pc::PausePrompt, Event::Done) => tick(s, Pc::PausedDraw, Pc::PausedPoll),
        (Pc::PausedDraw, Event::Done) => Session { pc: Pc::PausedPoll, ..s },
        (Pc::PausedPoll, Event::Polled(k, failed)) => match k {
            Some(Key::Abort) => paused_ended(s, true),
            Some(_) => paused_ended(s, false),
            None => if failed {
                paused_ended(s, false)
            } else {
                tick(s, Pc::PausedDraw, Pc::PausedPoll)
            },
        },
        (Pc::PausedErase, Event::Done) => if s.aborted {
            Session { pc: Pc::CloseHalt, ..s }
        } else {
            Session { pc: Pc::Resume, ..s }
        },
        (Pc::Resume, Event::Done) => Session { pc: Pc::Check, ..s },
        (Pc::CloseHalt, Event::Done) => if s.cut_short {
            closed(s)
        } else {
            Session { pc: Pc::CloseDrain, ..s }
        },
        (Pc::CloseDrain, Event::Drained(r)) => match r {
            None => closed(Session { cut_short: true, ..s }),
            Some(n) => closed(Session { spooled: (s.spooled + n) as u64, ..s }),
        },
        (Pc::CloseClear, Event::Done) => Session { pc: Pc::Finish, ..s },
        _ => s,
    }
}

/// A report the caller may give: a drain moves no more than it was allowed.
pub open spec fn report_ok(s: Session, ev: Event) -> bool {
    ev matches Event::Drained(Some(n)) ==> n <= room(s)
}

/// The line a session that can neither read keys nor stop by itself is
/// refused with.
pub open spec fn needs_terminal(e: Error) -> bool {
    e matches Error::Fatal(m) && m.bytes()
        == "DirectMode needs a terminal for its keyboard controls; give a recording time with -t<secs> to record without one".spec_bytes()
}

impl Session {
    /// A session about to start: `interactive` when keys can be read,
    /// `terminal` when the console is one, `timed` when `-t` bounds the
    /// recording. With no keys and no time it could never stop, and is
    /// refused.
    pub fn start(interactive: bool, terminal: bool, timed: bool, limit: Option<u64>) -> (r: Result<
        Session,
        Error,
    >)
        ensures
            !interactive && !timed ==> (r matches Err(e) && needs_terminal(e)),
            interactive || timed ==> (r matches Ok(s) && s == (Session {
                pc: if interactive && terminal {
                    Pc::MeterDraw
                } else {
                    Pc::PromptStart
                },
                interactive,
                draw_meter: interactive && terminal,
                limit,
                spooled: 0,
                cut_short: false,
                aborted: false,
            })),
    {
        if !interactive && !timed {
            return Err(
                Error::Fatal(
                    Msg::from_text(
                        "DirectMode needs a terminal for its keyboard controls; give a recording time with -t<secs> to record without one",
                    ),
                ),
            );
        }
        let draw_meter = interactive && terminal;
        Ok(
            Session {
                pc: if draw_meter {
                    Pc::MeterDraw
                } else {
                    Pc::PromptStart
                },
                interactive,
                draw_meter,
                limit,
                spooled: 0,
                cut_short: false,
                aborted: false,
            },
        )
    }

    /// The most the next drain may move (see [`room`]).
    fn room_left(&self) -> (r: u64)
        ensures
            r == room(*self),
    {
        match self.limit {
            Some(l) => if self.spooled <= l {
                l - self.spooled
            } else {
                0
            },
            None => u64::MAX - self.spooled,
        }
    }

    /// What the session asks of its caller (see [`command_of`]).
    pub fn command(&self) -> (c: Command)
        ensures
            c == command_of(*self),
    {
        match self.pc {
            Pc::PromptStart => Command::Text(Text::PromptStart),
            Pc::MeterDraw => Command::Meter(Meter::Start),
            Pc::MeterPoll => Command::Poll,
            Pc::MeterEnd => if self.draw_meter {
                Command::Clear
            } else {
                Command::Text(Text::EraseStart)
            },
            Pc::Aborted => Command::Abort,
            Pc::Limit => Command::ShowLimit,
            Pc::Begin => Command::Begin,
            Pc::Check => Command::Check,
            Pc::Drain => Command::Drain(self.room_left()),
            Pc::RecDraw => Command::Meter(Meter::Recording),
            Pc::RecPoll => Command::Poll,
            Pc::PauseHalt => Command::Halt,
            Pc::PauseDrain => Command::Drain(self.room_left()),
            Pc::PauseErase => Command::Text(Text::ErasePaused),
            Pc::PausePrompt => Command::Text(Text::PromptPaused),
            Pc::PausedDraw => Command::Meter(Meter::Paused),
            Pc::PausedPoll => Command::Poll,
            Pc::PausedErase => Command::Text(Text::ErasePaused),
            Pc::Resume => Command::Resume,
            Pc::CloseHalt => Command::Halt,
            Pc::CloseDrain => Command::Drain(self.room_left()),
            Pc::CloseClear => Command::Clear,
            Pc::Finish => Command::Finish(self.cut_short),
        }
    }

    fn tick_to(&mut self, draw: Pc, poll: Pc)
        ensures
            *final(self) == tick(*old(self), draw, poll),
    {
        self.pc = if self.draw_meter {
            draw
        } else {
            poll
        };
    }

    fn meter_end(&mut self, aborted: bool)
        ensures
            *final(self) == meter_ended(*old(self), aborted),
    {
        self.pc = Pc::MeterEnd;
        self.aborted = aborted;
    }

    fn paused_end(&mut self, aborted: bool)
        ensures
            *final(self) == paused_ended(*old(self), aborted),
    {
        self.aborted = aborted;
        self.pc = if !self.draw_meter {
            Pc::PausedErase
        } else if aborted {
            Pc::CloseHalt
        } else {
            Pc::Resume
        };
    }

    fn close(&mut self)
        ensures
            *final(self) == closed(*old(self)),
    {
        self.pc = if self.draw_meter {
            Pc::CloseClear
        } else {
            Pc::Finish
        };
    }

    /// Take the caller's report on the last command (see [`next`]) and
    /// return the next command.
    pub fn advance(&mut self, ev: Event) -> (c: Command)
        requires
            report_ok(*old(self), ev),
            within_limit(*old(self)),
        ensures
            *final(self) == next(*old(self), ev),
            c == command_of(*final(self)),
    {
        match (self.pc, ev) {
            (Pc::PromptStart, Event::Done) => {
                if self.interactive {
                    self.tick_to(Pc::MeterDraw, Pc::MeterPoll);
                } else {
                    self.meter_end(false);
                }
            },
            (Pc::MeterDraw, Event::Done) => self.pc = Pc::MeterPoll,
            (Pc::MeterPoll, Event::Polled(k, failed)) => match k {
                Some(Key::Abort) => self.meter_end(true),
                Some(_) => self.meter_end(false),
                None => if failed {
                    self.meter_end(false)
                } else {
                    self.tick_to(Pc::MeterDraw, Pc::MeterPoll)
                },
            },
            (Pc::MeterEnd, Event::Done) => {
                self.pc = if self.aborted {
                    Pc::Aborted
                } else if self.limit.is_some() {
                    Pc::Limit
                } else {
                    Pc::Begin
                };
            },
            (Pc::Limit, Event::Done) => self.pc = Pc::Begin,
            (Pc::Begin, Event::Done) => self.pc = Pc::Check,
            (Pc::Check, Event::Failed(f)) => {
                self.pc = if f {
                    Pc::CloseHalt
                } else {
                    Pc::Drain
                };
            },
            (Pc::Drain, Event::Drained(r)) => match r {
                None => {
                    self.pc = Pc::CloseHalt;
                    self.cut_short = true;
                },
                Some(n) => {
                    self.spooled = self.spooled + n;
                    let full = match self.limit {
                        Some(l) => self.spooled >= l,
                        None => false,
                    };
                    if full {
                        self.pc = Pc::CloseHalt;
                    } else {
                        self.tick_to(Pc::RecDraw, Pc::RecPoll);
                    }
                },
            },
            (Pc::RecDraw, Event::Done) => self.pc = Pc::RecPoll,
            (Pc::RecPoll, Event::Polled(k, _)) => {
                self.pc = match k {
                    None => Pc::Check,
                    Some(Key::Pause) => Pc::PauseHalt,
                    Some(_) => Pc::CloseHalt,
                };
            },
            (Pc::PauseHalt, Event::Done) => self.pc = Pc::PauseDrain,
            (Pc::PauseDrain, Event::Drained(r)) => match r {
                None => {
                    self.pc = Pc::CloseHalt;
                    self.cut_short = true;
                },
                Some(n) => {
                    self.spooled = self.spooled + n;
                    self.aborted = false;
                    self.pc = if self.draw_meter {
                        Pc::PausedDraw
                    } else {
                        Pc::PauseErase
                    };
                },
            },
            (Pc::PauseErase, Event::Done) => self.pc = Pc::PausePrompt,
            (Pc::PausePrompt, Event::Done) => self.tick_to(Pc::PausedDraw, Pc::PausedPoll),
            (Pc::PausedDraw, Event::Done) => self.pc = Pc::PausedPoll,
            (Pc::PausedPoll, Event::Polled(k, failed)) => match k {
                Some(Key::Abort) => self.paused_end(true),
                Some(_) => self.paused_end(false),
                None => if failed {
                    self.paused_end(false)
                } else {
                    self.tick_to(Pc::PausedDraw, Pc::PausedPoll)
                },
            },
            (Pc::PausedErase, Event::Done) => {
                self.pc = if self.aborted {
                    Pc::CloseHalt
                } else {
                    Pc::Resume
                };
            },
            (Pc::Resume, Event::Done) => self.pc = Pc::Check,
            (Pc::CloseHalt, Event::Done) => {
                if self.cut_short {
                    self.close();
                } else {
                    self.pc = Pc::CloseDrain;
                }
            },
            (Pc::CloseDrain, Event::Drained(r)) => {
                match r {
                    None => self.cut_short = true,
                    Some(n) => self.spooled = self.spooled + n,
                }
                self.close();
            },
            (Pc::CloseClear, Event::Done) => self.pc = Pc::Finish,
            _ => {},
        }
        self.command()
    }
}

/// The spool never holds more than the limit: a session that starts within
/// it stays within it, whatever the keys, as long as each drain moves no
/// more than it was allowed.
pub proof fn lemma_spool_within_limit(s: Session, ev: Event)
    requires
        within_limit(s),
        report_ok(s, ev),
    ensures
        within_limit(next(s, ev)),
{
}

/// What the device delivers while the recording is paused is dropped: from
/// the moment a pause is asked for until the recording resumes, the session
/// does not capture.
pub proof fn lemma_paused_does_not_capture(s: Session, ev: Event)
    requires
        s.pc == Pc::RecPoll,
        ev == Event::Polled(Some(Key::Pause), false),
    ensures
        ({
            let p = next(next(s, ev), Event::Done);
            &&& next(s, ev).pc == Pc::PauseHalt
            &&& !capturing(p.pc)
        }),
{
}

/// A pause drains what arrived before it, and the recording is not resumed
/// until a key is pressed: a tick with no key and a working device leaves it
/// paused and not capturing.
pub proof fn lemma_paused_waits(s: Session)
    requires
        s.pc == Pc::PausedPoll,
    ensures
        !capturing(s.pc),
        !capturing(next(s, Event::Polled(None, false)).pc),
        next(s, Event::Polled(None, false)).pc == Pc::PausedDraw || next(s, Event::Polled(None, false)).pc
            == Pc::PausedPoll,
{
}

/// Ctrl-C in the meter phase ends the session before anything is captured:
/// the meter is put away and the session aborts with nothing spooled.
pub proof fn lemma_meter_abort_records_nothing(s: Session)
    requires
        s.pc == Pc::MeterPoll,
        s.spooled == 0,
    ensures
        ({
            let e = next(s, Event::Polled(Some(Key::Abort), false));
            let a = next(e, Event::Done);
            &&& e.pc == Pc::MeterEnd
            &&& a.pc == Pc::Aborted
            &&& a.spooled == 0
            &&& command_of(a) == Command::Abort
        }),
{
}

} // verus!
