use std::collections::VecDeque;

use csw::convert::clock;
use csw::error::Error;
use csw::session::{
    key_meaning, rate_asked, rate_as_typed, recording_limit, Command, Event, Key, Pc, Session,
    Text,
};
use csw::term::decode;
use csw::ui::{Console, ERASE_PAUSED, ERASE_START, PROMPT_PAUSED, PROMPT_START};

/// A session run against a scripted keyboard: each poll first delivers that
/// many samples (dropped unless capturing), then answers with the key.
struct Bench {
    ui: Console,
    out: Vec<u8>,
    keys: VecDeque<(usize, Option<Key>)>,
    buffer: usize,
    capturing: bool,
    spooled: u64,
    rate: u32,
}

impl Bench {
    fn new(keys: Vec<(usize, Option<Key>)>) -> Bench {
        Bench {
            ui: Console::new(false),
            out: Vec::new(),
            keys: keys.into(),
            buffer: 0,
            capturing: false,
            spooled: 0,
            rate: 32258,
        }
    }

    fn run(&mut self, mut s: Session) -> Result<u64, Error> {
        let mut cmd = s.command();
        loop {
            let ev = match cmd {
                Command::Text(t) => {
                    let text = match t {
                        Text::PromptStart => PROMPT_START,
                        Text::EraseStart => ERASE_START,
                        Text::ErasePaused => ERASE_PAUSED,
                        Text::PromptPaused => PROMPT_PAUSED,
                    };
                    self.ui.transient(&mut self.out, text);
                    Event::Done
                }
                Command::Meter(_) | Command::Clear => Event::Done,
                Command::ShowLimit => {
                    let limit = s.limit.unwrap();
                    let line = format!(
                        "Max recording time is {} ({} bytes).",
                        clock((limit / u64::from(self.rate)) as i64),
                        limit
                    );
                    self.ui.status_raw(&mut self.out, line.as_bytes());
                    Event::Done
                }
                Command::Begin => {
                    self.buffer = 0;
                    self.capturing = true;
                    Event::Done
                }
                Command::Resume => {
                    self.capturing = true;
                    Event::Done
                }
                Command::Halt => {
                    self.capturing = false;
                    Event::Done
                }
                Command::Check => Event::Failed(false),
                Command::Drain(room) => {
                    let take = (self.buffer as u64).min(room);
                    self.buffer = 0;
                    self.spooled += take;
                    Event::Drained(Some(take))
                }
                Command::Poll => {
                    let (n, key) = self
                        .keys
                        .pop_front()
                        .expect("the scripted keyboard ran out of keys");
                    if self.capturing {
                        self.buffer += n;
                    }
                    Event::Polled(key, false)
                }
                Command::Finish(_) => return Ok(self.spooled),
                Command::Abort => return Err(Error::Silent(String::from("Aborted"))),
            };
            cmd = s.advance(ev);
        }
    }
}

fn keyed(limit: Option<u64>) -> Session {
    Session::start(true, false, true, limit).unwrap()
}

#[test]
fn a_session_with_no_meter_writes_the_prompt_and_the_run_that_blanks_it() {
    let mut b = Bench::new(vec![]);
    let s = Session::start(false, false, true, Some(0)).unwrap();
    assert_eq!(b.run(s).unwrap(), 0);
    assert_eq!(
        b.out,
        b"* Press any key to start conversion when done with volume meter...\
          \r\t\t\t\t\t\t\t\t\t\r\
          \xfe Max recording time is 00:00 (0 bytes).\n"
            .to_vec()
    );
}

#[test]
fn a_session_with_no_keys_and_no_time_is_refused() {
    match Session::start(false, true, false, None) {
        Err(Error::Fatal(m)) => assert!(m.as_bytes().starts_with(b"DirectMode needs a terminal")),
        other => panic!("{other:?}"),
    }
}

#[test]
fn a_drain_stops_at_the_limit() {
    let mut s = keyed(Some(4));
    s.pc = Pc::Drain;
    assert_eq!(s.command(), Command::Drain(4));
    s.advance(Event::Drained(Some(3)));
    assert_eq!(s.spooled, 3);
    s.pc = Pc::Drain;
    assert_eq!(s.command(), Command::Drain(1));
    s.advance(Event::Drained(Some(1)));
    assert_eq!(s.spooled, 4);
    assert_eq!(s.pc, Pc::CloseHalt);
    s.pc = Pc::Drain;
    assert_eq!(s.command(), Command::Drain(0));
}

#[test]
fn every_drain_stops_at_the_limit() {
    let run = |limit: u64, keys: Vec<(usize, Option<Key>)>| {
        let mut b = Bench::new(keys);
        b.run(keyed(Some(limit))).unwrap()
    };
    assert_eq!(
        run(4, vec![(0, Some(Key::Stop)), (3, None), (3, None), (3, None)]),
        4
    );
    assert_eq!(
        run(
            7,
            vec![
                (0, Some(Key::Stop)),
                (3, None),
                (3, None),
                (3, Some(Key::Pause)),
                (0, Some(Key::Stop)),
            ]
        ),
        7
    );
    assert_eq!(
        run(4, vec![(0, Some(Key::Stop)), (3, None), (3, Some(Key::Stop))]),
        4
    );
}

#[test]
fn samples_that_arrive_while_paused_are_dropped() {
    let mut b = Bench::new(vec![
        (0, Some(Key::Stop)),
        (3, Some(Key::Pause)),
        (5, None),
        (0, Some(Key::Stop)),
        (0, Some(Key::Stop)),
    ]);
    assert_eq!(b.run(keyed(None)).unwrap(), 3);
}

#[test]
fn a_pause_on_a_stream_is_blanked_on_both_sides() {
    let keys = [
        None,
        Some(Key::Stop),
        None,
        Some(Key::Pause),
        None,
        Some(Key::Stop),
        Some(Key::Stop),
    ];
    let mut b = Bench::new(keys.iter().map(|&k| (0, k)).collect());
    b.run(keyed(None)).unwrap();
    assert_eq!(
        b.out,
        b"* Press any key to start conversion when done with volume meter...\
          \r\t\t\t\t\t\t\t\t\t\r\
          \r\t\t\t\t\t\t\t\t\r* PAUSED, press any key to continue...\
          \r\t\t\t\t\t\t\t\t\r"
            .to_vec()
    );
}

#[test]
fn ctrl_c_in_the_meter_phase_leaves_through_the_blanking_run() {
    let mut b = Bench::new(vec![(0, Some(Key::Abort))]);
    assert!(b.run(keyed(None)).is_err());
    assert_eq!(
        b.out,
        b"* Press any key to start conversion when done with volume meter...\
          \r\t\t\t\t\t\t\t\t\t\r"
            .to_vec()
    );
}

#[test]
fn ctrl_c_while_paused_keeps_what_was_spooled() {
    let mut b = Bench::new(vec![
        (0, Some(Key::Stop)),
        (6, Some(Key::Pause)),
        (0, Some(Key::Abort)),
    ]);
    assert_eq!(b.run(keyed(None)).unwrap(), 6);
}

#[test]
fn a_terminal_session_draws_the_meter_in_place_of_the_prompts() {
    let s = Session::start(true, true, false, None).unwrap();
    assert_eq!(s.pc, Pc::MeterDraw);
    let mut b = Bench::new(vec![(0, Some(Key::Stop)), (2, Some(Key::Stop))]);
    assert_eq!(b.run(s).unwrap(), 2);
    assert!(b.out.is_empty());
}

#[test]
fn a_spool_write_that_fails_cuts_the_recording_short() {
    let mut s = keyed(None);
    s.pc = Pc::Drain;
    let c = s.advance(Event::Drained(None));
    assert_eq!(c, Command::Halt);
    assert_eq!(s.advance(Event::Done), Command::Finish(true));
}

#[test]
fn the_rate_asked_is_clamped_into_the_card_range() {
    assert_eq!(rate_asked(Some(-1000)), 5000);
    assert_eq!(rate_asked(Some(200000)), 45454);
    assert_eq!(rate_asked(Some(100)), 5000);
    assert_eq!(rate_asked(Some(0)), 32258);
    assert_eq!(rate_asked(None), 32258);
    assert_eq!(rate_asked(Some(44100)), 44100);
    assert_eq!(rate_as_typed(Some(200000)), 200000);
    assert_eq!(rate_as_typed(Some(0)), 32258);
}

#[test]
fn the_limit_is_the_smaller_budget() {
    assert_eq!(recording_limit(Some(10), Some(4)), Some(4));
    assert_eq!(recording_limit(Some(3), Some(4)), Some(3));
    assert_eq!(recording_limit(None, Some(4)), Some(4));
    assert_eq!(recording_limit(Some(9), None), Some(9));
    assert_eq!(recording_limit(None, None), None);
}

#[test]
fn p_pauses_ctrl_c_aborts_and_anything_else_stops() {
    assert_eq!(key_meaning(&decode(b"p")), Key::Pause);
    assert_eq!(key_meaning(&decode(b"P")), Key::Pause);
    assert_eq!(key_meaning(&decode(&[0x03])), Key::Abort);
    assert_eq!(key_meaning(&decode(&[0x10])), Key::Stop);
    assert_eq!(key_meaning(&decode(b"\x1b[A")), Key::Stop);
    assert_eq!(key_meaning(&decode(b"q")), Key::Stop);
}
