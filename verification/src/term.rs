//! What DirectMode asks of a keypress: the letter typed, or Ctrl with it.
//! No escape sequence is parsed: an arrow key and a letter are the same
//! answer.

use vstd::prelude::*;

verus! {

/// A keypress, reduced to what DirectMode asks of it.
#[derive(Debug, Clone, Copy, PartialEq, Eq)]
pub struct KeyPress {
    /// The character typed, lowercased, or `None` for anything that is not
    /// one (a function key, an escape sequence, a control code other than
    /// those of the letters).
    pub ch: Option<char>,
    /// Ctrl was held. Only Ctrl-C is acted on, and only to stop.
    pub ctrl: bool,
}

impl KeyPress {
    /// Ctrl-C, which raw mode would otherwise swallow.
    pub fn is_interrupt(&self) -> (r: bool)
        ensures
            r == (self.ctrl && self.ch == Some('c')),
    {
        self.ctrl && match self.ch {
            Some(c) => c == 'c',
            None => false,
        }
    }

    /// The key that pauses, in either case.
    pub fn is(&self, want: char) -> (r: bool)
        ensures
            r == (!self.ctrl && self.ch == Some(want)),
    {
        !self.ctrl && match self.ch {
            Some(c) => c == want,
            None => false,
        }
    }
}

/// The keypress a run of bytes delivered together in raw mode is: a lone
/// control code from 0x01 to 0x1A is Ctrl with the letter it is typed with;
/// a lone printable ASCII byte is that character, lower-cased; anything else
/// (an escape sequence, a UTF-8 character, a space) is a key and no letter.
pub open spec fn key_of(bytes: Seq<u8>) -> KeyPress {
    let first = bytes[0];
    if 0x01 <= first <= 0x1a && bytes.len() == 1 {
        KeyPress { ch: Some((first + 0x60) as char), ctrl: true }
    } else if bytes.len() == 1 && 0x21 <= first <= 0x7e {
        KeyPress {
            ch: Some(
                (if 0x41 <= first <= 0x5a {
                    first + 0x20
                } else {
                    first as int
                }) as char,
            ),
            ctrl: false,
        }
    } else {
        KeyPress { ch: None, ctrl: false }
    }
}

/// One keypress from the bytes raw mode delivered for it (see [`key_of`]).
pub fn decode(bytes: &[u8]) -> (k: KeyPress)
    requires
        bytes@.len() >= 1,
    ensures
        k == key_of(bytes@),
{
    let first = bytes[0];
    if 0x01 <= first && first <= 0x1a && bytes.len() == 1 {
        return KeyPress { ch: Some((first + 0x60) as char), ctrl: true };
    }
    if bytes.len() == 1 && 0x21 <= first && first <= 0x7e {
        let lower = if 0x41 <= first && first <= 0x5a {
            first + 0x20
        } else {
            first
        };
        return KeyPress { ch: Some(lower as char), ctrl: false };
    }
    KeyPress { ch: None, ctrl: false }
}

} // verus!
