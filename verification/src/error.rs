//! The crate's error type.

use vstd::prelude::*;
use vstd::string::StringSliceAdditionalSpecFns;

verus! {

/// The I/O error of std, carried through [`Error::Io`] unopened.
#[verifier::external_type_specification]
#[verifier::external_body]
pub struct ExIoError(std::io::Error);

/// A message carrying bytes from the command line: a switch token or a file
/// name as argv spelled it. Argv is bytes, and the lines that quote it print
/// those bytes back unchanged.
#[derive(Debug)]
pub struct Msg(Vec<u8>);

impl Msg {
    /// The message's bytes.
    pub closed spec fn bytes(&self) -> Seq<u8> {
        self.0@
    }

    pub fn as_bytes(&self) -> (b: &[u8])
        ensures
            b@ == self.bytes(),
    {
        self.0.as_slice()
    }

    /// Whether the message opens with `prefix`.
    pub fn starts_with(&self, prefix: &str) -> (r: bool)
        ensures
            r == (prefix.spec_bytes().len() <= self.bytes().len() && self.bytes().subrange(
                0,
                prefix.spec_bytes().len() as int,
            ) == prefix.spec_bytes()),
    {
        let p = prefix.as_bytes();
        if p.len() > self.0.len() {
            return false;
        }
        let mut i: usize = 0;
        while i < p.len()
            invariant
                i <= p.len() <= self.0@.len(),
                p@ == prefix.spec_bytes(),
                forall|k: int| 0 <= k < i ==> self.0@[k] == p@[k],
            decreases p.len() - i,
        {
            if self.0[i] != p[i] {
                proof {
                    assert(self.0@.subrange(0, p.len() as int)[i as int] != p@[i as int]);
                }
                return false;
            }
            i = i + 1;
        }
        proof {
            assert(self.0@.subrange(0, p.len() as int) =~= p@);
        }
        true
    }

    /// A message from bytes, kept as they are.
    pub fn from_bytes(v: Vec<u8>) -> (m: Msg)
        ensures
            m.bytes() == v@,
    {
        Msg(v)
    }

    /// A message from text: its UTF-8 bytes.
    pub fn from_text(s: &str) -> (m: Msg)
        ensures
            m.bytes() == s.spec_bytes(),
    {
        let b = s.as_bytes();
        let mut v: Vec<u8> = Vec::new();
        crate::text::push_bytes(&mut v, b);
        Msg(v)
    }
}

#[derive(Debug)]
pub enum Error {
    /// Underlying I/O failure.
    Io(std::io::Error),
    /// The input did not match the expected container or format.
    Format(String),
    /// A request this build or the container cannot carry out.
    Unsupported(String),
    /// A pre-formatted fatal message shown verbatim after "FATAL ERROR: ".
    Fatal(Msg),
    /// A message shown verbatim after "ERROR: " for a CSW whose header was
    /// already described on the console; the byte is the exit code.
    Input(Msg, u8),
    /// A refusal that lands on the open "Checking input file..." line: the
    /// string is printed there in place of "ok!"; the byte is the exit code.
    Rejected(String, u8),
    /// A refusal that completes the checking line with the first string and
    /// is followed by a FATAL line carrying the second.
    CheckedFatal(String, String),
    /// A fatal message of several lines, printed flat: no leading CR and no
    /// blank line after it.
    FatalBlock(Msg),
    /// A refusal printed as a bare line, with no prefix and no checking line
    /// before it: how a VOC that cannot be read is turned down.
    Refused(String),
    /// A failure reported by saying nothing at all: the banner is printed,
    /// the run is abandoned, and the output file is left empty. The message
    /// is carried for tests, never printed.
    Silent(String),
}

pub type Result<T> = std::result::Result<T, Error>;

} // verus!
