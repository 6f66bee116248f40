//! File names as argv spelled them: bytes, derived into the names a
//! conversion opens and writes; and how a failure is reported.

use vstd::prelude::*;
use vstd::string::StringSliceAdditionalSpecFns;
use vstd::utf8::encode_utf8;

use crate::container::{has_signature, parse_header, read_header, CswInfo, HeaderFault};
use crate::convert::DecodeTarget;
use crate::ui::Console;
use crate::error::{Error, Msg};
use crate::text::{push_bytes, push_str};

verus! {

/// Whether the name holds a dot anywhere.
pub open spec fn has_dot(name: Seq<u8>) -> bool {
    exists|i: int| 0 <= i < name.len() && name[i] == 46
}

/// Where the first dot is, if any.
pub open spec fn is_first_dot(name: Seq<u8>, i: int) -> bool {
    0 <= i < name.len() && name[i] == 46 && forall|k: int| 0 <= k < i ==> name[k] != 46
}

fn first_dot(name: &[u8]) -> (r: Option<usize>)
    ensures
        r matches Some(i) ==> is_first_dot(name@, i as int),
        r is None ==> !has_dot(name@),
{
    let mut i: usize = 0;
    while i < name.len()
        invariant
            i <= name@.len(),
            forall|k: int| 0 <= k < i ==> name@[k] != 46,
        decreases name@.len() - i,
    {
        if name[i] == 46 {
            return Some(i);
        }
        i = i + 1;
    }
    None
}

/// The extensions a dotless input name is tried with, in order.
pub open spec fn input_ext(k: int) -> Seq<u8> {
    if k == 0 {
        "voc".spec_bytes()
    } else if k == 1 {
        "wav".spec_bytes()
    } else if k == 2 {
        "iff".spec_bytes()
    } else {
        "out".spec_bytes()
    }
}

/// A dotless name with the `k`th input extension.
pub open spec fn input_candidate(name: Seq<u8>, k: int) -> Seq<u8> {
    name + ".".spec_bytes() + input_ext(k)
}

/// Whether `is_file` answered no for the name `c`.
pub open spec fn missed<F: Fn(&[u8]) -> bool>(is_file: F, c: Seq<u8>) -> bool {
    exists|s: &[u8]| s@ == c && #[trigger] is_file.ensures((s,), false)
}

/// Whether `is_file` answered yes for the name `c`.
pub open spec fn hit<F: Fn(&[u8]) -> bool>(is_file: F, c: Seq<u8>) -> bool {
    exists|s: &[u8]| s@ == c && #[trigger] is_file.ensures((s,), true)
}

fn input_ext_of(k: usize) -> (e: &'static str)
    requires
        k < 4,
    ensures
        e.spec_bytes() == input_ext(k as int),
{
    let e = if k == 0 {
        "voc"
    } else if k == 1 {
        "wav"
    } else if k == 2 {
        "iff"
    } else {
        "out"
    };
    proof {
        reveal_strlit("voc");
        reveal_strlit("wav");
        reveal_strlit("iff");
        reveal_strlit("out");
    }
    e
}

/// The name an encode opens: as given when it carries a dot, else the
/// first of `<name>.voc`, `.wav`, `.iff`, `.out` that `is_file` finds, and
/// `<name>.out` when it finds none. A dotless name is never opened as it
/// stands, even where a file of exactly that name is there.
pub fn resolve_input_name<F>(name: &[u8], is_file: F) -> (r: Vec<u8>) where F: Fn(&[u8]) -> bool
    requires
        forall|s: &[u8]| is_file.requires((s,)),
    ensures
        has_dot(name@) ==> r@ == name@,
        !has_dot(name@) ==> exists|k: int|
            0 <= k < 4 && r@ == #[trigger] input_candidate(name@, k) && (forall|j: int|
                0 <= j < k ==> #[trigger] missed(is_file, input_candidate(name@, j))) && (k < 3 ==> hit(
                is_file,
                r@,
            )),
{
    let mut copy: Vec<u8> = Vec::new();
    if first_dot(name).is_some() {
        push_bytes(&mut copy, name);
        return copy;
    }
    let mut k: usize = 0;
    while k < 4
        invariant
            k <= 4,
            !has_dot(name@),
            forall|s: &[u8]| is_file.requires((s,)),
            forall|j: int| 0 <= j < k ==> #[trigger] missed(is_file, input_candidate(name@, j)),
        decreases 4 - k,
    {
        let mut c: Vec<u8> = Vec::new();
        push_bytes(&mut c, name);
        push_str(&mut c, ".");
        push_str(&mut c, input_ext_of(k));
        proof {
            reveal_strlit(".");
            assert(c@ =~= input_candidate(name@, k as int));
        }
        let cs = c.as_slice();
        let found = is_file(cs);
        if found {
            proof {
                assert(cs@ == c@);
                assert(hit(is_file, c@));
            }
            return c;
        }
        proof {
            assert(cs@ == input_candidate(name@, k as int) && is_file.ensures((cs,), false));
            assert(missed(is_file, input_candidate(name@, k as int)));
        }
        k = k + 1;
    }
    let mut c: Vec<u8> = Vec::new();
    push_bytes(&mut c, name);
    push_str(&mut c, ".");
    push_str(&mut c, input_ext_of(3));
    proof {
        assert(c@ =~= input_candidate(name@, 3));
    }
    c
}

/// The `-k` keep-file: the output name less its last four bytes (or all of
/// it, when it is shorter), then `.wav`.
pub fn keep_file_name(out: &[u8]) -> (r: Vec<u8>)
    ensures
        r@ == (if out@.len() >= 4 {
            out@.take(out@.len() - 4)
        } else {
            out@
        }) + ".wav".spec_bytes(),
{
    let mut v: Vec<u8> = Vec::new();
    let n = out.len();
    let stem = if n >= 4 {
        vstd::slice::slice_subrange(out, 0, n - 4)
    } else {
        out
    };
    push_bytes(&mut v, stem);
    push_str(&mut v, ".wav");
    proof {
        if n >= 4 {
            assert(stem@ =~= out@.take(n - 4));
        }
    }
    v
}

/// Default output naming: what stands before the input's **first** dot,
/// then a dot and `ext`. The cut is over the whole path, so `a.b/w8.wav`
/// derives `a.csw`, beside the directory.
pub fn swap_ext(path: &[u8], ext: &str) -> (r: Vec<u8>)
    ensures
        has_dot(path@) ==> exists|i: int| is_first_dot(path@, i) && r@ == path@.take(i) + ".".spec_bytes() + ext.spec_bytes(),
        !has_dot(path@) ==> r@ == path@ + ".".spec_bytes() + ext.spec_bytes(),
{
    let mut v: Vec<u8> = Vec::new();
    match first_dot(path) {
        Some(i) => {
            push_bytes(&mut v, vstd::slice::slice_subrange(path, 0, i));
            proof {
                assert(path@.subrange(0, i as int) =~= path@.take(i as int));
            }
        },
        None => push_bytes(&mut v, path),
    }
    push_str(&mut v, ".");
    push_str(&mut v, ext);
    v
}

/// A given name, with a dot and `ext` added only when it has no dot.
pub fn ensure_ext(path: &[u8], ext: &str) -> (r: Vec<u8>)
    ensures
        has_dot(path@) ==> r@ == path@,
        !has_dot(path@) ==> r@ == path@ + ".".spec_bytes() + ext.spec_bytes(),
{
    let mut v: Vec<u8> = Vec::new();
    push_bytes(&mut v, path);
    if first_dot(path).is_none() {
        push_str(&mut v, ".");
        push_str(&mut v, ext);
    }
    proof {
        assert(v@ =~= if has_dot(path@) { path@ } else { path@ + ".".spec_bytes() + ext.spec_bytes() });
    }
    v
}

/// The name given, with `ext` ensured, or the name derived from the input's.
pub fn output_name(given: Option<&[u8]>, derive_from: &[u8], ext: &str) -> (r: Vec<u8>)
    ensures
        given matches Some(g) ==> (has_dot(g@) ==> r@ == g@) && (!has_dot(g@) ==> r@ == g@
            + ".".spec_bytes() + ext.spec_bytes()),
        given is None && has_dot(derive_from@) ==> exists|i: int| is_first_dot(derive_from@, i) && r@
            == derive_from@.take(i) + ".".spec_bytes() + ext.spec_bytes(),
        given is None && !has_dot(derive_from@) ==> r@ == derive_from@ + ".".spec_bytes()
            + ext.spec_bytes(),
{
    match given {
        Some(o) => ensure_ext(o, ext),
        None => swap_ext(derive_from, ext),
    }
}

/// Where a decode writes: the name given, with the target's extension
/// ensured, or the input's name *as typed* with its extension swapped.
pub fn decode_output_name(given: Option<&[u8]>, input: &[u8], target: DecodeTarget) -> (r: Vec<u8>)
    ensures
        r@ == output_name_spec(given, input@, if target == DecodeTarget::Wav {
            "wav".spec_bytes()
        } else {
            "voc".spec_bytes()
        }),
{
    let ext = crate::convert::decode_extension(target);
    let r = output_name(given, input, ext);
    proof {
        reveal_strlit("wav");
        reveal_strlit("voc");
        assert(ext.spec_bytes() == if target == DecodeTarget::Wav {
            "wav".spec_bytes()
        } else {
            "voc".spec_bytes()
        });
        lemma_output_name_unique(given, input@, ext.spec_bytes(), r@);
    }
    r
}

/// The output name as a value: the name given with `ext` ensured, or the
/// input's stem before its first dot with `ext`.
pub open spec fn output_name_spec(given: Option<&[u8]>, input: Seq<u8>, ext: Seq<u8>) -> Seq<u8> {
    match given {
        Some(g) => if has_dot(g@) {
            g@
        } else {
            g@ + ".".spec_bytes() + ext
        },
        None => if has_dot(input) {
            input.take(choose|i: int| is_first_dot(input, i)) + ".".spec_bytes() + ext
        } else {
            input + ".".spec_bytes() + ext
        },
    }
}

proof fn lemma_first_dot_unique(name: Seq<u8>, i: int, j: int)
    requires
        is_first_dot(name, i),
        is_first_dot(name, j),
    ensures
        i == j,
{
}

proof fn lemma_output_name_unique(given: Option<&[u8]>, input: Seq<u8>, ext: Seq<u8>, r: Seq<u8>)
    requires
        given matches Some(g) ==> (has_dot(g@) ==> r == g@) && (!has_dot(g@) ==> r == g@
            + ".".spec_bytes() + ext),
        given is None && has_dot(input) ==> exists|i: int| is_first_dot(input, i) && r == input.take(i)
            + ".".spec_bytes() + ext,
        given is None && !has_dot(input) ==> r == input + ".".spec_bytes() + ext,
    ensures
        r == output_name_spec(given, input, ext),
{
    if given is None && has_dot(input) {
        let i = choose|i: int| is_first_dot(input, i) && r == input.take(i) + ".".spec_bytes() + ext;
        let j = choose|i: int| is_first_dot(input, i);
        lemma_first_dot_unique(input, i, j);
    }
}

/// The name a decode opens first: a dotless name with `.csw` appended, and
/// any other name as typed. The bare file behind a dotless name is never
/// tried.
pub fn first_csw_candidate(name: &[u8]) -> (r: Vec<u8>)
    ensures
        has_dot(name@) ==> r@ == name@,
        !has_dot(name@) ==> r@ == name@ + ".csw".spec_bytes(),
{
    let mut v: Vec<u8> = Vec::new();
    push_bytes(&mut v, name);
    if first_dot(name).is_none() {
        push_str(&mut v, ".csw");
    }
    proof {
        assert(v@ =~= if has_dot(name@) { name@ } else { name@ + ".csw".spec_bytes() });
    }
    v
}

/// The name a decode tries second: the first with `.csw` appended.
pub fn second_csw_candidate(first: &[u8]) -> (r: Vec<u8>)
    ensures
        r@ == first@ + ".csw".spec_bytes(),
{
    let mut v: Vec<u8> = Vec::new();
    push_bytes(&mut v, first);
    push_str(&mut v, ".csw");
    v
}

/// The report for an input that is not a CSW at all, naming the second
/// name tried: `csw -d out.wav` reports "out.wav.csw".
pub fn not_found(second: &[u8]) -> (e: Error)
    ensures
        e matches Error::Input(m, c) && c == 254 && m.bytes() == "Input file '".spec_bytes() + second@
            + "' not found or invalid file type.".spec_bytes(),
{
    let mut v: Vec<u8> = Vec::new();
    push_str(&mut v, "Input file '");
    push_bytes(&mut v, second);
    push_str(&mut v, "' not found or invalid file type.");
    Error::Input(Msg::from_bytes(v), 254)
}

/// One candidate name of a CSW input weighed, `raw` being its bytes when it
/// could be read: the header it holds, or else what a run reports if no
/// later candidate holds one, from `malformed`, what the earlier ones left.
/// The first file that opens with the CSW signature and still holds no
/// header keeps its own error; a file that could not be read, or that is
/// no CSW at all, leaves `malformed` as it was.
pub fn weigh_csw_candidate(raw: Option<&[u8]>, malformed: Option<Error>) -> (r: Result<
    CswInfo,
    Option<Error>,
>)
    ensures
        raw is None ==> r == Err::<CswInfo, Option<Error>>(malformed),
        raw matches Some(b) ==> match parse_header(b@) {
            Ok(m) => r matches Ok(info) && info.model() == m,
            Err(HeaderFault::BadSignature) => r == Err::<CswInfo, Option<Error>>(malformed),
            Err(_) => r matches Err(k) && (malformed is Some ==> k == malformed) && (malformed is None
                ==> k matches Some(Error::Silent(_))),
        },
{
    match raw {
        None => Err(malformed),
        Some(b) => match read_header(b) {
            Ok(info) => Ok(info),
            Err(e) => match malformed {
                Some(m) => Err(Some(m)),
                None => {
                    if has_signature(b) {
                        Err(Some(e))
                    } else {
                        Err(None)
                    }
                },
            },
        },
    }
}

/// The report when no candidate holds a CSW header: the malformed CSW's own
/// error if one was met, and otherwise [`not_found`] naming the second name
/// tried.
pub fn csw_not_found(malformed: Option<Error>, second: &[u8]) -> (e: Error)
    ensures
        malformed matches Some(m) ==> e == m,
        malformed is None ==> (e matches Error::Input(m, c) && c == 254 && m.bytes() == "Input file '".spec_bytes()
            + second@ + "' not found or invalid file type.".spec_bytes()),
{
    match malformed {
        Some(m) => m,
        None => not_found(second),
    }
}

/// The process exit code for a failure: a silent abandon exits 255, a
/// refusal carrying its own number exits with it, and every other failure
/// exits 1.
pub fn exit_code(e: &Error) -> (c: u8)
    ensures
        e is Silent ==> c == 255,
        e matches Error::Input(_, code) ==> c == code,
        e matches Error::Rejected(_, code) ==> c == code,
        !(e is Silent) && !(e is Input) && !(e is Rejected) ==> c == 1,
{
    match e {
        Error::Silent(_) => 255,
        Error::Input(_, code) => *code,
        Error::Rejected(_, code) => *code,
        _ => 1,
    }
}

/// Whether a failure renders under the "ERROR: " prefix, not "FATAL ERROR: ".
pub fn is_input(e: &Error) -> (r: bool)
    ensures
        r == e is Input,
{
    match e {
        Error::Input(_, _) => true,
        _ => false,
    }
}

/// The message body a failure prints after its prefix, as the bytes the
/// console writes: the text of a string, the bytes of a message, the
/// second text of a checked refusal.
pub fn message_bytes(e: &Error) -> (v: Vec<u8>)
    ensures
        e matches Error::Format(m) ==> v@ == encode_utf8(m@),
        e matches Error::Unsupported(m) ==> v@ == encode_utf8(m@),
        e matches Error::Refused(m) ==> v@ == encode_utf8(m@),
        e matches Error::Silent(m) ==> v@ == encode_utf8(m@),
        e matches Error::CheckedFatal(_, m) ==> v@ == encode_utf8(m@),
        e matches Error::Rejected(m, _) ==> v@ == encode_utf8(m@),
        e matches Error::Fatal(m) ==> v@ == m.bytes(),
        e matches Error::FatalBlock(m) ==> v@ == m.bytes(),
        e matches Error::Input(m, _) ==> v@ == m.bytes(),
{
    let mut v: Vec<u8> = Vec::new();
    match e {
        Error::Io(io) => {
            let t = crate::container::io_error_text(io);
            push_str(&mut v, t.as_str());
        },
        Error::Format(m) => push_str(&mut v, m.as_str()),
        Error::Unsupported(m) => push_str(&mut v, m.as_str()),
        Error::Refused(m) => push_str(&mut v, m.as_str()),
        Error::Silent(m) => push_str(&mut v, m.as_str()),
        Error::CheckedFatal(_, m) => push_str(&mut v, m.as_str()),
        Error::Rejected(m, _) => push_str(&mut v, m.as_str()),
        Error::Fatal(m) => push_bytes(&mut v, m.as_bytes()),
        Error::FatalBlock(m) => push_bytes(&mut v, m.as_bytes()),
        Error::Input(m, _) => push_bytes(&mut v, m.as_bytes()),
    }
    v
}

/// The lines a failed run prints under its banner, each kind of failure in
/// its own framing: a refusal completes the open checking line (a checked
/// one with a FATAL line under it), a block prints flat, a bare refusal
/// stands on a line of its own, a silent abandon prints nothing, an input
/// error prints under "ERROR: ", and anything else under "FATAL ERROR: ".
pub fn report_failure(ui: &Console, e: &Error, w: &mut Vec<u8>)
    ensures
        e matches Error::Rejected(m, _) ==> final(w)@ == old(w)@ + encode_utf8(m@) + seq![10u8],
        e matches Error::CheckedFatal(c, m) ==> final(w)@ == old(w)@ + encode_utf8(c@) + seq![10u8]
            + "\rFATAL ERROR: ".spec_bytes() + encode_utf8(m@) + "\n\n".spec_bytes(),
        e matches Error::FatalBlock(m) ==> final(w)@ == old(w)@ + "FATAL ERROR: ".spec_bytes() + m.bytes()
            + "\n".spec_bytes(),
        e matches Error::Refused(m) ==> final(w)@ == old(w)@ + "\n".spec_bytes() + encode_utf8(m@)
            + "\n\n".spec_bytes(),
        e is Silent ==> final(w)@ == old(w)@,
        e matches Error::Input(m, _) ==> final(w)@ == old(w)@ + "ERROR: ".spec_bytes() + m.bytes()
            + "\n".spec_bytes(),
        e matches Error::Fatal(m) ==> final(w)@ == old(w)@ + "\rFATAL ERROR: ".spec_bytes() + m.bytes()
            + "\n\n".spec_bytes(),
        e matches Error::Format(m) ==> final(w)@ == old(w)@ + "\rFATAL ERROR: ".spec_bytes() + encode_utf8(
            m@,
        ) + "\n\n".spec_bytes(),
        e matches Error::Unsupported(m) ==> final(w)@ == old(w)@ + "\rFATAL ERROR: ".spec_bytes()
            + encode_utf8(m@) + "\n\n".spec_bytes(),
        e is Io ==> exists|m: Seq<u8>| final(w)@ == old(w)@ + "\rFATAL ERROR: ".spec_bytes() + m
            + "\n\n".spec_bytes(),
{
    match e {
        Error::Rejected(m, _) => ui.checking_completion(w, m.as_str()),
        Error::CheckedFatal(c, m) => {
            ui.checking_completion(w, c.as_str());
            ui.fatal(w, m.as_str().as_bytes());
        },
        Error::FatalBlock(m) => ui.fatal_block(w, m.as_bytes()),
        Error::Refused(m) => ui.refused(w, m.as_str()),
        Error::Silent(_) => {},
        _ => {
            let msg = message_bytes(e);
            if is_input(e) {
                ui.error(w, &msg);
            } else {
                ui.fatal(w, &msg);
            }
        },
    }
}

} // verus!
