//! The verification pipe: its name, the endpoint id that triggers loading the APOs, and
//! the framing of the messages the APOs send (one line each).
use vstd::prelude::*;
use vstd::utf8::{decode_utf8, valid_utf8};
use crate::text::{chars_of, push_str, seq_eq, string_of, trim, trim_exec};

verus! {

/// Where `install --verify` reports its events: standard output, and this file too when
/// one is given.
pub struct EventSink {
    pub progress_file: Option<String>,
}

impl EventSink {
    pub fn new(progress_file: Option<String>) -> (r: Self)
        ensures
            r.progress_file == progress_file,
    {
        EventSink { progress_file }
    }
}

/// The pipe's name, which the driver finds in the registry.
pub open spec fn pipe_name() -> Seq<char> {
    "VxAPODeviceTest"@
}

pub fn pipe_name_exec() -> (r: &'static str)
    ensures
        r@ == pipe_name(),
{
    "VxAPODeviceTest"
}

/// The full path of the verification pipe.
pub fn pipe_path() -> (r: String)
    ensures
        r@ == "\\\\.\\pipe\\"@ + pipe_name(),
{
    let mut out = chars_of("\\\\.\\pipe\\");
    push_str(&mut out, pipe_name_exec());
    string_of(&out)
}

/// The device id that opens an endpoint for the load test: `{flow}.{guid}` with the
/// capture or render data-flow prefix.
pub open spec fn endpoint_device_id_spec(guid: Seq<char>, is_capture: bool) -> Seq<char> {
    "{"@ + (if is_capture {
        "0.0.1.00000000"@
    } else {
        "0.0.0.00000000"@
    }) + "}."@ + guid
}

pub fn endpoint_device_id(guid: &str, is_capture: bool) -> (r: String)
    ensures
        r@ == endpoint_device_id_spec(guid@, is_capture),
{
    let mut out = chars_of("{");
    if is_capture {
        push_str(&mut out, "0.0.1.00000000");
    } else {
        push_str(&mut out, "0.0.0.00000000");
    }
    push_str(&mut out, "}.");
    push_str(&mut out, guid);
    string_of(&out)
}

/// Whether `t` occurs in `s`.
pub open spec fn contains_text(s: Seq<char>, t: Seq<char>) -> bool {
    exists|i: int| 0 <= i && i + t.len() <= s.len() && #[trigger] s.subrange(i, i + t.len()) == t
}

/// Whether an endpoint's registry path is under the capture branch (false when the path
/// is unknown).
pub fn is_capture_path(path: &Option<String>) -> (r: bool)
    ensures
        r == match path {
            Some(p) => contains_text(p@, "Capture"@),
            None => false,
        },
{
    match path {
        Some(p) => {
            let s = chars_of(p.as_str());
            let t = chars_of("Capture");
            proof {
                reveal_strlit("Capture");
            }
            let mut i: usize = 0;
            while i <= s.len() && s.len() - i >= t.len()
                invariant
                    i <= s.len(),
                    s@ == p@,
                    t@ == "Capture"@,
                    t@.len() == 7,
                    match path {
                        Some(q) => q@ == p@,
                        None => false,
                    },
                    forall|j: int| 0 <= j < i ==> #[trigger] s@.subrange(j, j + t@.len()) != t@,
                decreases s.len() - i,
            {
                let mut w: Vec<char> = Vec::new();
                let mut k: usize = 0;
                while k < t.len()
                    invariant
                        k <= t.len(),
                        i + t.len() <= s.len(),
                        w@ == s@.subrange(i as int, i + k),
                    decreases t.len() - k,
                {
                    w.push(s[i + k]);
                    k += 1;
                    assert(w@ =~= s@.subrange(i as int, i + k));
                }
                if seq_eq(&w, &t) {
                    assert(p@.subrange(i as int, i + "Capture"@.len()) == "Capture"@);
                    assert(contains_text(p@, "Capture"@));
                    return true;
                }
                i += 1;
            }
            proof {
                if contains_text(p@, "Capture"@) {
                    let j = choose|j: int|
                        0 <= j && j + t@.len() <= s@.len() && #[trigger] s@.subrange(j, j + t@.len())
                            == t@;
                    assert(s@.subrange(j, j + t@.len()) != t@);
                }
            }
            false
        },
        None => false,
    }
}

/// `String::from_utf8_lossy`: the text of some bytes, invalid sequences replaced.
pub uninterp spec fn utf8_lossy(b: Seq<u8>) -> Seq<char>;

/// Calls `String::from_utf8_lossy`.  Claimed: the result depends on the bytes alone
/// (named `utf8_lossy`), and bytes that are valid UTF-8 are decoded as such.  What
/// replaces an invalid sequence is left unsaid.
#[verifier::external_body]
fn lossy_text(b: &[u8]) -> (r: String)
    ensures
        r@ == utf8_lossy(b@),
        valid_utf8(b@) ==> r@ == decode_utf8(b@),
{
    String::from_utf8_lossy(b).into_owned()
}

/// The index of the first newline byte.
pub open spec fn newline_at(b: Seq<u8>) -> Option<int>
    decreases b.len(),
{
    if b.len() == 0 {
        None
    } else if b[0] == 10 {
        Some(0)
    } else {
        match newline_at(b.drop_first()) {
            Some(i) => Some(i + 1),
            None => None,
        }
    }
}

/// The messages in a byte buffer and what is left of it: each complete line (up to and
/// including its newline) is decoded, trimmed, and kept unless empty; the bytes after the
/// last newline stay for later.
pub open spec fn pipe_lines(b: Seq<u8>) -> (Seq<Seq<char>>, Seq<u8>)
    decreases b.len(),
{
    match newline_at(b) {
        None => (seq![], b),
        Some(p) => {
            if 0 <= p < b.len() {
                let s = trim(utf8_lossy(b.take(p + 1)));
                let (rest, left) = pipe_lines(b.skip(p + 1));
                (if s.len() > 0 {
                    seq![s] + rest
                } else {
                    rest
                }, left)
            } else {
                (seq![], b)
            }
        },
    }
}

proof fn lemma_newline_at(b: Seq<u8>, i: int)
    requires
        0 <= i <= b.len(),
        forall|j: int| 0 <= j < i ==> b[j] != 10,
    ensures
        i < b.len() && b[i] == 10 ==> newline_at(b) == Some(i),
        i == b.len() ==> newline_at(b) is None,
    decreases i,
{
    if i > 0 {
        let r = b.drop_first();
        assert forall|j: int| 0 <= j < i - 1 implies r[j] != 10 by {
            assert(r[j] == b[j + 1]);
        }
        if i < b.len() {
            assert(r[i - 1] == b[i]);
        }
        lemma_newline_at(r, i - 1);
    }
}

pub open spec fn string_views(v: Seq<String>) -> Seq<Seq<char>> {
    v.map_values(|s: String| s@)
}

/// Takes the complete messages out of `buf`, leaving the unfinished tail in it.
pub fn take_pipe_lines(buf: &mut Vec<u8>) -> (r: Vec<String>)
    ensures
        (string_views(r@), final(buf)@) == pipe_lines(old(buf)@),
{
    let ghost b = buf@;
    let mut out: Vec<String> = Vec::new();
    let mut start: usize = 0;
    let mut i: usize = 0;
    assert(b.skip(0) =~= b);
    assert(string_views(out@) =~= Seq::<Seq<char>>::empty());
    while i < buf.len()
        invariant
            b == buf@,
            start <= i <= buf.len(),
            forall|j: int| start <= j < i ==> b[j] != 10,
            pipe_lines(b).0 == string_views(out@) + pipe_lines(b.skip(start as int)).0,
            pipe_lines(b).1 == pipe_lines(b.skip(start as int)).1,
        decreases buf.len() - i,
    {
        if buf[i] == 10 {
            let ghost t = b.skip(start as int);
            proof {
                assert forall|j: int| 0 <= j < i - start implies t[j] != 10 by {
                    assert(t[j] == b[start + j]);
                }
                assert(t[i - start] == b[i as int]);
                lemma_newline_at(t, i - start);
                assert(t.skip(i - start + 1) =~= b.skip(i + 1));
                assert(t.take(i - start + 1) =~= b.subrange(start as int, i + 1));
            }
            let mut line: Vec<u8> = Vec::new();
            let mut k: usize = start;
            while k <= i
                invariant
                    b == buf@,
                    start <= k <= i + 1,
                    i < buf.len(),
                    line@ == b.subrange(start as int, k as int),
                decreases i + 1 - k,
            {
                line.push(buf[k]);
                k += 1;
                assert(line@ =~= b.subrange(start as int, k as int));
            }
            let text = lossy_text(line.as_slice());
            let tc = chars_of(text.as_str());
            let trimmed = trim_exec(&tc);
            if trimmed.len() > 0 {
                let ghost before = string_views(out@);
                out.push(string_of(&trimmed));
                assert(string_views(out@) =~= before.push(trimmed@));
                assert(string_views(out@) + pipe_lines(b.skip(i + 1)).0 =~= before + (seq![
                    trimmed@,
                ] + pipe_lines(b.skip(i + 1)).0));
            }
            start = i + 1;
        }
        i += 1;
    }
    proof {
        let t = b.skip(start as int);
        assert forall|j: int| 0 <= j < t.len() implies t[j] != 10 by {
            assert(t[j] == b[start + j]);
        }
        lemma_newline_at(t, t.len() as int);
    }
    let mut left: Vec<u8> = Vec::new();
    let mut k: usize = start;
    while k < buf.len()
        invariant
            b == buf@,
            start <= k <= buf.len(),
            left@ == b.subrange(start as int, k as int),
        decreases buf.len() - k,
    {
        left.push(buf[k]);
        k += 1;
        assert(left@ =~= b.subrange(start as int, k as int));
    }
    assert(left@ =~= b.skip(start as int));
    assert(string_views(out@) + Seq::<Seq<char>>::empty() =~= string_views(out@));
    *buf = left;
    out
}

} // verus!
