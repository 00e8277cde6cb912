//! JSON text helpers: string escaping, and reading one string field of a JSON object.
use vstd::prelude::*;
use crate::text::{chars_of, digit, hex, push_hex_padded, push_str, string_of, zero_pad};

verus! {

/// The escape sequence written for one character inside a JSON string.
pub open spec fn escape_char(c: char) -> Seq<char> {
    if c == '"' {
        "\\\""@
    } else if c == '\\' {
        "\\\\"@
    } else if c == '\n' {
        "\\n"@
    } else if c == '\r' {
        "\\r"@
    } else if c == '\t' {
        "\\t"@
    } else if (c as u32) < 0x20 {
        "\\u"@ + zero_pad(hex(c as u32 as nat), 4)
    } else {
        seq![c]
    }
}

/// The escaped form of a whole string.
pub open spec fn json_escaped(s: Seq<char>) -> Seq<char>
    decreases s.len(),
{
    if s.len() == 0 {
        seq![]
    } else {
        json_escaped(s.drop_last()) + escape_char(s.last())
    }
}

/// Appends the JSON escape of `c`.
pub fn push_escaped_char(out: &mut Vec<char>, c: char)
    ensures
        final(out)@ == old(out)@ + escape_char(c),
{
    if c == '"' {
        push_str(out, "\\\"");
    } else if c == '\\' {
        push_str(out, "\\\\");
    } else if c == '\n' {
        push_str(out, "\\n");
    } else if c == '\r' {
        push_str(out, "\\r");
    } else if c == '\t' {
        push_str(out, "\\t");
    } else if (c as u32) < 0x20 {
        push_str(out, "\\u");
        let ghost mid = out@;
        push_hex_padded(out, c as u32 as u64, 4);
        assert(out@ =~= old(out)@ + escape_char(c));
    } else {
        out.push(c);
        assert(out@ =~= old(out)@ + escape_char(c));
    }
}

/// Appends the JSON escape of every character of `s`.
pub fn push_escaped(out: &mut Vec<char>, s: &Vec<char>)
    ensures
        final(out)@ == old(out)@ + json_escaped(s@),
{
    let ghost start = out@;
    let mut i: usize = 0;
    assert(s@.take(0) =~= Seq::<char>::empty());
    assert(start + json_escaped(Seq::<char>::empty()) =~= start);
    while i < s.len()
        invariant
            i <= s.len(),
            out@ == start + json_escaped(s@.take(i as int)),
        decreases s.len() - i,
    {
        push_escaped_char(out, s[i]);
        assert(s@.take(i + 1).drop_last() =~= s@.take(i as int));
        i += 1;
        assert(out@ =~= start + json_escaped(s@.take(i as int)));
    }
    assert(s@.take(s.len() as int) =~= s@);
}

/// Escapes a string for use between the quotes of a JSON string.
pub fn json_escape(s: &str) -> (r: String)
    ensures
        r@ == json_escaped(s@),
{
    let cs = chars_of(s);
    let mut out: Vec<char> = Vec::new();
    push_escaped(&mut out, &cs);
    assert(out@ =~= json_escaped(s@));
    string_of(&out)
}

// ---------------------------------------------------------------------------
// Reading escaped text back
// ---------------------------------------------------------------------------

/// The value of one hexadecimal digit (either letter case).
pub open spec fn hex_digit_value(c: char) -> Option<nat> {
    if '0' <= c && c <= '9' {
        Some((c as u32 - 48) as nat)
    } else if 'a' <= c && c <= 'f' {
        Some((c as u32 - 87) as nat)
    } else if 'A' <= c && c <= 'F' {
        Some((c as u32 - 55) as nat)
    } else {
        None
    }
}

/// The value of the four hexadecimal digits of `t` that start at `i`, if they are digits.
pub open spec fn hex4_at(t: Seq<char>, i: int) -> Option<nat> {
    if 0 <= i && i + 4 <= t.len() && hex_digit_value(t[i]) is Some && hex_digit_value(t[i + 1]) is Some
        && hex_digit_value(t[i + 2]) is Some && hex_digit_value(t[i + 3]) is Some {
        Some(
            hex_digit_value(t[i])->Some_0 * 4096 + hex_digit_value(t[i + 1])->Some_0 * 256
                + hex_digit_value(t[i + 2])->Some_0 * 16 + hex_digit_value(t[i + 3])->Some_0,
        )
    } else {
        None
    }
}

/// The character that a one-letter escape (after `\`) stands for.
pub open spec fn short_escape(e: char) -> Option<char> {
    if e == '"' {
        Some('"')
    } else if e == '\\' {
        Some('\\')
    } else if e == '/' {
        Some('/')
    } else if e == 'b' {
        Some('\u{8}')
    } else if e == 'f' {
        Some('\u{c}')
    } else if e == 'n' {
        Some('\n')
    } else if e == 'r' {
        Some('\r')
    } else if e == 't' {
        Some('\t')
    } else {
        None
    }
}

pub open spec fn prepend(c: char, r: Option<Seq<char>>) -> Option<Seq<char>> {
    match r {
        Some(x) => Some(seq![c] + x),
        None => None,
    }
}

/// The characters that the text between the quotes of a JSON string stands for, read from
/// the front: escapes are replaced by what they denote (`\uXXXX` in either case, a high and
/// a low surrogate escape together making one character).  `None` where the text cannot
/// stand there: a bare quote, a control character, a lone backslash, an unknown escape, or
/// a surrogate escape without its partner.
pub open spec fn json_unescape(t: Seq<char>) -> Option<Seq<char>>
    decreases t.len(),
{
    if t.len() == 0 {
        Some(seq![])
    } else if t[0] == '"' || (t[0] as u32) < 0x20 {
        None
    } else if t[0] != '\\' {
        prepend(t[0], json_unescape(t.skip(1)))
    } else if t.len() < 2 {
        None
    } else if short_escape(t[1]) is Some {
        prepend(short_escape(t[1])->Some_0, json_unescape(t.skip(2)))
    } else if t[1] != 'u' || hex4_at(t, 2) is None {
        None
    } else {
        let v = hex4_at(t, 2)->Some_0;
        if v < 0xD800 || v >= 0xE000 {
            prepend((v as u32) as char, json_unescape(t.skip(6)))
        } else if v >= 0xDC00 {
            None
        } else if t.len() >= 12 && t[6] == '\\' && t[7] == 'u' && hex4_at(t, 8) is Some
            && 0xDC00 <= hex4_at(t, 8)->Some_0 && hex4_at(t, 8)->Some_0 < 0xE000 {
            let w = hex4_at(t, 8)->Some_0;
            prepend(
                ((0x10000 + (v - 0xD800) * 0x400 + (w - 0xDC00)) as u32) as char,
                json_unescape(t.skip(12)),
            )
        } else {
            None
        }
    }
}

proof fn lemma_escaped_append(x: Seq<char>, y: Seq<char>)
    ensures
        json_escaped(x + y) == json_escaped(x) + json_escaped(y),
    decreases y.len(),
{
    if y.len() == 0 {
        assert(x + y =~= x);
        assert(json_escaped(x) + json_escaped(y) =~= json_escaped(x));
    } else {
        lemma_escaped_append(x, y.drop_last());
        assert((x + y).drop_last() =~= x + y.drop_last());
        assert((x + y).last() == y.last());
        assert(json_escaped(x) + json_escaped(y.drop_last()) + escape_char(y.last()) =~= json_escaped(x)
            + (json_escaped(y.drop_last()) + escape_char(y.last())));
    }
}

proof fn lemma_hex_digit_value(d: nat)
    requires
        d < 16,
    ensures
        hex_digit_value(digit(d)) == Some(d),
{
}

proof fn lemma_unescape_char(c: char, rest: Seq<char>)
    ensures
        json_unescape(escape_char(c) + rest) == prepend(c, json_unescape(rest)),
{
    let t = escape_char(c) + rest;
    reveal_strlit("\\\"");
    reveal_strlit("\\\\");
    reveal_strlit("\\n");
    reveal_strlit("\\r");
    reveal_strlit("\\t");
    reveal_strlit("\\u");
    if c == '"' || c == '\\' || c == '\n' || c == '\r' || c == '\t' {
        assert(t[0] == '\\');
        assert(t.skip(2) =~= rest);
    } else if (c as u32) < 0x20 {
        let n = c as u32 as nat;
        let z = zero_pad(hex(n), 4);
        assert(t == "\\u"@ + z + rest);
        if n < 16 {
            assert(hex(n) == seq![digit(n)]);
            assert(z[0] == '0' && z[1] == '0' && z[2] == '0' && z[3] == digit(n));
            lemma_hex_digit_value(n);
        } else {
            assert(hex(n) == hex(n / 16).push(digit(n % 16)));
            assert(hex(n / 16) == seq![digit(1)]);
            assert(z[0] == '0' && z[1] == '0' && z[2] == digit(1) && z[3] == digit((n - 16) as nat));
            lemma_hex_digit_value(1);
            lemma_hex_digit_value((n - 16) as nat);
        }
        assert(t[0] == '\\' && t[1] == 'u');
        assert(t[2] == z[0] && t[3] == z[1] && t[4] == z[2] && t[5] == z[3]);
        assert(hex4_at(t, 2) == Some(n));
        assert(t.skip(6) =~= rest);
    } else {
        assert(t[0] == c);
        assert(t.skip(1) =~= rest);
    }
}

/// Reading escaped text back gives the original string: the text that `json_escape`
/// writes between two quotes stands for exactly the characters it was made from.
pub proof fn law_json_escape_round_trip(s: Seq<char>)
    ensures
        json_unescape(json_escaped(s)) == Some(s),
    decreases s.len(),
{
    if s.len() > 0 {
        let c = s[0];
        let tail = s.drop_first();
        assert(s =~= seq![c] + tail);
        lemma_escaped_append(seq![c], tail);
        assert(seq![c].drop_last() =~= Seq::<char>::empty());
        assert(seq![c].last() == c);
        assert(json_escaped(Seq::<char>::empty()) =~= Seq::<char>::empty());
        assert(json_escaped(seq![c]) == json_escaped(seq![c].drop_last()) + escape_char(c));
        assert(json_escaped(seq![c]) =~= escape_char(c));
        law_json_escape_round_trip(tail);
        lemma_unescape_char(c, json_escaped(tail));
        assert(seq![c] + tail =~= s);
    }
}

/// What `serde_json` reads as the string value of field `key`, when `text` parses as a
/// JSON object holding that field with a string value; `None` in every other case.
pub uninterp spec fn json_text_field(text: Seq<char>, key: Seq<char>) -> Option<Seq<char>>;

/// Parses `text` with `serde_json::from_str::<serde_json::Value>` and returns the string
/// held under `key` (`Value::get`, then `Value::as_str`).  The contract only ties the
/// result to the name `json_text_field` of its two arguments: JSON grammar is not restated.
#[verifier::external_body]
pub(crate) fn json_str_field(text: &str, key: &str) -> (r: Option<String>)
    ensures
        match r {
            Some(s) => json_text_field(text@, key@) == Some(s@),
            None => json_text_field(text@, key@) is None,
        },
{
    match serde_json::from_str::<serde_json::Value>(text) {
        Ok(v) => v.get(key).and_then(|f| f.as_str()).map(|s| s.to_string()),
        Err(_) => None,
    }
}

proof fn lemma_hex_chars(n: nat)
    ensures
        forall|i: int|
            0 <= i < hex(n).len() ==> ('0' <= #[trigger] hex(n)[i] <= '9' || 'a' <= hex(n)[i] <= 'f'),
    decreases n,
{
    if n >= 16 {
        lemma_hex_chars(n / 16);
        assert forall|i: int| 0 <= i < hex(n).len() implies ('0' <= #[trigger] hex(n)[i] <= '9'
            || 'a' <= hex(n)[i] <= 'f') by {
            if i < hex(n).len() - 1 {
                assert(hex(n)[i] == hex(n / 16)[i]);
            }
        }
    }
}

proof fn lemma_escape_char_safe(c: char)
    ensures
        forall|i: int| 0 <= i < escape_char(c).len() ==> (#[trigger] escape_char(c)[i]) as u32 >= 0x20,
        forall|i: int|
            0 <= i < escape_char(c).len() && #[trigger] escape_char(c)[i] == '"' ==> i > 0
                && escape_char(c)[i - 1] == '\\',
{
    if c != '"' && c != '\\' && c != '\n' && c != '\r' && c != '\t' && (c as u32) < 0x20 {
        let n = c as u32 as nat;
        lemma_hex_chars(n);
        let h = hex(n);
        let z = zero_pad(h, 4);
        assert forall|i: int| 0 <= i < z.len() implies ('0' <= #[trigger] z[i] <= '9' || 'a' <= z[i]
            <= 'f') by {
            if h.len() < 4 {
                let pad = (4 - h.len()) as int;
                if i >= pad {
                    assert(z[i] == h[i - pad]);
                }
            }
        }
        assert(escape_char(c) == "\\u"@ + z);
        reveal_strlit("\\u");
        assert forall|i: int| 0 <= i < escape_char(c).len() implies (#[trigger] escape_char(c)[i])
            as u32 >= 0x20 && escape_char(c)[i] != '"' by {
            if i >= 2 {
                assert(escape_char(c)[i] == z[i - 2]);
            }
        }
    } else {
        reveal_strlit("\\\"");
        reveal_strlit("\\\\");
        reveal_strlit("\\n");
        reveal_strlit("\\r");
        reveal_strlit("\\t");
    }
}

/// Escaped text can stand between quotes in JSON: it holds no control character, and
/// every quote in it follows a backslash.
pub proof fn law_escaped_text_is_safe_in_json_strings(s: Seq<char>)
    ensures
        forall|i: int| 0 <= i < json_escaped(s).len() ==> (#[trigger] json_escaped(s)[i]) as u32 >= 0x20,
        forall|i: int|
            0 <= i < json_escaped(s).len() && #[trigger] json_escaped(s)[i] == '"' ==> i > 0
                && json_escaped(s)[i - 1] == '\\',
    decreases s.len(),
{
    if s.len() > 0 {
        law_escaped_text_is_safe_in_json_strings(s.drop_last());
        lemma_escape_char_safe(s.last());
        let a = json_escaped(s.drop_last());
        let b = escape_char(s.last());
        assert(json_escaped(s) == a + b);
        assert forall|i: int| 0 <= i < json_escaped(s).len() implies (#[trigger] json_escaped(s)[i])
            as u32 >= 0x20 by {
            if i < a.len() {
                assert(json_escaped(s)[i] == a[i]);
            } else {
                assert(json_escaped(s)[i] == b[i - a.len()]);
            }
        }
        assert forall|i: int|
            0 <= i < json_escaped(s).len() && #[trigger] json_escaped(s)[i] == '"' implies i > 0
                && json_escaped(s)[i - 1] == '\\' by {
            if i < a.len() {
                assert(json_escaped(s)[i] == a[i]);
                assert(json_escaped(s)[i - 1] == a[i - 1]);
            } else {
                let j = i - a.len();
                assert(json_escaped(s)[i] == b[j]);
                assert(b[j] == '"');
                assert(j > 0 && b[j - 1] == '\\');
                assert(json_escaped(s)[i - 1] == b[j - 1]);
            }
        }
    }
}

} // verus!
