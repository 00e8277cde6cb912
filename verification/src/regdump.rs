//! The raw registry dump of an endpoint: one line per value of its key, its `Properties`
//! and its `FxProperties`, decoded by type and annotated.
use vstd::prelude::*;
use crate::endpoint::EndpointKind;
use crate::knowledge::{
    apo_slot_annotation, decode_dword_label, dword_label, friendly_name, friendly_name_spec,
    is_known_property, known_property_spec, slot_annotation,
};
use crate::reg::{
    le32, multi_utf16_spec, parse_multi_utf16, parse_prop_string, parse_utf16_bytes,
    prop_string_spec, utf16_bytes_spec, RawValue, ValueType,
};
use crate::status::string_views;
use crate::text::{
    chars_of, dec, hex, push_dec, push_hex_padded, push_str, starts_with, str_eq, string_of,
    zero_pad,
};

verus! {

/// Text padded with spaces on the right to 40 characters, as `{:<40}` prints it.
pub open spec fn pad40(s: Seq<char>) -> Seq<char> {
    if s.len() < 40 {
        s + Seq::new((40 - s.len()) as nat, |i: int| ' ')
    } else {
        s
    }
}

/// The little-endian 64-bit number of eight bytes.
pub open spec fn le64(b: Seq<u8>) -> u64 {
    (le32(b[0], b[1], b[2], b[3]) as int + 4294967296 * le32(b[4], b[5], b[6], b[7]) as int) as u64
}

/// The name `{:?}` gives a registry type.
pub open spec fn value_type_text(t: ValueType) -> Seq<char> {
    match t {
        ValueType::NoType => "REG_NONE"@,
        ValueType::Sz => "REG_SZ"@,
        ValueType::ExpandSz => "REG_EXPAND_SZ"@,
        ValueType::Binary => "REG_BINARY"@,
        ValueType::Dword => "REG_DWORD"@,
        ValueType::DwordBigEndian => "REG_DWORD_BIG_ENDIAN"@,
        ValueType::Link => "REG_LINK"@,
        ValueType::MultiSz => "REG_MULTI_SZ"@,
        ValueType::ResourceList => "REG_RESOURCE_LIST"@,
        ValueType::FullResourceDescriptor => "REG_FULL_RESOURCE_DESCRIPTOR"@,
        ValueType::ResourceRequirementsList => "REG_RESOURCE_REQUIREMENTS_LIST"@,
        ValueType::Qword => "REG_QWORD"@,
    }
}

fn value_type_text_exec(t: &ValueType) -> (r: &'static str)
    ensures
        r@ == value_type_text(*t),
{
    match t {
        ValueType::NoType => "REG_NONE",
        ValueType::Sz => "REG_SZ",
        ValueType::ExpandSz => "REG_EXPAND_SZ",
        ValueType::Binary => "REG_BINARY",
        ValueType::Dword => "REG_DWORD",
        ValueType::DwordBigEndian => "REG_DWORD_BIG_ENDIAN",
        ValueType::Link => "REG_LINK",
        ValueType::MultiSz => "REG_MULTI_SZ",
        ValueType::ResourceList => "REG_RESOURCE_LIST",
        ValueType::FullResourceDescriptor => "REG_FULL_RESOURCE_DESCRIPTOR",
        ValueType::ResourceRequirementsList => "REG_RESOURCE_REQUIREMENTS_LIST",
        ValueType::Qword => "REG_QWORD",
    }
}

/// Up to the first eight bytes in two-digit hexadecimal, separated by spaces.
pub open spec fn byte_preview(b: Seq<u8>) -> Seq<char>
    decreases b.len(),
{
    if b.len() == 0 {
        seq![]
    } else if b.len() > 8 {
        byte_preview(b.take(8))
    } else if b.len() == 1 {
        zero_pad(hex(b[0] as nat), 2)
    } else {
        byte_preview(b.drop_last()) + " "@ + zero_pad(hex(b.last() as nat), 2)
    }
}

/// The line a value gets in the dump, if any.
pub open spec fn value_line(name: Seq<char>, v: RawValue, indent: Seq<char>, filter: bool) -> Option<
    Seq<char>,
> {
    let dn = pad40(friendly_name_spec(name));
    let b = v.bytes@;
    match v.vtype {
        ValueType::Sz | ValueType::ExpandSz => match utf16_bytes_spec(b) {
            Some(s) => Some(indent + "[SZ]  "@ + dn + " = "@ + s + slot_annotation(name)),
            None => None,
        },
        ValueType::Dword => if b.len() >= 4 {
            let d = le32(b[0], b[1], b[2], b[3]);
            Some(indent + "[DW]  "@ + dn + " = 0x"@ + zero_pad(hex(d as nat), 8) + dword_label(name, d))
        } else {
            None
        },
        ValueType::Binary => if starts_with(name, "{d04e05a6"@) {
            match prop_string_spec(b) {
                Some(s) => Some(indent + "[BIN] "@ + dn + " = "@ + s),
                None => Some(indent + "[BIN] "@ + dn + " = "@ + dec(b.len()) + " bytes"@),
            }
        } else if filter {
            None
        } else {
            Some(
                indent + "[BIN] "@ + dn + " = ["@ + byte_preview(b) + "...] ("@ + dec(b.len())
                    + " bytes)"@,
            )
        },
        ValueType::MultiSz => match multi_utf16_spec(b) {
            Some(s) => Some(indent + "[MSZ] "@ + dn + " = "@ + s),
            None => None,
        },
        ValueType::Qword => if b.len() >= 8 {
            let q = le64(b);
            Some(
                indent + "[QW]  "@ + dn + " = 0x"@ + zero_pad(hex(q as nat), 16) + " ("@ + dec(
                    q as nat,
                ) + ")"@,
            )
        } else {
            None
        },
        _ => if !filter {
            Some(
                indent + "[??]  "@ + dn + " = ("@ + value_type_text(v.vtype) + ", "@ + dec(b.len())
                    + " bytes)"@,
            )
        } else {
            None
        },
    }
}

/// The names seen and the lines printed after dumping `values` in order: with `filter`,
/// values outside the known property sets are skipped; a name already seen is skipped.
pub open spec fn dump_fold(
    values: Seq<(String, RawValue)>,
    indent: Seq<char>,
    filter: bool,
    seen: Seq<Seq<char>>,
) -> (Seq<Seq<char>>, Seq<Seq<char>>)
    decreases values.len(),
{
    if values.len() == 0 {
        (seen, seq![])
    } else {
        let (s0, l0) = dump_fold(values.drop_last(), indent, filter, seen);
        let name = values.last().0@;
        if filter && !known_property_spec(name) {
            (s0, l0)
        } else if s0.contains(name) {
            (s0, l0)
        } else {
            (
                s0.push(name),
                match value_line(name, values.last().1, indent, filter) {
                    Some(l) => l0.push(l),
                    None => l0,
                },
            )
        }
    }
}

fn push_pad40(out: &mut Vec<char>, s: &str)
    ensures
        final(out)@ == old(out)@ + pad40(s@),
{
    let cs = chars_of(s);
    push_str(out, s);
    if cs.len() < 40 {
        let ghost mid = out@;
        let mut k: usize = cs.len();
        while k < 40
            invariant
                cs.len() <= k <= 40,
                cs@ == s@,
                out@ == mid + Seq::new((k - cs.len()) as nat, |i: int| ' '),
            decreases 40 - k,
        {
            out.push(' ');
            k += 1;
            assert(out@ =~= mid + Seq::new((k - cs.len()) as nat, |i: int| ' '));
        }
    }
}

fn push_preview(out: &mut Vec<char>, b: &Vec<u8>)
    ensures
        final(out)@ == old(out)@ + byte_preview(b@),
{
    let n: usize = if b.len() > 8 {
        8
    } else {
        b.len()
    };
    let ghost t = b@.take(n as int);
    assert(byte_preview(b@) == byte_preview(t)) by {
        if b.len() <= 8 {
            assert(t =~= b@);
        }
    }
    let ghost start = out@;
    let mut i: usize = 0;
    while i < n
        invariant
            i <= n,
            n <= 8,
            n <= b.len(),
            t == b@.take(n as int),
            out@ == start + byte_preview(t.take(i as int)),
        decreases n - i,
    {
        assert(t.take(i + 1).drop_last() =~= t.take(i as int));
        assert(t.take(i + 1).last() == b@[i as int]);
        if i > 0 {
            push_str(out, " ");
        } else {
            assert(t.take(i as int) =~= Seq::<u8>::empty());
        }
        push_hex_padded(out, b[i] as u64, 2);
        i += 1;
        assert(out@ =~= start + byte_preview(t.take(i as int)));
    }
    assert(t.take(n as int) =~= t);
}

fn le64_exec(b: &Vec<u8>) -> (r: u64)
    requires
        b.len() >= 8,
    ensures
        r == le64(b@),
{
    let lo: u64 = b[0] as u64 + (b[1] as u64) * 256 + (b[2] as u64) * 65536 + (b[3] as u64)
        * 16777216;
    let hi: u64 = b[4] as u64 + (b[5] as u64) * 256 + (b[6] as u64) * 65536 + (b[7] as u64)
        * 16777216;
    lo + hi * 4294967296
}

fn value_line_exec(name: &String, v: &RawValue, indent: &str, filter: bool) -> (r: Option<String>)
    ensures
        match r {
            Some(l) => value_line(name@, *v, indent@, filter) == Some(l@),
            None => value_line(name@, *v, indent@, filter) is None,
        },
{
    let dn = friendly_name(name.as_str());
    let mut out = chars_of(indent);
    match v.vtype {
        ValueType::Sz | ValueType::ExpandSz => match parse_utf16_bytes(v.bytes.as_slice()) {
            Some(s) => {
                push_str(&mut out, "[SZ]  ");
                push_pad40(&mut out, dn.as_str());
                push_str(&mut out, " = ");
                push_str(&mut out, s.as_str());
                push_str(&mut out, apo_slot_annotation(name.as_str()));
            },
            None => {
                return None;
            },
        },
        ValueType::Dword => {
            if v.bytes.len() >= 4 {
                let d: u32 = v.bytes[0] as u32 + (v.bytes[1] as u32) * 256 + (v.bytes[2] as u32)
                    * 65536 + (v.bytes[3] as u32) * 16777216;
                push_str(&mut out, "[DW]  ");
                push_pad40(&mut out, dn.as_str());
                push_str(&mut out, " = 0x");
                push_hex_padded(&mut out, d as u64, 8);
                let extra = decode_dword_label(name.as_str(), d);
                push_str(&mut out, extra.as_str());
            } else {
                return None;
            }
        },
        ValueType::Binary => {
            let nc = chars_of(name.as_str());
            let pre = chars_of("{d04e05a6");
            if crate::text::starts_with_exec(&nc, &pre) {
                push_str(&mut out, "[BIN] ");
                push_pad40(&mut out, dn.as_str());
                push_str(&mut out, " = ");
                match parse_prop_string(v.bytes.as_slice()) {
                    Some(s) => push_str(&mut out, s.as_str()),
                    None => {
                        push_dec(&mut out, v.bytes.len() as u64);
                        push_str(&mut out, " bytes");
                    },
                }
            } else if filter {
                return None;
            } else {
                push_str(&mut out, "[BIN] ");
                push_pad40(&mut out, dn.as_str());
                push_str(&mut out, " = [");
                push_preview(&mut out, &v.bytes);
                push_str(&mut out, "...] (");
                push_dec(&mut out, v.bytes.len() as u64);
                push_str(&mut out, " bytes)");
            }
        },
        ValueType::MultiSz => match parse_multi_utf16(v.bytes.as_slice()) {
            Some(s) => {
                push_str(&mut out, "[MSZ] ");
                push_pad40(&mut out, dn.as_str());
                push_str(&mut out, " = ");
                push_str(&mut out, s.as_str());
            },
            None => {
                return None;
            },
        },
        ValueType::Qword => {
            if v.bytes.len() >= 8 {
                let q = le64_exec(&v.bytes);
                push_str(&mut out, "[QW]  ");
                push_pad40(&mut out, dn.as_str());
                push_str(&mut out, " = 0x");
                push_hex_padded(&mut out, q, 16);
                push_str(&mut out, " (");
                push_dec(&mut out, q);
                push_str(&mut out, ")");
            } else {
                return None;
            }
        },
        _ => {
            if filter {
                return None;
            }
            push_str(&mut out, "[??]  ");
            push_pad40(&mut out, dn.as_str());
            push_str(&mut out, " = (");
            push_str(&mut out, value_type_text_exec(&v.vtype));
            push_str(&mut out, ", ");
            push_dec(&mut out, v.bytes.len() as u64);
            push_str(&mut out, " bytes)");
        },
    }
    Some(string_of(&out))
}

fn contains_name(seen: &Vec<String>, name: &String) -> (r: bool)
    ensures
        r == string_views(seen@).contains(name@),
{
    let mut i: usize = 0;
    while i < seen.len()
        invariant
            i <= seen.len(),
            forall|j: int| 0 <= j < i ==> string_views(seen@)[j] != name@,
        decreases seen.len() - i,
    {
        if str_eq(seen[i].as_str(), name.as_str()) {
            assert(string_views(seen@)[i as int] == name@);
            return true;
        }
        i += 1;
    }
    proof {
        if string_views(seen@).contains(name@) {
            let j = choose|j: int|
                0 <= j < string_views(seen@).len() && string_views(seen@)[j] == name@;
            assert(string_views(seen@)[j] != name@);
        }
    }
    false
}

/// Dumps the values of one key, in order, adding their names to `seen`.
pub fn dump_values(
    values: &Vec<(String, RawValue)>,
    indent: &str,
    filter: bool,
    seen: &mut Vec<String>,
) -> (r: Vec<String>)
    ensures
        (string_views(final(seen)@), string_views(r@)) == dump_fold(
            values@,
            indent@,
            filter,
            string_views(old(seen)@),
        ),
{
    let ghost seen0 = string_views(seen@);
    let mut lines: Vec<String> = Vec::new();
    let mut i: usize = 0;
    assert(values@.take(0) =~= Seq::<(String, RawValue)>::empty());
    assert(string_views(lines@) =~= Seq::<Seq<char>>::empty());
    while i < values.len()
        invariant
            i <= values.len(),
            (string_views(seen@), string_views(lines@)) == dump_fold(
                values@.take(i as int),
                indent@,
                filter,
                seen0,
            ),
        decreases values.len() - i,
    {
        assert(values@.take(i + 1).drop_last() =~= values@.take(i as int));
        assert(values@.take(i + 1).last() == values@[i as int]);
        let name = &values[i].0;
        let skip = filter && !is_known_property(name.as_str());
        if !skip {
            if !contains_name(seen, name) {
                let line = value_line_exec(name, &values[i].1, indent, filter);
                let ghost sb = string_views(seen@);
                seen.push(name.clone());
                assert(string_views(seen@) =~= sb.push(name@));
                match line {
                    Some(l) => {
                        let ghost lb = string_views(lines@);
                        lines.push(l);
                        assert(string_views(lines@) =~= lb.push(l@));
                    },
                    None => {},
                }
            }
        }
        i += 1;
    }
    assert(values@.take(values.len() as int) =~= values@);
    lines
}

pub open spec fn kind_name(k: EndpointKind) -> Seq<char> {
    match k {
        EndpointKind::Playback => "Playback"@,
        EndpointKind::Capture => "Capture"@,
    }
}

/// The dump of one endpoint: a heading, the values of its key, then (each under its own
/// heading, known properties only) those of `Properties` and `FxProperties`; a key that
/// did not open is left out.
pub open spec fn dump_endpoint_spec(
    kind: EndpointKind,
    guid: Seq<char>,
    device: Option<Seq<(String, RawValue)>>,
    props: Option<Seq<(String, RawValue)>>,
    fx: Option<Seq<(String, RawValue)>>,
) -> Seq<Seq<char>> {
    seq!["\n  ["@ + kind_name(kind) + "] "@ + guid] + (match device {
        Some(v) => dump_fold(v, "  "@, false, seq![]).1,
        None => seq![],
    }) + (match props {
        Some(v) => seq!["  ── Properties ──"@] + dump_fold(v, "  "@, true, seq![]).1,
        None => seq![],
    }) + (match fx {
        Some(v) => seq!["  ── FxProperties ──"@] + dump_fold(v, "  "@, true, seq![]).1,
        None => seq![],
    })
}

pub open spec fn opt_values(o: Option<Vec<(String, RawValue)>>) -> Option<Seq<(String, RawValue)>> {
    match o {
        Some(v) => Some(v@),
        None => None,
    }
}

fn append(lines: &mut Vec<String>, more: Vec<String>)
    ensures
        string_views(final(lines)@) == string_views(old(lines)@) + string_views(more@),
{
    let ghost start = string_views(lines@);
    let mut m = more;
    let ghost mv = string_views(m@);
    let mut rest: Vec<String> = Vec::new();
    while m.len() > 0
        invariant
            string_views(rest@) + string_views(m@).reverse() == mv.reverse(),
        decreases m.len(),
    {
        let s = m.pop().unwrap();
        let ghost before = string_views(rest@);
        rest.push(s);
        assert(string_views(rest@) =~= before.push(s@));
        assert(string_views(m@.push(s)) =~= string_views(m@).push(s@));
    }
    assert(string_views(rest@) =~= mv.reverse());
    while rest.len() > 0
        invariant
            string_views(lines@) + string_views(rest@).reverse() == start + mv,
        decreases rest.len(),
    {
        let s = rest.pop().unwrap();
        let ghost before = string_views(lines@);
        lines.push(s);
        assert(string_views(lines@) =~= before.push(s@));
        assert(string_views(rest@.push(s)) =~= string_views(rest@).push(s@));
        assert(string_views(rest@.push(s)).reverse() =~= seq![s@] + string_views(rest@).reverse());
    }
    assert(string_views(rest@).reverse() =~= Seq::<Seq<char>>::empty());
}

/// The dump of one endpoint from the values of its keys (`None` where a key did not open).
pub fn dump_endpoint_lines(
    kind: EndpointKind,
    guid: &str,
    device: &Option<Vec<(String, RawValue)>>,
    props: &Option<Vec<(String, RawValue)>>,
    fx: &Option<Vec<(String, RawValue)>>,
) -> (r: Vec<String>)
    ensures
        string_views(r@) == dump_endpoint_spec(
            kind,
            guid@,
            opt_values(*device),
            opt_values(*props),
            opt_values(*fx),
        ),
{
    let mut lines: Vec<String> = Vec::new();
    let mut head = chars_of("\n  [");
    push_str(&mut head, kind.display_name());
    push_str(&mut head, "] ");
    push_str(&mut head, guid);
    lines.push(string_of(&head));
    let ghost h = seq!["\n  ["@ + kind_name(kind) + "] "@ + guid@];
    let ghost pd = match opt_values(*device) {
        Some(v) => dump_fold(v, "  "@, false, seq![]).1,
        None => seq![],
    };
    let ghost pp = match opt_values(*props) {
        Some(v) => seq!["  ── Properties ──"@] + dump_fold(v, "  "@, true, seq![]).1,
        None => seq![],
    };
    let ghost pf = match opt_values(*fx) {
        Some(v) => seq!["  ── FxProperties ──"@] + dump_fold(v, "  "@, true, seq![]).1,
        None => seq![],
    };
    assert(string_views(lines@) =~= h);
    match device {
        Some(v) => {
            let mut seen: Vec<String> = Vec::new();
            assert(string_views(seen@) =~= Seq::<Seq<char>>::empty());
            let d = dump_values(v, "  ", false, &mut seen);
            append(&mut lines, d);
        },
        None => {},
    }
    assert(string_views(lines@) =~= h + pd);
    match props {
        Some(v) => {
            let t = chars_of("  ── Properties ──");
            let ghost b = string_views(lines@);
            lines.push(string_of(&t));
            assert(string_views(lines@) =~= b.push(t@));
            let mut seen: Vec<String> = Vec::new();
            assert(string_views(seen@) =~= Seq::<Seq<char>>::empty());
            let d = dump_values(v, "  ", true, &mut seen);
            append(&mut lines, d);
        },
        None => {},
    }
    assert(string_views(lines@) =~= h + pd + pp);
    match fx {
        Some(v) => {
            let t = chars_of("  ── FxProperties ──");
            let ghost b = string_views(lines@);
            lines.push(string_of(&t));
            assert(string_views(lines@) =~= b.push(t@));
            let mut seen: Vec<String> = Vec::new();
            assert(string_views(seen@) =~= Seq::<Seq<char>>::empty());
            let d = dump_values(v, "  ", true, &mut seen);
            append(&mut lines, d);
        },
        None => {},
    }
    assert(string_views(lines@) =~= dump_endpoint_spec(
        kind,
        guid@,
        opt_values(*device),
        opt_values(*props),
        opt_values(*fx),
    ));
    lines
}

} // verus!
