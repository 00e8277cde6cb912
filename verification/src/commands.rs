//! Device references: resolving `<device>` (a braced GUID or an enumeration index).
use vstd::prelude::*;
use vstd::utf8::encode_utf8;
use crate::i18n::Lang;
use crate::text::{
    ascii_lower, chars_of, dec, eq_ignore_ascii_case, parse_unsigned, parse_usize, push_dec,
    push_str, string_of,
};

verus! {

/// The device triple that commands act on.
pub struct DeviceRef {
    pub guid: String,
    pub name: String,
    pub connection: String,
}

/// The identity of an enumerated endpoint: its GUID and friendly name.
pub struct EndpointName {
    pub guid: String,
    pub name: String,
}

pub open spec fn endpoint_views(devices: Seq<Option<EndpointName>>) -> Seq<Option<(Seq<char>, Seq<char>)>> {
    devices.map_values(
        |d: Option<EndpointName>|
            match d {
                Some(e) => Some((e.guid@, e.name@)),
                None => None,
            },
    )
}

/// Whether enumerated device `d` has an endpoint whose GUID equals `guid` ignoring ASCII case.
pub open spec fn guid_matches(d: Option<(Seq<char>, Seq<char>)>, guid: Seq<char>) -> bool {
    match d {
        Some(e) => ascii_lower(e.0) == ascii_lower(guid),
        None => false,
    }
}

/// The friendly name of the first device whose endpoint GUID matches, or empty.
pub open spec fn name_for_guid(devices: Seq<Option<(Seq<char>, Seq<char>)>>, guid: Seq<char>) -> Seq<char>
    decreases devices.len(),
{
    if devices.len() == 0 {
        Seq::empty()
    } else if guid_matches(devices[0], guid) {
        (devices[0]->0).1
    } else {
        name_for_guid(devices.drop_first(), guid)
    }
}

pub open spec fn msg_invalid_guid(lang: Lang, r: Seq<char>) -> Seq<char> {
    if lang == Lang::En {
        "Invalid GUID: <"@ + r + "> (expected {XXXXXXXX-XXXX-XXXX-XXXX-XXXXXXXXXXXX})"@
    } else {
        "无效 GUID：<"@ + r + ">（应为 {XXXXXXXX-XXXX-XXXX-XXXX-XXXXXXXXXXXX}）"@
    }
}

pub open spec fn msg_index_out_of_range(lang: Lang, r: Seq<char>, count: nat) -> Seq<char> {
    let last = dec(if count > 0 { (count - 1) as nat } else { 0 });
    if lang == Lang::En {
        "Enumeration index out of range: <"@ + r + "> (0.."@ + last + ")"@
    } else {
        "枚举序号越界：<"@ + r + ">（0.."@ + last + "）"@
    }
}

pub open spec fn msg_missing_endpoint(lang: Lang) -> Seq<char> {
    if lang == Lang::En {
        "Device missing endpoint info"@
    } else {
        "设备缺端点信息"@
    }
}

pub open spec fn msg_unknown_device(lang: Lang, r: Seq<char>) -> Seq<char> {
    if lang == Lang::En {
        "Unknown device: <"@ + r + "> (use list to see indices, or use {GUID})"@
    } else {
        "未知设备：<"@ + r + ">（可用 list 查看序号，或用 {GUID} 形式）"@
    }
}

/// What `<device>` resolves to among the enumerated devices: `Ok((guid, name))` or an
/// error message.  A reference starting with `{` must be 38 bytes long and end with `}`;
/// it is taken as the GUID and named after the first matching endpoint (or unnamed).
/// Otherwise it must read as an index of a device that has an endpoint.
pub open spec fn resolve_spec(
    r: Seq<char>,
    devices: Seq<Option<(Seq<char>, Seq<char>)>>,
    lang: Lang,
) -> Result<(Seq<char>, Seq<char>), Seq<char>> {
    if r.len() > 0 && r[0] == '{' {
        if encode_utf8(r).len() as usize != 38 || r.last() != '}' {
            Err(msg_invalid_guid(lang, r))
        } else {
            Ok((r, name_for_guid(devices, r)))
        }
    } else {
        match parse_unsigned(r, usize::MAX as nat) {
            Some(idx) => if idx < devices.len() {
                match devices[idx as int] {
                    Some(e) => Ok(e),
                    None => Err(msg_missing_endpoint(lang)),
                }
            } else {
                Err(msg_index_out_of_range(lang, r, devices.len()))
            },
            None => Err(msg_unknown_device(lang, r)),
        }
    }
}

fn clone_string(s: &String) -> (r: String)
    ensures
        r@ == s@,
{
    s.clone()
}

fn concat3(a: &str, b: &Vec<char>, c: &str) -> (r: String)
    ensures
        r@ == a@ + b@ + c@,
{
    let mut out: Vec<char> = Vec::new();
    push_str(&mut out, a);
    let ghost mid = out@;
    let mut i: usize = 0;
    while i < b.len()
        invariant
            i <= b.len(),
            out@ == mid + b@.take(i as int),
        decreases b.len() - i,
    {
        out.push(b[i]);
        i += 1;
        assert(out@ =~= mid + b@.take(i as int));
    }
    assert(b@.take(b.len() as int) =~= b@);
    push_str(&mut out, c);
    string_of(&out)
}

fn name_for_guid_exec(devices: &Vec<Option<EndpointName>>, r: &Vec<char>) -> (name: String)
    ensures
        name@ == name_for_guid(endpoint_views(devices@), r@),
{
    let ghost dv = endpoint_views(devices@);
    let mut i: usize = 0;
    assert(dv.skip(0) =~= dv);
    while i < devices.len()
        invariant
            i <= devices.len(),
            dv == endpoint_views(devices@),
            name_for_guid(dv, r@) == name_for_guid(dv.skip(i as int), r@),
        decreases devices.len() - i,
    {
        assert(dv.skip(i as int)[0] == dv[i as int]);
        assert(dv.skip(i as int).drop_first() =~= dv.skip(i + 1));
        match &devices[i] {
            Some(e) => {
                let g = chars_of(e.guid.as_str());
                if eq_ignore_ascii_case(&g, r) {
                    return clone_string(&e.name);
                }
            },
            None => {},
        }
        i += 1;
    }
    String::new()
}

/// Resolves `<device>` against the enumerated devices (`None` entries lack endpoint info).
pub fn resolve_device(device_ref: &str, devices: &Vec<Option<EndpointName>>, lang: Lang) -> (r: Result<
    DeviceRef,
    String,
>)
    ensures
        match r {
            Ok(d) => resolve_spec(device_ref@, endpoint_views(devices@), lang) == Ok::<
                (Seq<char>, Seq<char>),
                Seq<char>,
            >((d.guid@, d.name@)) && d.connection@ == Seq::<char>::empty(),
            Err(e) => resolve_spec(device_ref@, endpoint_views(devices@), lang) == Err::<
                (Seq<char>, Seq<char>),
                Seq<char>,
            >(e@),
        },
{
    let ghost dv = endpoint_views(devices@);
    let r = chars_of(device_ref);
    if r.len() > 0 && r[0] == '{' {
        if device_ref.len() != 38 || r[r.len() - 1] != '}' {
            return Err(
                if lang == Lang::En {
                    concat3("Invalid GUID: <", &r, "> (expected {XXXXXXXX-XXXX-XXXX-XXXX-XXXXXXXXXXXX})")
                } else {
                    concat3("无效 GUID：<", &r, ">（应为 {XXXXXXXX-XXXX-XXXX-XXXX-XXXXXXXXXXXX}）")
                },
            );
        }
        let name = name_for_guid_exec(devices, &r);
        let empty = chars_of("");
        proof {
            reveal_strlit("");
        }
        return Ok(DeviceRef { guid: string_of(&r), name, connection: string_of(&empty) });
    }
    match parse_usize(&r) {
        Some(idx) => {
            if idx < devices.len() {
                match &devices[idx] {
                    Some(e) => {
                        let empty = chars_of("");
                        proof {
                            reveal_strlit("");
                        }
                        Ok(DeviceRef { guid: clone_string(&e.guid), name: clone_string(&e.name), connection: string_of(&empty) })
                    },
                    None => Err(
                        if lang == Lang::En {
                            string_of(&chars_of("Device missing endpoint info"))
                        } else {
                            string_of(&chars_of("设备缺端点信息"))
                        },
                    ),
                }
            } else {
                let last: usize = if devices.len() > 0 {
                    devices.len() - 1
                } else {
                    0
                };
                let mut out: Vec<char> = Vec::new();
                if lang == Lang::En {
                    push_str(&mut out, "Enumeration index out of range: <");
                } else {
                    push_str(&mut out, "枚举序号越界：<");
                }
                let ghost p = out@;
                let mut i: usize = 0;
                while i < r.len()
                    invariant
                        i <= r.len(),
                        out@ == p + r@.take(i as int),
                    decreases r.len() - i,
                {
                    out.push(r[i]);
                    i += 1;
                    assert(out@ =~= p + r@.take(i as int));
                }
                assert(r@.take(r.len() as int) =~= r@);
                if lang == Lang::En {
                    push_str(&mut out, "> (0..");
                } else {
                    push_str(&mut out, ">（0..");
                }
                push_dec(&mut out, last as u64);
                if lang == Lang::En {
                    push_str(&mut out, ")");
                } else {
                    push_str(&mut out, "）");
                }
                assert(out@ =~= msg_index_out_of_range(lang, r@, devices@.len()));
                Err(string_of(&out))
            }
        },
        None => Err(
            if lang == Lang::En {
                concat3("Unknown device: <", &r, "> (use list to see indices, or use {GUID})")
            } else {
                concat3("未知设备：<", &r, ">（可用 list 查看序号，或用 {GUID} 形式）")
            },
        ),
    }
}

} // verus!
