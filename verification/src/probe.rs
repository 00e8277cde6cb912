//! Turning what the MMDevices registry tree holds for each endpoint into [`Endpoint`]s:
//! active endpoints only, named, de-duplicated, with their APO slots and stream format.
use vstd::prelude::*;
use vstd::utf8::{decode_utf8, encode_utf8, encode_utf8_decode_utf8, is_char_boundary};
use crate::endpoint::{endpoint_views, opt_str_view, Endpoint, EndpointKind, EndpointView};
use crate::knowledge::{is_system_apo, system_apo_spec};
use crate::reg::{decode_reg_sz, parse_waveformatex, reg_sz_spec, wfx_at, RawValue, ValueType};
use crate::text::{chars_of, push_str, seq_eq, string_of, views};

verus! {

/// Values read under an endpoint's `FxProperties` key.
pub struct FxValues {
    pub sfx: Option<RawValue>,
    pub mfx: Option<RawValue>,
    pub efx: Option<RawValue>,
    pub disable_enhancements: Option<u32>,
}

/// Values read under an endpoint's own key, when it opened.
pub struct EndpointKeyValues {
    pub sfx: Option<RawValue>,
    pub mfx: Option<RawValue>,
    pub efx: Option<RawValue>,
    pub flags: Option<u32>,
    /// The `FxProperties` sub-key, when it opened.
    pub fx: Option<FxValues>,
    /// The flags value under the `Properties` sub-key, when it opened and held one.
    pub properties_flags: Option<u32>,
}

/// What the registry holds for one endpoint sub-key.
pub struct RawEndpoint {
    /// The sub-key's name.
    pub guid: String,
    /// `DeviceState`, when the key opened and the value read as a DWORD.
    pub device_state: Option<u32>,
    /// The stream-format property.
    pub format: Option<RawValue>,
    /// The interface-name property.
    pub name_interface: Option<RawValue>,
    /// The product-name property.
    pub name_product: Option<RawValue>,
    /// The hardware-id property.
    pub hardware_id: Option<RawValue>,
    pub endpoint_key: Option<EndpointKeyValues>,
}

pub open spec fn opt_decode(v: Option<RawValue>) -> Option<Seq<char>> {
    match v {
        Some(r) => reg_sz_spec(r.vtype, r.bytes@),
        None => None,
    }
}

fn decode_opt(v: &Option<RawValue>) -> (r: Option<String>)
    ensures
        match r {
            Some(s) => opt_decode(*v) == Some(s@),
            None => opt_decode(*v) is None,
        },
{
    match v {
        Some(raw) => decode_reg_sz(raw),
        None => None,
    }
}

/// The first 16 bytes of a key name (all of it if shorter), as text.
pub open spec fn cut16(g: Seq<char>) -> Seq<char> {
    if encode_utf8(g).len() <= 16 {
        g
    } else {
        decode_utf8(encode_utf8(g).subrange(0, 16))
    }
}

/// The name of an endpoint: interface and product name, or the one there is, or
/// `Unknown (..)` with the start of its key name.
pub open spec fn name_spec(ni: Option<Seq<char>>, np: Option<Seq<char>>, guid: Seq<char>) -> Seq<
    char,
> {
    match (ni, np) {
        (Some(a), Some(b)) => a + " ("@ + b + ")"@,
        (Some(a), None) => a,
        (None, Some(b)) => b,
        (None, None) => "Unknown ("@ + cut16(guid) + ")"@,
    }
}

/// Whether the start of the key name can be taken where the name is needed: the 16th
/// byte must end a character.
pub open spec fn cut_safe(r: RawEndpoint) -> bool {
    (r.device_state == Some(1u32) && opt_decode(r.name_interface) is None && opt_decode(
        r.name_product,
    ) is None) ==> (encode_utf8(r.guid@).len() <= 16 || is_char_boundary(
        encode_utf8(r.guid@),
        16,
    ))
}

/// The key by which duplicates are dropped: the hardware id, else the name.
pub open spec fn dedup_key(r: RawEndpoint) -> Seq<char> {
    match opt_decode(r.hardware_id) {
        Some(h) => h,
        None => name_spec(opt_decode(r.name_interface), opt_decode(r.name_product), r.guid@),
    }
}

pub open spec fn format_spec(r: RawEndpoint) -> (Option<u32>, Option<u16>, Option<u16>, Option<u32>) {
    let none = (None, None, None, None);
    match r.format {
        Some(v) => if v.vtype is Binary && v.bytes@.len() >= 16 {
            let w = if wfx_at(v.bytes@, 0) is Some {
                wfx_at(v.bytes@, 0)
            } else {
                wfx_at(v.bytes@, 8)
            };
            match w {
                Some(t) => t,
                None => none,
            }
        } else {
            none
        },
        None => none,
    }
}

pub open spec fn first_some(a: Option<Seq<char>>, b: Option<Seq<char>>) -> Option<Seq<char>> {
    if a is Some {
        a
    } else {
        b
    }
}

/// SFX, MFX, EFX (the endpoint key first, `FxProperties` for what it lacks), the
/// endpoint flags (the endpoint key, else `Properties`) and `DisableEnhancements`.
pub open spec fn slots_spec(r: RawEndpoint) -> (
    Option<Seq<char>>,
    Option<Seq<char>>,
    Option<Seq<char>>,
    Option<u32>,
    Option<u32>,
) {
    match r.endpoint_key {
        None => (None, None, None, None, None),
        Some(ep) => {
            let ef = if ep.flags is Some {
                ep.flags
            } else {
                ep.properties_flags
            };
            match ep.fx {
                Some(fx) => (
                    first_some(opt_decode(ep.sfx), opt_decode(fx.sfx)),
                    first_some(opt_decode(ep.mfx), opt_decode(fx.mfx)),
                    first_some(opt_decode(ep.efx), opt_decode(fx.efx)),
                    ef,
                    fx.disable_enhancements,
                ),
                None => (opt_decode(ep.sfx), opt_decode(ep.mfx), opt_decode(ep.efx), ef, None),
            }
        },
    }
}

/// Each of SFX, MFX and EFX of a probed endpoint is the endpoint key's value where it has
/// one, else the value under `FxProperties` (when that key opened); without an endpoint
/// key there are none.
pub proof fn law_slot_fallback(r: RawEndpoint, kind: EndpointKind, index: int)
    ensures
        ({
            let e = endpoint_of(r, kind, index);
            match r.endpoint_key {
                None => e.sfx is None && e.mfx is None && e.efx is None,
                Some(ep) => {
                    let (fs, fm, fe) = match ep.fx {
                        Some(fx) => (opt_decode(fx.sfx), opt_decode(fx.mfx), opt_decode(fx.efx)),
                        None => (None, None, None),
                    };
                    &&& e.sfx == if opt_decode(ep.sfx) is Some { opt_decode(ep.sfx) } else { fs }
                    &&& e.mfx == if opt_decode(ep.mfx) is Some { opt_decode(ep.mfx) } else { fm }
                    &&& e.efx == if opt_decode(ep.efx) is Some { opt_decode(ep.efx) } else { fe }
                },
            }
        }),
{
}

pub open spec fn is_system_opt(s: Option<Seq<char>>) -> bool {
    match s {
        Some(c) => system_apo_spec(c),
        None => false,
    }
}

/// The endpoint that an active raw endpoint becomes, with its index.
pub open spec fn endpoint_of(r: RawEndpoint, kind: EndpointKind, index: int) -> EndpointView {
    let (sr, ch, bd, mask) = format_spec(r);
    let (s, m, e, ef, de) = slots_spec(r);
    EndpointView {
        index: index as usize,
        guid: r.guid@,
        name: name_spec(opt_decode(r.name_interface), opt_decode(r.name_product), r.guid@),
        kind: kind,
        sfx: s,
        mfx: m,
        efx: e,
        sfx_is_system: is_system_opt(s),
        mfx_is_system: is_system_opt(m),
        efx_is_system: is_system_opt(e),
        sample_rate: sr,
        channels: ch,
        bit_depth: bd,
        channel_mask: mask,
        endpoint_flags: ef,
        disable_enhancements: de,
    }
}

/// The keys seen and the endpoints produced from a list of raw endpoints, numbered from
/// `start`: inactive ones (state other than 1) are skipped, and so is any whose key an
/// earlier one had.
pub open spec fn probe_fold(raws: Seq<RawEndpoint>, kind: EndpointKind, start: int) -> (
    Seq<Seq<char>>,
    Seq<EndpointView>,
)
    decreases raws.len(),
{
    if raws.len() == 0 {
        (seq![], seq![])
    } else {
        let (seen, out) = probe_fold(raws.drop_last(), kind, start);
        let r = raws.last();
        if r.device_state != Some(1u32) {
            (seen, out)
        } else if seen.contains(dedup_key(r)) {
            (seen, out)
        } else {
            (seen.push(dedup_key(r)), out.push(endpoint_of(r, kind, start + out.len())))
        }
    }
}

fn or_else(a: Option<String>, b: Option<String>) -> (r: Option<String>)
    ensures
        opt_str_view(r) == first_some(opt_str_view(a), opt_str_view(b)),
{
    if a.is_some() {
        a
    } else {
        b
    }
}

fn system_opt(s: &Option<String>) -> (r: bool)
    ensures
        r == is_system_opt(opt_str_view(*s)),
{
    match s {
        Some(c) => is_system_apo(c.as_str()),
        None => false,
    }
}

/// Whether `raw` meets what [`probe_path`] asks of each raw endpoint.
pub fn cut_is_safe(raw: &RawEndpoint) -> (r: bool)
    ensures
        r == cut_safe(*raw),
{
    let active = match raw.device_state {
        Some(s) => s == 1,
        None => false,
    };
    if !active {
        return true;
    }
    let ni = decode_opt(&raw.name_interface);
    let np = decode_opt(&raw.name_product);
    if ni.is_some() || np.is_some() {
        return true;
    }
    let g = raw.guid.as_str();
    g.as_bytes().len() <= 16 || g.is_char_boundary(16)
}

fn endpoint_name(ni: Option<String>, np: Option<String>, guid: &str) -> (r: String)
    requires
        ni is None && np is None ==> (encode_utf8(guid@).len() <= 16 || is_char_boundary(
            encode_utf8(guid@),
            16,
        )),
    ensures
        r@ == name_spec(opt_str_view(ni), opt_str_view(np), guid@),
{
    match (ni, np) {
        (Some(a), Some(b)) => {
            let mut out = chars_of(a.as_str());
            push_str(&mut out, " (");
            push_str(&mut out, b.as_str());
            push_str(&mut out, ")");
            string_of(&out)
        },
        (Some(a), None) => a,
        (None, Some(b)) => b,
        (None, None) => {
            let short: &str = if guid.as_bytes().len() <= 16 {
                guid
            } else {
                let (head, _) = guid.split_at(16);
                proof {
                    encode_utf8_decode_utf8(head@);
                }
                head
            };
            assert(short@ == cut16(guid@));
            let mut out = chars_of("Unknown (");
            push_str(&mut out, short);
            push_str(&mut out, ")");
            string_of(&out)
        },
    }
}

fn format_of(raw: &RawEndpoint) -> (r: (Option<u32>, Option<u16>, Option<u16>, Option<u32>))
    ensures
        r == format_spec(*raw),
{
    match &raw.format {
        Some(v) => {
            let is_bin = match v.vtype {
                ValueType::Binary => true,
                _ => false,
            };
            if is_bin && v.bytes.len() >= 16 {
                match parse_waveformatex(v.bytes.as_slice()) {
                    Some(t) => t,
                    None => (None, None, None, None),
                }
            } else {
                (None, None, None, None)
            }
        },
        None => (None, None, None, None),
    }
}

fn slots_of(raw: &RawEndpoint) -> (r: (
    Option<String>,
    Option<String>,
    Option<String>,
    Option<u32>,
    Option<u32>,
))
    ensures
        (opt_str_view(r.0), opt_str_view(r.1), opt_str_view(r.2), r.3, r.4) == slots_spec(*raw),
{
    match &raw.endpoint_key {
        None => (None, None, None, None, None),
        Some(ep) => {
            let s = decode_opt(&ep.sfx);
            let m = decode_opt(&ep.mfx);
            let e = decode_opt(&ep.efx);
            let ef = if ep.flags.is_some() {
                ep.flags
            } else {
                ep.properties_flags
            };
            match &ep.fx {
                Some(fx) => {
                    let s2 = or_else(s, decode_opt(&fx.sfx));
                    let m2 = or_else(m, decode_opt(&fx.mfx));
                    let e2 = or_else(e, decode_opt(&fx.efx));
                    (s2, m2, e2, ef, fx.disable_enhancements)
                },
                None => (s, m, e, ef, None),
            }
        },
    }
}

fn contains_key(seen: &Vec<Vec<char>>, key: &Vec<char>) -> (r: bool)
    ensures
        r == views(seen@).contains(key@),
{
    let mut i: usize = 0;
    while i < seen.len()
        invariant
            i <= seen.len(),
            forall|j: int| 0 <= j < i ==> views(seen@)[j] != key@,
        decreases seen.len() - i,
    {
        if seq_eq(&seen[i], key) {
            assert(views(seen@)[i as int] == key@);
            return true;
        }
        i += 1;
    }
    proof {
        if views(seen@).contains(key@) {
            let j = choose|j: int| 0 <= j < views(seen@).len() && views(seen@)[j] == key@;
            assert(views(seen@)[j] != key@);
        }
    }
    false
}

/// Appends to `out` the endpoints that `raws` (the sub-keys of one MMDevices branch, in
/// order) describe, numbering them from `*idx` on; `*idx` ends past the last number used.
pub fn probe_path(raws: &Vec<RawEndpoint>, ep_kind: EndpointKind, out: &mut Vec<Endpoint>, idx: &mut usize)
    requires
        *old(idx) + raws@.len() <= usize::MAX,
        forall|i: int| 0 <= i < raws@.len() ==> cut_safe(#[trigger] raws@[i]),
    ensures
        endpoint_views(final(out)@) == endpoint_views(old(out)@) + probe_fold(
            raws@,
            ep_kind,
            *old(idx) as int,
        ).1,
        *final(idx) == *old(idx) + probe_fold(raws@, ep_kind, *old(idx) as int).1.len(),
{
    let ghost start = *idx as int;
    let ghost out0 = endpoint_views(out@);
    let mut seen: Vec<Vec<char>> = Vec::new();
    let mut i: usize = 0;
    assert(raws@.take(0) =~= Seq::<RawEndpoint>::empty());
    assert(endpoint_views(out@) =~= out0 + Seq::<EndpointView>::empty());
    while i < raws.len()
        invariant
            i <= raws.len(),
            start + raws@.len() <= usize::MAX,
            forall|j: int| 0 <= j < raws@.len() ==> cut_safe(#[trigger] raws@[j]),
            views(seen@) == probe_fold(raws@.take(i as int), ep_kind, start).0,
            endpoint_views(out@) == out0 + probe_fold(raws@.take(i as int), ep_kind, start).1,
            *idx == start + probe_fold(raws@.take(i as int), ep_kind, start).1.len(),
            probe_fold(raws@.take(i as int), ep_kind, start).1.len() <= i,
        decreases raws.len() - i,
    {
        assert(raws@.take(i + 1).drop_last() =~= raws@.take(i as int));
        assert(raws@.take(i + 1).last() == raws@[i as int]);
        let raw = &raws[i];
        assert(cut_safe(*raw));
        let active = match raw.device_state {
            Some(s) => s == 1,
            None => false,
        };
        if active {
            let name = endpoint_name(
                decode_opt(&raw.name_interface),
                decode_opt(&raw.name_product),
                raw.guid.as_str(),
            );
            let key: Vec<char> = match decode_opt(&raw.hardware_id) {
                Some(h) => chars_of(h.as_str()),
                None => chars_of(name.as_str()),
            };
            assert(key@ == dedup_key(*raw));
            if !contains_key(&seen, &key) {
                let (sample_rate, channels, bit_depth, channel_mask) = format_of(raw);
                let (sfx, mfx, efx, endpoint_flags, disable_enhancements) = slots_of(raw);
                let sfx_is_system = system_opt(&sfx);
                let mfx_is_system = system_opt(&mfx);
                let efx_is_system = system_opt(&efx);
                let ep = Endpoint {
                    index: *idx,
                    guid: raw.guid.clone(),
                    name,
                    kind: ep_kind,
                    sfx,
                    mfx,
                    efx,
                    sfx_is_system,
                    mfx_is_system,
                    efx_is_system,
                    sample_rate,
                    channels,
                    bit_depth,
                    channel_mask,
                    endpoint_flags,
                    disable_enhancements,
                };
                let ghost before = endpoint_views(out@);
                let ghost n_before = probe_fold(raws@.take(i as int), ep_kind, start).1.len();
                assert(ep@ == endpoint_of(*raw, ep_kind, start + n_before));
                out.push(ep);
                assert(endpoint_views(out@) =~= before.push(ep@));
                let ghost seen_before = views(seen@);
                seen.push(key);
                assert(views(seen@) =~= seen_before.push(key@));
                *idx = *idx + 1;
            }
        }
        i += 1;
    }
    assert(raws@.take(raws.len() as int) =~= raws@);
}

/// All endpoints: those under `Render` (playback) numbered first, then those under
/// `Capture`.
pub fn probe_all(render: &Vec<RawEndpoint>, capture: &Vec<RawEndpoint>) -> (r: Vec<Endpoint>)
    requires
        render@.len() + capture@.len() <= usize::MAX,
        forall|i: int| 0 <= i < render@.len() ==> cut_safe(#[trigger] render@[i]),
        forall|i: int| 0 <= i < capture@.len() ==> cut_safe(#[trigger] capture@[i]),
    ensures
        ({
            let p = probe_fold(render@, EndpointKind::Playback, 0).1;
            endpoint_views(r@) == p + probe_fold(capture@, EndpointKind::Capture, p.len() as int).1
        }),
{
    let mut endpoints: Vec<Endpoint> = Vec::new();
    let mut idx: usize = 0;
    assert(endpoint_views(endpoints@) =~= Seq::<EndpointView>::empty());
    probe_path(render, EndpointKind::Playback, &mut endpoints, &mut idx);
    proof {
        lemma_probe_fold_len(render@, EndpointKind::Playback, 0);
    }
    probe_path(capture, EndpointKind::Capture, &mut endpoints, &mut idx);
    endpoints
}

proof fn lemma_probe_fold_len(raws: Seq<RawEndpoint>, kind: EndpointKind, start: int)
    ensures
        probe_fold(raws, kind, start).1.len() <= raws.len(),
        probe_fold(raws, kind, start).0.len() == probe_fold(raws, kind, start).1.len(),
    decreases raws.len(),
{
    if raws.len() > 0 {
        lemma_probe_fold_len(raws.drop_last(), kind, start);
    }
}

/// Probing numbers the endpoints it yields consecutively from the start number, yields
/// each from an active sub-key (state 1) in the order of the sub-keys, and never yields
/// two with the same de-duplication key (hardware id, else name).
pub proof fn law_probe_numbers_consecutively_without_duplicates(
    raws: Seq<RawEndpoint>,
    kind: EndpointKind,
    start: int,
)
    ensures
        ({
            let (seen, out) = probe_fold(raws, kind, start);
            &&& seen.no_duplicates()
            &&& seen.len() == out.len()
            &&& forall|j: int| 0 <= j < out.len() ==> (#[trigger] out[j]).index == (start + j) as usize
            &&& forall|j: int|
                #![trigger out[j]]
                0 <= j < out.len() ==> exists|i: int|
                    0 <= i < raws.len() && (#[trigger] raws[i]).device_state == Some(1u32)
                        && out[j] == endpoint_of(raws[i], kind, start + j) && seen[j]
                        == dedup_key(raws[i])
        }),
    decreases raws.len(),
{
    if raws.len() > 0 {
        let init = raws.drop_last();
        law_probe_numbers_consecutively_without_duplicates(init, kind, start);
        let (seen0, out0) = probe_fold(init, kind, start);
        let (seen, out) = probe_fold(raws, kind, start);
        assert forall|j: int| #![trigger out0[j]] 0 <= j < out0.len() implies exists|i: int|
            0 <= i < raws.len() && (#[trigger] raws[i]).device_state == Some(1u32) && out0[j]
                == endpoint_of(raws[i], kind, start + j) && seen0[j] == dedup_key(raws[i]) by {
            let i = choose|i: int|
                0 <= i < init.len() && (#[trigger] init[i]).device_state == Some(1u32) && out0[j]
                    == endpoint_of(init[i], kind, start + j) && seen0[j] == dedup_key(init[i]);
            assert(raws[i] == init[i]);
        }
        let r = raws.last();
        if r.device_state == Some(1u32) && !seen0.contains(dedup_key(r)) {
            let n = out0.len() as int;
            assert(out[n] == endpoint_of(raws[raws.len() - 1], kind, start + n));
            assert(seen[n] == dedup_key(raws[raws.len() - 1]));
            assert forall|a: int, b: int| 0 <= a < seen.len() && 0 <= b < seen.len() && a != b
                implies seen[a] != seen[b] by {
                if a == n {
                    assert(seen0[b] == seen[b]);
                } else if b == n {
                    assert(seen0[a] == seen[a]);
                } else {
                    assert(seen0[a] == seen[a] && seen0[b] == seen[b]);
                }
            }
            assert forall|j: int| #![trigger out[j]] 0 <= j < out.len() implies exists|i: int|
                0 <= i < raws.len() && (#[trigger] raws[i]).device_state == Some(1u32) && out[j]
                    == endpoint_of(raws[i], kind, start + j) && seen[j] == dedup_key(raws[i]) by {
                if j == n {
                    assert(raws[raws.len() - 1].device_state == Some(1u32));
                } else {
                    assert(out[j] == out0[j] && seen[j] == seen0[j]);
                }
            }
        }
    }
}

} // verus!
