//! Device status: friendly names of slot CLSIDs, Equalizer APO detection, lost-slot
//! detection and the lines that `list`, `status` and the install preview show.
use vstd::prelude::*;
use crate::i18n::Lang;
use crate::knowledge::{known_apo_clsids, known_apo_clsids_exec, to_lowercase, unicode_lower};
use crate::commands::{self, guid_matches, resolve_device, resolve_spec, DeviceRef, EndpointName};
use crate::snapshot::{join_lines, SlotValue};
use crate::protocol::{DeviceKind, DeviceSlots};
use crate::verify::{mode_name, mode_str, InstallMode};
use crate::text::{chars_of, dec, eq_ignore_ascii_case, push_dec, push_str, seq_eq, string_of};

verus! {

/// A text without its `{` and `}` characters.
pub open spec fn strip_braces(s: Seq<char>) -> Seq<char>
    decreases s.len(),
{
    if s.len() == 0 {
        s
    } else if s.last() == '{' || s.last() == '}' {
        strip_braces(s.drop_last())
    } else {
        strip_braces(s.drop_last()).push(s.last())
    }
}

/// The form in which CLSIDs are compared: lower case, no braces.
pub open spec fn normalize(s: Seq<char>) -> Seq<char> {
    strip_braces(unicode_lower(s))
}

fn strip_braces_exec(s: &str) -> (r: Vec<char>)
    ensures
        r@ == strip_braces(s@),
{
    let cs = chars_of(s);
    let mut out: Vec<char> = Vec::new();
    let mut i: usize = 0;
    assert(cs@.take(0) =~= Seq::<char>::empty());
    while i < cs.len()
        invariant
            i <= cs.len(),
            cs@ == s@,
            out@ == strip_braces(cs@.take(i as int)),
        decreases cs.len() - i,
    {
        assert(cs@.take(i + 1).drop_last() =~= cs@.take(i as int));
        assert(cs@.take(i + 1).last() == cs@[i as int]);
        let c = cs[i];
        if c != '{' && c != '}' {
            out.push(c);
        }
        i += 1;
    }
    assert(cs@.take(cs.len() as int) =~= cs@);
    out
}

fn normalize_exec(s: &str) -> (r: Vec<char>)
    ensures
        r@ == normalize(s@),
{
    let lower = to_lowercase(s);
    strip_braces_exec(lower.as_str())
}

/// The friendly name of a CLSID: that of the first known APO whose CLSID is the same
/// once both are lower-cased and stripped of braces.
pub open spec fn slot_friendly_spec(clsid: Seq<char>) -> Option<Seq<char>> {
    let t = known_apo_clsids();
    if exists|i: int| 0 <= i < t.len() && normalize(#[trigger] t[i].0) == normalize(clsid) {
        let i = choose|i: int|
            0 <= i < t.len() && normalize(#[trigger] t[i].0) == normalize(clsid) && forall|j: int|
                0 <= j < i ==> normalize(#[trigger] t[j].0) != normalize(clsid);
        Some(t[i].1)
    } else {
        None
    }
}

pub open spec fn opt_view(o: Option<String>) -> Option<Seq<char>> {
    match o {
        Some(s) => Some(s@),
        None => None,
    }
}

/// The friendly name of a slot CLSID, in whatever letter case and with or without braces.
pub fn slot_friendly(clsid: &str) -> (r: Option<String>)
    ensures
        opt_view(r) == slot_friendly_spec(clsid@),
{
    let normalized = normalize_exec(clsid);
    let table = known_apo_clsids_exec();
    let ghost t = known_apo_clsids();
    let mut i: usize = 0;
    while i < table.len()
        invariant
            i <= table.len(),
            t == known_apo_clsids(),
            normalized@ == normalize(clsid@),
            table@.len() == t.len(),
            forall|j: int|
                0 <= j < table@.len() ==> (#[trigger] table@[j]).0@ == t[j].0 && table@[j].1@
                    == t[j].1,
            forall|j: int| 0 <= j < i ==> normalize(#[trigger] t[j].0) != normalize(clsid@),
        decreases table.len() - i,
    {
        let k = normalize_exec(table[i].0);
        if seq_eq(&k, &normalized) {
            let name = chars_of(table[i].1);
            let ghost w = choose|w: int|
                0 <= w < t.len() && normalize(#[trigger] t[w].0) == normalize(clsid@) && forall|
                    j: int,
                | 0 <= j < w ==> normalize(#[trigger] t[j].0) != normalize(clsid@);
            assert(0 <= i < t.len() && normalize(t[i as int].0) == normalize(clsid@) && forall|
                j: int,
            | 0 <= j < i ==> normalize(#[trigger] t[j].0) != normalize(clsid@));
            assert(w == i) by {
                if w < i {
                    assert(normalize(t[w].0) != normalize(clsid@));
                } else if w > i {
                    assert(normalize(t[i as int].0) != normalize(clsid@));
                }
            }
            return Some(string_of(&name));
        }
        i += 1;
    }
    None
}

pub open spec fn slot_names() -> Seq<Seq<char>> {
    seq!["LFX"@, "GFX"@, "SFX"@, "MFX"@, "EFX"@]
}

fn slot_name(i: usize) -> (r: &'static str)
    requires
        i < 5,
    ensures
        r@ == slot_names()[i as int],
{
    if i == 0 {
        "LFX"
    } else if i == 1 {
        "GFX"
    } else if i == 2 {
        "SFX"
    } else if i == 3 {
        "MFX"
    } else {
        "EFX"
    }
}

/// The Equalizer APO pre-mix CLSID, normalized.
pub open spec fn eapo_pre() -> Seq<char> {
    "eacd2258-fcac-4ff4-b36d-419e924a6d79"@
}

/// The Equalizer APO post-mix CLSID, normalized.
pub open spec fn eapo_post() -> Seq<char> {
    "ec1cc9ce-faed-4822-828a-82a81a6f018f"@
}

pub open spec fn slot_holds(v: SlotValue, target: Seq<char>) -> bool {
    match v {
        SlotValue::Guid(g) => normalize(g@) == target,
        _ => false,
    }
}

/// The last of the first `n` slots holding `target`.
pub open spec fn last_slot(slots: Seq<SlotValue>, target: Seq<char>, n: int) -> Option<int>
    decreases n,
{
    if n <= 0 {
        None
    } else if slot_holds(slots[n - 1], target) {
        Some(n - 1)
    } else {
        last_slot(slots, target, n - 1)
    }
}

pub open spec fn eapo_message(pre: Option<int>, post: Option<int>, lang: Lang) -> Option<Seq<char>> {
    match (pre, post) {
        (Some(p), Some(q)) => Some(
            if lang == Lang::En {
                "EAPO installed: PreMix=("@ + slot_names()[p] + ") + PostMix=("@ + slot_names()[q]
                    + ")"@
            } else {
                "EAPO 已安装：PreMix=("@ + slot_names()[p] + ") + PostMix=("@ + slot_names()[q] + ")"@
            },
        ),
        (Some(p), None) => Some(
            if lang == Lang::En {
                "EAPO partially installed: PreMix only ("@ + slot_names()[p] + ")"@
            } else {
                "EAPO 部分安装：仅 PreMix=("@ + slot_names()[p] + ")"@
            },
        ),
        (None, Some(q)) => Some(
            if lang == Lang::En {
                "EAPO partially installed: PostMix only ("@ + slot_names()[q] + ")"@
            } else {
                "EAPO 部分安装：仅 PostMix=("@ + slot_names()[q] + ")"@
            },
        ),
        (None, None) => None,
    }
}

/// Which slots Equalizer APO occupies (the last slot holding each of its CLSIDs), as the
/// line `status` prints; `None` when it occupies none.
pub open spec fn eapo_status_spec(slots: Seq<SlotValue>, lang: Lang) -> Option<Seq<char>> {
    eapo_message(last_slot(slots, eapo_pre(), 5), last_slot(slots, eapo_post(), 5), lang)
}

/// Reports an Equalizer APO installation found in the slots.
pub fn detect_eapo_status(slots: &[SlotValue; 5], lang: Lang) -> (r: Option<String>)
    ensures
        opt_view(r) == eapo_status_spec(slots@, lang),
{
    let pre_target = chars_of("eacd2258-fcac-4ff4-b36d-419e924a6d79");
    let post_target = chars_of("ec1cc9ce-faed-4822-828a-82a81a6f018f");
    let mut pre: Option<usize> = None;
    let mut post: Option<usize> = None;
    let mut s: usize = 0;
    while s < 5
        invariant
            s <= 5,
            pre_target@ == eapo_pre(),
            post_target@ == eapo_post(),
            pre matches Some(p) ==> p < s,
            post matches Some(p) ==> p < s,
            match pre {
                Some(p) => last_slot(slots@, eapo_pre(), s as int) == Some(p as int),
                None => last_slot(slots@, eapo_pre(), s as int) is None,
            },
            match post {
                Some(p) => last_slot(slots@, eapo_post(), s as int) == Some(p as int),
                None => last_slot(slots@, eapo_post(), s as int) is None,
            },
        decreases 5 - s,
    {
        match &slots[s] {
            SlotValue::Guid(g) => {
                let normalized = normalize_exec(g.as_str());
                if seq_eq(&normalized, &pre_target) {
                    pre = Some(s);
                }
                if seq_eq(&normalized, &post_target) {
                    post = Some(s);
                }
            },
            _ => {},
        }
        s += 1;
    }
    let mut out: Vec<char> = Vec::new();
    match (pre, post) {
        (Some(p), Some(q)) => {
            if lang == Lang::En {
                push_str(&mut out, "EAPO installed: PreMix=(");
            } else {
                push_str(&mut out, "EAPO 已安装：PreMix=(");
            }
            push_str(&mut out, slot_name(p));
            push_str(&mut out, ") + PostMix=(");
            push_str(&mut out, slot_name(q));
            push_str(&mut out, ")");
        },
        (Some(p), None) => {
            if lang == Lang::En {
                push_str(&mut out, "EAPO partially installed: PreMix only (");
            } else {
                push_str(&mut out, "EAPO 部分安装：仅 PreMix=(");
            }
            push_str(&mut out, slot_name(p));
            push_str(&mut out, ")");
        },
        (None, Some(q)) => {
            if lang == Lang::En {
                push_str(&mut out, "EAPO partially installed: PostMix only (");
            } else {
                push_str(&mut out, "EAPO 部分安装：仅 PostMix=(");
            }
            push_str(&mut out, slot_name(q));
            push_str(&mut out, ")");
        },
        (None, None) => {
            return None;
        },
    }
    Some(string_of(&out))
}

/// The identity of a device's audio endpoint.
pub struct EndpointInfo {
    pub endpoint_guid: String,
    pub friendly_name: String,
    pub device_id: String,
    /// Whether the endpoint records (else it plays).
    pub capture: bool,
}

/// A device's stream format.
pub struct StreamFormat {
    pub sample_rate: u32,
    pub channels: u16,
    pub bits_per_sample: u16,
}

/// What the driver reports of one device.
pub struct DeviceInfo {
    pub endpoint: Option<EndpointInfo>,
    pub installed_version: String,
    pub install_mode: InstallMode,
    /// The slot index that the install mode puts the pre-mix APO in.
    pub premix_slot: usize,
    /// The slot index that the install mode puts the post-mix APO in.
    pub postmix_slot: usize,
    pub slots: [SlotValue; 5],
    /// Each slot value as the driver prints it.
    pub slot_texts: [String; 5],
    pub format: Option<StreamFormat>,
    /// Whether the device's child-APO key exists (false without an endpoint).
    pub child_apo_key: bool,
}

impl DeviceInfo {
    pub open spec fn wf(&self) -> bool {
        self.premix_slot < 5 && self.postmix_slot < 5
    }
}

/// The CLSIDs of this project's two APOs, in the form slot values print them.
pub struct VxClsids {
    pub pre_mix: String,
    pub post_mix: String,
}

pub open spec fn or_empty(o: Option<Seq<char>>) -> Seq<char> {
    match o {
        Some(s) => s,
        None => seq![],
    }
}

pub open spec fn holds_exactly(v: SlotValue, clsid: Seq<char>) -> bool {
    match v {
        SlotValue::Guid(g) => g@ == clsid,
        _ => false,
    }
}

/// `None` while the install mode's pre-mix and post-mix slots hold this project's APOs;
/// else what they hold instead, by friendly name.
pub open spec fn lost_slot_spec(d: DeviceInfo, ids: VxClsids) -> Option<Seq<char>> {
    let pre_ok = holds_exactly(d.slots@[d.premix_slot as int], ids.pre_mix@);
    let post_ok = holds_exactly(d.slots@[d.postmix_slot as int], ids.post_mix@);
    if pre_ok && post_ok {
        None
    } else {
        Some(
            "PreMix="@ + or_empty(slot_friendly_spec(d.slot_texts@[d.premix_slot as int]@))
                + " PostMix="@ + or_empty(slot_friendly_spec(d.slot_texts@[d.postmix_slot as int]@)),
        )
    }
}

/// A device reports no lost slot exactly when the install mode's pre-mix slot holds this
/// project's PreMix CLSID and its post-mix slot the PostMix CLSID; anything else in
/// either slot (another CLSID, no key, no value) is reported.
pub proof fn law_lost_slot_exact(d: DeviceInfo, ids: VxClsids)
    requires
        d.wf(),
    ensures
        lost_slot_spec(d, ids) is None <==> ((d.slots@[d.premix_slot as int] matches SlotValue::Guid(g)
            && g@ == ids.pre_mix@) && (d.slots@[d.postmix_slot as int] matches SlotValue::Guid(h) && h@
            == ids.post_mix@)),
        lost_slot_spec(d, ids) is Some ==> lost_slot_spec(d, ids)->Some_0 == "PreMix="@ + or_empty(
            slot_friendly_spec(d.slot_texts@[d.premix_slot as int]@),
        ) + " PostMix="@ + or_empty(slot_friendly_spec(d.slot_texts@[d.postmix_slot as int]@)),
{
}

fn holds_exactly_exec(v: &SlotValue, clsid: &str) -> (r: bool)
    ensures
        r == holds_exactly(*v, clsid@),
{
    match v {
        SlotValue::Guid(g) => crate::text::str_eq(g.as_str(), clsid),
        _ => false,
    }
}

fn push_friendly_or_empty(out: &mut Vec<char>, text: &str)
    ensures
        final(out)@ == old(out)@ + or_empty(slot_friendly_spec(text@)),
{
    match slot_friendly(text) {
        Some(f) => push_str(out, f.as_str()),
        None => {
            assert(old(out)@ + or_empty(slot_friendly_spec(text@)) =~= old(out)@);
        },
    }
}

/// Whether the device's install-mode slots were taken over by something else.
pub fn detect_lost_slot(d: &DeviceInfo, ids: &VxClsids) -> (r: Option<String>)
    requires
        d.wf(),
    ensures
        opt_view(r) == lost_slot_spec(*d, *ids),
{
    let pre_ok = holds_exactly_exec(&d.slots[d.premix_slot], ids.pre_mix.as_str());
    let post_ok = holds_exactly_exec(&d.slots[d.postmix_slot], ids.post_mix.as_str());
    if pre_ok && post_ok {
        return None;
    }
    let mut out = chars_of("PreMix=");
    push_friendly_or_empty(&mut out, d.slot_texts[d.premix_slot].as_str());
    push_str(&mut out, " PostMix=");
    push_friendly_or_empty(&mut out, d.slot_texts[d.postmix_slot].as_str());
    Some(string_of(&out))
}

/// How a slot is shown: the friendly name of its CLSID, else the CLSID; `-` when empty.
pub open spec fn slot_label_spec(v: SlotValue) -> Seq<char> {
    match v {
        SlotValue::Guid(g) => match slot_friendly_spec(g@) {
            Some(f) => f,
            None => g@,
        },
        _ => "-"@,
    }
}

fn push_slot_label(out: &mut Vec<char>, v: &SlotValue)
    ensures
        final(out)@ == old(out)@ + slot_label_spec(*v),
{
    match v {
        SlotValue::Guid(g) => match slot_friendly(g.as_str()) {
            Some(f) => push_str(out, f.as_str()),
            None => push_str(out, g.as_str()),
        },
        _ => push_str(out, "-"),
    }
}

/// The lines `  LFX[0]: ..` to `  EFX[4]: ..` with the given indent.
pub open spec fn slot_lines(slots: Seq<SlotValue>, indent: Seq<char>) -> Seq<Seq<char>> {
    Seq::new(
        5,
        |s: int| indent + slot_names()[s] + "["@ + dec(s as nat) + "]: "@ + slot_label_spec(slots[s]),
    )
}

fn push_slot_lines(lines: &mut Vec<String>, slots: &[SlotValue; 5], indent: &str)
    ensures
        string_views(final(lines)@) == string_views(old(lines)@) + slot_lines(slots@, indent@),
{
    let ghost start = string_views(lines@);
    let ghost want = slot_lines(slots@, indent@);
    let mut s: usize = 0;
    assert(string_views(lines@) =~= start + want.take(0));
    while s < 5
        invariant
            s <= 5,
            want == slot_lines(slots@, indent@),
            string_views(lines@) == start + want.take(s as int),
        decreases 5 - s,
    {
        let mut out = chars_of(indent);
        push_str(&mut out, slot_name(s));
        push_str(&mut out, "[");
        push_dec(&mut out, s as u64);
        push_str(&mut out, "]: ");
        push_slot_label(&mut out, &slots[s]);
        assert(out@ =~= want[s as int]);
        let ghost before = string_views(lines@);
        lines.push(string_of(&out));
        assert(string_views(lines@) =~= before.push(want[s as int]));
        assert(want.take(s + 1) =~= want.take(s as int).push(want[s as int]));
        s += 1;
    }
    assert(want.take(5) =~= want);
}

pub open spec fn string_views(v: Seq<String>) -> Seq<Seq<char>> {
    v.map_values(|s: String| s@)
}

/// The name `{:?}` gives an install mode.
pub open spec fn mode_debug(m: InstallMode) -> Seq<char> {
    match m {
        InstallMode::LfxGfx => "LfxGfx"@,
        InstallMode::SfxMfx => "SfxMfx"@,
        InstallMode::SfxEfx => "SfxEfx"@,
    }
}

fn mode_debug_exec(m: InstallMode) -> (r: &'static str)
    ensures
        r@ == mode_debug(m),
{
    match m {
        InstallMode::LfxGfx => "LfxGfx",
        InstallMode::SfxMfx => "SfxMfx",
        InstallMode::SfxEfx => "SfxEfx",
    }
}

pub open spec fn version_line(indent: Seq<char>, d: DeviceInfo, lang: Lang) -> Seq<char> {
    indent + if lang == Lang::En {
        "Version: "@ + d.installed_version@ + "  Mode: "@ + mode_debug(d.install_mode)
    } else {
        "版本: "@ + d.installed_version@ + "  模式: "@ + mode_debug(d.install_mode)
    }
}

fn version_line_exec(indent: &str, d: &DeviceInfo, lang: Lang) -> (r: String)
    ensures
        r@ == version_line(indent@, *d, lang),
{
    let mut out = chars_of(indent);
    if lang == Lang::En {
        push_str(&mut out, "Version: ");
        push_str(&mut out, d.installed_version.as_str());
        push_str(&mut out, "  Mode: ");
    } else {
        push_str(&mut out, "版本: ");
        push_str(&mut out, d.installed_version.as_str());
        push_str(&mut out, "  模式: ");
    }
    push_str(&mut out, mode_debug_exec(d.install_mode));
    string_of(&out)
}

pub open spec fn eapo_lines(slots: Seq<SlotValue>, indent: Seq<char>, lang: Lang) -> Seq<Seq<char>> {
    match eapo_status_spec(slots, lang) {
        Some(e) => seq![indent + "▶ "@ + e],
        None => seq![],
    }
}

pub open spec fn lost_message(lost: Seq<char>, lang: Lang) -> Seq<char> {
    if lang == Lang::En {
        "⚠ Slot lost: "@ + lost + " has been taken over; reinstall required"@
    } else {
        "⚠ 槽位失守："@ + lost + " 已被接管，需重装（install）"@
    }
}

pub open spec fn lost_lines(d: DeviceInfo, ids: VxClsids, check: bool, indent: Seq<char>, lang: Lang) -> Seq<Seq<char>> {
    if check {
        match lost_slot_spec(d, ids) {
            Some(l) => seq![indent + lost_message(l, lang)],
            None => seq![],
        }
    } else {
        seq![]
    }
}

fn push_eapo_and_lost(
    lines: &mut Vec<String>,
    d: &DeviceInfo,
    ids: &VxClsids,
    check: bool,
    indent: &str,
    lang: Lang,
)
    requires
        d.wf(),
    ensures
        string_views(final(lines)@) == string_views(old(lines)@) + eapo_lines(d.slots@, indent@, lang)
            + lost_lines(*d, *ids, check, indent@, lang),
{
    let ghost start = string_views(lines@);
    match detect_eapo_status(&d.slots, lang) {
        Some(e) => {
            let mut out = chars_of(indent);
            push_str(&mut out, "▶ ");
            push_str(&mut out, e.as_str());
            lines.push(string_of(&out));
        },
        None => {},
    }
    assert(string_views(lines@) =~= start + eapo_lines(d.slots@, indent@, lang));
    let ghost mid = string_views(lines@);
    if check {
        match detect_lost_slot(d, ids) {
            Some(l) => {
                let mut out = chars_of(indent);
                if lang == Lang::En {
                    push_str(&mut out, "⚠ Slot lost: ");
                    push_str(&mut out, l.as_str());
                    push_str(&mut out, " has been taken over; reinstall required");
                } else {
                    push_str(&mut out, "⚠ 槽位失守：");
                    push_str(&mut out, l.as_str());
                    push_str(&mut out, " 已被接管，需重装（install）");
                }
                assert(out@ =~= indent@ + lost_message(l@, lang));
                lines.push(string_of(&out));
            },
            None => {},
        }
    }
    assert(string_views(lines@) =~= mid + lost_lines(*d, *ids, check, indent@, lang));
}

pub open spec fn endpoint_guid(d: DeviceInfo) -> Seq<char> {
    match d.endpoint {
        Some(e) => e.endpoint_guid@,
        None => seq![],
    }
}

/// The lines `list` prints for device number `i`.
pub open spec fn device_rows(i: nat, d: DeviceInfo, ids: VxClsids, lang: Lang) -> Seq<Seq<char>> {
    let name = match d.endpoint {
        Some(e) => e.friendly_name@,
        None => if lang == Lang::En {
            "(unnamed)"@
        } else {
            "(未命名)"@
        },
    };
    let guid = endpoint_guid(d);
    seq!["["@ + dec(i) + "] "@ + name, "     GUID: "@ + guid, version_line("     "@, d, lang)]
        + slot_lines(d.slots@, "     "@) + eapo_lines(d.slots@, "     "@, lang) + lost_lines(
        d,
        ids,
        guid.len() > 0 && d.child_apo_key,
        "     "@,
        lang,
    )
}

fn push_device_rows(lines: &mut Vec<String>, i: usize, d: &DeviceInfo, ids: &VxClsids, lang: Lang)
    requires
        d.wf(),
    ensures
        string_views(final(lines)@) == string_views(old(lines)@) + device_rows(i as nat, *d, *ids, lang),
{
    let ghost start = string_views(lines@);
    let mut head = chars_of("[");
    push_dec(&mut head, i as u64);
    push_str(&mut head, "] ");
    let mut guid_line = chars_of("     GUID: ");
    let mut guid_len: usize = 0;
    match &d.endpoint {
        Some(e) => {
            push_str(&mut head, e.friendly_name.as_str());
            push_str(&mut guid_line, e.endpoint_guid.as_str());
            guid_len = e.endpoint_guid.as_str().unicode_len();
        },
        None => {
            if lang == Lang::En {
                push_str(&mut head, "(unnamed)");
            } else {
                push_str(&mut head, "(未命名)");
            }
        },
    }
    lines.push(string_of(&head));
    lines.push(string_of(&guid_line));
    lines.push(version_line_exec("     ", d, lang));
    assert(string_views(lines@) =~= start + device_rows(i as nat, *d, *ids, lang).take(3));
    let ghost mid = string_views(lines@);
    push_slot_lines(lines, &d.slots, "     ");
    push_eapo_and_lost(lines, d, ids, guid_len > 0 && d.child_apo_key, "     ", lang);
    assert(string_views(lines@) =~= start + device_rows(i as nat, *d, *ids, lang));
}

/// The lines `list` prints for the enumerated devices.
pub open spec fn list_lines_spec(devices: Seq<DeviceInfo>, ids: VxClsids, lang: Lang) -> Seq<Seq<char>>
    decreases devices.len(),
{
    if devices.len() == 0 {
        seq![]
    } else {
        list_lines_spec(devices.drop_last(), ids, lang) + device_rows(
            (devices.len() - 1) as nat,
            devices.last(),
            ids,
            lang,
        )
    }
}

/// What `list` prints (the text form): each device's rows, or a note that there is none.
pub fn list_lines(devices: &Vec<DeviceInfo>, ids: &VxClsids, lang: Lang) -> (r: Vec<String>)
    requires
        forall|i: int| 0 <= i < devices@.len() ==> (#[trigger] devices@[i]).wf(),
    ensures
        string_views(r@) == if devices@.len() == 0 {
            seq![
                if lang == Lang::En {
                    "(no audio endpoints)"@
                } else {
                    "（无音频端点）"@
                },
            ]
        } else {
            list_lines_spec(devices@, *ids, lang)
        },
{
    let mut lines: Vec<String> = Vec::new();
    if devices.len() == 0 {
        let t = if lang == Lang::En {
            chars_of("(no audio endpoints)")
        } else {
            chars_of("（无音频端点）")
        };
        lines.push(string_of(&t));
        assert(string_views(lines@) =~= seq![t@]);
        return lines;
    }
    let mut i: usize = 0;
    assert(devices@.take(0) =~= Seq::<DeviceInfo>::empty());
    assert(string_views(lines@) =~= Seq::<Seq<char>>::empty());
    while i < devices.len()
        invariant
            i <= devices.len(),
            forall|j: int| 0 <= j < devices@.len() ==> (#[trigger] devices@[j]).wf(),
            string_views(lines@) == list_lines_spec(devices@.take(i as int), *ids, lang),
        decreases devices.len() - i,
    {
        assert(devices@.take(i + 1).drop_last() =~= devices@.take(i as int));
        assert(devices@.take(i + 1).last() == devices@[i as int]);
        assert(devices@[i as int].wf());
        push_device_rows(&mut lines, i, &devices[i], ids, lang);
        i += 1;
    }
    assert(devices@.take(devices.len() as int) =~= devices@);
    lines
}

/// The endpoint identities of the devices, as [`resolve_device`] takes them.
pub open spec fn device_endpoints(devices: Seq<DeviceInfo>) -> Seq<Option<(Seq<char>, Seq<char>)>> {
    devices.map_values(
        |d: DeviceInfo|
            match d.endpoint {
                Some(e) => Some((e.endpoint_guid@, e.friendly_name@)),
                None => None,
            },
    )
}

fn endpoint_names(devices: &Vec<DeviceInfo>) -> (r: Vec<Option<EndpointName>>)
    ensures
        commands::endpoint_views(r@) == device_endpoints(devices@),
{
    let mut out: Vec<Option<EndpointName>> = Vec::new();
    let mut i: usize = 0;
    while i < devices.len()
        invariant
            i <= devices.len(),
            commands::endpoint_views(out@) == device_endpoints(devices@).take(i as int),
        decreases devices.len() - i,
    {
        let item = match &devices[i].endpoint {
            Some(e) => Some(
                EndpointName { guid: e.endpoint_guid.clone(), name: e.friendly_name.clone() },
            ),
            None => None,
        };
        let ghost before = commands::endpoint_views(out@);
        out.push(item);
        assert(commands::endpoint_views(out@) =~= before.push(
            match item {
                Some(e) => Some((e.guid@, e.name@)),
                None => None,
            },
        ));
        assert(device_endpoints(devices@).take(i + 1) =~= device_endpoints(devices@).take(
            i as int,
        ).push(device_endpoints(devices@)[i as int]));
        i += 1;
    }
    assert(device_endpoints(devices@).take(devices.len() as int) =~= device_endpoints(devices@));
    out
}

/// The first device whose endpoint GUID equals `guid` ignoring ASCII case.
pub open spec fn first_device(eps: Seq<Option<(Seq<char>, Seq<char>)>>, guid: Seq<char>) -> Option<int>
    decreases eps.len(),
{
    if eps.len() == 0 {
        None
    } else if guid_matches(eps[0], guid) {
        Some(0)
    } else {
        match first_device(eps.drop_first(), guid) {
            Some(i) => Some(i + 1),
            None => None,
        }
    }
}

proof fn lemma_first_device(eps: Seq<Option<(Seq<char>, Seq<char>)>>, guid: Seq<char>, i: int)
    requires
        0 <= i <= eps.len(),
        forall|j: int| 0 <= j < i ==> !guid_matches(#[trigger] eps[j], guid),
    ensures
        i < eps.len() && guid_matches(eps[i], guid) ==> first_device(eps, guid) == Some(i),
        i == eps.len() ==> first_device(eps, guid) is None,
    decreases i,
{
    if i > 0 {
        let rest = eps.drop_first();
        assert forall|j: int| 0 <= j < i - 1 implies !guid_matches(#[trigger] rest[j], guid) by {
            assert(rest[j] == eps[j + 1]);
        }
        assert(!guid_matches(eps[0], guid));
        if i < eps.len() {
            assert(rest[i - 1] == eps[i]);
        }
        lemma_first_device(rest, guid, i - 1);
    }
}

pub proof fn lemma_first_device_bound(eps: Seq<Option<(Seq<char>, Seq<char>)>>, guid: Seq<char>)
    ensures
        first_device(eps, guid) matches Some(i) ==> 0 <= i < eps.len(),
    decreases eps.len(),
{
    if eps.len() > 0 {
        lemma_first_device_bound(eps.drop_first(), guid);
    }
}

/// Finds the enumerated device whose endpoint has GUID `guid` (any ASCII case).
pub fn find_device(devices: &Vec<DeviceInfo>, guid: &str) -> (r: Option<usize>)
    ensures
        match r {
            Some(i) => first_device(device_endpoints(devices@), guid@) == Some(i as int),
            None => first_device(device_endpoints(devices@), guid@) is None,
        },
{
    let ghost eps = device_endpoints(devices@);
    let g = chars_of(guid);
    let mut i: usize = 0;
    while i < devices.len()
        invariant
            i <= devices.len(),
            eps == device_endpoints(devices@),
            g@ == guid@,
            forall|j: int| 0 <= j < i ==> !guid_matches(#[trigger] eps[j], guid@),
        decreases devices.len() - i,
    {
        match &devices[i].endpoint {
            Some(e) => {
                let eg = chars_of(e.endpoint_guid.as_str());
                if eq_ignore_ascii_case(&eg, &g) {
                    assert(guid_matches(eps[i as int], guid@));
                    proof {
                        lemma_first_device(eps, guid@, i as int);
                    }
                    return Some(i);
                }
            },
            None => {
                assert(!guid_matches(eps[i as int], guid@));
            },
        }
        i += 1;
    }
    proof {
        lemma_first_device(eps, guid@, i as int);
    }
    None
}

pub open spec fn msg_not_listed(lang: Lang) -> Seq<char> {
    if lang == Lang::En {
        "Device not in enumeration list"@
    } else {
        "设备不在枚举列表"@
    }
}

/// Where `<device>` leads: the resolved device and the index of the enumerated device with
/// its GUID, or the error message.
pub open spec fn locate_spec(r: Seq<char>, devices: Seq<DeviceInfo>, lang: Lang) -> Result<
    ((Seq<char>, Seq<char>), int),
    Seq<char>,
> {
    match resolve_spec(r, device_endpoints(devices), lang) {
        Err(e) => Err(e),
        Ok(dev) => match first_device(device_endpoints(devices), dev.0) {
            Some(i) => Ok((dev, i)),
            None => Err(msg_not_listed(lang)),
        },
    }
}

/// Resolves `<device>` and finds the enumerated device it names.
pub fn locate_device(device_ref: &str, devices: &Vec<DeviceInfo>, lang: Lang) -> (r: Result<
    (DeviceRef, usize),
    String,
>)
    ensures
        match r {
            Ok((d, i)) => locate_spec(device_ref@, devices@, lang) == Ok::<
                ((Seq<char>, Seq<char>), int),
                Seq<char>,
            >(((d.guid@, d.name@), i as int)) && d.connection@ == Seq::<char>::empty(),
            Err(e) => locate_spec(device_ref@, devices@, lang) == Err::<
                ((Seq<char>, Seq<char>), int),
                Seq<char>,
            >(e@),
        },
{
    let names = endpoint_names(devices);
    let dev = match resolve_device(device_ref, &names, lang) {
        Ok(d) => d,
        Err(e) => {
            return Err(e);
        },
    };
    match find_device(devices, dev.guid.as_str()) {
        Some(i) => Ok((dev, i)),
        None => {
            let m = if lang == Lang::En {
                chars_of("Device not in enumeration list")
            } else {
                chars_of("设备不在枚举列表")
            };
            Err(string_of(&m))
        },
    }
}

/// How a child APO is shown: by friendly name, else as read; `-` when there is none.
pub open spec fn child_label(c: Option<Seq<char>>) -> Seq<char> {
    match c {
        Some(t) => match slot_friendly_spec(t) {
            Some(f) => f,
            None => t,
        },
        None => "-"@,
    }
}

fn push_child_label(out: &mut Vec<char>, c: &Option<String>)
    ensures
        final(out)@ == old(out)@ + child_label(opt_view(*c)),
{
    match c {
        Some(t) => match slot_friendly(t.as_str()) {
            Some(f) => push_str(out, f.as_str()),
            None => push_str(out, t.as_str()),
        },
        None => push_str(out, "-"),
    }
}

/// The lines `status` prints for one device (which has an endpoint), given its child APOs.
pub open spec fn status_lines_spec(
    d: DeviceInfo,
    child_pre: Option<Seq<char>>,
    child_post: Option<Seq<char>>,
    ids: VxClsids,
    lang: Lang,
) -> Seq<Seq<char>> {
    let e = d.endpoint->0;
    seq!["["@ + e.friendly_name@ + "]"@, "  GUID: "@ + e.endpoint_guid@, version_line("  "@, d, lang)]
        + slot_lines(d.slots@, "  "@) + eapo_lines(d.slots@, "  "@, lang) + seq![
        "  "@ + if lang == Lang::En {
            "Child APO:"@
        } else {
            "子 APO："@
        },
        "    PreMixChild: "@ + child_label(child_pre),
        "    PostMixChild: "@ + child_label(child_post),
    ] + lost_lines(d, ids, d.child_apo_key, "  "@, lang)
}

/// What `status` shows of one device: identity, version and mode, the five slots, the
/// Equalizer APO note, the child APOs and a lost-slot warning.
pub fn status_lines(
    d: &DeviceInfo,
    child_pre: &Option<String>,
    child_post: &Option<String>,
    ids: &VxClsids,
    lang: Lang,
) -> (r: Vec<String>)
    requires
        d.wf(),
        d.endpoint is Some,
    ensures
        string_views(r@) == status_lines_spec(*d, opt_view(*child_pre), opt_view(*child_post), *ids, lang),
{
    let ghost want = status_lines_spec(*d, opt_view(*child_pre), opt_view(*child_post), *ids, lang);
    let ghost e = d.endpoint->0;
    let ghost p1 = seq![
        "["@ + e.friendly_name@ + "]"@,
        "  GUID: "@ + e.endpoint_guid@,
        version_line("  "@, *d, lang),
    ];
    let ghost p2 = slot_lines(d.slots@, "  "@);
    let ghost p3 = eapo_lines(d.slots@, "  "@, lang);
    let ghost p4 = seq![
        "  "@ + if lang == Lang::En {
            "Child APO:"@
        } else {
            "子 APO："@
        },
        "    PreMixChild: "@ + child_label(opt_view(*child_pre)),
        "    PostMixChild: "@ + child_label(opt_view(*child_post)),
    ];
    let ghost p5 = lost_lines(*d, *ids, d.child_apo_key, "  "@, lang);
    assert(want =~= p1 + p2 + p3 + p4 + p5);
    let mut lines: Vec<String> = Vec::new();
    match &d.endpoint {
        Some(e) => {
            let mut head = chars_of("[");
            push_str(&mut head, e.friendly_name.as_str());
            push_str(&mut head, "]");
            lines.push(string_of(&head));
            let mut g = chars_of("  GUID: ");
            push_str(&mut g, e.endpoint_guid.as_str());
            lines.push(string_of(&g));
        },
        None => {},
    }
    lines.push(version_line_exec("  ", d, lang));
    assert(string_views(lines@) =~= p1);
    push_slot_lines(&mut lines, &d.slots, "  ");
    push_eapo_and_lost(&mut lines, d, ids, false, "  ", lang);
    assert(lost_lines(*d, *ids, false, "  "@, lang) =~= Seq::<Seq<char>>::empty());
    assert(string_views(lines@) =~= p1 + p2 + p3);
    let mut t = chars_of("  ");
    if lang == Lang::En {
        push_str(&mut t, "Child APO:");
    } else {
        push_str(&mut t, "子 APO：");
    }
    lines.push(string_of(&t));
    let mut pre = chars_of("    PreMixChild: ");
    push_child_label(&mut pre, child_pre);
    lines.push(string_of(&pre));
    let mut post = chars_of("    PostMixChild: ");
    push_child_label(&mut post, child_post);
    lines.push(string_of(&post));
    assert(string_views(lines@) =~= p1 + p2 + p3 + p4);
    let ghost mid2 = string_views(lines@);
    if d.child_apo_key {
        match detect_lost_slot(d, ids) {
            Some(l) => {
                let mut out = chars_of("  ");
                if lang == Lang::En {
                    push_str(&mut out, "⚠ Slot lost: ");
                    push_str(&mut out, l.as_str());
                    push_str(&mut out, " has been taken over; reinstall required");
                } else {
                    push_str(&mut out, "⚠ 槽位失守：");
                    push_str(&mut out, l.as_str());
                    push_str(&mut out, " 已被接管，需重装（install）");
                }
                assert(out@ =~= "  "@ + lost_message(l@, lang));
                lines.push(string_of(&out));
            },
            None => {},
        }
    }
    assert(string_views(lines@) =~= mid2 + lost_lines(*d, *ids, d.child_apo_key, "  "@, lang));
    assert(string_views(lines@) =~= want);
    lines
}

/// The install preview: the device's name and its five slots, one per line.
pub open spec fn preview_spec(name: Seq<char>, d: DeviceInfo, lang: Lang) -> Seq<char> {
    join_lines(
        seq![
            if lang == Lang::En {
                "  Device: "@ + name
            } else {
                "  设备："@ + name
            },
        ] + slot_lines(d.slots@, "  "@),
    )
}

/// What the install preview shows for `<device>`: its name and who holds its slots.
pub fn preview_install(device_ref: &str, devices: &Vec<DeviceInfo>, lang: Lang) -> (r: Result<
    String,
    String,
>)
    ensures
        match r {
            Ok(t) => match locate_spec(device_ref@, devices@, lang) {
                Ok((dev, i)) => t@ == preview_spec(dev.1, devices@[i], lang),
                Err(_) => false,
            },
            Err(e) => locate_spec(device_ref@, devices@, lang) == Err::<
                ((Seq<char>, Seq<char>), int),
                Seq<char>,
            >(e@),
        },
{
    let (dev, i) = match locate_device(device_ref, devices, lang) {
        Ok(p) => p,
        Err(e) => {
            return Err(e);
        },
    };
    proof {
        lemma_first_device_bound(device_endpoints(devices@), dev.guid@);
    }
    let mut lines: Vec<String> = Vec::new();
    let mut head = if lang == Lang::En {
        chars_of("  Device: ")
    } else {
        chars_of("  设备：")
    };
    push_str(&mut head, dev.name.as_str());
    lines.push(string_of(&head));
    assert(string_views(lines@) =~= seq![head@]);
    push_slot_lines(&mut lines, &devices[i].slots, "  ");
    assert(string_views(lines@) =~= seq![
        if lang == Lang::En {
            "  Device: "@ + dev.name@
        } else {
            "  设备："@ + dev.name@
        },
    ] + slot_lines(devices@[i as int].slots@, "  "@));
    let joined = join_strings(&lines);
    Ok(joined)
}

fn join_strings(lines: &Vec<String>) -> (r: String)
    ensures
        r@ == join_lines(string_views(lines@)),
{
    let ghost v = string_views(lines@);
    let mut out: Vec<char> = Vec::new();
    let mut i: usize = 0;
    while i < lines.len()
        invariant
            i <= lines.len(),
            v == string_views(lines@),
            out@ == join_lines(v.take(i as int)),
        decreases lines.len() - i,
    {
        if i > 0 {
            push_str(&mut out, "\n");
        }
        push_str(&mut out, lines[i].as_str());
        assert(v.take(i + 1).drop_last() =~= v.take(i as int));
        i += 1;
        assert(out@ =~= join_lines(v.take(i as int)));
    }
    assert(v.take(lines.len() as int) =~= v);
    string_of(&out)
}

/// Everything `list --json` reports of a device but its volume.
pub struct DeviceSummary {
    pub index: u32,
    pub name: String,
    pub guid: String,
    pub device_id: String,
    pub connection: String,
    pub installed_version: String,
    pub install_mode: String,
    pub slots: DeviceSlots,
    pub sample_rate: Option<u32>,
    pub channels: Option<u32>,
    pub bit_depth: Option<u32>,
    pub kind: DeviceKind,
    pub eapo: Option<String>,
    pub lost_slot: Option<String>,
}

/// A slot as `list --json` reports it: the friendly name or CLSID; nothing when empty.
pub open spec fn slot_json(v: SlotValue) -> Option<Seq<char>> {
    match v {
        SlotValue::Guid(g) => Some(
            match slot_friendly_spec(g@) {
                Some(f) => f,
                None => g@,
            },
        ),
        _ => None,
    }
}

fn slot_json_exec(v: &SlotValue) -> (r: Option<String>)
    ensures
        opt_view(r) == slot_json(*v),
{
    match v {
        SlotValue::Guid(g) => {
            let mut out: Vec<char> = Vec::new();
            match slot_friendly(g.as_str()) {
                Some(f) => push_str(&mut out, f.as_str()),
                None => push_str(&mut out, g.as_str()),
            }
            Some(string_of(&out))
        },
        _ => None,
    }
}

/// The record `list --json` gives device number `index`: its name (`(未命名)` without an
/// endpoint), identity, version, mode, slots, format, direction, the Equalizer APO note
/// and, where it has an endpoint GUID and a child-APO key, the lost-slot note.
pub fn summarize_device(index: usize, d: &DeviceInfo, ids: &VxClsids, lang: Lang) -> (r: DeviceSummary)
    requires
        d.wf(),
    ensures
        r.index == index as u32,
        r.name@ == (match d.endpoint {
            Some(e) => e.friendly_name@,
            None => "(未命名)"@,
        }),
        r.guid@ == endpoint_guid(*d),
        r.device_id@ == (match d.endpoint {
            Some(e) => e.device_id@,
            None => seq![],
        }),
        r.connection@ == Seq::<char>::empty(),
        r.installed_version@ == d.installed_version@,
        r.install_mode@ == mode_name(d.install_mode),
        opt_view(r.slots.lfx) == slot_json(d.slots@[0]),
        opt_view(r.slots.gfx) == slot_json(d.slots@[1]),
        opt_view(r.slots.sfx) == slot_json(d.slots@[2]),
        opt_view(r.slots.mfx) == slot_json(d.slots@[3]),
        opt_view(r.slots.efx) == slot_json(d.slots@[4]),
        r.sample_rate == (match d.format {
            Some(f) => Some(f.sample_rate),
            None => None,
        }),
        r.channels == (match d.format {
            Some(f) => Some(f.channels as u32),
            None => None,
        }),
        r.bit_depth == (match d.format {
            Some(f) => Some(f.bits_per_sample as u32),
            None => None,
        }),
        r.kind == (match d.endpoint {
            Some(e) => if e.capture {
                DeviceKind::Capture
            } else {
                DeviceKind::Playback
            },
            None => DeviceKind::Playback,
        }),
        opt_view(r.eapo) == eapo_status_spec(d.slots@, lang),
        opt_view(r.lost_slot) == if endpoint_guid(*d).len() > 0 && d.child_apo_key {
            lost_slot_spec(*d, *ids)
        } else {
            None
        },
{
    let (name, guid, device_id, kind) = match &d.endpoint {
        Some(e) => (
            e.friendly_name.clone(),
            e.endpoint_guid.clone(),
            e.device_id.clone(),
            if e.capture {
                DeviceKind::Capture
            } else {
                DeviceKind::Playback
            },
        ),
        None => {
            let unnamed = chars_of("(未命名)");
            let empty = chars_of("");
            proof {
                reveal_strlit("");
            }
            (string_of(&unnamed), string_of(&empty), string_of(&empty), DeviceKind::Playback)
        },
    };
    let labels: [Option<String>; 5] = [
        slot_json_exec(&d.slots[0]),
        slot_json_exec(&d.slots[1]),
        slot_json_exec(&d.slots[2]),
        slot_json_exec(&d.slots[3]),
        slot_json_exec(&d.slots[4]),
    ];
    let (sample_rate, channels, bit_depth) = match &d.format {
        Some(f) => (Some(f.sample_rate), Some(f.channels as u32), Some(f.bits_per_sample as u32)),
        None => (None, None, None),
    };
    let lost_slot = if guid.as_str().unicode_len() > 0 && d.child_apo_key {
        detect_lost_slot(d, ids)
    } else {
        None
    };
    let empty = chars_of("");
    proof {
        reveal_strlit("");
    }
    DeviceSummary {
        index: index as u32,
        name,
        guid,
        device_id,
        connection: string_of(&empty),
        installed_version: d.installed_version.clone(),
        install_mode: string_of(&chars_of(mode_str(d.install_mode))),
        slots: DeviceSlots::from_slice(labels),
        sample_rate,
        channels,
        bit_depth,
        kind,
        eapo: detect_eapo_status(&d.slots, lang),
        lost_slot,
    }
}

/// How many of the five slots hold one of this project's two CLSIDs.
pub open spec fn vx_slot_count(slots: Seq<SlotValue>, ids: VxClsids, n: int) -> nat
    decreases n,
{
    if n <= 0 {
        0
    } else {
        vx_slot_count(slots, ids, n - 1) + if holds_exactly(slots[n - 1], ids.pre_mix@)
            || holds_exactly(slots[n - 1], ids.post_mix@) {
            1nat
        } else {
            0nat
        }
    }
}

/// After an uninstall: how many slots of the device with GUID `guid` still hold one of
/// this project's CLSIDs (0 when no enumerated device has that GUID).
pub fn residual_count(devices: &Vec<DeviceInfo>, guid: &str, ids: &VxClsids) -> (r: usize)
    ensures
        r == match first_device(device_endpoints(devices@), guid@) {
            Some(i) => vx_slot_count(devices@[i].slots@, *ids, 5),
            None => 0,
        },
{
    match find_device(devices, guid) {
        Some(i) => {
            proof {
                lemma_first_device_bound(device_endpoints(devices@), guid@);
            }
            let d = &devices[i];
            let mut n: usize = 0;
            let mut s: usize = 0;
            while s < 5
                invariant
                    s <= 5,
                    n == vx_slot_count(d.slots@, *ids, s as int),
                    n <= s,
                decreases 5 - s,
            {
                if holds_exactly_exec(&d.slots[s], ids.pre_mix.as_str()) || holds_exactly_exec(
                    &d.slots[s],
                    ids.post_mix.as_str(),
                ) {
                    n += 1;
                }
                s += 1;
            }
            n
        },
        None => 0,
    }
}

} // verus!
