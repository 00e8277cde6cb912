//! Registry property knowledge: friendly names, known APO CLSIDs, value annotations.
use vstd::prelude::*;
use crate::text::{
    chars_of, hex, last_index, parse_u32, parse_unsigned, push_hex_padded, push_str, rfind_char,
    slice_of, starts_with, starts_with_exec, str_eq, string_of, zero_pad,
};

verus! {

/// Display data for one known registry property.
pub struct PropertyMeta {
    pub name: &'static str,
    pub description: &'static str,
}

/// `str::to_lowercase`: the Unicode lower-case mapping of a whole string.
pub uninterp spec fn unicode_lower(s: Seq<char>) -> Seq<char>;

/// Calls `str::to_lowercase`.  Its result is named, not restated: the contract says it is
/// `unicode_lower` of the argument.
#[verifier::external_body]
pub(crate) fn to_lowercase(s: &str) -> (r: String)
    ensures
        r@ == unicode_lower(s@),
{
    s.to_lowercase()
}

/// Known property keys (`{fmtid},pid`, lower case) and their names.  Where the same key
/// was listed twice the later name stands.
pub open spec fn known_property_names() -> Seq<(Seq<char>, Seq<char>)> {
    seq![
        ("{a45c254e-df1c-4efd-8020-67d146a850e0},2"@, "ConnectionName"@),
        ("{b3f8fa53-0004-438e-9003-51a46e139bfc},6"@, "DeviceName"@),
        ("{b3f8fa53-0004-438e-9003-51a46e139bfc},2"@, "DeviceDesc"@),
        ("{b3f8fa53-0004-438e-9003-51a46e139bfc},0"@, "DeviceState"@),
        ("{b3f8fa53-0004-438e-9003-51a46e139bfc},3"@, "EP_FormFactor"@),
        ("{b3f8fa53-0004-438e-9003-51a46e139bfc},4"@, "CompositorID"@),
        ("{b3f8fa53-0004-438e-9003-51a46e139bfc},9"@, "AudioEndpoint_Flags"@),
        ("{1da5d803-d492-4edd-8c23-e0c0ffee7f0e},3"@, "ChannelMask"@),
        ("{1da5d803-d492-4edd-8c23-e0c0ffee7f0e},5"@, "DisableEnhancements"@),
        ("{f19f064d-082c-4e27-bc73-6882a1bb8e4c},0"@, "AudioFormat"@),
        ("{80f111c3-b103-42e1-afb6-db7a6fa8be1f},0"@, "DeviceHWId"@),
        ("{a45c254e-df1c-4efd-8020-67d146a850e0},24"@, "DeviceInterface"@),
        ("{9c119480-ddc2-4954-a150-5bd240d454ad},1"@, "DeviceInterfacePath"@),
        ("{9c119480-ddc2-4954-a150-5bd240d454ad},2"@, "DeviceInstanceId"@),
        ("{233164c8-1b2c-4c7d-bc68-b671687a2567},1"@, "DeviceInterface"@),
        ("{d04e05a6-594b-4fb6-a80d-01af5eed7d1d},1"@, "LFX_APO"@),
        ("{d04e05a6-594b-4fb6-a80d-01af5eed7d1d},2"@, "GFX_APO"@),
        ("{d04e05a6-594b-4fb6-a80d-01af5eed7d1d},5"@, "SFX_APO"@),
        ("{d04e05a6-594b-4fb6-a80d-01af5eed7d1d},6"@, "MFX_APO"@),
        ("{d04e05a6-594b-4fb6-a80d-01af5eed7d1d},7"@, "EFX_APO"@),
        ("{1da5d803-d492-4edd-8c23-e0c0ffee7f0e},2"@, "EndpointGUID"@),
        ("{1da5d803-d492-4edd-8c23-e0c0ffee7f0e},7"@, "FullRangeSpeakers"@),
        ("{1da5d803-d492-4edd-8c23-e0c0ffee7f0e},8"@, "DeviceClassGuid"@),
        ("{b3f8fa53-0004-438e-9003-51a46e139bfc},32"@, "EngineDeviceFormat"@)
    ]
}

fn known_property_names_exec() -> (r: Vec<(&'static str, &'static str)>)
    ensures
        r@.len() == known_property_names().len(),
        forall|i: int|
            0 <= i < r@.len() ==> (#[trigger] r@[i]).0@ == known_property_names()[i].0 && r@[i].1@
                == known_property_names()[i].1,
{
    vec![
        ("{a45c254e-df1c-4efd-8020-67d146a850e0},2", "ConnectionName"),
        ("{b3f8fa53-0004-438e-9003-51a46e139bfc},6", "DeviceName"),
        ("{b3f8fa53-0004-438e-9003-51a46e139bfc},2", "DeviceDesc"),
        ("{b3f8fa53-0004-438e-9003-51a46e139bfc},0", "DeviceState"),
        ("{b3f8fa53-0004-438e-9003-51a46e139bfc},3", "EP_FormFactor"),
        ("{b3f8fa53-0004-438e-9003-51a46e139bfc},4", "CompositorID"),
        ("{b3f8fa53-0004-438e-9003-51a46e139bfc},9", "AudioEndpoint_Flags"),
        ("{1da5d803-d492-4edd-8c23-e0c0ffee7f0e},3", "ChannelMask"),
        ("{1da5d803-d492-4edd-8c23-e0c0ffee7f0e},5", "DisableEnhancements"),
        ("{f19f064d-082c-4e27-bc73-6882a1bb8e4c},0", "AudioFormat"),
        ("{80f111c3-b103-42e1-afb6-db7a6fa8be1f},0", "DeviceHWId"),
        ("{a45c254e-df1c-4efd-8020-67d146a850e0},24", "DeviceInterface"),
        ("{9c119480-ddc2-4954-a150-5bd240d454ad},1", "DeviceInterfacePath"),
        ("{9c119480-ddc2-4954-a150-5bd240d454ad},2", "DeviceInstanceId"),
        ("{233164c8-1b2c-4c7d-bc68-b671687a2567},1", "DeviceInterface"),
        ("{d04e05a6-594b-4fb6-a80d-01af5eed7d1d},1", "LFX_APO"),
        ("{d04e05a6-594b-4fb6-a80d-01af5eed7d1d},2", "GFX_APO"),
        ("{d04e05a6-594b-4fb6-a80d-01af5eed7d1d},5", "SFX_APO"),
        ("{d04e05a6-594b-4fb6-a80d-01af5eed7d1d},6", "MFX_APO"),
        ("{d04e05a6-594b-4fb6-a80d-01af5eed7d1d},7", "EFX_APO"),
        ("{1da5d803-d492-4edd-8c23-e0c0ffee7f0e},2", "EndpointGUID"),
        ("{1da5d803-d492-4edd-8c23-e0c0ffee7f0e},7", "FullRangeSpeakers"),
        ("{1da5d803-d492-4edd-8c23-e0c0ffee7f0e},8", "DeviceClassGuid"),
        ("{b3f8fa53-0004-438e-9003-51a46e139bfc},32", "EngineDeviceFormat")
    ]
}

/// The known properties with their display data (every description is empty).
pub fn known_properties() -> (r: Vec<(&'static str, PropertyMeta)>)
    ensures
        r@.len() == known_property_names().len(),
        forall|i: int|
            0 <= i < r@.len() ==> (#[trigger] r@[i]).0@ == known_property_names()[i].0 && r@[i].1.name@
                == known_property_names()[i].1 && r@[i].1.description@ == Seq::<char>::empty(),
{
    let names = known_property_names_exec();
    let mut out: Vec<(&'static str, PropertyMeta)> = Vec::new();
    let mut i: usize = 0;
    while i < names.len()
        invariant
            i <= names.len(),
            names@.len() == known_property_names().len(),
            forall|j: int|
                0 <= j < names@.len() ==> (#[trigger] names@[j]).0@ == known_property_names()[j].0
                    && names@[j].1@ == known_property_names()[j].1,
            out@.len() == i,
            forall|j: int|
                0 <= j < i ==> (#[trigger] out@[j]).0@ == known_property_names()[j].0 && out@[j].1.name@
                    == known_property_names()[j].1 && out@[j].1.description@ == Seq::<char>::empty(),
        decreases names.len() - i,
    {
        let (k, n) = names[i];
        proof {
            reveal_strlit("");
        }
        out.push((k, PropertyMeta { name: n, description: "" }));
        i += 1;
    }
    out
}

/// APO CLSIDs (lower case, braced) with friendly names.
pub open spec fn known_apo_clsids() -> Seq<(Seq<char>, Seq<char>)> {
    seq![
        ("{eacd2258-fcac-4ff4-b36d-419e924a6d79}"@, "Equalizer APO PreMix"@),
        ("{ec1cc9ce-faed-4822-828a-82a81a6f018f}"@, "Equalizer APO PostMix"@),
        ("{41c34613-d391-459d-a039-72b2b15a1a1d}"@, "VxAPO PreMix"@),
        ("{b4a97313-abc0-45ed-9c33-428b20d39428}"@, "VxAPO PostMix"@)
    ]
}

pub fn known_apo_clsids_exec() -> (r: Vec<(&'static str, &'static str)>)
    ensures
        r@.len() == known_apo_clsids().len(),
        forall|i: int|
            0 <= i < r@.len() ==> (#[trigger] r@[i]).0@ == known_apo_clsids()[i].0 && r@[i].1@
                == known_apo_clsids()[i].1,
{
    vec![
        ("{eacd2258-fcac-4ff4-b36d-419e924a6d79}", "Equalizer APO PreMix"),
        ("{ec1cc9ce-faed-4822-828a-82a81a6f018f}", "Equalizer APO PostMix"),
        ("{41c34613-d391-459d-a039-72b2b15a1a1d}", "VxAPO PreMix"),
        ("{b4a97313-abc0-45ed-9c33-428b20d39428}", "VxAPO PostMix")
    ]
}

/// CLSIDs of the APOs that Windows ships.
pub open spec fn system_apo_clsids() -> Seq<Seq<char>> {
    seq![
        "{da2c9ece-7418-4906-b4fa-0a00b3eb88aa}"@,
        "{c9453e73-8c5c-4463-9984-af8bab2f5447}"@,
        "{7ab03736-d528-4e73-905a-7e5e7f3b0b5c}"@,
        "{a29eb043-6ce2-4ee2-b38c-f58719e0d88f}"@,
        "{ab3b404a-b18f-4b4f-b91f-77f2de95eb18}"@,
        "{5860e1c5-f95c-4a7a-8ec8-8aef24f379a1}"@,
        "{a296d363-ee83-4af9-9be7-729c1296150a}"@,
        "{a69c91dc-11c4-414f-a919-4da8ea3f3ca6}"@,
        "{13ab3ebd-137e-4903-9d89-60be8277fd17}"@,
        "{6861cfdc-0461-49d5-a8df-be5acd02692f}"@,
        "{5860e1c5-f95c-4a7a-8ec8-8aef24f379a1}"@,
        "{00000000-0000-0000-0000-000000000000}"@
    ]
}

fn system_apo_clsids_exec() -> (r: Vec<&'static str>)
    ensures
        r@.len() == system_apo_clsids().len(),
        forall|i: int| 0 <= i < r@.len() ==> (#[trigger] r@[i])@ == system_apo_clsids()[i],
{
    vec![
        "{da2c9ece-7418-4906-b4fa-0a00b3eb88aa}",
        "{c9453e73-8c5c-4463-9984-af8bab2f5447}",
        "{7ab03736-d528-4e73-905a-7e5e7f3b0b5c}",
        "{a29eb043-6ce2-4ee2-b38c-f58719e0d88f}",
        "{ab3b404a-b18f-4b4f-b91f-77f2de95eb18}",
        "{5860e1c5-f95c-4a7a-8ec8-8aef24f379a1}",
        "{a296d363-ee83-4af9-9be7-729c1296150a}",
        "{a69c91dc-11c4-414f-a919-4da8ea3f3ca6}",
        "{13ab3ebd-137e-4903-9d89-60be8277fd17}",
        "{6861cfdc-0461-49d5-a8df-be5acd02692f}",
        "{5860e1c5-f95c-4a7a-8ec8-8aef24f379a1}",
        "{00000000-0000-0000-0000-000000000000}"
    ]
}

/// Property-set prefixes whose values the registry dump shows.
pub open spec fn known_prefixes() -> Seq<Seq<char>> {
    seq![
        "{a45c254e"@,
        "{b3f8fa53"@,
        "{d04e05a6"@,
        "{80f111c3"@,
        "{9c119480"@,
        "{1da5d803"@,
        "{233164c8"@,
        "{f19f064d"@
    ]
}

fn known_prefixes_exec() -> (r: Vec<&'static str>)
    ensures
        r@.len() == known_prefixes().len(),
        forall|i: int| 0 <= i < r@.len() ==> (#[trigger] r@[i])@ == known_prefixes()[i],
{
    vec![
        "{a45c254e",
        "{b3f8fa53",
        "{d04e05a6",
        "{80f111c3",
        "{9c119480",
        "{1da5d803",
        "{233164c8",
        "{f19f064d"
    ]
}


/// Whether table entry `i` names the property `raw` (compared after Unicode lower-casing).
pub open spec fn property_matches(raw: Seq<char>, i: int) -> bool {
    unicode_lower(known_property_names()[i].0) == unicode_lower(raw)
}

/// The first of the first `n` table entries that names `raw`, or -1.
pub open spec fn first_property(raw: Seq<char>, n: nat) -> int
    decreases n,
{
    if n == 0 {
        -1
    } else {
        let f = first_property(raw, (n - 1) as nat);
        if f >= 0 {
            f
        } else if property_matches(raw, n - 1) {
            n - 1
        } else {
            -1
        }
    }
}

proof fn lemma_first_property_found(raw: Seq<char>, i: nat, m: nat)
    requires
        first_property(raw, i) == -1,
        property_matches(raw, i as int),
        i < m,
    ensures
        first_property(raw, m) == i,
    decreases m,
{
    if m > i + 1 {
        lemma_first_property_found(raw, i, (m - 1) as nat);
    }
}

/// The display name of a property: its known name, else the raw key itself.
pub open spec fn friendly_name_spec(raw: Seq<char>) -> Seq<char> {
    let f = first_property(raw, known_property_names().len());
    if f >= 0 {
        known_property_names()[f].1
    } else {
        raw
    }
}

/// Friendly name of a registry property key (`{fmtid},pid`), or the key unchanged.
pub fn friendly_name(raw: &str) -> (r: String)
    ensures
        r@ == friendly_name_spec(raw@),
{
    let lower = to_lowercase(raw);
    let table = known_properties();
    let mut i: usize = 0;
    while i < table.len()
        invariant
            i <= table.len(),
            lower@ == unicode_lower(raw@),
            table@.len() == known_property_names().len(),
            forall|j: int|
                0 <= j < table@.len() ==> (#[trigger] table@[j]).0@ == known_property_names()[j].0
                    && table@[j].1.name@ == known_property_names()[j].1 && table@[j].1.description@
                    == Seq::<char>::empty(),
            first_property(raw@, i as nat) == -1,
        decreases table.len() - i,
    {
        let key_lower = to_lowercase(table[i].0);
        if key_lower == lower {
            proof {
                lemma_first_property_found(raw@, i as nat, known_property_names().len());
            }
            let meta = &table[i].1;
            let mut out: Vec<char> = Vec::new();
            push_str(&mut out, meta.name);
            if !meta.description.is_empty() {
                push_str(&mut out, "  ");
                push_str(&mut out, meta.description);
            }
            return string_of(&out);
        }
        i += 1;
    }
    let cs = chars_of(raw);
    string_of(&cs)
}

/// Whether a CLSID, lower-cased, is in the table of APOs that Windows ships.
pub open spec fn system_apo_spec(clsid: Seq<char>) -> bool {
    exists|i: int|
        0 <= i < system_apo_clsids().len() && #[trigger] system_apo_clsids()[i] == unicode_lower(
            clsid,
        )
}

/// Whether a CLSID (any letter case) is one of the APOs that Windows ships.
pub fn is_system_apo(clsid: &str) -> (r: bool)
    ensures
        r == system_apo_spec(clsid@),
{
    let lower = to_lowercase(clsid);
    let list = system_apo_clsids_exec();
    let mut i: usize = 0;
    while i < list.len()
        invariant
            i <= list.len(),
            lower@ == unicode_lower(clsid@),
            list@.len() == system_apo_clsids().len(),
            forall|j: int| 0 <= j < list@.len() ==> (#[trigger] list@[j])@ == system_apo_clsids()[j],
            forall|j: int| 0 <= j < i ==> #[trigger] system_apo_clsids()[j] != unicode_lower(clsid@),
        decreases list.len() - i,
    {
        if str_eq(list[i], lower.as_str()) {
            assert(system_apo_clsids()[i as int] == unicode_lower(clsid@));
            return true;
        }
        i += 1;
    }
    false
}

/// Whether a property key starts with one of the property-set prefixes the dump shows.
pub open spec fn known_property_spec(name: Seq<char>) -> bool {
    exists|i: int| 0 <= i < known_prefixes().len() && starts_with(name, #[trigger] known_prefixes()[i])
}

/// Whether a property key lies in one of the property sets the dump shows.
pub fn is_known_property(name: &str) -> (r: bool)
    ensures
        r == known_property_spec(name@),
{
    let n = chars_of(name);
    let list = known_prefixes_exec();
    let mut i: usize = 0;
    while i < list.len()
        invariant
            i <= list.len(),
            n@ == name@,
            list@.len() == known_prefixes().len(),
            forall|j: int| 0 <= j < list@.len() ==> (#[trigger] list@[j])@ == known_prefixes()[j],
            forall|j: int| 0 <= j < i ==> !starts_with(name@, #[trigger] known_prefixes()[j]),
        decreases list.len() - i,
    {
        let p = chars_of(list[i]);
        if starts_with_exec(&n, &p) {
            assert(starts_with(name@, known_prefixes()[i as int]));
            return true;
        }
        i += 1;
    }
    false
}

/// ` (unknown=0x..)`-style text: `prefix`, the value in two-digit lower-case hex, `)`.
pub open spec fn hex_note(prefix: Seq<char>, value: u32) -> Seq<char> {
    prefix + zero_pad(hex(value as nat), 2) + ")"@
}

/// The annotation printed after a DWORD property value.
pub open spec fn dword_label(name: Seq<char>, value: u32) -> Seq<char> {
    if name == "{b3f8fa53-0004-438e-9003-51a46e139bfc},0"@ {
        if value == 1 {
            " (ACTIVE)"@
        } else if value == 2 {
            " (DISABLED)"@
        } else if value == 4 {
            " (NOTPRESENT)"@
        } else if value == 8 {
            " (UNPLUGGED)"@
        } else {
            hex_note(" (unknown=0x"@, value)
        }
    } else if name == "{b3f8fa53-0004-438e-9003-51a46e139bfc},9"@ {
        if value == 0 {
            " (enhancements ENABLED)"@
        } else {
            hex_note(" (flags=0x"@, value)
        }
    } else if name == "{b3f8fa53-0004-438e-9003-51a46e139bfc},3"@ {
        if value == 1 {
            " (Speakers)"@
        } else if value == 2 {
            " (LineLevel)"@
        } else if value == 3 {
            " (Headphones)"@
        } else if value == 4 {
            " (Microphone)"@
        } else if value == 5 {
            " (Headset)"@
        } else if value == 6 {
            " (Handset)"@
        } else {
            Seq::empty()
        }
    } else if name == "{1da5d803-d492-4edd-8c23-e0c0ffee7f0e},0"@ {
        if value == 1 {
            " (Speakers)"@
        } else if value == 3 {
            " (Headphones)"@
        } else if value == 4 {
            " (Microphone)"@
        } else if value == 5 {
            " (Headset)"@
        } else {
            Seq::empty()
        }
    } else if name == "{1da5d803-d492-4edd-8c23-e0c0ffee7f0e},7"@ {
        if value == 1 {
            " (Yes)"@
        } else {
            Seq::empty()
        }
    } else if name == "{b3f8fa53-0004-438e-9003-51a46e139bfc},32"@ {
        if value == 0 {
            " (default/not set)"@
        } else {
            Seq::empty()
        }
    } else {
        Seq::empty()
    }
}

fn lit(s: &str) -> (r: String)
    ensures
        r@ == s@,
{
    let cs = chars_of(s);
    string_of(&cs)
}

fn hex_note_exec(prefix: &str, value: u32) -> (r: String)
    ensures
        r@ == hex_note(prefix@, value),
{
    let mut out: Vec<char> = Vec::new();
    push_str(&mut out, prefix);
    push_hex_padded(&mut out, value as u64, 2);
    push_str(&mut out, ")");
    assert(out@ =~= hex_note(prefix@, value));
    string_of(&out)
}

/// Decodes well-known DWORD property values into a readable suffix (empty when unknown).
pub fn decode_dword_label(name: &str, value: u32) -> (r: String)
    ensures
        r@ == dword_label(name@, value),
{
    proof {
        reveal_strlit("");
    }
    if str_eq(name, "{b3f8fa53-0004-438e-9003-51a46e139bfc},0") {
        return if value == 1 {
            lit(" (ACTIVE)")
        } else if value == 2 {
            lit(" (DISABLED)")
        } else if value == 4 {
            lit(" (NOTPRESENT)")
        } else if value == 8 {
            lit(" (UNPLUGGED)")
        } else {
            hex_note_exec(" (unknown=0x", value)
        };
    }
    if str_eq(name, "{b3f8fa53-0004-438e-9003-51a46e139bfc},9") {
        return if value == 0 {
            lit(" (enhancements ENABLED)")
        } else {
            hex_note_exec(" (flags=0x", value)
        };
    }
    if str_eq(name, "{b3f8fa53-0004-438e-9003-51a46e139bfc},3") {
        return if value == 1 {
            lit(" (Speakers)")
        } else if value == 2 {
            lit(" (LineLevel)")
        } else if value == 3 {
            lit(" (Headphones)")
        } else if value == 4 {
            lit(" (Microphone)")
        } else if value == 5 {
            lit(" (Headset)")
        } else if value == 6 {
            lit(" (Handset)")
        } else {
            lit("")
        };
    }
    if str_eq(name, "{1da5d803-d492-4edd-8c23-e0c0ffee7f0e},0") {
        return if value == 1 {
            lit(" (Speakers)")
        } else if value == 3 {
            lit(" (Headphones)")
        } else if value == 4 {
            lit(" (Microphone)")
        } else if value == 5 {
            lit(" (Headset)")
        } else {
            lit("")
        };
    }
    if str_eq(name, "{1da5d803-d492-4edd-8c23-e0c0ffee7f0e},7") {
        return if value == 1 {
            lit(" (Yes)")
        } else {
            lit("")
        };
    }
    if str_eq(name, "{b3f8fa53-0004-438e-9003-51a46e139bfc},32") {
        return if value == 0 {
            lit(" (default/not set)")
        } else {
            lit("")
        };
    }
    lit("")
}

/// The slot note for an FX property id.
pub open spec fn slot_note(pid: nat) -> Seq<char> {
    if pid == 0 {
        "  (FX metadata)"@
    } else if pid == 1 {
        "  (LFX slot)"@
    } else if pid == 2 {
        "  (GFX slot)"@
    } else if pid == 3 {
        "  (non-standard)"@
    } else if pid == 5 {
        "  (SFX slot)"@
    } else if pid == 6 {
        "  (MFX slot)"@
    } else if pid == 7 {
        "  (EFX slot)"@
    } else {
        "  (unknown slot)"@
    }
}

/// The annotation of an FX property key: empty unless the key is in the FX property
/// set and the text after its last comma reads as a `u32`.
pub open spec fn slot_annotation(name: Seq<char>) -> Seq<char> {
    if !starts_with(name, "{d04e05a6"@) {
        Seq::empty()
    } else {
        let k = last_index(name, ',');
        if k < 0 {
            Seq::empty()
        } else {
            match parse_unsigned(name.skip(k + 1), u32::MAX as nat) {
                Some(pid) => slot_note(pid),
                None => Seq::empty(),
            }
        }
    }
}

/// Annotates FX slot property keys (`{d04e05a6...},pid`) with the slot they hold.
pub fn apo_slot_annotation(name: &str) -> (r: &'static str)
    ensures
        r@ == slot_annotation(name@),
{
    proof {
        reveal_strlit("");
    }
    let n = chars_of(name);
    let prefix = chars_of("{d04e05a6");
    if !starts_with_exec(&n, &prefix) {
        return "";
    }
    match rfind_char(&n, ',') {
        Some(comma) => {
            proof {
                crate::text::lemma_last_index(n@, ',');
            }
            let tail = slice_of(&n, comma + 1, n.len());
            assert(tail@ =~= name@.skip(comma + 1));
            match parse_u32(&tail) {
                Some(pid) => {
                    if pid == 0 {
                        "  (FX metadata)"
                    } else if pid == 1 {
                        "  (LFX slot)"
                    } else if pid == 2 {
                        "  (GFX slot)"
                    } else if pid == 3 {
                        "  (non-standard)"
                    } else if pid == 5 {
                        "  (SFX slot)"
                    } else if pid == 6 {
                        "  (MFX slot)"
                    } else if pid == 7 {
                        "  (EFX slot)"
                    } else {
                        "  (unknown slot)"
                    }
                },
                None => "",
            }
        },
        None => "",
    }
}

} // verus!
