use vxapo_cli::display::{classify_apo, detail_header_lines, endpoint_list_lines};
use vxapo_cli::endpoint::{Endpoint, EndpointKind};
use vxapo_cli::i18n::Lang;
use vxapo_cli::protocol::DeviceKind;
use vxapo_cli::snapshot::SlotValue;
use vxapo_cli::status::{
    detect_eapo_status, detect_lost_slot, find_device, list_lines, locate_device, preview_install,
    residual_count, slot_friendly, status_lines, summarize_device, DeviceInfo, EndpointInfo,
    StreamFormat, VxClsids,
};
use vxapo_cli::verify::InstallMode;

const VX_PRE: &str = "41C34613-D391-459D-A039-72B2B15A1A1D";
const VX_POST: &str = "B4A97313-ABC0-45ED-9C33-428B20D39428";

fn ids() -> VxClsids {
    VxClsids { pre_mix: VX_PRE.to_string(), post_mix: VX_POST.to_string() }
}

fn guid(s: &str) -> SlotValue {
    SlotValue::Guid(s.to_string())
}

fn device(name: &str, g: &str, slots: [SlotValue; 5]) -> DeviceInfo {
    let texts: [String; 5] = [
        slot_text(&slots[0]),
        slot_text(&slots[1]),
        slot_text(&slots[2]),
        slot_text(&slots[3]),
        slot_text(&slots[4]),
    ];
    DeviceInfo {
        endpoint: Some(EndpointInfo {
            endpoint_guid: g.to_string(),
            friendly_name: name.to_string(),
            device_id: "dev-id".to_string(),
            capture: false,
        }),
        installed_version: "1.0".to_string(),
        install_mode: InstallMode::SfxEfx,
        premix_slot: 2,
        postmix_slot: 4,
        slots,
        slot_texts: texts,
        format: Some(StreamFormat { sample_rate: 48000, channels: 2, bits_per_sample: 32 }),
        child_apo_key: true,
    }
}

fn slot_text(v: &SlotValue) -> String {
    match v {
        SlotValue::Guid(g) => g.clone(),
        SlotValue::NoKey => "NoKey".to_string(),
        SlotValue::NoValue => "NoValue".to_string(),
    }
}

#[test]
fn friendly_names_ignore_case_and_braces() {
    assert_eq!(slot_friendly("EACD2258-FCAC-4FF4-B36D-419E924A6D79").as_deref(), Some("Equalizer APO PreMix"));
    assert_eq!(slot_friendly("{ec1cc9ce-faed-4822-828a-82a81a6f018f}").as_deref(), Some("Equalizer APO PostMix"));
    assert_eq!(slot_friendly("{00000000-0000-0000-0000-000000000000}"), None);
}

#[test]
fn eapo_status_reports_slots_in_each_case() {
    let both = [SlotValue::NoKey, SlotValue::NoKey, guid("EACD2258-FCAC-4FF4-B36D-419E924A6D79"), SlotValue::NoValue, guid("{EC1CC9CE-FAED-4822-828A-82A81A6F018F}")];
    assert_eq!(detect_eapo_status(&both, Lang::En).as_deref(), Some("EAPO installed: PreMix=(SFX) + PostMix=(EFX)"));
    assert_eq!(detect_eapo_status(&both, Lang::Zh).as_deref(), Some("EAPO 已安装：PreMix=(SFX) + PostMix=(EFX)"));
    let pre_only = [guid("eacd2258-fcac-4ff4-b36d-419e924a6d79"), SlotValue::NoKey, SlotValue::NoKey, SlotValue::NoKey, SlotValue::NoKey];
    assert_eq!(detect_eapo_status(&pre_only, Lang::En).as_deref(), Some("EAPO partially installed: PreMix only (LFX)"));
    let post_only = [SlotValue::NoKey, guid("ec1cc9ce-faed-4822-828a-82a81a6f018f"), SlotValue::NoKey, SlotValue::NoKey, SlotValue::NoKey];
    assert_eq!(detect_eapo_status(&post_only, Lang::Zh).as_deref(), Some("EAPO 部分安装：仅 PostMix=(GFX)"));
    let none = [SlotValue::NoKey, SlotValue::NoKey, SlotValue::NoKey, SlotValue::NoKey, SlotValue::NoKey];
    assert_eq!(detect_eapo_status(&none, Lang::En), None);
}

#[test]
fn lost_slot_only_when_mode_slots_were_taken() {
    let ok = device("Spk", "{A}", [SlotValue::NoKey, SlotValue::NoKey, guid(VX_PRE), SlotValue::NoKey, guid(VX_POST)]);
    assert_eq!(detect_lost_slot(&ok, &ids()), None);
    let taken = device("Spk", "{A}", [SlotValue::NoKey, SlotValue::NoKey, guid("EACD2258-FCAC-4FF4-B36D-419E924A6D79"), SlotValue::NoKey, guid(VX_POST)]);
    assert_eq!(detect_lost_slot(&taken, &ids()).as_deref(), Some("PreMix=Equalizer APO PreMix PostMix=VxAPO PostMix"));
}

#[test]
fn list_lines_show_rows_eapo_and_lost_slot() {
    let d = device("Spk", "{A}", [SlotValue::NoKey, SlotValue::NoKey, guid("EACD2258-FCAC-4FF4-B36D-419E924A6D79"), SlotValue::NoKey, SlotValue::NoValue]);
    let lines = list_lines(&vec![d], &ids(), Lang::En);
    assert_eq!(lines[0], "[0] Spk");
    assert_eq!(lines[1], "     GUID: {A}");
    assert_eq!(lines[2], "     Version: 1.0  Mode: SfxEfx");
    assert_eq!(lines[3], "     LFX[0]: -");
    assert_eq!(lines[5], "     SFX[2]: Equalizer APO PreMix");
    assert_eq!(lines[8], "     ▶ EAPO partially installed: PreMix only (SFX)");
    assert_eq!(lines[9], "     ⚠ Slot lost: PreMix=Equalizer APO PreMix PostMix= has been taken over; reinstall required");
    assert_eq!(lines.len(), 10);
}

#[test]
fn list_lines_without_devices() {
    assert_eq!(list_lines(&vec![], &ids(), Lang::Zh), vec!["（无音频端点）".to_string()]);
    assert_eq!(list_lines(&vec![], &ids(), Lang::En), vec!["(no audio endpoints)".to_string()]);
}

#[test]
fn devices_are_found_by_guid_in_any_case() {
    let ds = vec![device("A", "{aa}", empty()), device("B", "{BB}", empty())];
    assert_eq!(find_device(&ds, "{bb}"), Some(1));
    assert_eq!(find_device(&ds, "{cc}"), None);
    let (dev, i) = locate_device("1", &ds, Lang::En).ok().unwrap();
    assert_eq!((dev.guid.as_str(), dev.name.as_str(), i), ("{BB}", "B", 1));
    assert_eq!(locate_device("7", &ds, Lang::En).err().unwrap(), "Enumeration index out of range: <7> (0..1)");
}

fn empty() -> [SlotValue; 5] {
    [SlotValue::NoKey, SlotValue::NoKey, SlotValue::NoKey, SlotValue::NoKey, SlotValue::NoKey]
}

#[test]
fn status_lines_show_child_apos() {
    let d = device("Spk", "{A}", [SlotValue::NoKey, SlotValue::NoKey, guid(VX_PRE), SlotValue::NoKey, guid(VX_POST)]);
    let lines = status_lines(&d, &Some("EACD2258-FCAC-4FF4-B36D-419E924A6D79".to_string()), &None, &ids(), Lang::En);
    assert_eq!(lines[0], "[Spk]");
    assert_eq!(lines[1], "  GUID: {A}");
    assert_eq!(lines[5], "  SFX[2]: VxAPO PreMix");
    assert_eq!(lines[8], "  Child APO:");
    assert_eq!(lines[9], "    PreMixChild: Equalizer APO PreMix");
    assert_eq!(lines[10], "    PostMixChild: -");
    assert_eq!(lines.len(), 11);
}

#[test]
fn preview_lists_device_and_slots() {
    let ds = vec![device("Spk", "{A}", empty())];
    let text = preview_install("0", &ds, Lang::Zh).ok().unwrap();
    assert_eq!(text, "  设备：Spk\n  LFX[0]: -\n  GFX[1]: -\n  SFX[2]: -\n  MFX[3]: -\n  EFX[4]: -");
    assert_eq!(preview_install("x", &ds, Lang::En).err().unwrap(), "Unknown device: <x> (use list to see indices, or use {GUID})");
}

#[test]
fn summary_carries_json_fields() {
    let d = device("Spk", "{ABC}", [guid(VX_PRE), SlotValue::NoKey, SlotValue::NoKey, SlotValue::NoKey, SlotValue::NoKey]);
    let s = summarize_device(3, &d, &ids(), Lang::En);
    assert_eq!(s.index, 3);
    assert_eq!(s.name, "Spk");
    assert_eq!(s.install_mode, "SFX_EFX");
    assert_eq!(s.slots.lfx.as_deref(), Some("VxAPO PreMix"));
    assert_eq!(s.slots.gfx, None);
    assert_eq!((s.sample_rate, s.channels, s.bit_depth), (Some(48000), Some(2), Some(32)));
    assert_eq!(s.kind, DeviceKind::Playback);
    assert_eq!(s.eapo, None);
    assert_eq!(s.lost_slot.as_deref(), Some("PreMix= PostMix="));
}

#[test]
fn residual_counts_project_clsids_left() {
    let ds = vec![device("Spk", "{A}", [guid(VX_PRE), SlotValue::NoKey, guid(VX_POST), guid(VX_POST), SlotValue::NoKey])];
    assert_eq!(residual_count(&ds, "{a}", &ids()), 3);
    assert_eq!(residual_count(&ds, "{b}", &ids()), 0);
}

fn endpoint(index: usize, sfx: Option<&str>, sys: bool) -> Endpoint {
    Endpoint {
        index,
        guid: "{g}".to_string(),
        name: "Out".to_string(),
        kind: EndpointKind::Playback,
        sfx: sfx.map(|s| s.to_string()),
        mfx: None,
        efx: None,
        sfx_is_system: sys,
        mfx_is_system: false,
        efx_is_system: false,
        sample_rate: Some(48000),
        channels: Some(2),
        bit_depth: Some(16),
        channel_mask: Some(0x7),
        endpoint_flags: Some(1),
        disable_enhancements: None,
    }
}

#[test]
fn classify_apo_labels() {
    assert_eq!(classify_apo(&endpoint(0, None, false)).0, "[none]");
    let sys = endpoint(0, Some("{DA2C9ECE-7418-4906-B4FA-0A00B3EB88AA}"), true);
    assert_eq!(classify_apo(&sys), ("[Windows default]".to_string(), "\x1b[90m"));
    let mut third = endpoint(0, Some("{AAAA}"), false);
    assert_eq!(classify_apo(&third), ("[SFX]".to_string(), "\x1b[35m"));
    third.efx = Some("{BBBB}".to_string());
    assert_eq!(classify_apo(&third), ("[SFX + EFX]".to_string(), "\x1b[33m"));
}

#[test]
fn endpoint_list_and_detail_header() {
    let eps = vec![endpoint(4, None, false)];
    let list = endpoint_list_lines(&eps);
    assert_eq!(list[0], "\n\x1b[1mFound 1 endpoints:\x1b[0m\n");
    assert_eq!(list[1], "  \x1b[1m[4]\x1b[0m Out \x1b[90m(\x1b[36mPlayback\x1b[90m)\x1b[0m \x1b[90m[none]\x1b[0m");
    let header = detail_header_lines(&eps[0]);
    assert_eq!(header[7], "  Audio:    48000 Hz, 2ch, 16bit, mask=0x00000007");
    assert_eq!(header[8], "  \x1b[33mWARNING: mask has 3 speaker(s) but device reports 2 channel(s)\x1b[0m");
    assert_eq!(header[12], "  SysFX:    \x1b[31mDISABLED\x1b[0m \x1b[90m(AudioEndpoint_Flags=0x01, bit0=1)\x1b[0m");
    assert_eq!(header[13], "  Enhancements: \x1b[32mENABLED\x1b[0m \x1b[90m(DisableEnhancements not set)\x1b[0m");
    assert_eq!(header.len(), 15);
}
