use vxapo_cli::app::App;
use vxapo_cli::commands::{resolve_device, EndpointName};
use vxapo_cli::endpoint::EndpointKind;
use vxapo_cli::i18n::{tr, Lang, LangSetting};
use vxapo_cli::json::json_escape;
use vxapo_cli::knowledge::{
    apo_slot_annotation, decode_dword_label, friendly_name, is_known_property, is_system_apo,
};
use vxapo_cli::protocol::{CliError, CliOk, DeviceSlots};

#[test]
fn first_language_choice_sticks_and_default_is_chinese() {
    let mut s = LangSetting::new();
    assert_eq!(s.lang(), Lang::Zh);
    s.set_lang(Lang::En);
    s.set_lang(Lang::Zh);
    assert_eq!(s.lang(), Lang::En);
    assert_eq!(tr(Lang::En, "中", "en"), "en");
    assert_eq!(tr(Lang::Zh, "中", "en"), "中");
}

#[test]
fn property_names_and_annotations() {
    assert_eq!(friendly_name("{B3F8FA53-0004-438E-9003-51A46E139BFC},3"), "EP_FormFactor");
    assert_eq!(friendly_name("{d04e05a6-594b-4fb6-a80d-01af5eed7d1d},5"), "SFX_APO");
    assert_eq!(friendly_name("Custom"), "Custom");
    assert!(is_known_property("{d04e05a6-594b-4fb6-a80d-01af5eed7d1d},6"));
    assert!(!is_known_property("{D04E05A6-594b},6"));
    assert_eq!(apo_slot_annotation("{d04e05a6-594b-4fb6-a80d-01af5eed7d1d},5"), "  (SFX slot)");
    assert_eq!(apo_slot_annotation("{d04e05a6-594b-4fb6-a80d-01af5eed7d1d},9"), "  (unknown slot)");
    assert_eq!(apo_slot_annotation("{d04e05a6-594b-4fb6-a80d-01af5eed7d1d},x"), "");
    assert_eq!(apo_slot_annotation("{b3f8fa53-0004-438e-9003-51a46e139bfc},5"), "");
}

#[test]
fn dword_labels() {
    assert_eq!(decode_dword_label("{b3f8fa53-0004-438e-9003-51a46e139bfc},0", 1), " (ACTIVE)");
    assert_eq!(decode_dword_label("{b3f8fa53-0004-438e-9003-51a46e139bfc},0", 0x1f), " (unknown=0x1f)");
    assert_eq!(decode_dword_label("{b3f8fa53-0004-438e-9003-51a46e139bfc},9", 0), " (enhancements ENABLED)");
    assert_eq!(decode_dword_label("{b3f8fa53-0004-438e-9003-51a46e139bfc},9", 3), " (flags=0x03)");
    assert_eq!(decode_dword_label("{b3f8fa53-0004-438e-9003-51a46e139bfc},3", 3), " (Headphones)");
    assert_eq!(decode_dword_label("other", 1), "");
}

#[test]
fn system_apos_are_recognised_in_any_case() {
    assert!(is_system_apo("{DA2C9ECE-7418-4906-B4FA-0A00B3EB88AA}"));
    assert!(!is_system_apo("{41c34613-d391-459d-a039-72b2b15a1a1d}"));
}

#[test]
fn json_escape_covers_quotes_controls_and_text() {
    assert_eq!(json_escape("a\"b\\c\nd\re\tf"), "a\\\"b\\\\c\\nd\\re\\tf");
    assert_eq!(json_escape("\u{1}中"), "\\u0001中");
}

#[test]
fn resolve_by_guid_index_and_errors() {
    let devices = vec![
        Some(EndpointName { guid: "{11111111-2222-3333-4444-555555555555}".to_string(), name: "Spk".to_string() }),
        None,
    ];
    let d = resolve_device("{11111111-2222-3333-4444-555555555555}", &devices, Lang::En).ok().unwrap();
    assert_eq!((d.name.as_str(), d.connection.as_str()), ("Spk", ""));
    let d = resolve_device("0", &devices, Lang::En).ok().unwrap();
    assert_eq!(d.guid, "{11111111-2222-3333-4444-555555555555}");
    assert_eq!(resolve_device("1", &devices, Lang::En).err().unwrap(), "Device missing endpoint info");
    assert_eq!(resolve_device("{short}", &devices, Lang::Zh).err().unwrap(), "无效 GUID：<{short}>（应为 {XXXXXXXX-XXXX-XXXX-XXXX-XXXXXXXXXXXX}）");
    assert_eq!(resolve_device("abc", &devices, Lang::Zh).err().unwrap(), "未知设备：<abc>（可用 list 查看序号，或用 {GUID} 形式）");
}

#[test]
fn receipts_and_slots_construct_as_given() {
    let ok = CliOk::new("g", "已安装").with_mode("SfxEfx");
    assert!(ok.ok);
    assert_eq!((ok.device.as_str(), ok.message.as_str(), ok.mode.as_deref()), ("g", "已安装", Some("SfxEfx")));
    let err = CliError::new("boom");
    assert!(!err.ok);
    assert_eq!(err.error, "boom");
    let slots = DeviceSlots::from_slice([Some("a".to_string()), None, None, None, Some("e".to_string())]);
    assert_eq!((slots.lfx.as_deref(), slots.efx.as_deref(), slots.gfx), (Some("a"), Some("e"), None));
}

#[test]
fn app_starts_empty_and_refresh_replaces() {
    let mut app = App::new();
    assert!(app.endpoints.is_empty());
    app.refresh(Vec::new());
    assert!(app.endpoints.is_empty());
    assert_eq!(EndpointKind::Capture.reg_path(), "Capture");
    assert_eq!(EndpointKind::Playback.display_name(), "Playback");
}

#[test]
fn json_escape_reads_back_as_the_same_string() {
    assert_eq!(json_escape("a\"b\\c\n\u{1}"), "a\\\"b\\\\c\\n\\u0001");
    for s in ["", "plain", "a\"b\\c\n\u{1}", "\u{1f}\u{10}/中文\t\r", "{guid}\u{7f}"] {
        let quoted = format!("\"{}\"", json_escape(s));
        let back: String = serde_json::from_str(&quoted).unwrap();
        assert_eq!(back, s);
    }
}
