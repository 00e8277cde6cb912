use vxapo_cli::i18n::Lang;
use vxapo_cli::pipe::{endpoint_device_id, is_capture_path, pipe_path, take_pipe_lines, EventSink};
use vxapo_cli::snapshot::{capture_snapshot, diff_snapshots, render_snapshot, snapshot_path, SlotValue};
use vxapo_cli::status::{DeviceInfo, EndpointInfo};
use vxapo_cli::verify::InstallMode;

fn slots() -> [SlotValue; 5] {
    [
        SlotValue::NoKey,
        SlotValue::NoValue,
        SlotValue::Guid("41C34613-D391-459D-A039-72B2B15A1A1D".to_string()),
        SlotValue::NoKey,
        SlotValue::NoKey,
    ]
}

#[test]
fn snapshot_text_lists_slots_and_child_record() {
    let text = render_snapshot(&slots(), &Some("EACD".to_string()), &None, true);
    assert_eq!(
        text,
        "slot_0=(NoKey)\nslot_1=(NoValue)\nslot_2=41C34613-D391-459D-A039-72B2B15A1A1D\nslot_3=(NoKey)\nslot_4=(NoKey)\nchildPreMix=EACD\nchildPostMix=\nchildApoKeyExists=true"
    );
}

#[test]
fn snapshot_path_joins_directory_and_guid() {
    assert_eq!(snapshot_path("C:\\ProgramData\\VxAPO\\snapshots", "{G}"), "C:\\ProgramData\\VxAPO\\snapshots\\{G}.json");
}

#[test]
fn diff_reports_each_kind_of_change() {
    let baseline = "a=1\nb=2\nc=3\nnoise";
    let current = "a=1\nb=20\nd=4";
    let d = diff_snapshots(baseline, current, Lang::En);
    assert_eq!(
        d.lines,
        vec![
            "    a = 1".to_string(),
            "~ b = 2 → 20".to_string(),
            "+ d = 4".to_string(),
            "- c = (deleted)".to_string(),
        ]
    );
    assert_eq!(d.summary, "Changes: +1 added / -1 deleted / ~1 modified / 1 unchanged");
    let z = diff_snapshots(baseline, current, Lang::Zh);
    assert_eq!(z.lines[3], "- c = （已删除）");
    assert_eq!(z.summary, "变更：+1 新增 / -1 删除 / ~1 修改 / 1 无变化");
}

#[test]
fn snapshot_against_itself_shows_no_change() {
    let text = render_snapshot(&slots(), &None, &None, false);
    let d = diff_snapshots(&text, &text, Lang::En);
    assert_eq!(d.summary, "Changes: +0 added / -0 deleted / ~0 modified / 8 unchanged");
    assert!(d.lines.iter().all(|l| l.starts_with("    ")));
}

#[test]
fn capture_finds_the_device_or_fails() {
    let d = DeviceInfo {
        endpoint: Some(EndpointInfo {
            endpoint_guid: "{AB}".to_string(),
            friendly_name: "Spk".to_string(),
            device_id: String::new(),
            capture: false,
        }),
        installed_version: String::new(),
        install_mode: InstallMode::LfxGfx,
        premix_slot: 0,
        postmix_slot: 1,
        slots: slots(),
        slot_texts: [String::new(), String::new(), String::new(), String::new(), String::new()],
        format: None,
        child_apo_key: false,
    };
    let ds = vec![d];
    let text = capture_snapshot(&ds, "{ab}", &None, &None, false).ok().unwrap();
    assert!(text.starts_with("slot_0=(NoKey)\n"));
    assert!(text.ends_with("childApoKeyExists=false"));
    assert_eq!(capture_snapshot(&ds, "{cd}", &None, &None, false).err().unwrap(), "设备不在枚举列表");
}

#[test]
fn pipe_lines_are_split_trimmed_and_tail_kept() {
    let mut buf = b"  {\"stage\":\"premix\"}\r\n\n\xff ok\npartial".to_vec();
    let lines = take_pipe_lines(&mut buf);
    assert_eq!(lines, vec!["{\"stage\":\"premix\"}".to_string(), "\u{FFFD} ok".to_string()]);
    assert_eq!(buf, b"partial".to_vec());
    let mut none = b"no newline yet".to_vec();
    assert!(take_pipe_lines(&mut none).is_empty());
    assert_eq!(none, b"no newline yet".to_vec());
}

#[test]
fn pipe_names_and_device_ids() {
    assert_eq!(pipe_path(), "\\\\.\\pipe\\VxAPODeviceTest");
    assert_eq!(endpoint_device_id("{G}", false), "{0.0.0.00000000}.{G}");
    assert_eq!(endpoint_device_id("{G}", true), "{0.0.1.00000000}.{G}");
    assert!(is_capture_path(&Some("SOFTWARE\\...\\Audio\\Capture\\{G}".to_string())));
    assert!(!is_capture_path(&Some("SOFTWARE\\...\\Audio\\Render\\{G}".to_string())));
    assert!(!is_capture_path(&None));
    let sink = EventSink::new(Some("p.json".to_string()));
    assert_eq!(sink.progress_file.as_deref(), Some("p.json"));
}
