use vxapo_cli::cli::{plan_subcommand, run_config, run_effects, run_snapshot, run_stale, Command};
use vxapo_cli::commands::EndpointName;
use vxapo_cli::i18n::Lang;
use vxapo_cli::register::{ReadBack, RegisterEvent, RegisterFlow, RegisterStep};
use vxapo_cli::reports::{
    audiodg_wait_line, help_lines, install_receipt, installed_line, is_stale_guid, parse_mode,
    residual_message, stale_lines, uninstall_receipt, uninstalled_line, StaleRecord,
};
use vxapo_cli::verify::InstallMode;

fn argv(items: &[&str]) -> Vec<String> {
    items.iter().map(|s| s.to_string()).collect()
}

#[test]
fn install_command_with_json_anywhere() {
    let (json, plan) = plan_subcommand(&argv(&["install", "--json", "-d", "DEV", "--mode", "SfxMfx", "--verify"]));
    assert!(json);
    match plan.ok().unwrap() {
        Command::Install { device, mode, no_child, verify, timeout, progress_file, json } => {
            assert_eq!(device, "DEV");
            assert_eq!(mode.as_deref(), Some("SfxMfx"));
            assert!(!no_child && verify && json);
            assert_eq!(timeout, 180);
            assert_eq!(progress_file, None);
        }
        _ => panic!("not an install"),
    }
}

#[test]
fn usage_errors_of_top_level_commands() {
    assert_eq!(
        plan_subcommand(&argv(&["install"])).1.err().unwrap(),
        "install 用法：vxapo-cli install -d <device> [--mode LfxGfx|SfxMfx|SfxEfx] [--no-child] [--verify] [--timeout=<sec>] [--progress-file=<path>]"
    );
    assert_eq!(plan_subcommand(&argv(&["uninstall"])).1.err().unwrap(), "uninstall 用法：vxapo-cli uninstall -d <device>");
    assert_eq!(
        plan_subcommand(&argv(&["config", "show"])).1.err().unwrap(),
        "config 用法：vxapo-cli config set -d <device> -f <file> 或 config show -d <device>"
    );
    assert_eq!(plan_subcommand(&argv(&["bogus"])).1.err().unwrap(), "未知命令：bogus（vxapo-cli help 查看全部）");
}

#[test]
fn simple_commands_plan() {
    assert!(matches!(plan_subcommand(&argv(&["status"])), (false, Ok(Command::List { json: false }))));
    assert!(matches!(plan_subcommand(&argv(&["--json", "list"])), (true, Ok(Command::List { json: true }))));
    assert!(matches!(plan_subcommand(&argv(&["register"])).1, Ok(Command::Register)));
    assert!(matches!(plan_subcommand(&argv(&["-h"])).1, Ok(Command::Help)));
    match plan_subcommand(&argv(&["uninstall", "{G}"])).1.ok().unwrap() {
        Command::Uninstall { device, json } => assert_eq!((device.as_str(), json), ("{G}", false)),
        _ => panic!("not an uninstall"),
    }
    match plan_subcommand(&argv(&["snapshot", "diff", "-d", "0"])).1.ok().unwrap() {
        Command::Snapshot { args } => assert_eq!(args, argv(&["diff", "-d", "0"])),
        _ => panic!("not a snapshot"),
    }
}

#[test]
fn stale_subcommands() {
    assert!(matches!(run_stale(&[], true), Ok(Command::StaleList { json: true })));
    match run_stale(&argv(&["migrate", "-f", "OLD", "--to=NEW", "--config-from", "C"]), false).ok().unwrap() {
        Command::StaleMigrate { from, to, config_from, snapshot_from, json } => {
            assert_eq!((from.as_str(), to.as_str()), ("OLD", "NEW"));
            assert_eq!(config_from.as_deref(), Some("C"));
            assert_eq!(snapshot_from, None);
            assert!(!json);
        }
        _ => panic!("not a migrate"),
    }
    assert!(run_stale(&argv(&["migrate", "--from", "OLD"]), false).err().unwrap().starts_with("stale migrate 用法"));
    assert!(matches!(run_stale(&argv(&["cleanup", "G"]), false), Ok(Command::StaleCleanup { .. })));
    assert_eq!(run_stale(&argv(&["fix-acl"]), false).err().unwrap(), "stale fix-acl 用法：vxapo-cli stale fix-acl -d <guid>");
    assert_eq!(
        run_stale(&argv(&["nope"]), false).err().unwrap(),
        "未知 stale 子命令：nope（可用 list / migrate / cleanup / fix-acl）"
    );
}

#[test]
fn effects_and_config_subcommands() {
    assert!(matches!(run_effects(&argv(&["schema"]), true), Ok(Command::EffectsSchema { json: true })));
    assert_eq!(run_effects(&[], false).err().unwrap(), "未知 effects 子命令：（可用 schema）");
    match run_config(&argv(&["set", "-d", "DEV", "-f", "cfg.toml"])).ok().unwrap() {
        Command::ConfigSet { device, file } => assert_eq!((device.as_str(), file.as_str()), ("DEV", "cfg.toml")),
        _ => panic!("not a config set"),
    }
    assert_eq!(run_config(&argv(&["set", "-d", "DEV"])).err().unwrap(), "config set 需要 -f <file>");
    match run_config(&argv(&["convert", "old.txt"])).ok().unwrap() {
        Command::ConfigConvert { src, out } => assert_eq!((src.as_str(), out), ("old.txt", None)),
        _ => panic!("not a convert"),
    }
    assert_eq!(
        run_config(&argv(&["convert"])).err().unwrap(),
        "config convert 需要源文件：vxapo-cli config convert <old.txt> [out.toml]"
    );
    assert_eq!(run_config(&argv(&["x", "-d", "D"])).err().unwrap(), "config 子命令：set / show / convert");
}

#[test]
fn snapshot_resolves_device_before_subcommand() {
    let devices: Result<Vec<Option<EndpointName>>, String> =
        Ok(vec![Some(EndpointName { guid: "{G0}".to_string(), name: "Spk".to_string() })]);
    match run_snapshot(&argv(&["changes", "-d", "0"]), &devices, Lang::En).ok().unwrap() {
        Command::SnapshotDiff { guid } => assert_eq!(guid, "{G0}"),
        _ => panic!("not a diff"),
    }
    assert_eq!(
        run_snapshot(&argv(&["bogus", "-d", "0"]), &devices, Lang::En).err().unwrap(),
        "snapshot 子命令：diff / restore / create"
    );
    assert_eq!(
        run_snapshot(&argv(&["diff"]), &devices, Lang::En).err().unwrap(),
        "snapshot 需要 -d <device>（{GUID} 或 list 序号）"
    );
    let failed: Result<Vec<Option<EndpointName>>, String> = Err("boom".to_string());
    assert_eq!(
        run_snapshot(&argv(&["diff", "-d", "0"]), &failed, Lang::En).err().unwrap(),
        "Failed to enumerate devices: boom"
    );
}

#[test]
fn install_mode_is_read_in_any_case() {
    assert_eq!(parse_mode("SFXEFX", Lang::En).ok(), Some(InstallMode::SfxEfx));
    assert_eq!(parse_mode("lfxgfx", Lang::En).ok(), Some(InstallMode::LfxGfx));
    assert_eq!(parse_mode("Bad", Lang::En).err().unwrap(), "Invalid mode: Bad (LfxGfx/SfxMfx/SfxEfx)");
    assert_eq!(parse_mode("Bad", Lang::Zh).err().unwrap(), "无效模式：Bad（LfxGfx/SfxMfx/SfxEfx）");
}

#[test]
fn receipts_and_messages() {
    assert_eq!(
        install_receipt("{a\"b}", InstallMode::SfxMfx),
        "{\"ok\":true,\"device\":\"{a\\\"b}\",\"message\":\"已安装\",\"mode\":\"SfxMfx\"}"
    );
    assert_eq!(uninstall_receipt("g", Lang::En), "{\"ok\":true,\"device\":\"g\",\"message\":\"uninstalled\"}");
    assert_eq!(installed_line("{G}", InstallMode::LfxGfx, true, Lang::En), "✓ Installed {G} (mode LfxGfx, child APO keep=true)");
    assert_eq!(residual_message(2, Lang::Zh), "卸载后检测到 2 个槽位残留 VxAPO CLSID——音频进程可能仍占用，请重试。");
    assert_eq!(audiodg_wait_line(true, 120, Lang::En), "  audiodg exited (120 ms)");
    assert_eq!(uninstalled_line("{G}", &Some("x".to_string()), Lang::En), "✓ 已卸载 {G}。  Change summary: x");
    assert_eq!(uninstalled_line("{G}", &None, Lang::Zh), "✓ 已卸载 {G}。");
    assert!(is_stale_guid(&vec!["{ABC}".to_string()], "{abc}"));
    assert!(!is_stale_guid(&vec!["{ABC}".to_string()], "{abd}"));
    assert_eq!(help_lines(Lang::En).len(), 14);
    assert_eq!(help_lines(Lang::Zh)[0], "VxAPO CLI — 音频处理端到端验证工具");
}

#[test]
fn stale_list_lines() {
    let r = StaleRecord {
        guid: "{OLD}".to_string(),
        target_state: "matched_partial".to_string(),
        device_instance_id: String::new(),
        matched_by: Some("hardware_id".to_string()),
        target_guid: Some("{NEW}".to_string()),
        target_name: None,
        inferred_mode: "SfxEfx".to_string(),
        config_path: None,
        snapshot_path: Some("s.json".to_string()),
    };
    assert_eq!(
        stale_lines(&vec![r], Lang::En),
        vec![
            "{OLD}  matched_partial".to_string(),
            "     device: -  matched_by: hardware_id".to_string(),
            "     target: {NEW}  ".to_string(),
            "     mode: SfxEfx  config: -  snapshot: s.json".to_string(),
        ]
    );
    assert_eq!(stale_lines(&vec![], Lang::En), vec!["(no stale GUID records)".to_string()]);
}

#[test]
fn register_flow_uses_first_existing_candidate() {
    let mut flow = RegisterFlow::new("{C}", Lang::En);
    assert!(matches!(flow.start().step, RegisterStep::CheckCandidates));
    let a = flow.step(RegisterEvent::Candidates { paths: argv(&["a.dll", "b.dll"]), exists: vec![false, true] });
    match a.step {
        RegisterStep::Register { dll } => assert_eq!(dll, "b.dll"),
        _ => panic!("expected register"),
    }
    let a = flow.step(RegisterEvent::Registered { hr: 0, hr_text: "HRESULT(0x00000000)".to_string() });
    assert_eq!(a.print, vec!["  ✓ Global APO registration refreshed: b.dll".to_string()]);
    assert!(matches!(a.step, RegisterStep::ReadBackBinding));
    let a = flow.step(RegisterEvent::BindingReadBack(ReadBack::Read("b.dll".to_string())));
    match a.step {
        RegisterStep::CheckEngine { key } => assert_eq!(key, "AudioEngine\\AudioProcessingObjects\\{C}"),
        _ => panic!("expected engine check"),
    }
    let a = flow.step(RegisterEvent::EngineKey(Err("missing".to_string())));
    match a.step {
        RegisterStep::Finish { result } => assert_eq!(
            result.err().unwrap(),
            "AudioEngine APO registration missing: AudioEngine\\AudioProcessingObjects\\{C} (missing)"
        ),
        _ => panic!("expected finish"),
    }
}

#[test]
fn register_flow_without_dll_warns_and_succeeds() {
    let mut flow = RegisterFlow::new("{C}", Lang::Zh);
    let a = flow.step(RegisterEvent::Candidates { paths: argv(&["x\\vxapo_driver.dll"]), exists: vec![false] });
    assert!(matches!(a.step, RegisterStep::ReadBinding));
    let a = flow.step(RegisterEvent::Binding(None));
    assert_eq!(a.print, vec!["  ⚠ 未找到 x\\vxapo_driver.dll（跳过自动注册——已由安装器/regsvr32 注册则无碍）".to_string()]);
    assert!(matches!(a.step, RegisterStep::Finish { result: Ok(()) }));
}

#[test]
fn register_flow_reports_failed_registration() {
    let mut flow = RegisterFlow::new("{C}", Lang::En);
    flow.step(RegisterEvent::Candidates { paths: argv(&["a.dll"]), exists: vec![false] });
    let a = flow.step(RegisterEvent::Binding(Some("bound.dll".to_string())));
    assert!(matches!(a.step, RegisterStep::Register { .. }));
    let a = flow.step(RegisterEvent::Registered { hr: -1, hr_text: "HRESULT(0x80004005)".to_string() });
    match a.step {
        RegisterStep::Finish { result } => {
            assert_eq!(result.err().unwrap(), "Driver auto-registration failed: HRESULT(0x80004005)")
        }
        _ => panic!("expected finish"),
    }
}
