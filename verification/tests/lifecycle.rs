use vxapo_cli::i18n::Lang;
use vxapo_cli::lifecycle::{
    InstallEvent, InstallFlow, InstallStage, InstallStep, UninstallEvent, UninstallFlow, UninstallStage,
    UninstallStep,
};
use vxapo_cli::verify::InstallMode;

fn finish_of(step: UninstallStep) -> (bool, Result<(), String>) {
    match step {
        UninstallStep::Finish { ensure_running, result } => (ensure_running, result),
        _ => panic!("expected finish"),
    }
}

#[test]
fn uninstall_runs_every_step_in_order() {
    let mut f = UninstallFlow::new(false, Lang::En);
    assert!(matches!(f.asked(), UninstallStep::CheckAdmin));
    assert!(matches!(f.step(UninstallEvent::Admin(Ok(()))).step, UninstallStep::ResolveDevice));
    assert!(matches!(f.step(UninstallEvent::Resolved(Ok(()))).step, UninstallStep::FindEndpoint));
    assert!(matches!(f.step(UninstallEvent::EndpointFound(true)).step, UninstallStep::CheckBaseline));
    let a = f.step(UninstallEvent::BaselineFound(true));
    assert_eq!(a.print, vec!["  Stopping audio service + terminating audiodg (uninstall prerequisite)...".to_string()]);
    assert!(matches!(a.step, UninstallStep::StopService));
    let a = f.step(UninstallEvent::Stopped { exited: true, millis: 42 });
    assert_eq!(a.print, vec!["  audiodg exited (42 ms)".to_string()]);
    assert!(matches!(a.step, UninstallStep::RemoveEndpoint));
    assert!(matches!(f.step(UninstallEvent::Removed(Ok(()))).step, UninstallStep::Recount));
    assert_eq!(finish_of(f.step(UninstallEvent::Recounted(Ok(0))).step), (false, Ok(())));
    assert_eq!(f.stage, UninstallStage::Finished);
    assert!(matches!(f.step(UninstallEvent::Admin(Ok(()))).step, UninstallStep::Nothing));
}

#[test]
fn uninstall_stops_at_failed_admin_check() {
    let mut f = UninstallFlow::new(true, Lang::En);
    let a = f.step(UninstallEvent::Admin(Err("no admin".to_string())));
    assert!(a.print.is_empty());
    assert_eq!(finish_of(a.step), (false, Err("no admin".to_string())));
    assert!(matches!(f.step(UninstallEvent::Resolved(Ok(()))).step, UninstallStep::Nothing));
}

#[test]
fn uninstall_asks_again_on_an_unrelated_outcome() {
    let mut f = UninstallFlow::new(true, Lang::En);
    assert!(matches!(f.step(UninstallEvent::BaselineFound(true)).step, UninstallStep::CheckAdmin));
    assert_eq!(f.stage, UninstallStage::Admin);
}

#[test]
fn uninstall_stale_record_and_missing_baseline() {
    let mut f = UninstallFlow::new(true, Lang::En);
    f.step(UninstallEvent::Admin(Ok(())));
    f.step(UninstallEvent::Resolved(Ok(())));
    assert!(matches!(f.step(UninstallEvent::EndpointFound(false)).step, UninstallStep::ListStale));
    assert!(matches!(f.step(UninstallEvent::StaleListed(Ok(true))).step, UninstallStep::StaleCleanup));

    let mut f = UninstallFlow::new(true, Lang::En);
    f.step(UninstallEvent::Admin(Ok(())));
    f.step(UninstallEvent::Resolved(Ok(())));
    f.step(UninstallEvent::EndpointFound(false));
    assert!(matches!(f.step(UninstallEvent::StaleListed(Ok(false))).step, UninstallStep::CheckBaseline));
    assert_eq!(
        finish_of(f.step(UninstallEvent::BaselineFound(false)).step),
        (false, Err("No baseline to compare - snapshot does not exist (run install first to create one)".to_string()))
    );
}

#[test]
fn uninstall_failures_after_removal_restore_the_service() {
    let start = |f: &mut UninstallFlow| {
        f.step(UninstallEvent::Admin(Ok(())));
        f.step(UninstallEvent::Resolved(Ok(())));
        f.step(UninstallEvent::EndpointFound(true));
        f.step(UninstallEvent::BaselineFound(true));
        let a = f.step(UninstallEvent::Stopped { exited: false, millis: 5000 });
        assert!(a.print.is_empty());
    };
    let mut f = UninstallFlow::new(true, Lang::En);
    start(&mut f);
    assert_eq!(
        finish_of(f.step(UninstallEvent::Removed(Err("denied".to_string()))).step),
        (true, Err("uninstall_endpoint failed: denied".to_string()))
    );
    let mut f = UninstallFlow::new(true, Lang::En);
    start(&mut f);
    f.step(UninstallEvent::Removed(Ok(())));
    assert_eq!(
        finish_of(f.step(UninstallEvent::Recounted(Ok(2))).step),
        (true, Err("Detected 2 slot(s) still containing VxAPO CLSID after uninstall - audio process may still be holding them. Please retry.".to_string()))
    );
    let mut f = UninstallFlow::new(true, Lang::En);
    start(&mut f);
    f.step(UninstallEvent::Removed(Ok(())));
    assert_eq!(
        finish_of(f.step(UninstallEvent::Recounted(Err("gone".to_string()))).step),
        (false, Err("Failed to re-enumerate devices: gone".to_string()))
    );
}

#[test]
fn install_with_given_mode_prints_json_receipt() {
    let mut f = InstallFlow::new(Some("sfxefx".to_string()), false, true, true, Lang::En);
    assert!(matches!(f.asked(), InstallStep::CheckAdmin));
    let a = f.step(InstallEvent::Admin(Ok(())));
    assert_eq!(a.phases, vec!["admin".to_string(), "resolve".to_string()]);
    let a = f.step(InstallEvent::Resolved(Ok("{g}".to_string())));
    assert_eq!(a.phases, vec!["snapshot".to_string()]);
    assert!(matches!(a.step, InstallStep::TakeSnapshot));
    let a = f.step(InstallEvent::Snapshotted(Err("disk".to_string())));
    assert!(a.print.is_empty());
    assert_eq!(a.phases, vec!["register".to_string()]);
    let a = f.step(InstallEvent::Registered(Ok(())));
    assert!(matches!(a.step, InstallStep::InstallEndpoint { mode: InstallMode::SfxEfx }));
    let a = f.step(InstallEvent::Installed(Ok(())));
    assert_eq!(a.print, vec!["{\"ok\":true,\"device\":\"{g}\",\"message\":\"已安装\",\"mode\":\"SfxEfx\"}".to_string()]);
    assert!(matches!(a.step, InstallStep::RestartService));
    assert!(matches!(f.step(InstallEvent::Restarted).step, InstallStep::EnsureConfig));
    assert!(matches!(f.step(InstallEvent::ConfigEnsured).step, InstallStep::Finish { result: Ok(()) }));
    assert_eq!(f.stage, InstallStage::Finished);
}

#[test]
fn install_detects_mode_and_verifies() {
    let mut f = InstallFlow::new(None, true, false, false, Lang::En);
    f.step(InstallEvent::Admin(Ok(())));
    assert!(matches!(f.step(InstallEvent::Resolved(Ok("g".to_string()))).step, InstallStep::DetectMode));
    let a = f.step(InstallEvent::Detected(InstallMode::LfxGfx));
    assert_eq!(a.print, vec!["▶ Auto-detected install mode: LfxGfx".to_string()]);
    let a = f.step(InstallEvent::Snapshotted(Err("disk".to_string())));
    assert_eq!(a.print, vec!["⚠ Snapshot creation failed (continuing): disk".to_string()]);
    let a = f.step(InstallEvent::Registered(Ok(())));
    assert_eq!(a.phases, vec!["config".to_string()]);
    assert!(matches!(a.step, InstallStep::EnsureConfig));
    let a = f.step(InstallEvent::ConfigEnsured);
    assert_eq!(a.phases, vec!["verify".to_string()]);
    assert!(matches!(a.step, InstallStep::RunVerify { mode: InstallMode::LfxGfx }));
    match f.step(InstallEvent::Verified(Err("all failed".to_string()))).step {
        InstallStep::Finish { result } => assert_eq!(result, Err("all failed".to_string())),
        _ => panic!("expected finish"),
    }
}

#[test]
fn install_failures_end_the_run() {
    let mut f = InstallFlow::new(None, false, true, false, Lang::En);
    match f.step(InstallEvent::Admin(Err("no admin".to_string()))).step {
        InstallStep::Finish { result } => assert_eq!(result, Err("no admin".to_string())),
        _ => panic!("expected finish"),
    }
    assert!(matches!(f.step(InstallEvent::Registered(Ok(()))).step, InstallStep::Nothing));

    let mut f = InstallFlow::new(Some("bogus".to_string()), false, true, false, Lang::En);
    f.step(InstallEvent::Admin(Ok(())));
    match f.step(InstallEvent::Resolved(Ok("g".to_string()))).step {
        InstallStep::Finish { result } => assert_eq!(result, Err("Invalid mode: bogus (LfxGfx/SfxMfx/SfxEfx)".to_string())),
        _ => panic!("expected finish"),
    }

    let mut f = InstallFlow::new(Some("SfxMfx".to_string()), false, true, false, Lang::En);
    f.step(InstallEvent::Admin(Ok(())));
    f.step(InstallEvent::Resolved(Ok("g".to_string())));
    f.step(InstallEvent::Snapshotted(Ok(())));
    f.step(InstallEvent::Registered(Ok(())));
    match f.step(InstallEvent::Installed(Err("busy".to_string()))).step {
        InstallStep::Finish { result } => assert_eq!(
            result,
            Err("install_endpoint failed: busy (use vxapo-cli snapshot diff -d g to view changes)".to_string())
        ),
        _ => panic!("expected finish"),
    }
}

#[test]
fn install_plain_prints_installed_and_restart_lines() {
    let mut f = InstallFlow::new(Some("SfxMfx".to_string()), false, false, false, Lang::En);
    f.step(InstallEvent::Admin(Ok(())));
    f.step(InstallEvent::Resolved(Ok("g".to_string())));
    f.step(InstallEvent::Snapshotted(Ok(())));
    f.step(InstallEvent::Registered(Ok(())));
    let a = f.step(InstallEvent::Installed(Ok(())));
    assert_eq!(
        a.print,
        vec![
            "✓ Installed g (mode SfxMfx, child APO keep=false)".to_string(),
            "  Restarting audio service to apply changes...".to_string()
        ]
    );
}
