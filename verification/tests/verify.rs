use vxapo_cli::protocol::InstallProgressEvent;
use vxapo_cli::verify::{
    mode_order, mode_str, parse_pipe_message, phase_event, score_of, FailureAction, InstallMode, PipeReport,
    VerifyRun,
};

#[test]
fn mode_order_preferred_first_with_eapo_fallback() {
    assert_eq!(
        mode_order(InstallMode::SfxMfx),
        vec![InstallMode::SfxMfx, InstallMode::SfxEfx, InstallMode::LfxGfx]
    );
    assert_eq!(
        mode_order(InstallMode::LfxGfx),
        vec![InstallMode::LfxGfx, InstallMode::SfxEfx, InstallMode::SfxMfx]
    );
    assert_eq!(
        mode_order(InstallMode::SfxEfx),
        vec![InstallMode::SfxEfx, InstallMode::SfxMfx, InstallMode::LfxGfx]
    );
}

#[test]
fn render_full_score_is_33() {
    let report = PipeReport { premix_init: true, postmix_init: true, child_premix: true, child_postmix: true, messages: 4 };
    assert_eq!(score_of(&report, false, true, true), 33);
}

#[test]
fn capture_full_score_is_22_and_postmix_ignored() {
    let report = PipeReport { premix_init: true, postmix_init: true, child_premix: true, child_postmix: true, messages: 4 };
    assert_eq!(score_of(&report, true, true, true), 22);
}

#[test]
fn clean_install_without_original_apo_scores_full() {
    let report = PipeReport { premix_init: true, postmix_init: true, child_premix: false, child_postmix: false, messages: 2 };
    assert_eq!(score_of(&report, false, false, false), 33);
}

#[test]
fn missing_expected_child_scores_lower() {
    let report = PipeReport { premix_init: true, postmix_init: true, child_premix: false, child_postmix: true, messages: 3 };
    assert_eq!(score_of(&report, false, true, true), 31);
}

#[test]
fn parse_pipe_message_sets_flags() {
    let mut r = PipeReport::default();
    parse_pipe_message(r#"{"deviceGuid":"{x}","stage":"premix","phase":"initialize"}"#, &mut r);
    parse_pipe_message(r#"{"deviceGuid":"{x}","stage":"postmix","phase":"child_apo"}"#, &mut r);
    assert!(r.premix_init);
    assert!(r.child_postmix);
    assert!(!r.postmix_init);
    assert!(!r.child_premix);
}

#[test]
fn mode_str_matches_event_contract() {
    assert_eq!(mode_str(InstallMode::LfxGfx), "LFX_GFX");
    assert_eq!(mode_str(InstallMode::SfxMfx), "SFX_MFX");
    assert_eq!(mode_str(InstallMode::SfxEfx), "SFX_EFX");
}

#[test]
fn unparsable_pipe_line_only_counts() {
    let mut r = PipeReport::new();
    parse_pipe_message("not json", &mut r);
    parse_pipe_message(r#"{"stage":1,"phase":"initialize"}"#, &mut r);
    assert_eq!(r.messages, 2);
    assert!(!r.premix_init && !r.postmix_init && !r.child_premix && !r.child_postmix);
}

#[test]
fn empty_report_scores_only_unexpected_children() {
    let r = PipeReport::new();
    assert_eq!(score_of(&r, false, false, false), 3);
    assert_eq!(score_of(&r, true, true, true), 0);
}

#[test]
fn run_retries_then_succeeds() {
    let mut run = VerifyRun::new(InstallMode::SfxMfx, false);
    let (m, e) = run.next_attempt().unwrap();
    assert_eq!(m, InstallMode::SfxMfx);
    assert!(matches!(e, InstallProgressEvent::InstallWrite { ref mode } if mode == "SFX_MFX"));
    let (ok, events) = run.record_score(31);
    assert!(!ok);
    assert_eq!(events.len(), 2);
    match &events[1] {
        InstallProgressEvent::Retry { from, to, reason } => {
            assert_eq!(from, "SFX_MFX");
            assert_eq!(to, "SFX_EFX");
            assert_eq!(reason.as_deref(), Some("score 31 < 33"));
        }
        _ => panic!("expected retry"),
    }
    let (m, _) = run.next_attempt().unwrap();
    assert_eq!(m, InstallMode::SfxEfx);
    let (ok, events) = run.record_score(33);
    assert!(ok);
    match &events[1] {
        InstallProgressEvent::Complete { success, mode, score, attempts, best_mode, best_score } => {
            assert!(*success);
            assert_eq!(mode.as_deref(), Some("SFX_EFX"));
            assert_eq!(*score, Some(33));
            assert_eq!(*attempts, 2);
            assert!(best_mode.is_none() && best_score.is_none());
        }
        _ => panic!("expected complete"),
    }
}

#[test]
fn run_exhausts_modes_and_reports_best() {
    let mut run = VerifyRun::new(InstallMode::LfxGfx, true);
    let mut last_events = 0;
    for score in [20u32, 21, 21] {
        run.next_attempt().unwrap();
        let (ok, events) = run.record_score(score);
        assert!(!ok);
        last_events = events.len();
    }
    assert_eq!(last_events, 1);
    assert!(run.next_attempt().is_none());
    match run.failure_event() {
        InstallProgressEvent::Complete { success, mode, score, attempts, best_mode, best_score } => {
            assert!(!success);
            assert!(mode.is_none() && score.is_none());
            assert_eq!(attempts, 3);
            assert_eq!(best_mode.as_deref(), Some("SFX_EFX"));
            assert_eq!(best_score, Some(21));
        }
        _ => panic!("expected complete"),
    }
}

#[test]
fn all_failed_keeps_best_scoring_mode() {
    let mut run = VerifyRun::new(InstallMode::LfxGfx, true);
    for score in [20u32, 21, 21] {
        run.next_attempt().unwrap();
        assert!(!run.record_score(score).0);
    }
    assert_eq!(run.failure_action(), FailureAction::KeepMode(InstallMode::SfxEfx));
}

#[test]
fn all_failed_without_any_score_rolls_back() {
    let mut run = VerifyRun::new(InstallMode::SfxMfx, false);
    while run.next_attempt().is_some() {
        assert!(!run.record_score(0).0);
    }
    assert_eq!(run.failure_action(), FailureAction::RollBack);
}

#[test]
fn phase_events_only_with_progress_file() {
    match phase_event("admin", true) {
        Some(InstallProgressEvent::Phase { name }) => assert_eq!(name, "admin"),
        _ => panic!("expected phase"),
    }
    assert!(phase_event("admin", false).is_none());
}
