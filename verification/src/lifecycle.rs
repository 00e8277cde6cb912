//! The order of the `install` and `uninstall` commands' steps and what each outcome leads
//! to.  The caller performs each step (checks, registry work, the audio service) and
//! reports back.
use vstd::prelude::*;
use crate::i18n::Lang;
use crate::register::string_views;
use crate::json::json_escaped;
use crate::reports::{
    audiodg_wait_line, auto_mode_line, bool_text, install_failed_message, install_receipt, installed_line,
    mode_spec, no_baseline_message, parse_mode, reenumerate_failed_message, residual_message,
    restarting_line, snapshot_failed_line, stopping_line, tr, uninstall_failed_message,
};
use crate::status::mode_debug;
use crate::text::{chars_of, dec, string_of};
use crate::verify::InstallMode;

verus! {

/// Where an uninstall stands: the outcome it waits for.
#[derive(Clone, Copy, PartialEq, Eq, Structural, Debug)]
pub enum UninstallStage {
    /// Whether the process runs elevated.
    Admin,
    /// The device named on the command line.
    Resolve,
    /// Whether the device still has an endpoint key.
    Endpoint,
    /// Whether the device is among the stale install records.
    Stale,
    /// Whether a baseline snapshot exists.
    Baseline,
    /// The audio service stopped and audiodg waited for.
    Stop,
    /// Removing the install from the endpoint.
    Remove,
    /// Counting the slots that still name this project's CLSIDs.
    Recount,
    /// Nothing is left to do.
    Finished,
}

/// The next thing the caller does.
pub enum UninstallStep {
    CheckAdmin,
    ResolveDevice,
    FindEndpoint,
    ListStale,
    CheckBaseline,
    /// Stop the audio service and wait (at most 5 s) for audiodg to exit.
    StopService,
    RemoveEndpoint,
    /// Enumerate the devices again and count the residual slots of this device.
    Recount,
    /// Hand over to the clean-up of a stale install record.
    StaleCleanup,
    /// End the command with `result`, first making sure the audio service runs where
    /// `ensure_running` says so.
    Finish { ensure_running: bool, result: Result<(), String> },
    /// The uninstall is over.
    Nothing,
}

pub enum UninstallStepView {
    CheckAdmin,
    ResolveDevice,
    FindEndpoint,
    ListStale,
    CheckBaseline,
    StopService,
    RemoveEndpoint,
    Recount,
    StaleCleanup,
    Finish { ensure_running: bool, result: Result<(), Seq<char>> },
    Nothing,
}

impl UninstallStep {
    pub open spec fn view(&self) -> UninstallStepView {
        match self {
            UninstallStep::CheckAdmin => UninstallStepView::CheckAdmin,
            UninstallStep::ResolveDevice => UninstallStepView::ResolveDevice,
            UninstallStep::FindEndpoint => UninstallStepView::FindEndpoint,
            UninstallStep::ListStale => UninstallStepView::ListStale,
            UninstallStep::CheckBaseline => UninstallStepView::CheckBaseline,
            UninstallStep::StopService => UninstallStepView::StopService,
            UninstallStep::RemoveEndpoint => UninstallStepView::RemoveEndpoint,
            UninstallStep::Recount => UninstallStepView::Recount,
            UninstallStep::StaleCleanup => UninstallStepView::StaleCleanup,
            UninstallStep::Finish { ensure_running, result } => UninstallStepView::Finish {
                ensure_running: *ensure_running,
                result: match result {
                    Ok(()) => Ok(()),
                    Err(e) => Err(e@),
                },
            },
            UninstallStep::Nothing => UninstallStepView::Nothing,
        }
    }
}

/// The outcome of the step last asked for.
pub enum UninstallEvent {
    /// The elevation check (its error text).
    Admin(Result<(), String>),
    /// The device lookup (its error text).
    Resolved(Result<(), String>),
    EndpointFound(bool),
    /// Whether the device's GUID is among the stale install records (or why they could
    /// not be listed).
    StaleListed(Result<bool, String>),
    BaselineFound(bool),
    /// Whether audiodg exited, and after how many milliseconds of waiting.
    Stopped { exited: bool, millis: u64 },
    /// Removing the install (the error's text).
    Removed(Result<(), String>),
    /// The residual slot count (or why devices could not be enumerated).
    Recounted(Result<usize, String>),
}

/// Lines to print, then the step to perform.
pub struct UninstallAction {
    pub print: Vec<String>,
    pub step: UninstallStep,
}

/// An uninstall in progress: its stage, whether output is JSON, and the message language.
pub struct UninstallFlow {
    pub stage: UninstallStage,
    pub json: bool,
    pub lang: Lang,
}

/// The step that a stage waits on.
pub open spec fn uninstall_asked(stage: UninstallStage) -> UninstallStepView {
    match stage {
        UninstallStage::Admin => UninstallStepView::CheckAdmin,
        UninstallStage::Resolve => UninstallStepView::ResolveDevice,
        UninstallStage::Endpoint => UninstallStepView::FindEndpoint,
        UninstallStage::Stale => UninstallStepView::ListStale,
        UninstallStage::Baseline => UninstallStepView::CheckBaseline,
        UninstallStage::Stop => UninstallStepView::StopService,
        UninstallStage::Remove => UninstallStepView::RemoveEndpoint,
        UninstallStage::Recount => UninstallStepView::Recount,
        UninstallStage::Finished => UninstallStepView::Nothing,
    }
}

pub open spec fn finish(ensure_running: bool, result: Result<(), Seq<char>>) -> UninstallStepView {
    UninstallStepView::Finish { ensure_running, result }
}

/// What an uninstall does on an outcome: its next stage, the lines to print and the next
/// step.  An outcome that does not answer the stage's step changes nothing, and the step
/// is asked again.
pub open spec fn uninstall_next(f: UninstallFlow, e: UninstallEvent) -> (
    UninstallStage,
    Seq<Seq<char>>,
    UninstallStepView,
) {
    let lang = f.lang;
    let done = UninstallStage::Finished;
    match (f.stage, e) {
        (UninstallStage::Admin, UninstallEvent::Admin(r)) => match r {
            Ok(()) => (UninstallStage::Resolve, seq![], UninstallStepView::ResolveDevice),
            Err(m) => (done, seq![], finish(false, Err(m@))),
        },
        (UninstallStage::Resolve, UninstallEvent::Resolved(r)) => match r {
            Ok(()) => (UninstallStage::Endpoint, seq![], UninstallStepView::FindEndpoint),
            Err(m) => (done, seq![], finish(false, Err(m@))),
        },
        (UninstallStage::Endpoint, UninstallEvent::EndpointFound(found)) => if found {
            (UninstallStage::Baseline, seq![], UninstallStepView::CheckBaseline)
        } else {
            (UninstallStage::Stale, seq![], UninstallStepView::ListStale)
        },
        (UninstallStage::Stale, UninstallEvent::StaleListed(r)) => match r {
            Ok(true) => (done, seq![], UninstallStepView::StaleCleanup),
            Ok(false) => (UninstallStage::Baseline, seq![], UninstallStepView::CheckBaseline),
            Err(m) => (done, seq![], finish(false, Err(m@))),
        },
        (UninstallStage::Baseline, UninstallEvent::BaselineFound(found)) => if found {
            (
                UninstallStage::Stop,
                if f.json {
                    seq![]
                } else {
                    seq![
                        tr(
                            lang,
                            "  停止音频服务 + 终止 audiodg（卸载前置）…"@,
                            "  Stopping audio service + terminating audiodg (uninstall prerequisite)..."@,
                        ),
                    ]
                },
                UninstallStepView::StopService,
            )
        } else {
            (
                done,
                seq![],
                finish(
                    false,
                    Err(
                        tr(
                            lang,
                            "无基线可对比——快照不存在（先 install 建立基线）"@,
                            "No baseline to compare - snapshot does not exist (run install first to create one)"@,
                        ),
                    ),
                ),
            )
        },
        (UninstallStage::Stop, UninstallEvent::Stopped { exited, millis }) => (
            UninstallStage::Remove,
            if f.json {
                seq![]
            } else {
                seq![
                    if exited {
                        tr(
                            lang,
                            "  audiodg 已退出（"@ + dec(millis as nat) + " ms）"@,
                            "  audiodg exited ("@ + dec(millis as nat) + " ms)"@,
                        )
                    } else {
                        tr(
                            lang,
                            "  ⚠ 等待 audiodg 退出超时（5 s），继续执行（槽位写入不受影响）"@,
                            "  ⚠ timed out waiting for audiodg exit (5 s); continuing (slot edit unaffected)"@,
                        )
                    },
                ]
            },
            UninstallStepView::RemoveEndpoint,
        ),
        (UninstallStage::Remove, UninstallEvent::Removed(r)) => match r {
            Ok(()) => (UninstallStage::Recount, seq![], UninstallStepView::Recount),
            Err(m) => (
                done,
                seq![],
                finish(true, Err(tr(lang, "uninstall_endpoint 失败："@ + m@, "uninstall_endpoint failed: "@ + m@))),
            ),
        },
        (UninstallStage::Recount, UninstallEvent::Recounted(r)) => match r {
            Ok(n) => if n == 0 {
                (done, seq![], finish(false, Ok(())))
            } else {
                (
                    done,
                    seq![],
                    finish(
                        true,
                        Err(
                            tr(
                                lang,
                                "卸载后检测到 "@ + dec(n as nat) + " 个槽位残留 VxAPO CLSID——音频进程可能仍占用，请重试。"@,
                                "Detected "@ + dec(n as nat)
                                    + " slot(s) still containing VxAPO CLSID after uninstall - audio process may still be holding them. Please retry."@,
                            ),
                        ),
                    ),
                )
            },
            Err(m) => (
                done,
                seq![],
                finish(false, Err(tr(lang, "回读枚举失败："@ + m@, "Failed to re-enumerate devices: "@ + m@))),
            ),
        },
        _ => (f.stage, seq![], uninstall_asked(f.stage)),
    }
}

/// How far an uninstall has come.
pub open spec fn uninstall_rank(s: UninstallStage) -> int {
    match s {
        UninstallStage::Admin => 0,
        UninstallStage::Resolve => 1,
        UninstallStage::Endpoint => 2,
        UninstallStage::Stale => 3,
        UninstallStage::Baseline => 4,
        UninstallStage::Stop => 5,
        UninstallStage::Remove => 6,
        UninstallStage::Recount => 7,
        UninstallStage::Finished => 8,
    }
}

/// An uninstall only moves forward and asks nothing once finished.  Until the elevation
/// check passes nothing else is asked, and a failed check ends it with that error.  The
/// audio service is stopped only once a baseline was found, the install is removed only
/// after that stop, and a finish asks to make sure the service runs only when the removal
/// failed or left residual slots.
pub proof fn law_uninstall_order(f: UninstallFlow, e: UninstallEvent)
    ensures
        uninstall_rank(uninstall_next(f, e).0) >= uninstall_rank(f.stage),
        f.stage == UninstallStage::Finished ==> uninstall_next(f, e) == (
            UninstallStage::Finished,
            Seq::<Seq<char>>::empty(),
            UninstallStepView::Nothing,
        ),
        f.stage == UninstallStage::Admin ==> match e {
            UninstallEvent::Admin(Ok(())) => uninstall_next(f, e).0 == UninstallStage::Resolve,
            UninstallEvent::Admin(Err(m)) => uninstall_next(f, e).0 == UninstallStage::Finished
                && uninstall_next(f, e).2 == finish(false, Err(m@)),
            _ => uninstall_next(f, e).0 == UninstallStage::Admin && uninstall_next(f, e).2
                == UninstallStepView::CheckAdmin,
        },
        uninstall_next(f, e).2 == UninstallStepView::StopService ==> f.stage == UninstallStage::Baseline
            || f.stage == UninstallStage::Stop,
        uninstall_next(f, e).2 == UninstallStepView::RemoveEndpoint ==> f.stage == UninstallStage::Stop
            || f.stage == UninstallStage::Remove,
        (uninstall_next(f, e).2 matches UninstallStepView::Finish { ensure_running: true, .. }) <==> (
        (f.stage == UninstallStage::Remove && (e matches UninstallEvent::Removed(Err(_)))) || (f.stage
            == UninstallStage::Recount && (e matches UninstallEvent::Recounted(Ok(n)) && n > 0))),
{
}

fn one_line(s: String) -> (r: Vec<String>)
    ensures
        string_views(r@) == seq![s@],
{
    let mut out: Vec<String> = Vec::new();
    out.push(s);
    assert(string_views(out@) =~= seq![s@]);
    out
}

fn fail_step(ensure_running: bool, m: String) -> (r: UninstallStep)
    ensures
        r@ == finish(ensure_running, Err(m@)),
{
    UninstallStep::Finish { ensure_running, result: Err(m) }
}

impl UninstallFlow {
    /// An uninstall that has not begun.
    pub fn new(json: bool, lang: Lang) -> (r: Self)
        ensures
            r.stage == UninstallStage::Admin,
            r.json == json,
            r.lang == lang,
    {
        UninstallFlow { stage: UninstallStage::Admin, json, lang }
    }

    /// The step that the current stage waits on.
    pub fn asked(&self) -> (r: UninstallStep)
        ensures
            r@ == uninstall_asked(self.stage),
    {
        match self.stage {
            UninstallStage::Admin => UninstallStep::CheckAdmin,
            UninstallStage::Resolve => UninstallStep::ResolveDevice,
            UninstallStage::Endpoint => UninstallStep::FindEndpoint,
            UninstallStage::Stale => UninstallStep::ListStale,
            UninstallStage::Baseline => UninstallStep::CheckBaseline,
            UninstallStage::Stop => UninstallStep::StopService,
            UninstallStage::Remove => UninstallStep::RemoveEndpoint,
            UninstallStage::Recount => UninstallStep::Recount,
            UninstallStage::Finished => UninstallStep::Nothing,
        }
    }

    /// Takes the outcome of the last step and says what to do next.
    pub fn step(&mut self, event: UninstallEvent) -> (r: UninstallAction)
        ensures
            final(self).json == old(self).json,
            final(self).lang == old(self).lang,
            (final(self).stage, string_views(r.print@), r.step@) == uninstall_next(*old(self), event),
    {
        let lang = self.lang;
        let empty: Vec<String> = Vec::new();
        assert(string_views(empty@) =~= Seq::<Seq<char>>::empty());
        match (self.stage, event) {
            (UninstallStage::Admin, UninstallEvent::Admin(r)) => match r {
                Ok(()) => {
                    self.stage = UninstallStage::Resolve;
                    UninstallAction { print: empty, step: UninstallStep::ResolveDevice }
                },
                Err(m) => {
                    self.stage = UninstallStage::Finished;
                    UninstallAction { print: empty, step: fail_step(false, m) }
                },
            },
            (UninstallStage::Resolve, UninstallEvent::Resolved(r)) => match r {
                Ok(()) => {
                    self.stage = UninstallStage::Endpoint;
                    UninstallAction { print: empty, step: UninstallStep::FindEndpoint }
                },
                Err(m) => {
                    self.stage = UninstallStage::Finished;
                    UninstallAction { print: empty, step: fail_step(false, m) }
                },
            },
            (UninstallStage::Endpoint, UninstallEvent::EndpointFound(found)) => if found {
                self.stage = UninstallStage::Baseline;
                UninstallAction { print: empty, step: UninstallStep::CheckBaseline }
            } else {
                self.stage = UninstallStage::Stale;
                UninstallAction { print: empty, step: UninstallStep::ListStale }
            },
            (UninstallStage::Stale, UninstallEvent::StaleListed(r)) => match r {
                Ok(stale) => if stale {
                    self.stage = UninstallStage::Finished;
                    UninstallAction { print: empty, step: UninstallStep::StaleCleanup }
                } else {
                    self.stage = UninstallStage::Baseline;
                    UninstallAction { print: empty, step: UninstallStep::CheckBaseline }
                },
                Err(m) => {
                    self.stage = UninstallStage::Finished;
                    UninstallAction { print: empty, step: fail_step(false, m) }
                },
            },
            (UninstallStage::Baseline, UninstallEvent::BaselineFound(found)) => if found {
                self.stage = UninstallStage::Stop;
                let print = if self.json {
                    empty
                } else {
                    one_line(stopping_line(lang))
                };
                UninstallAction { print, step: UninstallStep::StopService }
            } else {
                self.stage = UninstallStage::Finished;
                UninstallAction { print: empty, step: fail_step(false, no_baseline_message(lang)) }
            },
            (UninstallStage::Stop, UninstallEvent::Stopped { exited, millis }) => {
                self.stage = UninstallStage::Remove;
                let print = if self.json {
                    empty
                } else {
                    one_line(audiodg_wait_line(exited, millis, lang))
                };
                UninstallAction { print, step: UninstallStep::RemoveEndpoint }
            },
            (UninstallStage::Remove, UninstallEvent::Removed(r)) => match r {
                Ok(()) => {
                    self.stage = UninstallStage::Recount;
                    UninstallAction { print: empty, step: UninstallStep::Recount }
                },
                Err(m) => {
                    self.stage = UninstallStage::Finished;
                    UninstallAction { print: empty, step: fail_step(true, uninstall_failed_message(m.as_str(), lang)) }
                },
            },
            (UninstallStage::Recount, UninstallEvent::Recounted(r)) => match r {
                Ok(n) => {
                    self.stage = UninstallStage::Finished;
                    if n == 0 {
                        UninstallAction { print: empty, step: UninstallStep::Finish { ensure_running: false, result: Ok(()) } }
                    } else {
                        UninstallAction { print: empty, step: fail_step(true, residual_message(n, lang)) }
                    }
                },
                Err(m) => {
                    self.stage = UninstallStage::Finished;
                    UninstallAction { print: empty, step: fail_step(false, reenumerate_failed_message(m.as_str(), lang)) }
                },
            },
            _ => UninstallAction { print: empty, step: self.asked() },
        }
    }
}

// ---------------------------------------------------------------------------
// install
// ---------------------------------------------------------------------------

/// Where an install stands: the outcome it waits for, with the mode once it is known.
#[derive(Clone, Copy, PartialEq, Eq, Structural, Debug)]
pub enum InstallStage {
    /// Whether the process runs elevated.
    Admin,
    /// The device named on the command line.
    Resolve,
    /// The mode detected for the device (no `--mode` was given).
    Detect,
    /// The baseline snapshot taken.
    Snapshot(InstallMode),
    /// The driver's COM registration refreshed.
    Register(InstallMode),
    /// A device configuration made sure of, before verifying.
    Config(InstallMode),
    /// The verified install's result (trying modes from this one).
    Verify(InstallMode),
    /// The install written to the endpoint.
    Install(InstallMode),
    /// The audio service restarted.
    Restart,
    /// A device configuration made sure of, after installing.
    FinalConfig,
    /// Nothing is left to do.
    Finished,
}

/// The next thing the caller does.
pub enum InstallStep {
    CheckAdmin,
    ResolveDevice,
    /// Ask the driver which mode suits the device.
    DetectMode,
    /// Save the device's registry state as its baseline, replacing an older one.
    TakeSnapshot,
    RegisterDriver,
    /// Import the default configuration if the device has none.
    EnsureConfig,
    /// Install with verification, trying modes from this one.
    RunVerify { mode: InstallMode },
    /// Install in this mode without verification.
    InstallEndpoint { mode: InstallMode },
    /// Restart the audio service (best effort).
    RestartService,
    /// End the command with this result.
    Finish { result: Result<(), String> },
    /// The install is over.
    Nothing,
}

pub enum InstallStepView {
    CheckAdmin,
    ResolveDevice,
    DetectMode,
    TakeSnapshot,
    RegisterDriver,
    EnsureConfig,
    RunVerify { mode: InstallMode },
    InstallEndpoint { mode: InstallMode },
    RestartService,
    Finish { result: Result<(), Seq<char>> },
    Nothing,
}

impl InstallStep {
    pub open spec fn view(&self) -> InstallStepView {
        match self {
            InstallStep::CheckAdmin => InstallStepView::CheckAdmin,
            InstallStep::ResolveDevice => InstallStepView::ResolveDevice,
            InstallStep::DetectMode => InstallStepView::DetectMode,
            InstallStep::TakeSnapshot => InstallStepView::TakeSnapshot,
            InstallStep::RegisterDriver => InstallStepView::RegisterDriver,
            InstallStep::EnsureConfig => InstallStepView::EnsureConfig,
            InstallStep::RunVerify { mode } => InstallStepView::RunVerify { mode: *mode },
            InstallStep::InstallEndpoint { mode } => InstallStepView::InstallEndpoint { mode: *mode },
            InstallStep::RestartService => InstallStepView::RestartService,
            InstallStep::Finish { result } => InstallStepView::Finish {
                result: match result {
                    Ok(()) => Ok(()),
                    Err(e) => Err(e@),
                },
            },
            InstallStep::Nothing => InstallStepView::Nothing,
        }
    }
}

/// The outcome of the step last asked for.
pub enum InstallEvent {
    /// The elevation check (its error text).
    Admin(Result<(), String>),
    /// The device's GUID, or the lookup's error text.
    Resolved(Result<String, String>),
    Detected(InstallMode),
    /// Taking the snapshot (its error text).
    Snapshotted(Result<(), String>),
    /// Refreshing the registration (its error text).
    Registered(Result<(), String>),
    ConfigEnsured,
    /// The verified install's result.
    Verified(Result<(), String>),
    /// Installing (the error's text).
    Installed(Result<(), String>),
    Restarted,
}

/// Progress phases to report, lines to print, then the step to perform.
pub struct InstallAction {
    pub print: Vec<String>,
    pub phases: Vec<String>,
    pub step: InstallStep,
}

/// An install in progress: its stage, the device's GUID once resolved, and the command's
/// options (`--mode`, `--verify`, whether child APOs are kept, JSON output, language).
pub struct InstallFlow {
    pub stage: InstallStage,
    pub guid: String,
    pub mode_arg: Option<String>,
    pub verify: bool,
    pub keep_child: bool,
    pub json: bool,
    pub lang: Lang,
}

/// The step that a stage waits on.
pub open spec fn install_asked(stage: InstallStage) -> InstallStepView {
    match stage {
        InstallStage::Admin => InstallStepView::CheckAdmin,
        InstallStage::Resolve => InstallStepView::ResolveDevice,
        InstallStage::Detect => InstallStepView::DetectMode,
        InstallStage::Snapshot(_) => InstallStepView::TakeSnapshot,
        InstallStage::Register(_) => InstallStepView::RegisterDriver,
        InstallStage::Config(_) => InstallStepView::EnsureConfig,
        InstallStage::Verify(m) => InstallStepView::RunVerify { mode: m },
        InstallStage::Install(m) => InstallStepView::InstallEndpoint { mode: m },
        InstallStage::Restart => InstallStepView::RestartService,
        InstallStage::FinalConfig => InstallStepView::EnsureConfig,
        InstallStage::Finished => InstallStepView::Nothing,
    }
}

pub open spec fn install_finish(result: Result<(), Seq<char>>) -> InstallStepView {
    InstallStepView::Finish { result }
}

/// What an install does on an outcome: its next stage and GUID, the lines to print, the
/// phases to report and the next step.  An outcome that does not answer the stage's step
/// changes nothing, and the step is asked again.
pub open spec fn install_next(f: InstallFlow, e: InstallEvent) -> (
    InstallStage,
    Seq<char>,
    Seq<Seq<char>>,
    Seq<Seq<char>>,
    InstallStepView,
) {
    let lang = f.lang;
    let g = f.guid@;
    let done = InstallStage::Finished;
    match (f.stage, e) {
        (InstallStage::Admin, InstallEvent::Admin(r)) => match r {
            Ok(()) => (InstallStage::Resolve, g, seq![], seq!["admin"@, "resolve"@], InstallStepView::ResolveDevice),
            Err(m) => (done, g, seq![], seq![], install_finish(Err(m@))),
        },
        (InstallStage::Resolve, InstallEvent::Resolved(r)) => match r {
            Ok(id) => match f.mode_arg {
                Some(a) => match mode_spec(a@, lang) {
                    Ok(m) => (InstallStage::Snapshot(m), id@, seq![], seq!["snapshot"@], InstallStepView::TakeSnapshot),
                    Err(msg) => (done, id@, seq![], seq![], install_finish(Err(msg))),
                },
                None => (InstallStage::Detect, id@, seq![], seq![], InstallStepView::DetectMode),
            },
            Err(m) => (done, g, seq![], seq![], install_finish(Err(m@))),
        },
        (InstallStage::Detect, InstallEvent::Detected(m)) => (
            InstallStage::Snapshot(m),
            g,
            if f.json {
                seq![]
            } else {
                seq![tr(lang, "▶ 自动探测安装模式："@ + mode_debug(m), "▶ Auto-detected install mode: "@ + mode_debug(m))]
            },
            seq!["snapshot"@],
            InstallStepView::TakeSnapshot,
        ),
        (InstallStage::Snapshot(m), InstallEvent::Snapshotted(r)) => (
            InstallStage::Register(m),
            g,
            match r {
                Err(x) => if f.json {
                    seq![]
                } else {
                    seq![tr(lang, "⚠ 快照建立失败（继续安装）："@ + x@, "⚠ Snapshot creation failed (continuing): "@ + x@)]
                },
                Ok(()) => seq![],
            },
            seq!["register"@],
            InstallStepView::RegisterDriver,
        ),
        (InstallStage::Register(m), InstallEvent::Registered(r)) => match r {
            Ok(()) => if f.verify {
                (InstallStage::Config(m), g, seq![], seq!["config"@], InstallStepView::EnsureConfig)
            } else {
                (InstallStage::Install(m), g, seq![], seq![], InstallStepView::InstallEndpoint { mode: m })
            },
            Err(x) => (done, g, seq![], seq![], install_finish(Err(x@))),
        },
        (InstallStage::Config(m), InstallEvent::ConfigEnsured) => (
            InstallStage::Verify(m),
            g,
            seq![],
            seq!["verify"@],
            InstallStepView::RunVerify { mode: m },
        ),
        (InstallStage::Verify(_), InstallEvent::Verified(r)) => (
            done,
            g,
            seq![],
            seq![],
            install_finish(
                match r {
                    Ok(()) => Ok(()),
                    Err(x) => Err(x@),
                },
            ),
        ),
        (InstallStage::Install(m), InstallEvent::Installed(r)) => match r {
            Ok(()) => (
                InstallStage::Restart,
                g,
                if f.json {
                    seq![
                        "{\"ok\":true,\"device\":\""@ + json_escaped(g) + "\",\"message\":\"已安装\",\"mode\":\""@
                            + mode_debug(m) + "\"}"@,
                    ]
                } else {
                    seq![
                        tr(
                            lang,
                            "✓ 已安装 "@ + g + "（模式 "@ + mode_debug(m) + "，子 APO 保留="@ + bool_text(f.keep_child)
                                + "）"@,
                            "✓ Installed "@ + g + " (mode "@ + mode_debug(m) + ", child APO keep="@ + bool_text(
                                f.keep_child,
                            ) + ")"@,
                        ),
                        tr(lang, "  正在重启音频服务以应用变更…"@, "  Restarting audio service to apply changes..."@),
                    ]
                },
                seq![],
                InstallStepView::RestartService,
            ),
            Err(x) => (
                done,
                g,
                seq![],
                seq![],
                install_finish(
                    Err(
                        tr(
                            lang,
                            "install_endpoint 失败："@ + x@ + "（可用 vxapo-cli snapshot diff -d "@ + g + " 查看变更）"@,
                            "install_endpoint failed: "@ + x@ + " (use vxapo-cli snapshot diff -d "@ + g
                                + " to view changes)"@,
                        ),
                    ),
                ),
            ),
        },
        (InstallStage::Restart, InstallEvent::Restarted) => (
            InstallStage::FinalConfig,
            g,
            seq![],
            seq![],
            InstallStepView::EnsureConfig,
        ),
        (InstallStage::FinalConfig, InstallEvent::ConfigEnsured) => (done, g, seq![], seq![], install_finish(Ok(()))),
        _ => (f.stage, g, seq![], seq![], install_asked(f.stage)),
    }
}

/// How far an install has come (the verifying and the plain branch side by side).
pub open spec fn install_rank(s: InstallStage) -> int {
    match s {
        InstallStage::Admin => 0,
        InstallStage::Resolve => 1,
        InstallStage::Detect => 2,
        InstallStage::Snapshot(_) => 3,
        InstallStage::Register(_) => 4,
        InstallStage::Config(_) => 5,
        InstallStage::Verify(_) => 6,
        InstallStage::Install(_) => 5,
        InstallStage::Restart => 6,
        InstallStage::FinalConfig => 7,
        InstallStage::Finished => 8,
    }
}

/// An install only moves forward and asks nothing once finished.  Until the elevation
/// check passes nothing else is asked, and a failed check ends it with that error.  No
/// step that changes the system (registering, writing the install, verifying, restarting
/// the service, importing a configuration) is asked before the snapshot was taken, and the
/// mode installed or verified is the one fixed before the snapshot.
pub proof fn law_install_order(f: InstallFlow, e: InstallEvent)
    ensures
        install_rank(install_next(f, e).0) >= install_rank(f.stage),
        f.stage == InstallStage::Finished ==> install_next(f, e) == (
            InstallStage::Finished,
            f.guid@,
            Seq::<Seq<char>>::empty(),
            Seq::<Seq<char>>::empty(),
            InstallStepView::Nothing,
        ),
        f.stage == InstallStage::Admin ==> match e {
            InstallEvent::Admin(Ok(())) => install_next(f, e).0 == InstallStage::Resolve,
            InstallEvent::Admin(Err(m)) => install_next(f, e).0 == InstallStage::Finished
                && install_next(f, e).4 == install_finish(Err(m@)),
            _ => install_next(f, e).0 == InstallStage::Admin && install_next(f, e).4
                == InstallStepView::CheckAdmin,
        },
        install_next(f, e).4 == InstallStepView::RegisterDriver ==> (f.stage matches InstallStage::Snapshot(_))
            || (f.stage matches InstallStage::Register(_)),
        install_next(f, e).4 == InstallStepView::EnsureConfig || install_next(f, e).4
            == InstallStepView::RestartService ==> install_rank(f.stage) >= install_rank(InstallStage::Register(InstallMode::LfxGfx)),
        (install_next(f, e).4 matches InstallStepView::InstallEndpoint { mode: m } ==> f.stage
            == InstallStage::Register(m) || f.stage == InstallStage::Install(m)),
        (install_next(f, e).4 matches InstallStepView::RunVerify { mode: m } ==> f.stage
            == InstallStage::Config(m) || f.stage == InstallStage::Verify(m)),
{
}

/// The mode given with `--mode` is the one installed: once the device is found, a valid
/// mode goes on to the snapshot with that mode, and an invalid one ends the install with
/// its error.
pub proof fn law_install_given_mode(f: InstallFlow, id: String)
    requires
        f.stage == InstallStage::Resolve,
        (f.mode_arg is Some),
    ensures
        match mode_spec(f.mode_arg->Some_0@, f.lang) {
            Ok(m) => install_next(f, InstallEvent::Resolved(Ok(id))).0 == InstallStage::Snapshot(m),
            Err(msg) => install_next(f, InstallEvent::Resolved(Ok(id))).0 == InstallStage::Finished
                && install_next(f, InstallEvent::Resolved(Ok(id))).4 == install_finish(Err(msg)),
        },
{
}

fn text(s: &str) -> (r: String)
    ensures
        r@ == s@,
{
    let cs = chars_of(s);
    string_of(&cs)
}

fn two_lines(a: String, b: String) -> (r: Vec<String>)
    ensures
        string_views(r@) == seq![a@, b@],
{
    let mut out: Vec<String> = Vec::new();
    out.push(a);
    out.push(b);
    assert(string_views(out@) =~= seq![a@, b@]);
    out
}

fn install_action(print: Vec<String>, phases: Vec<String>, step: InstallStep) -> (r: InstallAction)
    ensures
        r.print@ == print@,
        r.phases@ == phases@,
        r.step@ == step@,
{
    InstallAction { print, phases, step }
}

fn install_fail(m: String) -> (r: InstallStep)
    ensures
        r@ == install_finish(Err(m@)),
{
    InstallStep::Finish { result: Err(m) }
}

impl InstallFlow {
    /// An install that has not begun, with the command's options.
    pub fn new(mode_arg: Option<String>, verify: bool, keep_child: bool, json: bool, lang: Lang) -> (r: Self)
        ensures
            r.stage == InstallStage::Admin,
            r.guid@ == Seq::<char>::empty(),
            r.mode_arg == mode_arg,
            r.verify == verify,
            r.keep_child == keep_child,
            r.json == json,
            r.lang == lang,
    {
        InstallFlow { stage: InstallStage::Admin, guid: String::new(), mode_arg, verify, keep_child, json, lang }
    }

    /// The step that the current stage waits on.
    pub fn asked(&self) -> (r: InstallStep)
        ensures
            r@ == install_asked(self.stage),
    {
        match self.stage {
            InstallStage::Admin => InstallStep::CheckAdmin,
            InstallStage::Resolve => InstallStep::ResolveDevice,
            InstallStage::Detect => InstallStep::DetectMode,
            InstallStage::Snapshot(_) => InstallStep::TakeSnapshot,
            InstallStage::Register(_) => InstallStep::RegisterDriver,
            InstallStage::Config(_) => InstallStep::EnsureConfig,
            InstallStage::Verify(m) => InstallStep::RunVerify { mode: m },
            InstallStage::Install(m) => InstallStep::InstallEndpoint { mode: m },
            InstallStage::Restart => InstallStep::RestartService,
            InstallStage::FinalConfig => InstallStep::EnsureConfig,
            InstallStage::Finished => InstallStep::Nothing,
        }
    }

    /// Takes the outcome of the last step and says what to do next.
    pub fn step(&mut self, event: InstallEvent) -> (r: InstallAction)
        ensures
            final(self).mode_arg == old(self).mode_arg,
            final(self).verify == old(self).verify,
            final(self).keep_child == old(self).keep_child,
            final(self).json == old(self).json,
            final(self).lang == old(self).lang,
            (final(self).stage, final(self).guid@, string_views(r.print@), string_views(r.phases@), r.step@)
                == install_next(*old(self), event),
    {
        let lang = self.lang;
        let empty: Vec<String> = Vec::new();
        assert(string_views(empty@) =~= Seq::<Seq<char>>::empty());
        let none: Vec<String> = Vec::new();
        assert(string_views(none@) =~= Seq::<Seq<char>>::empty());
        match (self.stage, event) {
            (InstallStage::Admin, InstallEvent::Admin(r)) => match r {
                Ok(()) => {
                    self.stage = InstallStage::Resolve;
                    install_action(empty, two_lines(text("admin"), text("resolve")), InstallStep::ResolveDevice)
                },
                Err(m) => {
                    self.stage = InstallStage::Finished;
                    install_action(empty, none, install_fail(m))
                },
            },
            (InstallStage::Resolve, InstallEvent::Resolved(r)) => match r {
                Ok(id) => {
                    self.guid = id;
                    match &self.mode_arg {
                        Some(a) => match parse_mode(a.as_str(), lang) {
                            Ok(m) => {
                                self.stage = InstallStage::Snapshot(m);
                                install_action(empty, one_line(text("snapshot")), InstallStep::TakeSnapshot)
                            },
                            Err(msg) => {
                                self.stage = InstallStage::Finished;
                                install_action(empty, none, install_fail(msg))
                            },
                        },
                        None => {
                            self.stage = InstallStage::Detect;
                            install_action(empty, none, InstallStep::DetectMode)
                        },
                    }
                },
                Err(m) => {
                    self.stage = InstallStage::Finished;
                    install_action(empty, none, install_fail(m))
                },
            },
            (InstallStage::Detect, InstallEvent::Detected(m)) => {
                self.stage = InstallStage::Snapshot(m);
                let print = if self.json {
                    empty
                } else {
                    one_line(auto_mode_line(m, lang))
                };
                install_action(print, one_line(text("snapshot")), InstallStep::TakeSnapshot)
            },
            (InstallStage::Snapshot(m), InstallEvent::Snapshotted(r)) => {
                self.stage = InstallStage::Register(m);
                let print = match r {
                    Err(x) => if self.json {
                        empty
                    } else {
                        one_line(snapshot_failed_line(x.as_str(), lang))
                    },
                    Ok(()) => empty,
                };
                install_action(print, one_line(text("register")), InstallStep::RegisterDriver)
            },
            (InstallStage::Register(m), InstallEvent::Registered(r)) => match r {
                Ok(()) => if self.verify {
                    self.stage = InstallStage::Config(m);
                    install_action(empty, one_line(text("config")), InstallStep::EnsureConfig)
                } else {
                    self.stage = InstallStage::Install(m);
                    install_action(empty, none, InstallStep::InstallEndpoint { mode: m })
                },
                Err(x) => {
                    self.stage = InstallStage::Finished;
                    install_action(empty, none, install_fail(x))
                },
            },
            (InstallStage::Config(m), InstallEvent::ConfigEnsured) => {
                self.stage = InstallStage::Verify(m);
                install_action(empty, one_line(text("verify")), InstallStep::RunVerify { mode: m })
            },
            (InstallStage::Verify(_), InstallEvent::Verified(r)) => {
                self.stage = InstallStage::Finished;
                install_action(empty, none, InstallStep::Finish { result: r })
            },
            (InstallStage::Install(m), InstallEvent::Installed(r)) => match r {
                Ok(()) => {
                    self.stage = InstallStage::Restart;
                    let print = if self.json {
                        one_line(install_receipt(self.guid.as_str(), m))
                    } else {
                        two_lines(installed_line(self.guid.as_str(), m, self.keep_child, lang), restarting_line(lang))
                    };
                    install_action(print, none, InstallStep::RestartService)
                },
                Err(x) => {
                    self.stage = InstallStage::Finished;
                    let msg = install_failed_message(x.as_str(), self.guid.as_str(), lang);
                    install_action(empty, none, install_fail(msg))
                },
            },
            (InstallStage::Restart, InstallEvent::Restarted) => {
                self.stage = InstallStage::FinalConfig;
                install_action(empty, none, InstallStep::EnsureConfig)
            },
            (InstallStage::FinalConfig, InstallEvent::ConfigEnsured) => {
                self.stage = InstallStage::Finished;
                install_action(empty, none, InstallStep::Finish { result: Ok(()) })
            },
            _ => {
                let step = self.asked();
                install_action(empty, none, step)
            },
        }
    }
}

} // verus!
