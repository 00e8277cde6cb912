//! The `--json` output contract shared with the App: plain data types.
//!
//! The JSON encoding of these types (field names, omitted empty options, the `event`
//! tag) is produced by serde on mirror types of the application layer.
use vstd::prelude::*;
use crate::text::{chars_of, string_of};

verus! {

/// Kind of an audio device: where its stream flows.
#[derive(Clone, Copy, PartialEq, Eq, Structural, Debug)]
pub enum DeviceKind {
    Playback,
    Capture,
}

/// The five APO slots of a device (`None` = empty slot).
pub struct DeviceSlots {
    pub lfx: Option<String>,
    pub gfx: Option<String>,
    pub sfx: Option<String>,
    pub mfx: Option<String>,
    pub efx: Option<String>,
}

impl DeviceSlots {
    /// Takes the slots in the order `[LFX, GFX, SFX, MFX, EFX]`.
    pub fn from_slice(slots: [Option<String>; 5]) -> (r: Self)
        ensures
            r.lfx == slots@[0],
            r.gfx == slots@[1],
            r.sfx == slots@[2],
            r.mfx == slots@[3],
            r.efx == slots@[4],
    {
        let mut s = slots;
        let lfx = s[0].take();
        let gfx = s[1].take();
        let sfx = s[2].take();
        let mfx = s[3].take();
        let efx = s[4].take();
        DeviceSlots { lfx, gfx, sfx, mfx, efx }
    }
}

fn owned(s: &str) -> (r: String)
    ensures
        r@ == s@,
{
    let cs = chars_of(s);
    string_of(&cs)
}

/// Success receipt of a command (`install`, `uninstall`, `stale cleanup`, `stale fix-acl`).
pub struct CliOk {
    /// Always `true`.
    pub ok: bool,
    pub device: String,
    /// The user-facing conclusion, in the caller's language.
    pub message: String,
    /// The install mode (only `install` receipts carry it).
    pub mode: Option<String>,
}

impl CliOk {
    pub fn new(device: &str, message: &str) -> (r: Self)
        ensures
            r.ok,
            r.device@ == device@,
            r.message@ == message@,
            r.mode is None,
    {
        CliOk { ok: true, device: owned(device), message: owned(message), mode: None }
    }

    /// The same receipt carrying an install mode.
    pub fn with_mode(self, mode: &str) -> (r: Self)
        ensures
            r.ok == self.ok,
            r.device == self.device,
            r.message == self.message,
            r.mode is Some && r.mode->0@ == mode@,
    {
        let mut s = self;
        s.mode = Some(owned(mode));
        s
    }
}

/// Failure receipt (`--json` error output; the process exits with 1).
pub struct CliError {
    /// Always `false`.
    pub ok: bool,
    pub error: String,
}

impl CliError {
    pub fn new(error: &str) -> (r: Self)
        ensures
            !r.ok,
            r.error@ == error@,
    {
        CliError { ok: false, error: owned(error) }
    }
}

/// Audio service action reported by a `service` event.
#[derive(Clone, Copy, PartialEq, Eq, Structural, Debug)]
pub enum ServiceAction {
    Stopping,
    Stopped,
    Starting,
    Running,
}

/// Install progress events (one JSON line each, tagged by `event`).
#[allow(inconsistent_fields)]
pub enum InstallProgressEvent {
    /// A phase begins.
    Phase { name: String },
    /// The install configuration is written to the registry.
    InstallWrite { mode: String },
    /// An audio service action.
    Service { action: ServiceAction },
    /// A load test (`pipe` only on the pipe test event).
    Test { mode: String, pipe: Option<String> },
    /// Falling back to another install mode.
    Retry { from: String, to: String, reason: Option<String> },
    /// The install ended: success carries `mode`/`score`, failure `best_mode`/`best_score`.
    Complete {
        success: bool,
        mode: Option<String>,
        score: Option<u32>,
        attempts: u32,
        best_mode: Option<String>,
        best_score: Option<u32>,
    },
}

/// How a stale GUID record was matched to a live endpoint.
#[derive(Clone, Copy, PartialEq, Eq, Structural, Debug)]
pub enum StaleMatchedBy {
    EndpointHistory,
    DeviceInstanceId,
    StoredIdentity,
    HardwareId,
}

/// State of a stale GUID record relative to the current endpoints.
#[derive(Clone, Copy, PartialEq, Eq, Structural, Debug)]
pub enum StaleTargetState {
    MatchedPartial,
    MatchedHealthy,
    Unmatched,
}

/// A stale GUID install record (`stale list --json` element).
pub struct StaleInstall {
    pub guid: String,
    pub device_instance_id: String,
    pub display_name: String,
    pub matched_by: Option<StaleMatchedBy>,
    pub config_path: Option<String>,
    pub config_mtime_ms: Option<u64>,
    pub snapshot_path: Option<String>,
    pub snapshot_mtime_ms: Option<u64>,
    pub premix_slot: Option<String>,
    pub postmix_slot: Option<String>,
    pub inferred_mode: String,
    pub has_child_backup: bool,
    pub has_sysfx_backup: bool,
    pub target_guid: Option<String>,
    pub target_name: Option<String>,
    pub target_state: StaleTargetState,
}

/// Report of migrating a stale GUID install (`stale migrate --json`).
pub struct MigrationReport {
    pub success: bool,
    pub target_guid: String,
    pub config_from: Option<String>,
    pub snapshot_from: Option<String>,
    pub config_migrated: bool,
    pub snapshot_migrated: bool,
    pub install_repaired: bool,
    pub removed_guids: Vec<String>,
    pub warnings: Vec<String>,
}

} // verus!
