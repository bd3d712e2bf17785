//! Units of the service manager, as it lists them.

use crate::cgroup::{cosmic_flatpak_name, scope_app_id};
use crate::text::view_opt;
use vstd::prelude::*;

verus! {

/// Load state of a unit.
#[derive(Debug, Clone, Copy, PartialEq, Eq, Structural)]
pub enum LoadState {
    Stub,
    Loaded,
    NotFound,
    BadSetting,
    Error,
    Merged,
    Masked,
}

/// Sub-state of a unit.
#[derive(Debug, Clone, Copy, PartialEq, Eq, Structural)]
pub enum SubState {
    Dead,
    Active,
    Waiting,
    Running,
    Failed,
    Cleaning,
    Tentative,
    Plugged,
    Mounting,
    MountingDone,
    Mounted,
    Remounting,
    Unmounting,
    RemountingSigterm,
    RemountingSigkill,
    UnmountingSigterm,
    UnmountingSigkill,
    Stop,
    StopWatchdog,
    StopSigterm,
    StopSigkill,
    StartChown,
    Abandoned,
    Condition,
    Start,
    StartPre,
    StartPost,
    StopPre,
    StopPreSigterm,
    StopPreSigkill,
    StopPost,
    Exited,
    Reload,
    ReloadSignal,
    ReloadNotify,
    FinalWatchdog,
    FinalSigterm,
    FinalSigkill,
    DeadBeforeAutoRestart,
    FailedBeforeAutoRestart,
    DeadResourcesPinned,
    AutoRestart,
    AutoRestartQueued,
    Listening,
    Activating,
    ActivatingDone,
    Deactivating,
    DeactivatingSigterm,
    DeactivatingSigkill,
    Elapsed,
}

/// Activated state of a unit.
#[derive(Debug, Clone, Copy, PartialEq, Eq, Structural)]
pub enum ActiveState {
    Active,
    Reloading,
    Inactive,
    Failed,
    Activating,
    Deactivating,
    Maintenance,
}

/// A unit as `ListUnits` of `org.freedesktop.systemd1.Manager` gives it.
#[derive(Debug)]
pub struct Unit {
    pub name: String,
    pub description: String,
    pub load_state: LoadState,
    pub active_state: ActiveState,
    pub sub_state: SubState,
    pub following: String,
    pub unit_object: String,
    pub job_id: u32,
    pub job_type: String,
    pub job_object: String,
}

impl Unit {
    /// Returns the application id if COSMIC or Flatpak launched this unit.
    pub fn cosmic_flatpak_name(&self) -> (r: Option<String>)
        ensures
            view_opt(r) == scope_app_id(self.name@),
    {
        cosmic_flatpak_name(self.name.as_str())
    }
}

} // verus!
