//! The command line of cryptpilot, as parsed values.
use vstd::prelude::*;

verus! {

/// The command line.
#[derive(Debug)]
pub struct Args {
    /// What to do.
    pub command: Command,
    /// The directory to load configuration files from (default `/etc/cryptpilot`).
    pub config_dir: Option<String>,
}

/// The subcommands.
#[derive(Debug)]
pub enum Command {
    /// Show status about volumes.
    Show(ShowOptions),
    /// Initialize a new volume.
    Init(InitOptions),
    /// Open an existing volume.
    Open(OpenOptions),
    /// Close an open volume.
    Close(CloseOptions),
    /// Run as a systemd service.
    SystemdService(SystemdServiceOptions),
}

/// Options of `show`.
#[derive(Debug)]
pub struct ShowOptions {}

/// Options of `init`.
#[derive(Debug)]
pub struct InitOptions {
    /// Name of the volume to initialize.
    pub volume: String,
    /// Force re-initialization of the volume.
    pub force_reinit: bool,
    /// Skip confirmation prompts.
    pub yes: bool,
}

/// Options of `open`.
#[derive(Debug)]
pub struct OpenOptions {
    /// Name of the volume to open.
    pub volume: String,
}

/// Options of `close`.
#[derive(Debug)]
pub struct CloseOptions {
    /// Name of the volume to close.
    pub volume: String,
}

/// Options of `systemd-service`.
#[derive(Debug)]
pub struct SystemdServiceOptions {}

/// The stages of the boot at which the boot service runs.
#[derive(Debug, Clone, Copy, PartialEq, Eq, Structural)]
pub enum BootStage {
    /// In the initrd, before the root file system is mounted.
    InitrdFdeBeforeSysroot,
    /// In the initrd, after the root file system is mounted.
    InitrdFdeAfterSysroot,
    /// In the booted system, to open the volumes that are opened automatically.
    SystemVolumesAutoOpen,
}

/// Options of the boot service.
#[derive(Debug)]
pub struct BootServiceOptions {
    /// The stage of the boot to run for.
    pub stage: BootStage,
}

} // verus!
