//! The commands of cryptpilot, each with the options it was given.
use vstd::prelude::*;

use crate::cli::{BootServiceOptions, CloseOptions, InitOptions, OpenOptions};
use crate::source::CLOUD_INIT_CONFIG_BUNDLE_HEADER;
use crate::text::concat_str;

verus! {

/// Closes a volume.
#[derive(Debug)]
pub struct CloseCommand {
    pub close_options: CloseOptions,
}

/// Opens a volume.
#[derive(Debug)]
pub struct OpenCommand {
    pub open_options: OpenOptions,
}

/// Initializes a volume.
#[derive(Debug)]
pub struct InitCommand {
    pub init_options: InitOptions,
}

/// Runs one stage of the boot service.
#[derive(Debug)]
pub struct BootServiceCommand {
    pub boot_service_options: BootServiceOptions,
}

/// Prints the configuration in force as a bundle that can be put in the user
/// data of an instance.
#[derive(Debug)]
pub struct DumpConfigCommand {}

/// Prints the full disk encryption configuration of a disk (the current
/// system's where `disk` is `None`).
#[derive(Debug)]
pub struct ConfigDumpCommand {
    pub disk: Option<String>,
}

impl DumpConfigCommand {
    /// The text printed for a configuration serialized as TOML: the bundle
    /// header, an empty line, then the TOML.
    pub fn output(&self, config_toml: &str) -> (r: String)
        ensures
            r@ == CLOUD_INIT_CONFIG_BUNDLE_HEADER@ + "\n\n"@ + config_toml@,
    {
        let a = concat_str(CLOUD_INIT_CONFIG_BUNDLE_HEADER, "\n\n");
        concat_str(a.as_str(), config_toml)
    }
}

} // verus!
