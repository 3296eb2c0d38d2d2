//! Where cryptpilot's configuration comes from: the user data of a cloud
//! instance, or the state saved in the initrd.
use vstd::prelude::*;

use crate::block::path_exists;
use crate::text::{chars_of, concat_str, starts_with, starts_with_exec, trim, trim_chars};

verus! {

/// The first line of user data that carries a configuration bundle.
pub const CLOUD_INIT_CONFIG_BUNDLE_HEADER: &'static str = "#cryptpilot-config";

/// The endpoint of the instance metadata service that hands out a token.
pub const IMDS_TOKEN_URL: &'static str = "http://100.100.100.200/latest/api/token";

/// The endpoint of the instance metadata service that serves the user data.
pub const IMDS_USER_DATA_URL: &'static str = "http://100.100.100.200/latest/user-data";

/// Why the user data of the instance holds no configuration bundle.
#[derive(Debug, PartialEq, Eq, Structural)]
pub enum UserDataError {
    /// The user data is empty or all white space.
    Empty,
    /// The user data does not begin with the bundle header.
    MissingHeader,
}

/// Whether user data may hold a configuration bundle: it is not blank, and it
/// begins with the header.
pub open spec fn spec_check_user_data(user_data: Seq<char>) -> Result<(), UserDataError> {
    if trim(user_data).len() == 0 {
        Err(UserDataError::Empty)
    } else if !starts_with(user_data, CLOUD_INIT_CONFIG_BUNDLE_HEADER@) {
        Err(UserDataError::MissingHeader)
    } else {
        Ok(())
    }
}

/// Loads the configuration bundle from the user data of an Aliyun ECS instance,
/// served by its instance metadata service.
#[derive(Debug)]
pub struct CloudInitConfigSource {}

impl CloudInitConfigSource {
    /// The source.
    pub fn new() -> (r: Self) {
        CloudInitConfigSource {  }
    }

    /// A description of the source for logs.
    pub fn source_debug_string(&self) -> (r: String)
        ensures
            r@ == "aliyun cloud-init user data"@,
    {
        "aliyun cloud-init user data".to_owned()
    }

    /// Whether the user data may hold a configuration bundle, checked before
    /// it is parsed.
    pub fn check_user_data(user_data: &str) -> (r: Result<(), UserDataError>)
        ensures
            r == spec_check_user_data(user_data@),
    {
        let u = chars_of(user_data);
        let t = trim_chars(&u);
        if t.len() == 0 {
            return Err(UserDataError::Empty);
        }
        let h = chars_of(CLOUD_INIT_CONFIG_BUNDLE_HEADER);
        if !starts_with_exec(&u, &h) {
            return Err(UserDataError::MissingHeader);
        }
        Ok(())
    }
}

/// Where the initrd saves the configuration it loaded, for the system to use.
pub const CRYPTPILOT_INITRD_STATE_PATH: &'static str = "/var/run/cryptpilot/initrd_state.toml";

/// Loads the configuration that the initrd saved.
#[derive(Debug)]
pub struct InitrdStateConfigSource {}

impl InitrdStateConfigSource {
    /// The source.
    pub fn new() -> (r: Self) {
        InitrdStateConfigSource {  }
    }

    /// Whether the initrd saved its state (the disk at the time of the call
    /// decides).
    pub fn exist() -> bool {
        path_exists(CRYPTPILOT_INITRD_STATE_PATH)
    }

    /// A description of the source for logs.
    pub fn source_debug_string(&self) -> (r: String)
        ensures
            r@ == "initrd state: "@ + CRYPTPILOT_INITRD_STATE_PATH@,
    {
        concat_str("initrd state: ", CRYPTPILOT_INITRD_STATE_PATH)
    }
}

} // verus!
