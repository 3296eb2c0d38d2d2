//! Verified core of cryptpilot: configuration rules, GRUB boot entry parsing,
//! block trace decoding, LUKS2 command construction and boot reference values.
use vstd::prelude::*;

pub mod blktrace;
pub mod block;
pub mod cli;
pub mod cmd;
pub mod components;
pub mod config;
pub mod disk;
pub mod grub;
pub mod luks2;
pub mod measure;
pub mod metadata;
pub mod provider;
pub mod reference;
pub mod shell;
pub mod source;
pub mod supplier;
pub mod template;
pub mod text;

verus! {

} // verus!
