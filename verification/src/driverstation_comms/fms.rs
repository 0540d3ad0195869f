//! The field state and its commands, under the name the rest of the field
//! software uses for them.
pub use super::fms_commands::{ControlModeCommand, FMSCommand, FMSReply, FMSStateSnapshot, FMS};
