//! modal-rust: the verified core of the Modal facade — naming, config folding,
//! source scoping, runner generation and the control-plane provisioning plan.

pub mod text;
pub mod env;
pub mod path;
pub mod order;
pub mod scope;
pub mod dump;
pub mod runner_gen;
pub mod config;
pub mod remote;
pub mod deploy;
pub mod error;
pub mod control_plane;
pub mod manifest;
pub mod upload;
