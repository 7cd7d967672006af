//! Reading Terraform remote state for workspaces: configuration, resume
//! checkpoints, the Terraform Cloud fetch protocol and the extraction of
//! resource instances from a state file.

pub mod text;
pub mod json;
pub mod state;
pub mod config;
pub mod progress;
pub mod api;
pub mod run;
