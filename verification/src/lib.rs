//! Targets of a tool that rates the mirrors of Linux distributions. A target
//! knows where its distribution publishes the list of its mirrors, reads the
//! list into mirrors, and writes a list in the distribution's own syntax.
//!
//! Nothing here touches the network: a target names the transfer to make and
//! is handed what came back.

pub mod absolute_url;
pub mod config;
pub mod mirror;
pub mod target_configs;
pub mod targets;
pub mod text;
