//! A toolbox for Kubernetes-ecosystem command-line tools: a catalog of tool
//! definitions, version resolution against local installs and remote release
//! feeds, on-demand download and installation, and dispatch to the installed
//! binaries.

pub mod args;
pub mod definition;
pub mod download;
pub mod error;
pub mod extract;
pub mod fsutil;
pub mod platform;
pub mod template;
pub mod text;
pub mod tool;
pub mod toolbox;
pub mod transfer;
pub mod upstream;
pub mod version;
pub mod versionref;
