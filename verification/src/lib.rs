//! Verified core of the Volt package manager: configuration paths, the
//! `init` dialogue, node version resolution, registry responses and
//! tarball checks.

pub mod text;
pub mod semver;
pub mod paths;
pub mod errors;
pub mod config;
pub mod node;
pub mod init;
pub mod git;
pub mod registry;
pub mod tarball;
pub mod scripts;
pub mod logout;
