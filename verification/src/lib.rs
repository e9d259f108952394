//! Decisions of a pull-based deployment daemon for NixOS flakes.

pub mod config;
pub mod credentials;
pub mod deploy;
pub mod distance;
pub mod flake;
pub mod git;
pub mod metrics;
pub mod nix_commands;
pub mod observability;
pub mod poll;
pub mod search;
pub mod sync;
pub mod systemd;
pub mod text;
pub mod webhooks;
