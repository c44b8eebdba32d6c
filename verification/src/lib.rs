//! Decision logic of a GitHub Actions runner scale set on Proxmox VE.
pub mod cloud_config;
pub mod conf;
pub mod links;
pub mod middleware;
pub mod provision;
pub mod reaper;
pub mod server;
pub mod text;
pub mod vm_metadata;
pub mod webhook;
