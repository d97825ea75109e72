//! Userland logic of the Bouclier Bleu endpoint defence.

pub mod actor;
pub mod catalog;
pub mod config;
pub mod encoding;
pub mod engine;
pub mod fields;
pub mod fs_utils;
pub mod hardware_key;
pub mod heuristics;
pub mod ipc;
pub mod json;
pub mod log_safety;
pub mod module;
pub mod notices;
pub mod pipeline;
pub mod reader;
pub mod secure_dir;
pub mod siem;
pub mod skeleton;
pub mod startup;
pub mod text;
pub mod watchlist;
pub mod xtask;
