//! The defence heuristics: what each one reports and what it watches.

pub mod dump_restrict;
pub mod entropy;
pub mod exec_block;
pub mod io_restrict;
pub mod madvise_ratelimit;
pub mod mount_secure;
pub mod ptrace_block;
pub mod remediation;
pub mod rename_entropy;
pub mod shield;
pub mod strict_wx;
pub mod strikes;
pub mod userns_restrict;
