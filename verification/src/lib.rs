//! Verified core of a PAM fingerprint-configuration tool: a fenced-block
//! codec over policy-file text, an allowlist guard, patch-content
//! resolution, atomic-write bookkeeping, and the apply/remove/check
//! orchestration, together with the pure parts of the surrounding
//! desktop application.
pub mod allowlist;
pub mod codec;
pub mod config;
pub mod events;
pub mod orchestrator;
pub mod pam_config;
pub mod pam_helper;
pub mod resolver;
pub mod text;
pub mod util;
pub mod writer;
