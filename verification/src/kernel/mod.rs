//! The data plane's kernel: from a normalized request to a response or a refusal.

pub mod audit_phase;
pub mod laws;
pub mod pipeline;
