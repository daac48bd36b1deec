//! What leaves the daemon is cleaned first.

pub mod scrubber;
