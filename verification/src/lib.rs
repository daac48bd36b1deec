//! The verified core of `posternd`: the rules that the daemon's two planes run by.

pub mod assemble;
pub mod boot;
pub mod bootstrap;
pub mod config;
pub mod connpool;
pub mod control;
pub mod domain;
pub mod error;
pub mod identity;
pub mod kernel;
pub mod registry;
pub mod sanitize;
pub mod shells;
pub mod sweeper;
pub mod table;
pub mod text;
pub mod witness;
