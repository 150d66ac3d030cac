//! Decision logic of a two-host GotaTun throughput benchmark.

pub mod address;
pub mod command;
pub mod config;
pub mod controller;
pub mod endpoint;
pub mod keys;
pub mod numeral;
pub mod readiness;
pub mod service;
pub mod session;
pub mod shell;
pub mod text;
