//! Decision logic for a suspend/sleep manager: masking and unmasking the
//! systemd power targets, maintaining a logind drop-in configuration file,
//! and reporting status.
//!
//! The library holds the verified decision logic only. It never runs a
//! command itself: each procedure is a small state machine that names the
//! next external command to run and consumes its outcome, so a driver
//! performs the commands and feeds the results back.

pub mod commands;
pub mod config;
pub mod disable;
pub mod enable;
pub mod status;
pub mod targets;
