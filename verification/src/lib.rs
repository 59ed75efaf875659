//! A safe, verified core for writing OpenVPN plugins.
//!
//! An OpenVPN plugin is a shared library with three native entry points that
//! the OpenVPN process calls across the plugin's lifetime: one `open` call at
//! start-up, any number of event calls, and one `close` call at shutdown.
//! This crate holds the logic that sits between that untyped native contract
//! and strongly typed plugin callbacks:
//!
//! * [`parse`] turns the flat argument and `KEY=VALUE` environment arrays
//!   into owned byte strings and a key-value map;
//! * [`types`] models the event codes and the bitmask OpenVPN expects, and
//!   the result a plugin callback can return;
//! * [`bridge`] tracks ownership of the plugin's state handle across the
//!   open/event/close sequence;
//! * [`dispatch`] decides, for every entry point, which status integer is
//!   returned to OpenVPN and which diagnostic, if any, is reported;
//! * [`logging`] renders errors and caught panics as diagnostic text.
//!
//! The unsafe native boundary itself (walking raw pointer arrays, boxing the
//! handle, catching unwinds) cannot be verified and stays outside this crate;
//! everything here works on plain owned values and carries a contract.

pub mod bridge;
pub mod dispatch;
pub mod logging;
pub mod parse;
pub mod types;

pub use types::{EventResult, EventType};
