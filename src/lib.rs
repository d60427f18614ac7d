//! Turns a stream of script-asset lifecycle notifications into schedule
//! updates, keeping at most one live unit per asset, and runs those units
//! through a single exclusively owned Lua engine.

pub mod key_set;
pub mod notification;
pub mod store;
pub mod classify;
pub mod registry;
pub mod engine;
pub mod unit;
