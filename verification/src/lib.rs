//! Verified core of a Siemens S7 data-block monitor: the variable model,
//! the big-endian decoder of raw DB bytes, the polling decisions and the
//! text shown for each value.

pub mod config;
pub mod display;
pub mod draft;
pub mod export;
pub mod model;
pub mod plc;
pub mod state;
pub mod text;
