//! Verified core of a TPROXY transparent proxy for Linux.

pub mod constants;
pub mod enhance;
pub mod feat;
pub mod text;
pub mod yaml;
