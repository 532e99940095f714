//! Changes made to the Mihomo configuration before the Core reads it.

pub mod tproxy;
