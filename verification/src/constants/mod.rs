//! Ports, marks, names and delays that the parts of the application agree on.

pub mod files;
pub mod network;
pub mod timing;
pub mod tproxy;
pub mod tun;
