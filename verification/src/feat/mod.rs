//! What the application does for its user.

pub mod probe;
pub mod process;
pub mod startup;
pub mod tproxy;
