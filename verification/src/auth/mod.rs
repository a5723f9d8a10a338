//! Who may do what.

pub mod region;
pub mod role;
