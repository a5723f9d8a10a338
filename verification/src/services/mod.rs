//! The rules of each service, on values already loaded.

pub mod contest;
pub mod group;
pub mod problem_tag;
pub mod rank;
pub mod region;
pub mod submission;
pub mod user;
