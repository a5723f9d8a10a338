//! The rows of the store and the values derived from them.

pub mod access_control_list;
pub mod announcements;
pub mod contests;
pub mod group_links;
pub mod groups;
pub mod languages;
pub mod problem_tags;
pub mod problems;
pub mod ranks;
pub mod region_links;
pub mod regions;
pub mod statistics;
pub mod submissions;
pub mod users;
pub mod utils;
