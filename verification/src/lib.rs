//! Verified core of a programming-judge backend: the contest clock, the
//! region access rules, registration, submission dispatch, decoding of the
//! judge worker's replies and the rank cache.
//!
//! Everything here works on plain values. Loading rows, serving requests and
//! talking to the judge worker are left to the program around this library.

pub mod auth;
pub mod errors;
pub mod text;
pub mod time;
pub mod models;
pub mod services;
