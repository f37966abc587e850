//! The storage tracker and what it is built from.

pub mod classify;
pub mod journal;
pub mod laws;
pub mod model;
pub mod observe;
pub mod sets;
pub mod storage;
