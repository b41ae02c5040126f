//! Operations on decoded images.

pub mod icc;
pub mod profiles;
