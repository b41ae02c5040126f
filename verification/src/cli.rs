//! What the command-line program decides.

pub mod headers;
pub mod containers;
pub mod resize;
pub mod sides;
pub mod scaling;
pub mod notation;
pub mod jpeg;
pub mod segments;
pub mod paths;
pub mod outputs;
pub mod preprocess;
pub mod schedule;
pub mod threads;
pub mod help;
pub mod pipeline;
pub mod arguments;
pub mod sizing;
