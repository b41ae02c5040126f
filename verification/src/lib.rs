//! Image optimisation: limits, planning, container headers, codecs and paths.

pub mod exit;
pub mod text;
pub mod digits;
pub mod rounding;
pub mod color;
pub mod raster;
pub mod operations;
pub mod limits;
pub mod budgets;
pub mod cli;
pub mod path;
pub mod extensions;
pub mod precision;
pub mod codecs;
pub mod error;
pub mod reports;
pub mod calls;
pub mod answers;
