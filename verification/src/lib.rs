//! A point-in-time view of a Linux host: parsers for the kernel's text
//! tables, the join of block devices with their partitions and mounts, and
//! the helpers that scale and render the figures.
//!
//! The library reads no file. Its caller hands it the texts, and gets back
//! records and the report built from them.

pub mod model;
pub mod parse;
pub mod pattern;
pub mod report;
pub mod snapshot;
pub mod text;
pub mod utils;

pub use crate::model::{NetworkDevice, Partition, Storage};
pub use crate::parse::{Process, SystemProperty};
pub use crate::snapshot::{PcInfo, RawText};
pub use crate::utils::{conv_b, conv_p, conv_t};
