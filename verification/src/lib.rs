//! Parsing and checked differencing of the kernel's textual CPU counter
//! table.
//!
//! The library turns one raw counter table into a [`Stat`] snapshot, computes
//! the checked field-wise difference of two snapshots as a [`StatDelta`], and
//! exposes the tick totals from which idle/non-idle ratios are derived.

pub mod disk;
pub mod parse;
pub mod proc;

pub use disk::DiskStat;
pub use disk::DiskStats;
pub use parse::parse_single;
pub use parse::parse_u64;
pub use parse::ParseError;
pub use proc::parse_line;
pub use proc::DeltaError;
pub use proc::Stat;
pub use proc::StatCpu;
pub use proc::StatDelta;
