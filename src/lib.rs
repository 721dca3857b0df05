//! Decisions of the WGS84 / GCJ02 / BD09 coordinate conversions, proved.
//!
//! A coordinate reaches this crate as the IEEE 754 encodings of its two
//! doubles (`to_bits`), so that every decision below is stated and proved
//! over the exact numbers they encode.

pub mod binary64;
pub mod bounds;

pub use bounds::{is_out_of_china, keep_outside_china};
