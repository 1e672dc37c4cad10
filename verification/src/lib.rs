//! Free/occupied space scanner for a fixed-width, slotted storage buffer.
//!
//! A buffer is logically partitioned into equal-width fields, each a one-byte
//! header tag followed by a fixed-size body.  The scanner classifies
//! contiguous runs of fields into occupied regions (live record data, chained
//! by continuation markers) and empty regions (single free slots), producing
//! them lazily, in increasing-offset order, without copying buffer contents.

pub mod error;
pub mod field;
pub mod laws;
pub mod space;
