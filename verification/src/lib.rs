//! Selection and normalization of electrical test points from a
//! pick-and-place placement list.
//!
//! The library filters placement records down to probeable test points,
//! rescales and recenters their coordinates onto a fixture, optionally
//! rotates them, classifies every probe by its distance to the nearest
//! neighbouring probe, appends the fixed mechanical fixture points, and
//! projects the result into printable output rows.
//!
//! All coordinates are fixed-point `i64` values carrying six fractional
//! decimal digits, so one unit is a millionth of the current length unit
//! (mil on input, inch after scaling).
#![verifier::loop_isolation(false)]

pub mod decimal;
pub mod filter;
pub mod fixture;
pub mod pipeline;
pub mod points;
pub mod project;
pub mod sizer;
pub mod text;
pub mod transform;
