//! Difficulty bookkeeping for catch-style rhythm maps: the integer side of the
//! pipeline that turns hit objects into a stream of catchable points.
//!
//! - [`path`]: which curve evaluator a slider's control points are handed to.
//! - [`timing`]: lookup of the control point that applies at a given time.
//! - [`slider`]: the order of the points that a slider expands into.
//! - [`stream`]: fruit, droplet and combo counts of a whole map.
//! - [`hits`]: hit-result bookkeeping for a play on a map.
pub mod path;
pub mod slider;
pub mod stream;
pub mod timing;
pub mod hits;
