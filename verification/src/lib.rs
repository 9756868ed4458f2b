//! Sorts a flat collection of image files into a date-bucketed directory
//! tree, keyed by each file's modification date.
//!
//! The verified core is the destination-path resolution with its per-run
//! cache, and the decision logic of the relocation step (skip on collision,
//! dry-run purity, copy-before-delete ordering). Filesystem access itself
//! is left to a thin unverified shell that feeds observations into, and
//! carries out the commands of, the functions here.

pub mod date;
pub mod digits;
pub mod paths;
pub mod relocate;
pub mod resolver;
