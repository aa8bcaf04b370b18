//! The decision core of a sweeper that removes fully transparent PNG files
//! from a directory tree.
//!
//! The crate holds every rule of the sweep and none of its input or output:
//! which directory entries are looked at, when an image counts as fully
//! transparent, what is done with a file at each point of its handling, and
//! how the outcomes add up to the figures of a run. A driver walks the tree,
//! reads and removes files, and hands plain values to the functions here.

pub mod cli;
pub mod entry;
pub mod run;
pub mod stats;
pub mod task;
pub mod transparency;
