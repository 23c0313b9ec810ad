//! A store for one mood rating, kept as decimal text in one per-user file.
//!
//! The crate decides everything about the store except the input and output
//! themselves: how a mood is written down and read back ([`decimal`]), where
//! the file lives ([`location`]), and in which order the file system is asked
//! to do what ([`store`]). A host performs the file-system calls and reports
//! what happened. What saving and loading amount to on a host without
//! faults is stated and proved in [`model`].

pub mod decimal;
pub mod location;
pub mod model;
pub mod store;
