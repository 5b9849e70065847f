//! Finds files by case-insensitive base name under a directory tree, looking
//! inside ZIP-family archives (ZIP, JAR, EAR, WAR) nested up to a fixed
//! depth.
//!
//! - [`scan`] is the archive scanner, with what it reports stated exactly.
//! - [`findings`] and [`reach`] say what follows from that: which entries
//!   are found, where the depth limit cuts in, and that one broken archive
//!   hides nothing of another.
//! - [`walk`] keeps the directories still to be listed and decides what to
//!   do with a file; listing and reading are left to whoever drives it.
//! - [`sampler`] picks the visits that are traced.
//! - [`names`] holds the rules on names, [`report`] the events and their
//!   lines of output, [`args`] the command line.
//! - [`archive`] is the way into the `zip` crate.

pub mod archive;
pub mod args;
pub mod findings;
pub mod names;
pub mod reach;
pub mod report;
pub mod sampler;
pub mod scan;
pub mod walk;
