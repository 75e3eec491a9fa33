//! Readers for two binary asset-container formats of the Build engine:
//! the GRP flat archive format and the ART tile-metadata catalog format.
//!
//! Both readers take the file's bytes as an in-memory byte source and
//! expose pull-based queries over it; opening and reading files is the
//! caller's business.

pub mod art;
pub mod grp;
pub mod lebytes;
