//! Resolution of the data directory table of a PE (Portable Executable) image.
//!
//! A PE optional header ends with an array of (virtual address, size) pairs,
//! the *data directories*, each pointing at a well-known sub-structure of the
//! image (exports, imports, resources, relocations, the signature blob, ...).
//! The values in that array come straight from untrusted file bytes, so every
//! step that turns a directory's relative virtual address into a file offset
//! must be bounds-checked and free of arithmetic overflow.
//!
//! [`data_directory`] parses the array and translates entries through a
//! [`section`] table; every public operation carries a contract that pins down
//! exactly which inputs succeed and what is returned.

pub mod data_directory;
pub mod section;
