//! Core of a virtual-filesystem layer: a uniform, synchronous file and
//! directory interface over interchangeable storage backends.
//!
//! The library holds the backend-independent logic: the closed error
//! taxonomy and the classification of backend error messages, the mapping
//! of backend type signals to entry metadata, the open-option resolution
//! algorithm, the in-memory virtual file (a seekable byte buffer that is
//! hydrated on open and persisted on flush), and the directory-level
//! facade. A small in-memory store serves as the reference backend; the
//! adapters that bind concrete storage services supply the same plain
//! values (existence probes, file contents, error message bytes) and reuse
//! the same resolution and classification functions.

pub mod bytes;
pub mod error;
pub mod meta;
pub mod options;
pub mod file;
pub mod store;
pub mod facade;
pub mod laws;
