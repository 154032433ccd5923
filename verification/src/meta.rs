//! The entry-type and metadata model, and the mapping of backend type
//! signals onto it.
//!
//! A backend reports what kind of object a path names either as a pair of
//! booleans (is-file, is-directory) or as a type name ("file", "dir",
//! "symlink"). Classification normalizes that signal into a `Metadata`
//! record whose kind is set accordingly and whose timing and size fields
//! are zero: the backends in scope report no real timestamps or sizes, so
//! those fields are not load-bearing. An unrecognized signal is fatal to
//! the calling operation and classifies as `Unknown`.

use vstd::prelude::*;
use crate::bytes::bytes_eq;
use crate::error::FsError;

verus! {

/// The kind of a filesystem entry. Exactly one kind holds per entry;
/// `Other` stands for device, socket and fifo kinds that this layer does
/// not distinguish further (no backend in scope reports them).
#[derive(Clone, Copy, Debug, PartialEq, Eq, Structural)]
pub enum EntryKind {
    File,
    Directory,
    Symlink,
    Other,
}

/// A normalized metadata record: the entry kind plus timing and size
/// fields. The backends in scope always report the numeric fields as zero.
#[derive(Clone, Copy, Debug, PartialEq, Eq, Structural)]
pub struct Metadata {
    pub kind: EntryKind,
    pub accessed: u64,
    pub created: u64,
    pub modified: u64,
    pub len: u64,
}

/// One entry of a directory listing: the child's name and its metadata at
/// the time of the listing.
#[derive(Debug)]
pub struct DirEntry {
    pub name: Vec<u8>,
    pub metadata: Metadata,
}

/// A metadata record of the given kind with all numeric fields zero.
pub open spec fn spec_zeroed(kind: EntryKind) -> Metadata {
    Metadata { kind: kind, accessed: 0, created: 0, modified: 0, len: 0 }
}

/// The boolean type signal, classified: a file flag wins over a directory
/// flag; neither flag set is an unrecognized signal.
pub open spec fn spec_classify_flags(is_file: bool, is_dir: bool) -> Result<Metadata, FsError> {
    if is_file {
        Result::Ok(spec_zeroed(EntryKind::File))
    } else if is_dir {
        Result::Ok(spec_zeroed(EntryKind::Directory))
    } else {
        Result::Err(FsError::Unknown)
    }
}

/// The type name "file".
pub open spec fn name_file() -> Seq<u8> {
    seq![102u8, 105u8, 108u8, 101u8]
}

/// The type name "dir".
pub open spec fn name_dir() -> Seq<u8> {
    seq![100u8, 105u8, 114u8]
}

/// The type name "symlink".
pub open spec fn name_symlink() -> Seq<u8> {
    seq![115u8, 121u8, 109u8, 108u8, 105u8, 110u8, 107u8]
}

/// The string type signal, classified: the three recognized names map to
/// their kinds, anything else is an unrecognized signal.
pub open spec fn spec_classify_type_name(name: Seq<u8>) -> Result<Metadata, FsError> {
    if name == name_file() {
        Result::Ok(spec_zeroed(EntryKind::File))
    } else if name == name_dir() {
        Result::Ok(spec_zeroed(EntryKind::Directory))
    } else if name == name_symlink() {
        Result::Ok(spec_zeroed(EntryKind::Symlink))
    } else {
        Result::Err(FsError::Unknown)
    }
}

impl Metadata {
    /// A metadata record of the given kind with zeroed timing and size
    /// fields.
    pub fn zeroed(kind: EntryKind) -> (r: Metadata)
        ensures
            r == spec_zeroed(kind),
    {
        Metadata { kind: kind, accessed: 0, created: 0, modified: 0, len: 0 }
    }

    /// Classifies a boolean backend type signal (is-file, is-directory)
    /// into a metadata record; both flags false is unrecognized and fatal
    /// to the calling operation.
    pub fn classify_flags(is_file: bool, is_dir: bool) -> (r: Result<Metadata, FsError>)
        ensures
            r == spec_classify_flags(is_file, is_dir),
    {
        if is_file {
            Result::Ok(Metadata::zeroed(EntryKind::File))
        } else if is_dir {
            Result::Ok(Metadata::zeroed(EntryKind::Directory))
        } else {
            Result::Err(FsError::Unknown)
        }
    }

    /// Classifies a string backend type signal ("file", "dir", "symlink")
    /// into a metadata record; an unknown name is unrecognized and fatal
    /// to the calling operation.
    pub fn classify_type_name(name: &[u8]) -> (r: Result<Metadata, FsError>)
        ensures
            r == spec_classify_type_name(name@),
    {
        let file_name: Vec<u8> = vec![102u8, 105u8, 108u8, 101u8];
        let dir_name: Vec<u8> = vec![100u8, 105u8, 114u8];
        let symlink_name: Vec<u8> = vec![115u8, 121u8, 109u8, 108u8, 105u8, 110u8, 107u8];
        proof {
            assert(file_name@ =~= name_file());
            assert(dir_name@ =~= name_dir());
            assert(symlink_name@ =~= name_symlink());
        }
        if bytes_eq(name, file_name.as_slice()) {
            Result::Ok(Metadata::zeroed(EntryKind::File))
        } else if bytes_eq(name, dir_name.as_slice()) {
            Result::Ok(Metadata::zeroed(EntryKind::Directory))
        } else if bytes_eq(name, symlink_name.as_slice()) {
            Result::Ok(Metadata::zeroed(EntryKind::Symlink))
        } else {
            Result::Err(FsError::Unknown)
        }
    }
}

} // verus!
