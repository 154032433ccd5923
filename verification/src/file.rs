//! The virtual file: an in-memory, seekable byte buffer bound to a path.
//!
//! A virtual file is created by a successful open (hydrated from the
//! backend's content, or empty for a fresh create), mutated purely in
//! memory by read, write and seek, and persisted to the backend only on an
//! explicit flush. Reads never touch the backend; writes replace or extend
//! the buffered representation at the cursor; seeking beyond the current
//! length is allowed, and a later write zero-fills the gap. Dropping the
//! file persists nothing: explicit persistence is part of the contract.

use vstd::prelude::*;
use crate::error::FsError;
use crate::meta::{EntryKind, Metadata, spec_zeroed};
use crate::options::{Existence, OpenOptions, resolve, spec_resolve};

verus! {

/// A position to seek to: absolute, relative to the cursor, or relative to
/// the end of the buffer.
#[derive(Clone, Copy, Debug, PartialEq, Eq, Structural)]
pub enum SeekFrom {
    Start(u64),
    Current(i64),
    End(i64),
}

/// An open file: the path it is bound to, the metadata snapshot taken at
/// open time, and the in-memory buffer with its cursor.
#[derive(Debug)]
pub struct VirtualFile {
    pub path: Vec<u8>,
    pub metadata: Metadata,
    pub buffer: Vec<u8>,
    pub cursor: u64,
}

/// Where a read starts: the cursor, clamped to the end of the buffer.
pub open spec fn spec_read_start(buf: Seq<u8>, pos: int) -> int {
    if pos <= buf.len() {
        pos
    } else {
        buf.len() as int
    }
}

/// How many bytes a read of at most `max` bytes returns: the bytes still
/// available between the cursor and the end of the buffer, zero once the
/// cursor is at or past the end.
pub open spec fn spec_read_amount(buf: Seq<u8>, pos: int, max: int) -> int {
    if pos >= buf.len() {
        0
    } else if max <= buf.len() - pos {
        max
    } else {
        buf.len() - pos
    }
}

/// The buffer after writing `data` at position `pos`: the gap between the
/// old end and `pos` (if any) is zero-filled, then `data` replaces or
/// extends the contents at `pos`, and whatever lay beyond the written
/// range is kept.
pub open spec fn spec_write(buf: Seq<u8>, pos: int, data: Seq<u8>) -> Seq<u8> {
    let padded = buf + Seq::<u8>::new(
        if pos > buf.len() {
            (pos - buf.len()) as nat
        } else {
            0
        },
        |i: int| 0u8,
    );
    padded.subrange(0, pos) + data + (if pos + data.len() < padded.len() {
        padded.subrange(pos + data.len(), padded.len() as int)
    } else {
        Seq::<u8>::empty()
    })
}

/// The cursor position that a seek request resolves to over a buffer of
/// length `len` and a cursor at `pos`, or the error for a target that is
/// negative or does not fit the cursor. Such a target lies outside the
/// named rows of the error table, so it surfaces as `Unknown`.
pub open spec fn spec_seek(len: int, pos: int, from: SeekFrom) -> Result<int, FsError> {
    let target = match from {
        SeekFrom::Start(n) => n as int,
        SeekFrom::Current(d) => pos + d,
        SeekFrom::End(d) => len + d,
    };
    if 0 <= target <= u64::MAX {
        Result::Ok(target)
    } else {
        Result::Err(FsError::Unknown)
    }
}

impl VirtualFile {
    /// Opens a virtual file at `path`: resolves the requested flags
    /// against the probe of the path and, on success, binds the decided
    /// initial buffer to the path with a fresh file-kind metadata
    /// snapshot.
    pub fn open(path: Vec<u8>, opts: &OpenOptions, probe: Existence) -> (r: Result<
        VirtualFile,
        FsError,
    >)
        ensures
            match r {
                Result::Ok(f) => spec_resolve(*opts, probe.spec_probe()) == Result::Ok::<
                    _,
                    FsError,
                >((f.buffer@, f.cursor as int)) && f.path@ == path@ && f.metadata == spec_zeroed(
                    EntryKind::File,
                ),
                Result::Err(e) => spec_resolve(*opts, probe.spec_probe()) == Result::Err::<
                    (Seq<u8>, int),
                    _,
                >(e),
            },
    {
        match resolve(opts, probe) {
            Result::Ok(ib) => Result::Ok(
                VirtualFile {
                    path: path,
                    metadata: Metadata::zeroed(EntryKind::File),
                    buffer: ib.content,
                    cursor: ib.cursor,
                },
            ),
            Result::Err(e) => Result::Err(e),
        }
    }

    /// Reads at most `max` bytes from the buffer at the cursor, advancing
    /// the cursor by the number of bytes read. Never blocks on the
    /// backend; returns an empty vector once the cursor is at or past the
    /// end of the buffer.
    pub fn read(&mut self, max: usize) -> (data: Vec<u8>)
        ensures
            data@.len() == spec_read_amount(old(self).buffer@, old(self).cursor as int, max as int),
            data@ == old(self).buffer@.subrange(
                spec_read_start(old(self).buffer@, old(self).cursor as int),
                spec_read_start(old(self).buffer@, old(self).cursor as int) + data@.len(),
            ),
            final(self).cursor == old(self).cursor + data@.len(),
            final(self).buffer == old(self).buffer,
            final(self).path == old(self).path,
            final(self).metadata == old(self).metadata,
    {
        let len = self.buffer.len();
        if self.cursor >= len as u64 {
            return Vec::new();
        }
        let start: usize = self.cursor as usize;
        let avail: usize = len - start;
        let n: usize = if max <= avail {
            max
        } else {
            avail
        };
        let mut data: Vec<u8> = Vec::new();
        let mut i: usize = 0;
        while i < n
            invariant
                0 <= i <= n,
                start + n <= self.buffer@.len(),
                start + n <= usize::MAX,
                data@ == self.buffer@.subrange(start as int, start + i),
                *self == *old(self),
            decreases n - i,
        {
            data.push(self.buffer[start + i]);
            proof {
                assert(data@ =~= self.buffer@.subrange(start as int, start + i + 1));
            }
            i = i + 1;
        }
        self.cursor = self.cursor + n as u64;
        data
    }

    /// Reads everything from the cursor to the end of the buffer,
    /// advancing the cursor to the end.
    pub fn read_to_end(&mut self) -> (data: Vec<u8>)
        ensures
            data@ == old(self).buffer@.subrange(
                if old(self).cursor as int <= old(self).buffer@.len() {
                    old(self).cursor as int
                } else {
                    old(self).buffer@.len() as int
                },
                old(self).buffer@.len() as int,
            ),
            final(self).cursor == old(self).cursor + data@.len(),
            final(self).buffer == old(self).buffer,
            final(self).path == old(self).path,
            final(self).metadata == old(self).metadata,
    {
        let len = self.buffer.len();
        if self.cursor >= len as u64 {
            let data = Vec::new();
            proof {
                assert(data@ =~= old(self).buffer@.subrange(
                    old(self).buffer@.len() as int,
                    old(self).buffer@.len() as int,
                ));
            }
            return data;
        }
        let avail: usize = len - self.cursor as usize;
        self.read(avail)
    }

    /// Writes `data` into the buffer at the cursor, zero-filling any gap
    /// if the cursor sits past the end, overwriting what the written range
    /// covers and extending the buffer as needed; returns the number of
    /// bytes written (always all of `data`) and advances the cursor past
    /// them. The bound on the final cursor is a machine limit: the grown
    /// buffer must still be addressable.
    pub fn write(&mut self, data: &[u8]) -> (n: usize)
        requires
            old(self).cursor + data@.len() <= usize::MAX,
        ensures
            n == data@.len(),
            final(self).buffer@ == spec_write(old(self).buffer@, old(self).cursor as int, data@),
            final(self).cursor == old(self).cursor + n,
            final(self).path == old(self).path,
            final(self).metadata == old(self).metadata,
    {
        let ghost orig = self.buffer@;
        let ghost pos_spec = self.cursor as int;
        let pos: usize = self.cursor as usize;
        while self.buffer.len() < pos
            invariant
                self.buffer@.len() <= pos || self.buffer@.len() == orig.len(),
                orig.len() <= self.buffer@.len() || self.buffer@.len() == orig.len(),
                self.buffer@ == orig + Seq::<u8>::new((self.buffer@.len() - orig.len()) as nat, |i: int| 0u8),
                self.cursor == old(self).cursor,
                self.path == old(self).path,
                self.metadata == old(self).metadata,
            decreases pos - self.buffer@.len(),
        {
            self.buffer.push(0u8);
            proof {
                assert(self.buffer@ =~= orig + Seq::<u8>::new(
                    (self.buffer@.len() - orig.len()) as nat,
                    |i: int| 0u8,
                ));
            }
        }
        let ghost padded = self.buffer@;
        proof {
            assert(padded =~= orig + Seq::<u8>::new(
                if pos_spec > orig.len() {
                    (pos_spec - orig.len()) as nat
                } else {
                    0
                },
                |i: int| 0u8,
            ));
        }
        let mut i: usize = 0;
        while i < data.len()
            invariant
                0 <= i <= data@.len(),
                pos <= padded.len(),
                pos + data@.len() <= usize::MAX,
                padded.len() <= self.buffer@.len(),
                self.buffer@.len() == (if pos + i > padded.len() {
                    pos + i
                } else {
                    padded.len() as int
                }),
                forall|j: int| 0 <= j < pos + i && j < padded.len() && !(pos <= j < pos + i)
                    ==> self.buffer@[j] == padded[j],
                forall|j: int| pos + i <= j < padded.len() ==> self.buffer@[j] == padded[j],
                forall|j: int| pos <= j < pos + i ==> self.buffer@[j] == data@[j - pos],
                forall|j: int| 0 <= j < pos ==> self.buffer@[j] == padded[j],
                self.cursor == old(self).cursor,
                self.path == old(self).path,
                self.metadata == old(self).metadata,
            decreases data@.len() - i,
        {
            if pos + i < self.buffer.len() {
                self.buffer.set(pos + i, data[i]);
            } else {
                self.buffer.push(data[i]);
            }
            i = i + 1;
        }
        proof {
            assert(self.buffer@ =~= spec_write(orig, pos_spec, data@));
        }
        self.cursor = self.cursor + data.len() as u64;
        data.len()
    }

    /// Repositions the cursor absolutely, relative to the current
    /// position, or relative to the end of the buffer; a target that is
    /// negative or does not fit the cursor is rejected and the cursor is
    /// left unchanged.
    pub fn seek(&mut self, from: SeekFrom) -> (r: Result<u64, FsError>)
        ensures
            match r {
                Result::Ok(p) => spec_seek(old(self).buffer@.len() as int, old(self).cursor as int, from)
                    == Result::Ok::<int, FsError>(p as int) && final(self).cursor == p,
                Result::Err(e) => spec_seek(old(self).buffer@.len() as int, old(self).cursor as int, from)
                    == Result::Err::<int, FsError>(e) && final(self).cursor == old(self).cursor,
            },
            final(self).buffer == old(self).buffer,
            final(self).path == old(self).path,
            final(self).metadata == old(self).metadata,
    {
        let target: i128 = match from {
            SeekFrom::Start(n) => n as i128,
            SeekFrom::Current(d) => self.cursor as i128 + d as i128,
            SeekFrom::End(d) => self.buffer.len() as i128 + d as i128,
        };
        if target < 0 || target > u64::MAX as i128 {
            Result::Err(FsError::Unknown)
        } else {
            self.cursor = target as u64;
            Result::Ok(self.cursor)
        }
    }

    /// The size the metadata snapshot reports. The backends in scope
    /// report no real sizes, so this is the zeroed snapshot value, not the
    /// buffer length.
    pub fn size(&self) -> (r: u64)
        ensures
            r == self.metadata.len,
    {
        self.metadata.len
    }

    /// The last-accessed timestamp of the metadata snapshot.
    pub fn last_accessed(&self) -> (r: u64)
        ensures
            r == self.metadata.accessed,
    {
        self.metadata.accessed
    }

    /// The last-modified timestamp of the metadata snapshot.
    pub fn last_modified(&self) -> (r: u64)
        ensures
            r == self.metadata.modified,
    {
        self.metadata.modified
    }

    /// The creation timestamp of the metadata snapshot.
    pub fn created_time(&self) -> (r: u64)
        ensures
            r == self.metadata.created,
    {
        self.metadata.created
    }

    /// Resizing through the handle is not supported by any backend in
    /// scope; the request is always rejected and nothing changes.
    pub fn set_len(&mut self, new_size: u64) -> (r: Result<(), FsError>)
        ensures
            r == Result::Err::<(), FsError>(FsError::Unknown),
            *final(self) == *old(self),
    {
        let _ = new_size;
        Result::Err(FsError::Unknown)
    }
}

} // verus!
