//! The directory- and path-level operations of the filesystem, bound to
//! the reference backend.
//!
//! Every operation takes the backend handle explicitly: the caller
//! constructs one store and passes it to each call, and is responsible
//! for serializing conflicting operations on the same path — the facade
//! adds no locking of its own. `open` resolves the requested flags
//! through the open-option resolver and wraps the decided buffer as a
//! virtual file; `read_dir` lists the children and then stats each one to
//! obtain its kind (one follow-up stat per child, inherent to backends
//! that return bare names); the remaining operations delegate to the
//! backend and surface its classified errors unchanged.

use vstd::prelude::*;
use crate::bytes::to_owned_bytes;
use crate::error::FsError;
use crate::meta::{DirEntry, EntryKind, Metadata, spec_zeroed};
use crate::options::{Existence, OpenOptions, existence_of_stat, hydration_needed, spec_normalized};
use crate::file::VirtualFile;
use crate::store::{
    MemStore,
    lemma_child_names_member,
    spec_child_names,
    spec_join,
    spec_slash,
    views_of,
};

verus! {

/// What an open of `p` with options `o` against the store decides: the
/// initial buffer and cursor of the virtual file, or the error. The
/// checks run in order: flag normalization, existence, exclusive
/// creation, file kind, hydration.
pub open spec fn spec_open(store: MemStore, p: Seq<u8>, o: OpenOptions) -> Result<
    (Seq<u8>, int),
    FsError,
> {
    match spec_normalized(o) {
        Result::Err(e) => Result::Err(e),
        Result::Ok(n) => {
            if !store@.dom().contains(p) {
                if (n.create_new || n.create) && (n.write || n.append) {
                    Result::Ok((Seq::<u8>::empty(), 0))
                } else {
                    Result::Err(FsError::PermissionDenied)
                }
            } else if n.create_new {
                Result::Err(FsError::AlreadyExists)
            } else if store@[p].0 != EntryKind::File {
                Result::Err(FsError::NotAFile)
            } else {
                let buffer = if n.truncate {
                    Seq::<u8>::empty()
                } else {
                    store@[p].1
                };
                Result::Ok((buffer, if n.append {
                    buffer.len() as int
                } else {
                    0
                }))
            }
        },
    }
}

/// Opens the file at `path` with the requested flags: probes existence,
/// rejects exclusive creation of a present path, hydrates the buffer from
/// the stored content, and wraps the decided initial state as a virtual
/// file.
pub fn open(store: &MemStore, path: &[u8], opts: &OpenOptions) -> (r: Result<VirtualFile, FsError>)
    requires
        store.wf(),
    ensures
        match r {
            Result::Ok(f) => spec_open(*store, path@, *opts) == Result::Ok::<_, FsError>(
                (f.buffer@, f.cursor as int),
            ) && f.path@ == path@ && f.metadata == spec_zeroed(EntryKind::File),
            Result::Err(e) => spec_open(*store, path@, *opts) == Result::Err::<(Seq<u8>, int), _>(
                e,
            ),
        },
{
    let exists = match existence_of_stat(store.stat(path)) {
        Result::Ok(b) => b,
        Result::Err(e) => {
            return Result::Err(e);
        },
    };
    let hydrate = match hydration_needed(opts, exists) {
        Result::Ok(b) => b,
        Result::Err(e) => {
            return Result::Err(e);
        },
    };
    let probe = if hydrate {
        match store.read_file(path) {
            Result::Ok(content) => Existence::Present(content),
            Result::Err(e) => {
                return Result::Err(e);
            },
        }
    } else {
        Existence::Absent
    };
    VirtualFile::open(to_owned_bytes(path), opts, probe)
}

/// The full path of the child of `d` named `n`: `d`, a slash, `n`.
pub fn join_path(d: &[u8], n: &[u8]) -> (r: Vec<u8>)
    ensures
        r@ == spec_join(d@, n@),
{
    let mut r = to_owned_bytes(d);
    r.push(47u8);
    let mut i: usize = 0;
    while i < n.len()
        invariant
            0 <= i <= n@.len(),
            r@ == d@ + seq![spec_slash()] + n@.subrange(0, i as int),
        decreases n@.len() - i,
    {
        r.push(n[i]);
        proof {
            assert(r@ =~= d@ + seq![spec_slash()] + n@.subrange(0, i + 1));
        }
        i = i + 1;
    }
    proof {
        assert(r@ =~= spec_join(d@, n@));
    }
    r
}

/// Lists the directory at `path`: the backend returns the child names,
/// and each child is then stat'ed at its joined path to obtain its kind.
/// The returned listing is a snapshot in backend order, one entry per
/// child present at call time.
pub fn read_dir(store: &MemStore, path: &[u8]) -> (r: Result<Vec<DirEntry>, FsError>)
    requires
        store.wf(),
    ensures
        match r {
            Result::Ok(list) => {
                &&& store.spec_readdir(path@) == Result::Ok::<_, FsError>(
                    Seq::new(list@.len(), |k: int| list@[k].name@),
                )
                &&& forall|k: int|
                    0 <= k < list@.len() ==> (#[trigger] list@[k]).metadata == spec_zeroed(
                        store@[spec_join(path@, list@[k].name@)].0,
                    )
            },
            Result::Err(e) => store.spec_readdir(path@) == Result::Err::<Seq<Seq<u8>>, _>(e),
        },
{
    let names = match store.readdir(path) {
        Result::Ok(names) => names,
        Result::Err(e) => {
            return Result::Err(e);
        },
    };
    proof {
        lemma_child_names_member(store.entries@, path@);
        assert forall|k: int| 0 <= k < names@.len() implies store@.dom().contains(
            #[trigger] spec_join(path@, names@[k]@),
        ) by {
            assert(views_of(names@)[k] == names@[k]@);
            assert(spec_child_names(store.entries@, path@)[k] == names@[k]@);
        }
    }
    let mut out: Vec<DirEntry> = Vec::new();
    let mut i: usize = 0;
    while i < names.len()
        invariant
            store.wf(),
            0 <= i <= names@.len(),
            forall|k: int|
                0 <= k < names@.len() ==> store@.dom().contains(
                    #[trigger] spec_join(path@, names@[k]@),
                ),
            out@.len() == i,
            forall|k: int|
                0 <= k < i ==> (#[trigger] out@[k]).name@ == names@[k]@ && out@[k].metadata
                    == spec_zeroed(store@[spec_join(path@, names@[k]@)].0),
        decreases names@.len() - i,
    {
        let joined = join_path(path, names[i].as_slice());
        let md = match store.stat(joined.as_slice()) {
            Result::Ok(md) => md,
            Result::Err(_) => {
                // Unreachable: every name the listing returned joins to a
                // path that is present in the store.
                proof {
                    assert(false);
                }
                Metadata::zeroed(EntryKind::Other)
            },
        };
        out.push(DirEntry { name: to_owned_bytes(names[i].as_slice()), metadata: md });
        i = i + 1;
    }
    proof {
        assert(Seq::new(out@.len(), |k: int| out@[k].name@) =~= views_of(names@));
    }
    Result::Ok(out)
}

/// Reports the kind of the object at `path`, with zeroed timing and size
/// fields.
pub fn metadata(store: &MemStore, path: &[u8]) -> (r: Result<Metadata, FsError>)
    requires
        store.wf(),
    ensures
        r == store.spec_stat(path@),
{
    store.stat(path)
}

/// Reports the kind of the object at `path` without following symlinks.
/// The reference backend stores the kind of every entry directly —
/// symlink entries report `Symlink` — so this agrees with `metadata` on
/// it by construction.
pub fn symlink_metadata(store: &MemStore, path: &[u8]) -> (r: Result<Metadata, FsError>)
    requires
        store.wf(),
    ensures
        r == store.spec_stat(path@),
{
    store.stat(path)
}

/// Creates a directory at `path`.
pub fn create_dir(store: &mut MemStore, path: &[u8]) -> (r: Result<(), FsError>)
    requires
        old(store).wf(),
    ensures
        final(store).wf(),
        match r {
            Result::Ok(_) => old(store).spec_mkdir(path@) == Result::Ok::<_, FsError>(
                final(store)@,
            ),
            Result::Err(e) => old(store).spec_mkdir(path@) == Result::Err::<
                Map<Seq<u8>, (EntryKind, Seq<u8>)>,
                _,
            >(e) && *final(store) == *old(store),
        },
{
    store.mkdir(path)
}

/// Removes the directory at `path`; it must be empty, else the backend's
/// business error is surfaced unchanged.
pub fn remove_dir(store: &mut MemStore, path: &[u8]) -> (r: Result<(), FsError>)
    requires
        old(store).wf(),
    ensures
        final(store).wf(),
        match r {
            Result::Ok(_) => old(store).spec_rmdir(path@) == Result::Ok::<_, FsError>(
                final(store)@,
            ),
            Result::Err(e) => old(store).spec_rmdir(path@) == Result::Err::<
                Map<Seq<u8>, (EntryKind, Seq<u8>)>,
                _,
            >(e) && *final(store) == *old(store),
        },
{
    store.rmdir(path)
}

/// Renames the entry at `from` to `to`, atomically within this single
/// backend call.
pub fn rename(store: &mut MemStore, from: &[u8], to: &[u8]) -> (r: Result<(), FsError>)
    requires
        old(store).wf(),
    ensures
        final(store).wf(),
        match r {
            Result::Ok(_) => old(store).spec_rename(from@, to@) == Result::Ok::<_, FsError>(
                final(store)@,
            ),
            Result::Err(e) => old(store).spec_rename(from@, to@) == Result::Err::<
                Map<Seq<u8>, (EntryKind, Seq<u8>)>,
                _,
            >(e) && *final(store) == *old(store),
        },
{
    store.rename(from, to)
}

/// Removes the file at `path`.
pub fn remove_file(store: &mut MemStore, path: &[u8]) -> (r: Result<(), FsError>)
    requires
        old(store).wf(),
    ensures
        final(store).wf(),
        match r {
            Result::Ok(_) => old(store).spec_unlink(path@) == Result::Ok::<_, FsError>(
                final(store)@,
            ),
            Result::Err(e) => old(store).spec_unlink(path@) == Result::Err::<
                Map<Seq<u8>, (EntryKind, Seq<u8>)>,
                _,
            >(e) && *final(store) == *old(store),
        },
{
    store.unlink(path)
}

impl VirtualFile {
    /// Serializes the whole current buffer and issues a whole-file
    /// overwrite to the backend at the file's path. On failure the
    /// classified error is returned and the in-memory buffer — untouched
    /// by this call — may be flushed again.
    pub fn flush(&self, store: &mut MemStore) -> (r: Result<(), FsError>)
        requires
            old(store).wf(),
        ensures
            final(store).wf(),
            match r {
                Result::Ok(_) => old(store).spec_write_file(self.path@, self.buffer@)
                    == Result::Ok::<_, FsError>(final(store)@),
                Result::Err(e) => old(store).spec_write_file(self.path@, self.buffer@)
                    == Result::Err::<Map<Seq<u8>, (EntryKind, Seq<u8>)>, _>(e) && *final(store)
                    == *old(store),
            },
    {
        store.write_file(self.path.as_slice(), self.buffer.as_slice())
    }

    /// Requests backend deletion of the file's path. The in-memory buffer
    /// of this handle — and of any other handle open on the same path —
    /// is not invalidated.
    pub fn unlink(&self, store: &mut MemStore) -> (r: Result<(), FsError>)
        requires
            old(store).wf(),
        ensures
            final(store).wf(),
            match r {
                Result::Ok(_) => old(store).spec_unlink(self.path@) == Result::Ok::<_, FsError>(
                    final(store)@,
                ),
                Result::Err(e) => old(store).spec_unlink(self.path@) == Result::Err::<
                    Map<Seq<u8>, (EntryKind, Seq<u8>)>,
                    _,
                >(e) && *final(store) == *old(store),
            },
    {
        store.unlink(self.path.as_slice())
    }
}

} // verus!
