//! The cross-cutting laws of the filesystem, proved from the contracts of
//! the resolver, the virtual file and the store.
//!
//! Each law is stated over the same spec functions that the executable
//! functions' contracts use, so it holds of every run of the library, not
//! of chosen values.

use vstd::prelude::*;
use crate::error::FsError;
use crate::facade::spec_open;
use crate::file::spec_write;
use crate::meta::EntryKind;
use crate::options::OpenOptions;
use crate::store::{
    MemStore,
    lemma_child_names_member,
    lemma_join_child,
    spec_child_name,
    spec_is_child_path,
    spec_join,
};

verus! {

/// Opening an absent path with no creation flag and no write intent is
/// rejected with `PermissionDenied`, whatever the read and truncate flags
/// say: there is nothing to hydrate and nothing may be created.
pub proof fn lemma_open_absent_without_create(store: MemStore, p: Seq<u8>, o: OpenOptions)
    requires
        !store@.dom().contains(p),
        !o.create,
        !o.create_new,
        !o.write,
        !o.append,
    ensures
        spec_open(store, p, o) == Result::Err::<(Seq<u8>, int), FsError>(FsError::PermissionDenied),
{
}

/// Opening a present path with exclusive creation requested is rejected
/// with `AlreadyExists`, whatever the other flags say: `create_new`
/// demands that the path not exist yet.
pub proof fn lemma_create_new_excludes_present(store: MemStore, p: Seq<u8>, o: OpenOptions)
    requires
        store@.dom().contains(p),
        o.create_new,
    ensures
        spec_open(store, p, o) == Result::Err::<(Seq<u8>, int), FsError>(FsError::AlreadyExists),
{
}

/// Opening with create, write and truncate succeeds with an empty buffer
/// and the cursor at the start, both on an absent path (fresh creation)
/// and on a present file (its content is discarded).
pub proof fn lemma_truncate_empties_buffer(store: MemStore, p: Seq<u8>, o: OpenOptions)
    requires
        o.create,
        o.write,
        o.truncate,
        !o.create_new,
        !o.append,
        !store@.dom().contains(p) || store@[p].0 == EntryKind::File,
    ensures
        spec_open(store, p, o) == Result::Ok::<(Seq<u8>, int), FsError>((Seq::<u8>::empty(), 0)),
{
}

/// Opening a present file in append mode hydrates its full content and
/// places the cursor at end-of-buffer, so the next write lands after the
/// existing content.
pub proof fn lemma_append_positions_at_end(store: MemStore, p: Seq<u8>, o: OpenOptions)
    requires
        store@.dom().contains(p),
        store@[p].0 == EntryKind::File,
        o.append,
        !o.create_new,
        !o.truncate,
    ensures
        spec_open(store, p, o) == Result::Ok::<(Seq<u8>, int), FsError>(
            (store@[p].1, store@[p].1.len() as int),
        ),
{
}

/// The round trip: writing bytes `b` into a freshly created file (empty
/// buffer, cursor at the start) makes the buffer exactly `b`; flushing
/// persists exactly `b` at the path; re-opening for reading hydrates
/// exactly `b` with the cursor at the start; and reading to the end from
/// there returns exactly `b`.
pub proof fn lemma_write_flush_round_trip(
    store: MemStore,
    store2: MemStore,
    p: Seq<u8>,
    b: Seq<u8>,
    o_read: OpenOptions,
)
    requires
        !store@.dom().contains(p) || store@[p].0 == EntryKind::File,
        store2@ == store@.insert(p, (EntryKind::File, b)),
        o_read.read,
        !o_read.write,
        !o_read.append,
        !o_read.truncate,
        !o_read.create,
        !o_read.create_new,
    ensures
        spec_write(Seq::<u8>::empty(), 0, b) == b,
        store.spec_write_file(p, b) == Result::Ok::<_, FsError>(store2@),
        spec_open(store2, p, o_read) == Result::Ok::<(Seq<u8>, int), FsError>((b, 0)),
        b.subrange(0, b.len() as int) == b,
{
    assert(spec_write(Seq::<u8>::empty(), 0, b) =~= b);
    assert(b.subrange(0, b.len() as int) =~= b);
}

/// Flushing twice without an intervening write persists the same content
/// both times: the first flush binds the path to the buffer, and the
/// second one succeeds and leaves the store exactly as the first left it.
pub proof fn lemma_flush_idempotent(store: MemStore, store2: MemStore, p: Seq<u8>, b: Seq<u8>)
    requires
        !store@.dom().contains(p) || store@[p].0 == EntryKind::File,
        store2@ == store@.insert(p, (EntryKind::File, b)),
    ensures
        store.spec_write_file(p, b) == Result::Ok::<_, FsError>(store2@),
        store2.spec_write_file(p, b) == Result::Ok::<_, FsError>(store2@),
{
    assert(store2@.insert(p, (EntryKind::File, b)) =~= store2@);
}

/// A directory listing is a snapshot: a file created under the directory
/// after the listing was taken does not appear in it — the returned
/// names provably lack the new child's name.
pub proof fn lemma_listing_snapshot(
    store: MemStore,
    store2: MemStore,
    d: Seq<u8>,
    p: Seq<u8>,
    c: Seq<u8>,
    listing: Seq<Seq<u8>>,
)
    requires
        store.spec_readdir(d) == Result::Ok::<Seq<Seq<u8>>, FsError>(listing),
        spec_is_child_path(p, d),
        !store@.dom().contains(p),
        store2@ == store@.insert(p, (EntryKind::File, c)),
    ensures
        forall|k: int| 0 <= k < listing.len() ==> listing[k] != spec_child_name(p, d),
{
    lemma_child_names_member(store.entries@, d);
    assert forall|k: int| 0 <= k < listing.len() implies listing[k] != spec_child_name(p, d) by {
        if listing[k] == spec_child_name(p, d) {
            lemma_join_child(p, d);
            assert(spec_join(d, listing[k]) == p);
            assert(store@.dom().contains(p));
        }
    }
}

} // verus!
