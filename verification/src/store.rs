//! The reference backend: an in-memory table of entries keyed by full
//! path, offering exactly the backend call shape that the facade relies
//! on (mkdir, rmdir, readdir, write-file, unlink, read-file, rename,
//! stat).
//!
//! The table is flat: every entry stores its complete, slash-delimited
//! path, and the children of a directory are the entries whose path
//! extends it by exactly one slash-free component. No normalization of
//! leading or trailing slashes happens here — that is the facade's
//! responsibility before delegation. The store's mathematical model is a
//! map from path to (kind, content).

use vstd::prelude::*;
use crate::bytes::{bytes_eq, is_prefix_of, starts_with, sub_bytes, to_owned_bytes};
use crate::error::FsError;
use crate::meta::{EntryKind, Metadata, spec_zeroed};

verus! {

/// One stored object: its full path, its kind, and its content bytes
/// (empty unless the entry is a file).
pub struct StoreEntry {
    pub path: Vec<u8>,
    pub kind: EntryKind,
    pub content: Vec<u8>,
}

/// The in-memory store.
pub struct MemStore {
    pub entries: Vec<StoreEntry>,
}

/// The path separator byte.
pub open spec fn spec_slash() -> u8 {
    47u8
}

/// Some entry of `s` has path `p`.
pub open spec fn spec_contains(s: Seq<StoreEntry>, p: Seq<u8>) -> bool {
    exists|i: int| 0 <= i < s.len() && s[i].path@ == p
}

/// The index of the entry of `s` with path `p` (meaningful only when one
/// exists and paths are distinct).
pub open spec fn spec_index_of(s: Seq<StoreEntry>, p: Seq<u8>) -> int {
    choose|i: int| 0 <= i < s.len() && s[i].path@ == p
}

/// The entry of `s` with path `p`.
pub open spec fn spec_at(s: Seq<StoreEntry>, p: Seq<u8>) -> StoreEntry {
    s[spec_index_of(s, p)]
}

/// No two entries share a path.
pub open spec fn wf_entries(s: Seq<StoreEntry>) -> bool {
    forall|i: int, j: int| 0 <= i < j < s.len() ==> s[i].path@ != s[j].path@
}

/// The table as a map from path to (kind, content).
pub open spec fn spec_map_of(s: Seq<StoreEntry>) -> Map<Seq<u8>, (EntryKind, Seq<u8>)> {
    Map::new(
        |p: Seq<u8>| spec_contains(s, p),
        |p: Seq<u8>| (spec_at(s, p).kind, spec_at(s, p).content@),
    )
}

/// `q` names a direct child of directory path `d`: it extends `d` by a
/// slash and one nonempty, slash-free component.
pub open spec fn spec_is_child_path(q: Seq<u8>, d: Seq<u8>) -> bool {
    &&& q.len() > d.len() + 1
    &&& q.subrange(0, d.len() as int) == d
    &&& q[d.len() as int] == spec_slash()
    &&& forall|k: int| d.len() + 1 <= k < q.len() ==> q[k] != spec_slash()
}

/// The name of child `q` under directory `d`: what follows the slash.
pub open spec fn spec_child_name(q: Seq<u8>, d: Seq<u8>) -> Seq<u8> {
    q.subrange(d.len() + 1 as int, q.len() as int)
}

/// The names of the children of `d`, in table order.
pub open spec fn spec_child_names(s: Seq<StoreEntry>, d: Seq<u8>) -> Seq<Seq<u8>>
    decreases s.len(),
{
    if s.len() == 0 {
        Seq::empty()
    } else {
        spec_child_names(s.drop_last(), d) + (if spec_is_child_path(s.last().path@, d) {
            seq![spec_child_name(s.last().path@, d)]
        } else {
            Seq::empty()
        })
    }
}

/// The full path of the child of `d` named `n`.
pub open spec fn spec_join(d: Seq<u8>, n: Seq<u8>) -> Seq<u8> {
    d + seq![spec_slash()] + n
}

/// The views of a sequence of owned byte strings.
pub open spec fn views_of(s: Seq<Vec<u8>>) -> Seq<Seq<u8>> {
    Seq::new(s.len(), |i: int| s[i]@)
}

/// Decides whether `q` names a direct child of directory path `d`.
pub fn is_child_path(q: &[u8], d: &[u8]) -> (r: bool)
    ensures
        r == spec_is_child_path(q@, d@),
{
    if q.len() <= d.len() {
        return false;
    }
    if q.len() - d.len() < 2 {
        return false;
    }
    if !starts_with(q, d) {
        proof {
            if q@.subrange(0, d@.len() as int) == d@ {
                assert forall|i: int| 0 <= i < d@.len() implies q@[i] == d@[i] by {
                    assert(q@.subrange(0, d@.len() as int)[i] == q@[i]);
                }
                assert(is_prefix_of(d@, q@));
            }
        }
        return false;
    }
    proof {
        assert(q@.subrange(0, d@.len() as int) =~= d@);
    }
    if q[d.len()] != 47u8 {
        return false;
    }
    let mut k: usize = d.len() + 1;
    while k < q.len()
        invariant
            d@.len() + 1 <= k <= q@.len(),
            forall|j: int| d@.len() + 1 <= j < k ==> q@[j] != spec_slash(),
        decreases q@.len() - k,
    {
        if q[k] == 47u8 {
            return false;
        }
        k = k + 1;
    }
    true
}

/// Splitting a child path back into directory and name restores it: a
/// child path is exactly the directory, a slash, and the name.
pub proof fn lemma_join_child(q: Seq<u8>, d: Seq<u8>)
    requires
        spec_is_child_path(q, d),
    ensures
        spec_join(d, spec_child_name(q, d)) == q,
{
    assert(spec_join(d, spec_child_name(q, d)) =~= q);
}

/// Every name listed for `d` corresponds to a stored entry at the joined
/// path.
pub proof fn lemma_child_names_member(s: Seq<StoreEntry>, d: Seq<u8>)
    ensures
        forall|k: int|
            0 <= k < spec_child_names(s, d).len() ==> spec_contains(
                s,
                spec_join(d, spec_child_names(s, d)[k]),
            ),
    decreases s.len(),
{
    if s.len() > 0 {
        lemma_child_names_member(s.drop_last(), d);
        let prev = spec_child_names(s.drop_last(), d);
        assert forall|k: int| 0 <= k < spec_child_names(s, d).len() implies spec_contains(
            s,
            spec_join(d, spec_child_names(s, d)[k]),
        ) by {
            if k < prev.len() {
                assert(spec_child_names(s, d)[k] == prev[k]);
                assert(spec_contains(s.drop_last(), spec_join(d, prev[k])));
                let i = spec_index_of(s.drop_last(), spec_join(d, prev[k]));
                assert(0 <= i < s.len() && s[i].path@ == spec_join(d, prev[k]));
            } else {
                assert(spec_is_child_path(s.last().path@, d));
                lemma_join_child(s.last().path@, d);
                assert(0 <= s.len() - 1 < s.len() && s[s.len() - 1].path@ == spec_join(
                    d,
                    spec_child_names(s, d)[k],
                ));
            }
        }
    }
}

/// A witness entry at index `i` pins down the chosen index: with distinct
/// paths, the entry with a given path is unique.
proof fn lemma_at_index(s: Seq<StoreEntry>, i: int)
    requires
        wf_entries(s),
        0 <= i < s.len(),
    ensures
        spec_contains(s, s[i].path@),
        spec_index_of(s, s[i].path@) == i,
        spec_at(s, s[i].path@) == s[i],
{
    assert(spec_contains(s, s[i].path@)) by {
        assert(0 <= i < s.len() && s[i].path@ == s[i].path@);
    }
    let j = spec_index_of(s, s[i].path@);
    assert(0 <= j < s.len() && s[j].path@ == s[i].path@);
    if j != i {
        assert(false);
    }
}

/// Appending an entry with a fresh path keeps the paths distinct and
/// inserts one binding into the map.
proof fn lemma_map_push(s: Seq<StoreEntry>, e: StoreEntry)
    requires
        wf_entries(s),
        !spec_contains(s, e.path@),
    ensures
        wf_entries(s.push(e)),
        spec_map_of(s.push(e)) == spec_map_of(s).insert(e.path@, (e.kind, e.content@)),
{
    let s2 = s.push(e);
    assert forall|i: int, j: int| 0 <= i < j < s2.len() implies s2[i].path@ != s2[j].path@ by {
        if j == s.len() {
            if s2[i].path@ == e.path@ {
                assert(spec_contains(s, e.path@)) by {
                    assert(0 <= i < s.len() && s[i].path@ == e.path@);
                }
            }
        }
    }
    assert forall|p: Seq<u8>| spec_contains(s2, p) == (spec_contains(s, p) || p
        == e.path@) by {
        if spec_contains(s, p) {
            let i = spec_index_of(s, p);
            assert(0 <= i < s2.len() && s2[i].path@ == p);
        }
        if p == e.path@ {
            assert(0 <= s.len() < s2.len() && s2[s.len() as int].path@ == p);
        }
        if spec_contains(s2, p) && p != e.path@ {
            let i = spec_index_of(s2, p);
            assert(0 <= i < s.len() && s[i].path@ == p);
        }
    }
    assert forall|p: Seq<u8>| #[trigger] spec_contains(s2, p) implies (spec_at(s2, p).kind,
    spec_at(s2, p).content@) == spec_map_of(s).insert(e.path@, (e.kind, e.content@))[p] by {
        let i = spec_index_of(s2, p);
        assert(0 <= i < s2.len() && s2[i].path@ == p);
        if p == e.path@ {
            lemma_at_index(s2, s.len() as int);
        } else {
            assert(0 <= i < s.len() && s[i].path@ == p);
            lemma_at_index(s, i);
        }
    }
    assert(spec_map_of(s2) =~= spec_map_of(s).insert(e.path@, (e.kind, e.content@)));
}

/// Replacing the entry at `i` by one with the same path keeps the paths
/// distinct and overwrites that path's binding.
proof fn lemma_map_update(s: Seq<StoreEntry>, i: int, e: StoreEntry)
    requires
        wf_entries(s),
        0 <= i < s.len(),
        e.path@ == s[i].path@,
    ensures
        wf_entries(s.update(i, e)),
        spec_map_of(s.update(i, e)) == spec_map_of(s).insert(e.path@, (e.kind, e.content@)),
{
    let s2 = s.update(i, e);
    assert(wf_entries(s2));
    assert forall|p: Seq<u8>| spec_contains(s2, p) == spec_contains(s, p) by {
        if spec_contains(s, p) {
            let k = spec_index_of(s, p);
            assert(0 <= k < s2.len() && s2[k].path@ == p);
        }
        if spec_contains(s2, p) {
            let k = spec_index_of(s2, p);
            assert(0 <= k < s.len() && s[k].path@ == p);
        }
    }
    assert forall|p: Seq<u8>| #[trigger] spec_contains(s2, p) implies (spec_at(s2, p).kind,
    spec_at(s2, p).content@) == spec_map_of(s).insert(e.path@, (e.kind, e.content@))[p] by {
        if p == e.path@ {
            lemma_at_index(s2, i);
        } else {
            let k = spec_index_of(s2, p);
            assert(0 <= k < s2.len() && s2[k].path@ == p);
            assert(k != i);
            lemma_at_index(s2, k);
            lemma_at_index(s, k);
        }
    }
    assert(spec_map_of(s2) =~= spec_map_of(s).insert(e.path@, (e.kind, e.content@)));
}

/// Removing the entry at `i` keeps the paths distinct and deletes that
/// path's binding.
proof fn lemma_map_remove(s: Seq<StoreEntry>, i: int)
    requires
        wf_entries(s),
        0 <= i < s.len(),
    ensures
        wf_entries(s.remove(i)),
        spec_map_of(s.remove(i)) == spec_map_of(s).remove(s[i].path@),
{
    let s2 = s.remove(i);
    assert(s2.len() == s.len() - 1);
    assert forall|k: int| 0 <= k < s2.len() implies s2[k] == (if k < i {
        s[k]
    } else {
        s[k + 1]
    }) by {}
    assert(wf_entries(s2)) by {
        assert forall|a: int, b: int| 0 <= a < b < s2.len() implies s2[a].path@ != s2[b].path@ by {
            let a0 = if a < i {
                a
            } else {
                a + 1
            };
            let b0 = if b < i {
                b
            } else {
                b + 1
            };
            assert(s2[a] == s[a0] && s2[b] == s[b0]);
            assert(0 <= a0 < b0 < s.len());
        }
    }
    assert forall|p: Seq<u8>| spec_contains(s2, p) == (spec_contains(s, p) && p != s[i].path@) by {
        if spec_contains(s2, p) {
            let k = spec_index_of(s2, p);
            let k0 = if k < i {
                k
            } else {
                k + 1
            };
            assert(0 <= k0 < s.len() && s[k0].path@ == p);
            assert(k0 != i);
            if p == s[i].path@ {
                assert(false);
            }
        }
        if spec_contains(s, p) && p != s[i].path@ {
            let k = spec_index_of(s, p);
            assert(0 <= k < s.len() && s[k].path@ == p);
            assert(k != i);
            if k < i {
                assert(0 <= k < s2.len() && s2[k].path@ == p);
            } else {
                assert(0 <= k - 1 < s2.len() && s2[k - 1].path@ == p);
            }
        }
    }
    assert forall|p: Seq<u8>| #[trigger] spec_contains(s2, p) implies (spec_at(s2, p).kind,
    spec_at(s2, p).content@) == spec_map_of(s)[p] by {
        let k = spec_index_of(s2, p);
        assert(0 <= k < s2.len() && s2[k].path@ == p);
        lemma_at_index(s2, k);
        let k0 = if k < i {
            k
        } else {
            k + 1
        };
        assert(s2[k] == s[k0]);
        lemma_at_index(s, k0);
    }
    assert(spec_map_of(s2) =~= spec_map_of(s).remove(s[i].path@));
}

impl View for MemStore {
    type V = Map<Seq<u8>, (EntryKind, Seq<u8>)>;

    /// The store as a map from path to (kind, content).
    open spec fn view(&self) -> Map<Seq<u8>, (EntryKind, Seq<u8>)> {
        spec_map_of(self.entries@)
    }
}

impl MemStore {
    /// No two entries share a path.
    pub open spec fn wf(self) -> bool {
        wf_entries(self.entries@)
    }

    /// An empty store.
    pub fn new() -> (r: MemStore)
        ensures
            r.wf(),
            r@ == Map::<Seq<u8>, (EntryKind, Seq<u8>)>::empty(),
    {
        let r = MemStore { entries: Vec::new() };
        proof {
            assert forall|p: Seq<u8>| !spec_contains(r.entries@, p) by {}
            assert(spec_map_of(r.entries@) =~= Map::<Seq<u8>, (EntryKind, Seq<u8>)>::empty());
        }
        r
    }

    /// The index of the entry with the given path, if any.
    fn find(&self, path: &[u8]) -> (r: Option<usize>)
        requires
            self.wf(),
        ensures
            match r {
                Option::Some(i) => 0 <= i < self.entries@.len() && self.entries@[i as int].path@
                    == path@ && spec_contains(self.entries@, path@) && spec_index_of(
                    self.entries@,
                    path@,
                ) == i,
                Option::None => !spec_contains(self.entries@, path@),
            },
    {
        let mut i: usize = 0;
        while i < self.entries.len()
            invariant
                self.wf(),
                0 <= i <= self.entries@.len(),
                forall|j: int| 0 <= j < i ==> self.entries@[j].path@ != path@,
            decreases self.entries@.len() - i,
        {
            if bytes_eq(self.entries[i].path.as_slice(), path) {
                proof {
                    lemma_at_index(self.entries@, i as int);
                }
                return Option::Some(i);
            }
            i = i + 1;
        }
        Option::None
    }

    /// What a stat of `path` reports: a zeroed metadata record of the
    /// entry's kind when the path is present, `EntityNotFound` otherwise.
    pub open spec fn spec_stat(self, p: Seq<u8>) -> Result<Metadata, FsError> {
        if self@.dom().contains(p) {
            Result::Ok(spec_zeroed(self@[p].0))
        } else {
            Result::Err(FsError::EntityNotFound)
        }
    }

    /// Reports the kind of the object at `path`, with zeroed timing and
    /// size fields, or `EntityNotFound`.
    pub fn stat(&self, path: &[u8]) -> (r: Result<Metadata, FsError>)
        requires
            self.wf(),
        ensures
            r == self.spec_stat(path@),
    {
        match self.find(path) {
            Option::Some(i) => Result::Ok(Metadata::zeroed(self.entries[i].kind)),
            Option::None => Result::Err(FsError::EntityNotFound),
        }
    }

    /// What reading `path` yields: the content when the path names a
    /// file, `NotAFile` when it names anything else, `EntityNotFound`
    /// when it is absent.
    pub open spec fn spec_read_file(self, p: Seq<u8>) -> Result<Seq<u8>, FsError> {
        if !self@.dom().contains(p) {
            Result::Err(FsError::EntityNotFound)
        } else if self@[p].0 != EntryKind::File {
            Result::Err(FsError::NotAFile)
        } else {
            Result::Ok(self@[p].1)
        }
    }

    /// Reads the whole content of the file at `path`.
    pub fn read_file(&self, path: &[u8]) -> (r: Result<Vec<u8>, FsError>)
        requires
            self.wf(),
        ensures
            match r {
                Result::Ok(c) => self.spec_read_file(path@) == Result::Ok::<Seq<u8>, FsError>(c@),
                Result::Err(e) => self.spec_read_file(path@) == Result::Err::<Seq<u8>, FsError>(e),
            },
    {
        match self.find(path) {
            Option::Some(i) => {
                if !matches!(self.entries[i].kind, EntryKind::File) {
                    Result::Err(FsError::NotAFile)
                } else {
                    Result::Ok(to_owned_bytes(self.entries[i].content.as_slice()))
                }
            },
            Option::None => Result::Err(FsError::EntityNotFound),
        }
    }

    /// What a whole-file write to `path` does: rejected with `NotAFile`
    /// when the path names something other than a file; otherwise the
    /// path is bound to a file with exactly the new content, created if
    /// absent.
    pub open spec fn spec_write_file(self, p: Seq<u8>, c: Seq<u8>) -> Result<
        Map<Seq<u8>, (EntryKind, Seq<u8>)>,
        FsError,
    > {
        if self@.dom().contains(p) && self@[p].0 != EntryKind::File {
            Result::Err(FsError::NotAFile)
        } else {
            Result::Ok(self@.insert(p, (EntryKind::File, c)))
        }
    }

    /// Overwrites the file at `path` with `content`, creating it if
    /// absent; on failure the store is unchanged.
    pub fn write_file(&mut self, path: &[u8], content: &[u8]) -> (r: Result<(), FsError>)
        requires
            old(self).wf(),
        ensures
            final(self).wf(),
            match r {
                Result::Ok(_) => old(self).spec_write_file(path@, content@) == Result::Ok::<
                    _,
                    FsError,
                >(final(self)@),
                Result::Err(e) => old(self).spec_write_file(path@, content@) == Result::Err::<
                    Map<Seq<u8>, (EntryKind, Seq<u8>)>,
                    _,
                >(e) && *final(self) == *old(self),
            },
    {
        let e = StoreEntry {
            path: to_owned_bytes(path),
            kind: EntryKind::File,
            content: to_owned_bytes(content),
        };
        match self.find(path) {
            Option::Some(i) => {
                if !matches!(self.entries[i].kind, EntryKind::File) {
                    return Result::Err(FsError::NotAFile);
                }
                proof {
                    lemma_map_update(self.entries@, i as int, e);
                }
                self.entries.set(i, e);
                Result::Ok(())
            },
            Option::None => {
                proof {
                    lemma_map_push(self.entries@, e);
                }
                self.entries.push(e);
                Result::Ok(())
            },
        }
    }

    /// What deleting `path` does: `EntityNotFound` when absent,
    /// `NotAFile` when the path names a directory, otherwise the binding
    /// is removed.
    pub open spec fn spec_unlink(self, p: Seq<u8>) -> Result<
        Map<Seq<u8>, (EntryKind, Seq<u8>)>,
        FsError,
    > {
        if !self@.dom().contains(p) {
            Result::Err(FsError::EntityNotFound)
        } else if self@[p].0 == EntryKind::Directory {
            Result::Err(FsError::NotAFile)
        } else {
            Result::Ok(self@.remove(p))
        }
    }

    /// Deletes the file or symlink at `path`; on failure the store is
    /// unchanged.
    pub fn unlink(&mut self, path: &[u8]) -> (r: Result<(), FsError>)
        requires
            old(self).wf(),
        ensures
            final(self).wf(),
            match r {
                Result::Ok(_) => old(self).spec_unlink(path@) == Result::Ok::<_, FsError>(
                    final(self)@,
                ),
                Result::Err(e) => old(self).spec_unlink(path@) == Result::Err::<
                    Map<Seq<u8>, (EntryKind, Seq<u8>)>,
                    _,
                >(e) && *final(self) == *old(self),
            },
    {
        match self.find(path) {
            Option::Some(i) => {
                if matches!(self.entries[i].kind, EntryKind::Directory) {
                    return Result::Err(FsError::NotAFile);
                }
                proof {
                    lemma_map_remove(self.entries@, i as int);
                }
                self.entries.remove(i);
                Result::Ok(())
            },
            Option::None => Result::Err(FsError::EntityNotFound),
        }
    }

    /// What creating directory `path` does: `AlreadyExists` when the path
    /// is present in any kind, otherwise a directory binding is added.
    pub open spec fn spec_mkdir(self, p: Seq<u8>) -> Result<
        Map<Seq<u8>, (EntryKind, Seq<u8>)>,
        FsError,
    > {
        if self@.dom().contains(p) {
            Result::Err(FsError::AlreadyExists)
        } else {
            Result::Ok(self@.insert(p, (EntryKind::Directory, Seq::empty())))
        }
    }

    /// Creates a directory at `path`; on failure the store is unchanged.
    pub fn mkdir(&mut self, path: &[u8]) -> (r: Result<(), FsError>)
        requires
            old(self).wf(),
        ensures
            final(self).wf(),
            match r {
                Result::Ok(_) => old(self).spec_mkdir(path@) == Result::Ok::<_, FsError>(
                    final(self)@,
                ),
                Result::Err(e) => old(self).spec_mkdir(path@) == Result::Err::<
                    Map<Seq<u8>, (EntryKind, Seq<u8>)>,
                    _,
                >(e) && *final(self) == *old(self),
            },
    {
        match self.find(path) {
            Option::Some(_) => Result::Err(FsError::AlreadyExists),
            Option::None => {
                let e = StoreEntry {
                    path: to_owned_bytes(path),
                    kind: EntryKind::Directory,
                    content: Vec::new(),
                };
                proof {
                    lemma_map_push(self.entries@, e);
                }
                self.entries.push(e);
                Result::Ok(())
            },
        }
    }

    /// Some stored path names a direct child of `d`.
    pub open spec fn spec_has_child(self, d: Seq<u8>) -> bool {
        exists|q: Seq<u8>| #[trigger] self@.dom().contains(q) && spec_is_child_path(q, d)
    }

    /// Decides whether the directory at `d` has any child entry.
    fn has_child(&self, d: &[u8]) -> (r: bool)
        requires
            self.wf(),
        ensures
            r == self.spec_has_child(d@),
    {
        let mut i: usize = 0;
        while i < self.entries.len()
            invariant
                self.wf(),
                0 <= i <= self.entries@.len(),
                forall|j: int| 0 <= j < i ==> !spec_is_child_path(self.entries@[j].path@, d@),
            decreases self.entries@.len() - i,
        {
            if is_child_path(self.entries[i].path.as_slice(), d) {
                proof {
                    lemma_at_index(self.entries@, i as int);
                    assert(self@.dom().contains(self.entries@[i as int].path@)
                        && spec_is_child_path(self.entries@[i as int].path@, d@));
                }
                return true;
            }
            i = i + 1;
        }
        proof {
            assert forall|q: Seq<u8>| #[trigger] self@.dom().contains(q) implies !spec_is_child_path(
                q,
                d@,
            ) by {
                let j = spec_index_of(self.entries@, q);
                assert(0 <= j < self.entries@.len() && self.entries@[j].path@ == q);
            }
        }
        false
    }

    /// What removing directory `path` does: `EntityNotFound` when absent,
    /// `BaseNotDirectory` when the path names something other than a
    /// directory, a backend business error (surfaced as `Unknown`) when
    /// the directory still has children, otherwise the binding is
    /// removed.
    pub open spec fn spec_rmdir(self, p: Seq<u8>) -> Result<
        Map<Seq<u8>, (EntryKind, Seq<u8>)>,
        FsError,
    > {
        if !self@.dom().contains(p) {
            Result::Err(FsError::EntityNotFound)
        } else if self@[p].0 != EntryKind::Directory {
            Result::Err(FsError::BaseNotDirectory)
        } else if self.spec_has_child(p) {
            Result::Err(FsError::Unknown)
        } else {
            Result::Ok(self@.remove(p))
        }
    }

    /// Removes the empty directory at `path`; on failure the store is
    /// unchanged.
    pub fn rmdir(&mut self, path: &[u8]) -> (r: Result<(), FsError>)
        requires
            old(self).wf(),
        ensures
            final(self).wf(),
            match r {
                Result::Ok(_) => old(self).spec_rmdir(path@) == Result::Ok::<_, FsError>(
                    final(self)@,
                ),
                Result::Err(e) => old(self).spec_rmdir(path@) == Result::Err::<
                    Map<Seq<u8>, (EntryKind, Seq<u8>)>,
                    _,
                >(e) && *final(self) == *old(self),
            },
    {
        match self.find(path) {
            Option::Some(i) => {
                if !matches!(self.entries[i].kind, EntryKind::Directory) {
                    return Result::Err(FsError::BaseNotDirectory);
                }
                if self.has_child(path) {
                    return Result::Err(FsError::Unknown);
                }
                proof {
                    lemma_map_remove(self.entries@, i as int);
                }
                self.entries.remove(i);
                Result::Ok(())
            },
            Option::None => Result::Err(FsError::EntityNotFound),
        }
    }

    /// What listing `path` yields: `EntityNotFound` when absent,
    /// `BaseNotDirectory` when the path names something other than a
    /// directory, otherwise the names of the direct children in table
    /// order.
    pub open spec fn spec_readdir(self, p: Seq<u8>) -> Result<Seq<Seq<u8>>, FsError> {
        if !self@.dom().contains(p) {
            Result::Err(FsError::EntityNotFound)
        } else if self@[p].0 != EntryKind::Directory {
            Result::Err(FsError::BaseNotDirectory)
        } else {
            Result::Ok(spec_child_names(self.entries@, p))
        }
    }

    /// Lists the names of the direct children of the directory at `path`.
    pub fn readdir(&self, path: &[u8]) -> (r: Result<Vec<Vec<u8>>, FsError>)
        requires
            self.wf(),
        ensures
            match r {
                Result::Ok(names) => self.spec_readdir(path@) == Result::Ok::<_, FsError>(
                    views_of(names@),
                ),
                Result::Err(e) => self.spec_readdir(path@) == Result::Err::<Seq<Seq<u8>>, _>(e),
            },
    {
        match self.find(path) {
            Option::Some(i) => {
                if !matches!(self.entries[i].kind, EntryKind::Directory) {
                    return Result::Err(FsError::BaseNotDirectory);
                }
            },
            Option::None => {
                return Result::Err(FsError::EntityNotFound);
            },
        }
        let mut names: Vec<Vec<u8>> = Vec::new();
        let mut i: usize = 0;
        while i < self.entries.len()
            invariant
                self.wf(),
                0 <= i <= self.entries@.len(),
                views_of(names@) == spec_child_names(self.entries@.take(i as int), path@),
            decreases self.entries@.len() - i,
        {
            let ghost pre = names@;
            let q = self.entries[i].path.as_slice();
            let qlen = q.len();
            if is_child_path(q, path) {
                proof {
                    assert(path@.len() + 1 < qlen);
                }
                let name = sub_bytes(q, path.len() + 1, qlen);
                names.push(name);
            }
            proof {
                let t1 = self.entries@.take(i + 1 as int);
                assert(t1.drop_last() =~= self.entries@.take(i as int));
                assert(t1.last() == self.entries@[i as int]);
                assert(spec_child_names(t1, path@) == spec_child_names(t1.drop_last(), path@) + (
                if spec_is_child_path(t1.last().path@, path@) {
                    seq![spec_child_name(t1.last().path@, path@)]
                } else {
                    Seq::<Seq<u8>>::empty()
                }));
                assert(views_of(names@) =~= spec_child_names(t1, path@));
            }
            i = i + 1;
        }
        proof {
            assert(self.entries@.take(self.entries@.len() as int) =~= self.entries@);
        }
        Result::Ok(names)
    }

    /// What renaming does: `EntityNotFound` when the source is absent;
    /// otherwise the source binding moves to the destination path,
    /// replacing whatever was bound there. Only the named entry moves:
    /// children of a renamed directory keep their stored paths.
    pub open spec fn spec_rename(self, from: Seq<u8>, to: Seq<u8>) -> Result<
        Map<Seq<u8>, (EntryKind, Seq<u8>)>,
        FsError,
    > {
        if !self@.dom().contains(from) {
            Result::Err(FsError::EntityNotFound)
        } else {
            Result::Ok(self@.remove(from).insert(to, self@[from]))
        }
    }

    /// Renames the entry at `from` to `to`, replacing any entry already
    /// at `to`; on failure the store is unchanged.
    pub fn rename(&mut self, from: &[u8], to: &[u8]) -> (r: Result<(), FsError>)
        requires
            old(self).wf(),
        ensures
            final(self).wf(),
            match r {
                Result::Ok(_) => old(self).spec_rename(from@, to@) == Result::Ok::<_, FsError>(
                    final(self)@,
                ),
                Result::Err(e) => old(self).spec_rename(from@, to@) == Result::Err::<
                    Map<Seq<u8>, (EntryKind, Seq<u8>)>,
                    _,
                >(e) && *final(self) == *old(self),
            },
    {
        let i = match self.find(from) {
            Option::Some(i) => i,
            Option::None => {
                return Result::Err(FsError::EntityNotFound);
            },
        };
        proof {
            lemma_at_index(self.entries@, i as int);
            lemma_map_remove(self.entries@, i as int);
        }
        let e = self.entries.remove(i);
        let ghost mid = self@;
        match self.find(to) {
            Option::Some(j) => {
                proof {
                    lemma_map_remove(self.entries@, j as int);
                }
                self.entries.remove(j);
            },
            Option::None => {},
        }
        proof {
            assert(self@ =~= mid.remove(to@));
        }
        let e2 = StoreEntry { path: to_owned_bytes(to), kind: e.kind, content: e.content };
        proof {
            lemma_map_push(self.entries@, e2);
        }
        self.entries.push(e2);
        proof {
            assert(self@ =~= old(self)@.remove(from@).insert(to@, old(self)@[from@]));
        }
        Result::Ok(())
    }
}

} // verus!
