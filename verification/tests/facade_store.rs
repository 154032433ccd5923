//! The facade over the reference backend: directory operations, the
//! open/flush lifecycle, and the listing snapshot.

use vfs_core::error::FsError;
use vfs_core::facade::{
    create_dir, metadata, open, read_dir, remove_dir, remove_file, rename, symlink_metadata,
};
use vfs_core::file::SeekFrom;
use vfs_core::meta::EntryKind;
use vfs_core::options::OpenOptions;
use vfs_core::store::{MemStore, StoreEntry};

fn write_opts() -> OpenOptions {
    OpenOptions::new().write(true).create(true)
}

fn read_opts() -> OpenOptions {
    OpenOptions::new().read(true)
}

#[test]
fn open_absent_read_only_is_permission_denied() {
    let store = MemStore::new();
    let r = open(&store, b"missing", &read_opts());
    assert_eq!(r.err().unwrap(), FsError::PermissionDenied);
}

#[test]
fn open_present_create_new_is_already_exists() {
    let mut store = MemStore::new();
    let f = open(&store, b"f", &write_opts()).unwrap();
    f.flush(&mut store).unwrap();
    let o = OpenOptions::new().create_new(true).write(true);
    assert_eq!(open(&store, b"f", &o).err().unwrap(), FsError::AlreadyExists);
}

#[test]
fn open_a_directory_is_not_a_file() {
    let mut store = MemStore::new();
    create_dir(&mut store, b"d").unwrap();
    assert_eq!(open(&store, b"d", &read_opts()).err().unwrap(), FsError::NotAFile);
}

#[test]
fn truncate_discards_persisted_content() {
    let mut store = MemStore::new();
    let mut f = open(&store, b"f", &write_opts()).unwrap();
    f.write(b"old content");
    f.flush(&mut store).unwrap();
    let o = OpenOptions::new().create(true).write(true).truncate(true);
    let g = open(&store, b"f", &o).unwrap();
    assert!(g.buffer.is_empty());
    assert_eq!(g.cursor, 0);
}

#[test]
fn append_then_flush_extends_the_file() {
    let mut store = MemStore::new();
    let mut f = open(&store, b"f", &write_opts()).unwrap();
    f.write(b"abc");
    f.flush(&mut store).unwrap();

    let o = OpenOptions::new().append(true).create(true);
    let mut g = open(&store, b"f", &o).unwrap();
    assert_eq!(g.cursor, 3);
    g.write(b"d");
    g.flush(&mut store).unwrap();

    let mut h = open(&store, b"f", &read_opts()).unwrap();
    assert_eq!(h.read_to_end(), b"abcd".to_vec());
}

#[test]
fn write_flush_reopen_round_trip() {
    let bytes: Vec<u8> = (0u8..=255u8).collect();
    let mut store = MemStore::new();
    let mut f = open(&store, b"blob", &write_opts()).unwrap();
    assert_eq!(f.write(bytes.as_slice()), bytes.len());
    f.flush(&mut store).unwrap();

    let mut g = open(&store, b"blob", &read_opts()).unwrap();
    assert_eq!(g.read_to_end(), bytes);
}

#[test]
fn flush_twice_is_idempotent() {
    let mut store = MemStore::new();
    let mut f = open(&store, b"f", &write_opts()).unwrap();
    f.write(b"stable");
    f.flush(&mut store).unwrap();
    let snapshot_before = store.read_file(b"f").unwrap();
    assert_eq!(f.flush(&mut store), Ok(()));
    let snapshot_after = store.read_file(b"f").unwrap();
    assert_eq!(snapshot_before, snapshot_after);
    assert_eq!(snapshot_after, b"stable".to_vec());
}

#[test]
fn flush_failure_leaves_the_buffer_retryable() {
    let mut store = MemStore::new();
    create_dir(&mut store, b"f").unwrap();
    let o = OpenOptions::new().write(true);
    let mut f = vfs_core::file::VirtualFile::open(
        b"f".to_vec(),
        &o,
        vfs_core::options::Existence::Present(Vec::new()),
    )
    .unwrap();
    f.write(b"data");
    assert_eq!(f.flush(&mut store), Err(FsError::NotAFile));
    assert_eq!(f.buffer, b"data".to_vec());
    assert_eq!(f.flush(&mut store), Err(FsError::NotAFile));
}

#[test]
fn read_dir_lists_children_with_kinds() {
    let mut store = MemStore::new();
    create_dir(&mut store, b"d").unwrap();
    create_dir(&mut store, b"d/sub").unwrap();
    let f = open(&store, b"d/file", &write_opts()).unwrap();
    f.flush(&mut store).unwrap();

    let listing = read_dir(&store, b"d").unwrap();
    assert_eq!(listing.len(), 2);
    assert_eq!(listing[0].name, b"sub".to_vec());
    assert_eq!(listing[0].metadata.kind, EntryKind::Directory);
    assert_eq!(listing[1].name, b"file".to_vec());
    assert_eq!(listing[1].metadata.kind, EntryKind::File);
}

#[test]
fn read_dir_is_not_recursive() {
    let mut store = MemStore::new();
    create_dir(&mut store, b"d").unwrap();
    create_dir(&mut store, b"d/sub").unwrap();
    let f = open(&store, b"d/sub/deep", &write_opts()).unwrap();
    f.flush(&mut store).unwrap();

    let listing = read_dir(&store, b"d").unwrap();
    assert_eq!(listing.len(), 1);
    assert_eq!(listing[0].name, b"sub".to_vec());
}

#[test]
fn read_dir_errors() {
    let mut store = MemStore::new();
    assert_eq!(read_dir(&store, b"missing").err().unwrap(), FsError::EntityNotFound);
    let f = open(&store, b"f", &write_opts()).unwrap();
    f.flush(&mut store).unwrap();
    assert_eq!(read_dir(&store, b"f").err().unwrap(), FsError::BaseNotDirectory);
}

#[test]
fn listing_is_a_snapshot() {
    let mut store = MemStore::new();
    create_dir(&mut store, b"d").unwrap();
    let f = open(&store, b"d/first", &write_opts()).unwrap();
    f.flush(&mut store).unwrap();

    let listing = read_dir(&store, b"d").unwrap();
    assert_eq!(listing.len(), 1);

    let g = open(&store, b"d/second", &write_opts()).unwrap();
    g.flush(&mut store).unwrap();

    assert_eq!(listing.len(), 1);
    assert!(listing.iter().all(|e| e.name != b"second".to_vec()));

    let fresh = read_dir(&store, b"d").unwrap();
    assert_eq!(fresh.len(), 2);
}

#[test]
fn remove_dir_requires_empty() {
    let mut store = MemStore::new();
    create_dir(&mut store, b"d").unwrap();
    let f = open(&store, b"d/f", &write_opts()).unwrap();
    f.flush(&mut store).unwrap();
    assert_eq!(remove_dir(&mut store, b"d").err().unwrap(), FsError::Unknown);
    remove_file(&mut store, b"d/f").unwrap();
    assert_eq!(remove_dir(&mut store, b"d"), Ok(()));
    assert_eq!(metadata(&store, b"d").err().unwrap(), FsError::EntityNotFound);
}

#[test]
fn remove_dir_errors() {
    let mut store = MemStore::new();
    assert_eq!(remove_dir(&mut store, b"missing").err().unwrap(), FsError::EntityNotFound);
    let f = open(&store, b"f", &write_opts()).unwrap();
    f.flush(&mut store).unwrap();
    assert_eq!(remove_dir(&mut store, b"f").err().unwrap(), FsError::BaseNotDirectory);
}

#[test]
fn create_dir_twice_already_exists() {
    let mut store = MemStore::new();
    create_dir(&mut store, b"d").unwrap();
    assert_eq!(create_dir(&mut store, b"d").err().unwrap(), FsError::AlreadyExists);
}

#[test]
fn remove_file_errors() {
    let mut store = MemStore::new();
    assert_eq!(remove_file(&mut store, b"missing").err().unwrap(), FsError::EntityNotFound);
    create_dir(&mut store, b"d").unwrap();
    assert_eq!(remove_file(&mut store, b"d").err().unwrap(), FsError::NotAFile);
}

#[test]
fn rename_moves_content() {
    let mut store = MemStore::new();
    let mut f = open(&store, b"a", &write_opts()).unwrap();
    f.write(b"payload");
    f.flush(&mut store).unwrap();

    rename(&mut store, b"a", b"b").unwrap();
    assert_eq!(metadata(&store, b"a").err().unwrap(), FsError::EntityNotFound);
    let mut g = open(&store, b"b", &read_opts()).unwrap();
    assert_eq!(g.read_to_end(), b"payload".to_vec());
}

#[test]
fn rename_overwrites_the_destination() {
    let mut store = MemStore::new();
    let mut f = open(&store, b"a", &write_opts()).unwrap();
    f.write(b"new");
    f.flush(&mut store).unwrap();
    let mut g = open(&store, b"b", &write_opts()).unwrap();
    g.write(b"old");
    g.flush(&mut store).unwrap();

    rename(&mut store, b"a", b"b").unwrap();
    let mut h = open(&store, b"b", &read_opts()).unwrap();
    assert_eq!(h.read_to_end(), b"new".to_vec());
}

#[test]
fn rename_missing_source() {
    let mut store = MemStore::new();
    assert_eq!(rename(&mut store, b"a", b"b").err().unwrap(), FsError::EntityNotFound);
}

#[test]
fn unlink_through_the_handle_keeps_the_buffer() {
    let mut store = MemStore::new();
    let mut f = open(&store, b"f", &write_opts()).unwrap();
    f.write(b"bytes");
    f.flush(&mut store).unwrap();

    f.unlink(&mut store).unwrap();
    assert_eq!(metadata(&store, b"f").err().unwrap(), FsError::EntityNotFound);
    assert_eq!(f.buffer, b"bytes".to_vec());
}

#[test]
fn symlink_metadata_reports_symlinks() {
    let mut store = MemStore::new();
    store.entries.push(StoreEntry {
        path: b"link".to_vec(),
        kind: EntryKind::Symlink,
        content: Vec::new(),
    });
    assert_eq!(symlink_metadata(&store, b"link").unwrap().kind, EntryKind::Symlink);
    assert_eq!(metadata(&store, b"link").unwrap().kind, EntryKind::Symlink);
}

#[test]
fn metadata_reports_kind_with_zeroed_fields() {
    let mut store = MemStore::new();
    create_dir(&mut store, b"d").unwrap();
    let md = metadata(&store, b"d").unwrap();
    assert_eq!(md.kind, EntryKind::Directory);
    assert_eq!(md.len, 0);
    assert_eq!(md.accessed, 0);

    let f = open(&store, b"d/f", &write_opts()).unwrap();
    f.flush(&mut store).unwrap();
    assert_eq!(metadata(&store, b"d/f").unwrap().kind, EntryKind::File);
}

#[test]
fn seek_write_through_facade_file() {
    let mut store = MemStore::new();
    let mut f = open(&store, b"f", &write_opts()).unwrap();
    f.write(b"hello");
    f.seek(SeekFrom::Start(0)).unwrap();
    f.write(b"J");
    f.flush(&mut store).unwrap();
    assert_eq!(store.read_file(b"f").unwrap(), b"Jello".to_vec());
}
