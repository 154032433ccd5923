//! The open-option resolver: normalization of the flag set and every
//! branch of the existence/create/write/truncate interaction.

use vfs_core::error::FsError;
use vfs_core::file::VirtualFile;
use vfs_core::options::{resolve, Existence, OpenOptions};

fn opts() -> OpenOptions {
    OpenOptions::new()
}

#[test]
fn create_new_suppresses_create_and_truncate() {
    let o = opts().create_new(true).create(true).truncate(true).write(true);
    let n = o.normalized().unwrap();
    assert!(n.create_new);
    assert!(!n.create);
    assert!(!n.truncate);
}

#[test]
fn truncate_without_write_is_rejected() {
    let o = opts().read(true).truncate(true);
    assert_eq!(o.normalized(), Err(FsError::PermissionDenied));
}

#[test]
fn create_new_makes_truncate_without_write_acceptable() {
    let o = opts().create_new(true).truncate(true);
    assert!(o.normalized().is_ok());
}

#[test]
fn append_suppresses_write() {
    let o = opts().write(true).append(true);
    let n = o.normalized().unwrap();
    assert!(n.append);
    assert!(!n.write);
}

#[test]
fn absent_read_only_is_permission_denied() {
    let o = opts().read(true);
    let r = resolve(&o, Existence::Absent);
    assert_eq!(r.err().unwrap(), FsError::PermissionDenied);
}

#[test]
fn present_create_new_is_already_exists() {
    let o = opts().create_new(true).write(true);
    let r = resolve(&o, Existence::Present(b"abc".to_vec()));
    assert_eq!(r.err().unwrap(), FsError::AlreadyExists);
}

#[test]
fn absent_create_write_truncate_gives_empty_buffer() {
    let o = opts().create(true).write(true).truncate(true);
    let ib = resolve(&o, Existence::Absent).unwrap();
    assert!(ib.content.is_empty());
    assert_eq!(ib.cursor, 0);
}

#[test]
fn present_create_write_truncate_discards_content() {
    let o = opts().create(true).write(true).truncate(true);
    let ib = resolve(&o, Existence::Present(b"old content".to_vec())).unwrap();
    assert!(ib.content.is_empty());
    assert_eq!(ib.cursor, 0);
}

#[test]
fn present_without_truncate_hydrates_content() {
    let o = opts().read(true);
    let ib = resolve(&o, Existence::Present(b"abc".to_vec())).unwrap();
    assert_eq!(ib.content, b"abc".to_vec());
    assert_eq!(ib.cursor, 0);
}

#[test]
fn append_positions_cursor_at_end() {
    let o = opts().append(true).create(true);
    let ib = resolve(&o, Existence::Present(b"abc".to_vec())).unwrap();
    assert_eq!(ib.content, b"abc".to_vec());
    assert_eq!(ib.cursor, 3);
}

#[test]
fn absent_create_without_write_intent_is_permission_denied() {
    let o = opts().read(true).create(true);
    let r = resolve(&o, Existence::Absent);
    assert_eq!(r.err().unwrap(), FsError::PermissionDenied);
}

#[test]
fn absent_create_with_append_is_permitted() {
    let o = opts().create(true).append(true);
    let ib = resolve(&o, Existence::Absent).unwrap();
    assert!(ib.content.is_empty());
    assert_eq!(ib.cursor, 0);
}

#[test]
fn open_binds_path_and_file_metadata() {
    let o = opts().create(true).write(true);
    let f = VirtualFile::open(b"notes.txt".to_vec(), &o, Existence::Absent).unwrap();
    assert_eq!(f.path, b"notes.txt".to_vec());
    assert!(f.buffer.is_empty());
    assert_eq!(f.cursor, 0);
    assert_eq!(f.metadata.kind, vfs_core::meta::EntryKind::File);
}
