//! The virtual file's buffer and cursor: read, write, seek, and the
//! handle-level getters.

use vfs_core::error::FsError;
use vfs_core::file::{SeekFrom, VirtualFile};
use vfs_core::options::{Existence, OpenOptions};

fn file_with(content: &[u8]) -> VirtualFile {
    let o = OpenOptions::new().read(true).write(true).create(true);
    VirtualFile::open(b"f".to_vec(), &o, Existence::Present(content.to_vec())).unwrap()
}

#[test]
fn read_advances_the_cursor() {
    let mut f = file_with(b"abc");
    assert_eq!(f.read(2), b"ab".to_vec());
    assert_eq!(f.cursor, 2);
    assert_eq!(f.read(10), b"c".to_vec());
    assert_eq!(f.cursor, 3);
    assert_eq!(f.read(10), Vec::<u8>::new());
}

#[test]
fn read_to_end_returns_the_rest() {
    let mut f = file_with(b"hello world");
    assert_eq!(f.read(6), b"hello ".to_vec());
    assert_eq!(f.read_to_end(), b"world".to_vec());
    assert_eq!(f.read_to_end(), Vec::<u8>::new());
}

#[test]
fn write_overwrites_at_the_cursor() {
    let mut f = file_with(b"abcdef");
    f.seek(SeekFrom::Start(2)).unwrap();
    assert_eq!(f.write(b"XY"), 2);
    assert_eq!(f.buffer, b"abXYef".to_vec());
    assert_eq!(f.cursor, 4);
}

#[test]
fn write_extends_the_buffer() {
    let mut f = file_with(b"abc");
    f.seek(SeekFrom::End(0)).unwrap();
    assert_eq!(f.write(b"def"), 3);
    assert_eq!(f.buffer, b"abcdef".to_vec());
}

#[test]
fn write_past_the_end_zero_fills_the_gap() {
    let mut f = file_with(b"");
    f.seek(SeekFrom::Start(3)).unwrap();
    assert_eq!(f.write(b"x"), 1);
    assert_eq!(f.buffer, vec![0u8, 0u8, 0u8, b'x']);
    assert_eq!(f.cursor, 4);
}

#[test]
fn read_past_the_end_returns_nothing() {
    let mut f = file_with(b"ab");
    f.seek(SeekFrom::Start(10)).unwrap();
    assert_eq!(f.read(4), Vec::<u8>::new());
    assert_eq!(f.cursor, 10);
}

#[test]
fn seek_modes() {
    let mut f = file_with(b"abcde");
    assert_eq!(f.seek(SeekFrom::Start(4)), Ok(4));
    assert_eq!(f.seek(SeekFrom::Current(-2)), Ok(2));
    assert_eq!(f.seek(SeekFrom::End(-1)), Ok(4));
    assert_eq!(f.seek(SeekFrom::End(2)), Ok(7));
}

#[test]
fn seek_before_the_start_is_rejected() {
    let mut f = file_with(b"abc");
    assert_eq!(f.seek(SeekFrom::Current(-1)), Err(FsError::Unknown));
    assert_eq!(f.cursor, 0);
    assert_eq!(f.seek(SeekFrom::End(-4)), Err(FsError::Unknown));
    assert_eq!(f.cursor, 0);
}

#[test]
fn set_len_is_not_supported() {
    let mut f = file_with(b"abc");
    assert_eq!(f.set_len(10), Err(FsError::Unknown));
    assert_eq!(f.buffer, b"abc".to_vec());
}

#[test]
fn snapshot_fields_are_zero() {
    let f = file_with(b"abc");
    assert_eq!(f.size(), 0);
    assert_eq!(f.last_accessed(), 0);
    assert_eq!(f.last_modified(), 0);
    assert_eq!(f.created_time(), 0);
}
