//! The error-mapping table: one crafted value per named prefix, plus
//! unmatched and non-inspectable values that must default to `Unknown`.

use vfs_core::error::{classify_error_message, classify_error_signal, FsError};

#[test]
fn enoent_maps_to_entity_not_found() {
    let msg = b"ENOENT: no such file or directory, stat '/missing'";
    assert_eq!(classify_error_message(msg), FsError::EntityNotFound);
}

#[test]
fn enotdir_maps_to_base_not_directory() {
    let msg = b"ENOTDIR: not a directory, readdir '/a/file/b'";
    assert_eq!(classify_error_message(msg), FsError::BaseNotDirectory);
}

#[test]
fn eisdir_maps_to_not_a_file() {
    let msg = b"EISDIR: illegal operation on a directory, read";
    assert_eq!(classify_error_message(msg), FsError::NotAFile);
}

#[test]
fn unmatched_message_maps_to_unknown() {
    let msg = b"EACCES: permission denied, open '/etc/shadow'";
    assert_eq!(classify_error_message(msg), FsError::Unknown);
}

#[test]
fn bare_prefix_is_enough() {
    assert_eq!(classify_error_message(b"ENOENT"), FsError::EntityNotFound);
    assert_eq!(classify_error_message(b"ENOTDIR"), FsError::BaseNotDirectory);
    assert_eq!(classify_error_message(b"EISDIR"), FsError::NotAFile);
}

#[test]
fn truncated_prefix_is_not_enough() {
    assert_eq!(classify_error_message(b"ENOEN"), FsError::Unknown);
    assert_eq!(classify_error_message(b""), FsError::Unknown);
}

#[test]
fn prefix_must_sit_at_the_start() {
    assert_eq!(classify_error_message(b"error: ENOENT"), FsError::Unknown);
}

#[test]
fn non_inspectable_signal_maps_to_unknown() {
    assert_eq!(classify_error_signal(None), FsError::Unknown);
}

#[test]
fn inspectable_signal_uses_the_message() {
    let msg: &[u8] = b"ENOENT: gone";
    assert_eq!(classify_error_signal(Some(msg)), FsError::EntityNotFound);
}
