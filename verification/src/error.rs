//! The closed error taxonomy and the classification of backend error
//! signals.
//!
//! Every backend failure is classified exactly once, by inspecting the
//! message prefix of the raw signal against a fixed table, and the result
//! is returned to the caller unchanged. Anything outside the table — and
//! any signal whose message cannot be inspected at all — degrades to
//! `Unknown` rather than guessing.

use vstd::prelude::*;
use crate::bytes::{is_prefix_of, starts_with};

verus! {

/// The closed set of errors surfaced to the runtime, independent of which
/// backend produced the underlying failure.
#[derive(Clone, Copy, Debug, PartialEq, Eq, Structural)]
pub enum FsError {
    EntityNotFound,
    BaseNotDirectory,
    NotAFile,
    AlreadyExists,
    PermissionDenied,
    Unknown,
}

/// The message prefix that classifies as `EntityNotFound`.
pub open spec fn prefix_enoent() -> Seq<u8> {
    seq![69u8, 78u8, 79u8, 69u8, 78u8, 84u8]
}

/// The message prefix that classifies as `BaseNotDirectory`.
pub open spec fn prefix_enotdir() -> Seq<u8> {
    seq![69u8, 78u8, 79u8, 84u8, 68u8, 73u8, 82u8]
}

/// The message prefix that classifies as `NotAFile`.
pub open spec fn prefix_eisdir() -> Seq<u8> {
    seq![69u8, 73u8, 83u8, 68u8, 73u8, 82u8]
}

/// The full classification table over a message, tried in order: the three
/// named prefixes, then `Unknown` for everything else.
pub open spec fn spec_classify_message(msg: Seq<u8>) -> FsError {
    if is_prefix_of(prefix_enoent(), msg) {
        FsError::EntityNotFound
    } else if is_prefix_of(prefix_enotdir(), msg) {
        FsError::BaseNotDirectory
    } else if is_prefix_of(prefix_eisdir(), msg) {
        FsError::NotAFile
    } else {
        FsError::Unknown
    }
}

/// Classification of a raw backend signal: a signal whose message could not
/// be inspected classifies as `Unknown`; otherwise the message decides.
pub open spec fn spec_classify_signal(msg: Option<Seq<u8>>) -> FsError {
    match msg {
        Option::Some(m) => spec_classify_message(m),
        Option::None => FsError::Unknown,
    }
}

/// Maps the message bytes of a backend failure to the error taxonomy by
/// prefix, per the fixed table. Never fails: unmatched messages are
/// `Unknown`.
pub fn classify_error_message(msg: &[u8]) -> (r: FsError)
    ensures
        r == spec_classify_message(msg@),
{
    let enoent: Vec<u8> = vec![69u8, 78u8, 79u8, 69u8, 78u8, 84u8];
    let enotdir: Vec<u8> = vec![69u8, 78u8, 79u8, 84u8, 68u8, 73u8, 82u8];
    let eisdir: Vec<u8> = vec![69u8, 73u8, 83u8, 68u8, 73u8, 82u8];
    proof {
        assert(enoent@ =~= prefix_enoent());
        assert(enotdir@ =~= prefix_enotdir());
        assert(eisdir@ =~= prefix_eisdir());
    }
    if starts_with(msg, enoent.as_slice()) {
        FsError::EntityNotFound
    } else if starts_with(msg, enotdir.as_slice()) {
        FsError::BaseNotDirectory
    } else if starts_with(msg, eisdir.as_slice()) {
        FsError::NotAFile
    } else {
        FsError::Unknown
    }
}

/// Maps a raw backend signal to the error taxonomy: `None` stands for a
/// signal that exposes no message (a non-inspectable value) and classifies
/// as `Unknown`; `Some` carries the message bytes.
pub fn classify_error_signal(msg: Option<&[u8]>) -> (r: FsError)
    ensures
        r == spec_classify_signal(match msg {
            Option::Some(m) => Option::Some(m@),
            Option::None => Option::None,
        }),
{
    match msg {
        Option::Some(m) => classify_error_message(m),
        Option::None => FsError::Unknown,
    }
}

} // verus!
