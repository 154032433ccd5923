//! Open options and the open-option resolution algorithm.
//!
//! `resolve` is the single decision point of an open call: given the
//! requested flags and the outcome of an existence probe of the path, it
//! either rejects the request with an error from the taxonomy or yields
//! the legal initial buffer state (contents and cursor position) of the
//! virtual file. The four-way interaction of existence, create intent,
//! write intent and truncate/append is entirely contained here, so every
//! branch can be tested and proved on its own.

use vstd::prelude::*;
use crate::error::FsError;
use crate::meta::Metadata;

verus! {

/// The recognized open flags, before normalization.
#[derive(Clone, Copy, Debug, PartialEq, Eq, Structural)]
pub struct OpenOptions {
    pub read: bool,
    pub write: bool,
    pub append: bool,
    pub truncate: bool,
    pub create: bool,
    pub create_new: bool,
}

/// The outcome of probing a path before an open: the path is present in
/// the backend with the given full content, or it is absent.
pub enum Existence {
    Present(Vec<u8>),
    Absent,
}

/// The legal initial state of a virtual file's buffer, as decided by the
/// resolver: the hydrated (or empty) contents and the cursor position.
pub struct InitialBuffer {
    pub content: Vec<u8>,
    pub cursor: u64,
}

impl Existence {
    /// The probe as a mathematical value: the full content when the path
    /// is present, nothing when it is absent.
    pub open spec fn spec_probe(self) -> Option<Seq<u8>> {
        match self {
            Existence::Present(content) => Option::Some(content@),
            Existence::Absent => Option::None,
        }
    }
}

/// Normalization of the requested flags, per the invariants of the option
/// set: `create_new` forces `create` and `truncate` off (exclusive
/// creation is incompatible with reuse-or-truncate semantics); `truncate`
/// without `write` is rejected with `PermissionDenied`; `append` forces
/// `write` off (append is a distinct mode, not additive with write).
pub open spec fn spec_normalized(o: OpenOptions) -> Result<OpenOptions, FsError> {
    let o1 = OpenOptions {
        create: if o.create_new { false } else { o.create },
        truncate: if o.create_new { false } else { o.truncate },
        ..o
    };
    if o1.truncate && !o1.write {
        Result::Err(FsError::PermissionDenied)
    } else {
        Result::Ok(OpenOptions { write: if o1.append { false } else { o1.write }, ..o1 })
    }
}

/// The open-option resolution algorithm over normalized flags and the
/// probe outcome:
/// - a present path with `create_new` is rejected with `AlreadyExists`;
/// - a present path otherwise hydrates the buffer with the current content,
///   discarded if `truncate` is set, and the cursor sits at end-of-buffer
///   if `append` is set, else at the start;
/// - an absent path is created empty only when a creation flag and a write
///   intent are both present, and is rejected with `PermissionDenied`
///   otherwise.
pub open spec fn spec_resolve(o: OpenOptions, probe: Option<Seq<u8>>) -> Result<
    (Seq<u8>, int),
    FsError,
> {
    match spec_normalized(o) {
        Result::Err(e) => Result::Err(e),
        Result::Ok(n) => match probe {
            Option::Some(content) => {
                if n.create_new {
                    Result::Err(FsError::AlreadyExists)
                } else {
                    let buffer = if n.truncate {
                        Seq::<u8>::empty()
                    } else {
                        content
                    };
                    Result::Ok((buffer, if n.append { buffer.len() as int } else { 0 }))
                }
            },
            Option::None => {
                if (n.create_new || n.create) && (n.write || n.append) {
                    Result::Ok((Seq::<u8>::empty(), 0))
                } else {
                    Result::Err(FsError::PermissionDenied)
                }
            },
        },
    }
}

/// Whether an open call must hydrate from the backend, decided before any
/// content is read: a present path with exclusive creation requested is
/// rejected with `AlreadyExists` outright (so no read of the existing
/// object is attempted), and otherwise hydration is needed exactly when
/// the path is present.
pub open spec fn spec_hydration_needed(o: OpenOptions, exists: bool) -> Result<bool, FsError> {
    match spec_normalized(o) {
        Result::Err(e) => Result::Err(e),
        Result::Ok(n) => {
            if exists && n.create_new {
                Result::Err(FsError::AlreadyExists)
            } else {
                Result::Ok(exists)
            }
        },
    }
}

/// Interpretation of a stat outcome as an existence probe: a successful
/// stat means the path is present; `EntityNotFound` means it is absent;
/// any other stat failure is propagated unchanged.
pub open spec fn spec_existence_of_stat(r: Result<Metadata, FsError>) -> Result<bool, FsError> {
    match r {
        Result::Ok(_) => Result::Ok(true),
        Result::Err(FsError::EntityNotFound) => Result::Ok(false),
        Result::Err(e) => Result::Err(e),
    }
}

impl OpenOptions {
    /// All flags off.
    pub fn new() -> (r: OpenOptions)
        ensures
            r == (OpenOptions {
                read: false,
                write: false,
                append: false,
                truncate: false,
                create: false,
                create_new: false,
            }),
    {
        OpenOptions {
            read: false,
            write: false,
            append: false,
            truncate: false,
            create: false,
            create_new: false,
        }
    }

    /// The same flags with `read` set to `v`.
    pub fn read(self, v: bool) -> (r: OpenOptions)
        ensures
            r == (OpenOptions { read: v, ..self }),
    {
        OpenOptions { read: v, ..self }
    }

    /// The same flags with `write` set to `v`.
    pub fn write(self, v: bool) -> (r: OpenOptions)
        ensures
            r == (OpenOptions { write: v, ..self }),
    {
        OpenOptions { write: v, ..self }
    }

    /// The same flags with `append` set to `v`.
    pub fn append(self, v: bool) -> (r: OpenOptions)
        ensures
            r == (OpenOptions { append: v, ..self }),
    {
        OpenOptions { append: v, ..self }
    }

    /// The same flags with `truncate` set to `v`.
    pub fn truncate(self, v: bool) -> (r: OpenOptions)
        ensures
            r == (OpenOptions { truncate: v, ..self }),
    {
        OpenOptions { truncate: v, ..self }
    }

    /// The same flags with `create` set to `v`.
    pub fn create(self, v: bool) -> (r: OpenOptions)
        ensures
            r == (OpenOptions { create: v, ..self }),
    {
        OpenOptions { create: v, ..self }
    }

    /// The same flags with `create_new` set to `v`.
    pub fn create_new(self, v: bool) -> (r: OpenOptions)
        ensures
            r == (OpenOptions { create_new: v, ..self }),
    {
        OpenOptions { create_new: v, ..self }
    }

    /// Applies the option-set invariants to the requested flags, or
    /// rejects the request.
    pub fn normalized(&self) -> (r: Result<OpenOptions, FsError>)
        ensures
            r == spec_normalized(*self),
    {
        let mut o = *self;
        if o.create_new {
            o.create = false;
            o.truncate = false;
        }
        if o.truncate && !o.write {
            return Result::Err(FsError::PermissionDenied);
        }
        if o.append {
            o.write = false;
        }
        Result::Ok(o)
    }
}

/// Decides the initial buffer state of an open call from the requested
/// flags and the probe of the path, or rejects the call.
pub fn resolve(opts: &OpenOptions, probe: Existence) -> (r: Result<InitialBuffer, FsError>)
    ensures
        match r {
            Result::Ok(ib) => spec_resolve(*opts, probe.spec_probe()) == Result::Ok::<_, FsError>(
                (ib.content@, ib.cursor as int),
            ),
            Result::Err(e) => spec_resolve(*opts, probe.spec_probe()) == Result::Err::<
                (Seq<u8>, int),
                _,
            >(e),
        },
{
    let n = match opts.normalized() {
        Result::Ok(n) => n,
        Result::Err(e) => {
            return Result::Err(e);
        },
    };
    match probe {
        Existence::Present(content) => {
            if n.create_new {
                Result::Err(FsError::AlreadyExists)
            } else {
                let mut buffer = content;
                if n.truncate {
                    buffer.clear();
                }
                let cursor: u64 = if n.append {
                    buffer.len() as u64
                } else {
                    0
                };
                Result::Ok(InitialBuffer { content: buffer, cursor: cursor })
            }
        },
        Existence::Absent => {
            if (n.create_new || n.create) && (n.write || n.append) {
                Result::Ok(InitialBuffer { content: Vec::new(), cursor: 0 })
            } else {
                Result::Err(FsError::PermissionDenied)
            }
        },
    }
}

/// Decides, before any content is read, whether an open call hydrates
/// from the backend, rejecting exclusive creation of a present path.
pub fn hydration_needed(opts: &OpenOptions, exists: bool) -> (r: Result<bool, FsError>)
    ensures
        r == spec_hydration_needed(*opts, exists),
{
    let n = match opts.normalized() {
        Result::Ok(n) => n,
        Result::Err(e) => {
            return Result::Err(e);
        },
    };
    if exists && n.create_new {
        Result::Err(FsError::AlreadyExists)
    } else {
        Result::Ok(exists)
    }
}

/// Interprets a stat outcome as an existence probe, propagating any stat
/// failure other than `EntityNotFound`.
pub fn existence_of_stat(r: Result<Metadata, FsError>) -> (e: Result<bool, FsError>)
    ensures
        e == spec_existence_of_stat(r),
{
    match r {
        Result::Ok(_) => Result::Ok(true),
        Result::Err(FsError::EntityNotFound) => Result::Ok(false),
        Result::Err(err) => Result::Err(err),
    }
}

} // verus!
