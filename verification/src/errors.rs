//! The error taxonomy of the controller.

use vstd::prelude::*;

verus! {

/// A filesystem failure reported by the executor of a plan: the path
/// the failing operation was applied to and the underlying OS error
/// number.
#[derive(Debug)]
pub struct FsFailure {
    pub path: String,
    pub os_error: i32,
}

/// Everything `enable` and `disable` can fail with.
#[derive(Debug)]
pub enum StateError {
    /// The ConfigFS root path does not exist.  Fatal; nothing to retry.
    ConfigFsUnavailable,
    /// `enable` was called while the controller is already `Bound`.
    AlreadyBound,
    /// `disable` was called while the controller is not `Bound`.
    NotBound,
    /// A name that must serve as a single path segment cannot: it is
    /// empty, contains `/`, or is one of the two special directory
    /// names.
    InvalidName { name: String },
    /// Two functions of the gadget share one `(type, instance)` key.
    DuplicateFunction { func_type: String, instance_name: String },
    /// A configuration references a function the gadget does not own.
    DanglingFunctionReference { func_type: String, instance_name: String },
    /// A filesystem operation failed while a plan was applied; carries
    /// the offending path and the underlying OS error.
    FilesystemError { path: String, os_error: i32 },
}

} // verus!
