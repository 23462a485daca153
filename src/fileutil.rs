//! Checks on the file system, made before a session starts.

use vstd::prelude::*;

verus! {

/// Relies on `Path::exists`: whether the path points at an existing entity
/// at the time of the call. Nothing is promised: the file system can change.
#[verifier::external_body]
fn path_exists(path: &str) -> (r: bool) {
    std::path::Path::new(path).exists()
}

/// Relies on `Path::is_dir`: whether the path points at an existing directory
/// at the time of the call. Nothing is promised: the file system can change.
#[verifier::external_body]
fn path_is_dir(path: &str) -> (r: bool) {
    std::path::Path::new(path).is_dir()
}

/// Whether something exists at `path`.
pub fn is_exist(path: &str) -> (r: bool) {
    path_exists(path)
}

/// Whether `path` is a directory.
pub fn is_dir(path: &str) -> (r: bool) {
    path_is_dir(path)
}

} // verus!
