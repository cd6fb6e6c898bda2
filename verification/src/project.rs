//! Decisions that rest on whether a path exists on disk.
//!
//! The file system is probed by the caller; these functions take the outcome
//! of the probe, `Some(exists)` or `None` when the probe itself failed.
use vstd::prelude::*;

use crate::error::PrepareError;

verus! {

/// The project is missing unless the probe showed that its `Cargo.toml` exists.
pub open spec fn project_missing(exists: Option<bool>) -> bool {
    exists != Some(true)
}

/// Whether the Rust project is missing, given the outcome of probing its
/// `Cargo.toml`: a failed probe counts as missing.
pub fn rust_project_missing(exists: Option<bool>) -> (r: bool)
    ensures
        r == project_missing(exists),
{
    match exists {
        Some(true) => false,
        _ => true,
    }
}

/// Refuses to go on when there is no `Cargo.toml` at `cargo_file`.
pub fn ensure_rust_project(cargo_file: &str, exists: Option<bool>) -> (r: Result<(), PrepareError>)
    ensures
        r is Ok <==> !project_missing(exists),
        r matches Err(e) ==> (e matches PrepareError::NoRustProject { path } && path@
            == cargo_file@),
{
    if rust_project_missing(exists) {
        return Err(PrepareError::NoRustProject { path: String::from_str(cargo_file) });
    }
    Ok(())
}

/// The bindings must be regenerated unless the probe showed that the
/// type-definition folder exists; a failed probe counts as absent.
pub fn should_force_napi_build(exists: Option<bool>) -> (r: bool)
    ensures
        r == (exists != Some(true)),
{
    !exists.unwrap_or(false)
}

} // verus!

verus! {

/// Only a probe that found the `Cargo.toml` lets the build go on: a probe
/// that found nothing and a probe that failed both count as a missing
/// project.
pub proof fn lemma_failed_probe_counts_as_absent(exists: Option<bool>)
    ensures
        exists is None ==> project_missing(exists),
        exists == Some(false) ==> project_missing(exists),
        exists == Some(true) ==> !project_missing(exists),
{
}

} // verus!
