//! Verified core of the OpenHarmony N-API tooling: SONAME handling, package
//! selection and the other decisions taken while preparing a build, and the
//! task and abort-signal state of work that runs on the libuv thread pool.
pub mod abort;
pub mod digest;
pub mod error;
pub mod package;
pub mod plan;
pub mod project;
pub mod soname;
pub mod task;
pub mod text;
pub mod version;
