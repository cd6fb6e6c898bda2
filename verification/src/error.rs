//! Errors of the build-preparation step, with the exact messages shown to the user.
use vstd::prelude::*;

verus! {

/// The crates of the N-API toolchain whose versions are checked before a build.
#[derive(Clone, Copy, Debug, PartialEq, Eq, Structural)]
pub enum NapiCrate {
    /// `napi-ohos`, the runtime crate.
    NapiOhos,
    /// `napi-derive-ohos`, the procedural-macro crate.
    NapiDeriveOhos,
}

/// The package name of a toolchain crate.
pub open spec fn napi_crate_name(c: NapiCrate) -> Seq<char> {
    match c {
        NapiCrate::NapiOhos => "napi-ohos"@,
        NapiCrate::NapiDeriveOhos => "napi-derive-ohos"@,
    }
}

impl NapiCrate {
    /// The package name of this crate.
    pub fn name(&self) -> (r: &'static str)
        ensures
            r@ == napi_crate_name(*self),
    {
        match self {
            NapiCrate::NapiOhos => "napi-ohos",
            NapiCrate::NapiDeriveOhos => "napi-derive-ohos",
        }
    }
}

/// Why preparing a build failed.
#[derive(Debug)]
pub enum PrepareError {
    /// The requested SONAME carries a version number, as in `libxx.so.1`.
    VersionedSoname { soname: String },
    /// There is no `Cargo.toml` at the given path.
    NoRustProject { path: String },
    /// No package of the metadata has the manifest that was asked for.
    PackageMetaMissing,
    /// No package of the project depends on the N-API derive crate.
    NoPackageToBuild,
    /// The resolved dependency graph holds no version of the crate.
    VersionMissing { dependency: NapiCrate },
    /// The resolved version of the crate is older than the minimum.
    VersionTooOld { dependency: NapiCrate, version: String },
    /// The `OHOS_NDK_HOME` environment variable is not set.
    NdkHomeMissing,
}

/// The lowest version of the N-API crates that a build accepts.
pub open spec fn minimum_napi_version() -> Seq<char> {
    "1.1.0"@
}

/// The message shown for an error.
pub open spec fn error_message(e: PrepareError) -> Seq<char> {
    match e {
        PrepareError::VersionedSoname { soname } =>
            "SONAME format with version number is not supported: '"@ + soname@
                + "'. Please use format like 'libxx.so' or 'xx'."@,
        PrepareError::NoRustProject { path } => "No Rust project found in path: "@ + path@ + "."@,
        PrepareError::PackageMetaMissing => "Try to get package meta-info failed."@,
        PrepareError::NoPackageToBuild => "No package need to build."@,
        PrepareError::VersionMissing { dependency } =>
            "Try to get the version of the "@ + napi_crate_name(dependency) + " failed."@,
        PrepareError::VersionTooOld { dependency, version } =>
            "The version of the "@ + napi_crate_name(dependency) + " is not >= "@
                + minimum_napi_version() + ", please update the "@ + napi_crate_name(dependency)
                + " to >= "@ + minimum_napi_version() + ", the current version is "@ + version@
                + ".\nIf you want to skip the check, you can set the skip_check to true: ohrs build --skip-check"@,
        PrepareError::NdkHomeMissing =>
            "Failed to get the OHOS_NDK_HOME environment variable, please make sure you have set it."@,
    }
}

/// The minimum version, `1.1.0`.
pub fn minimum_version() -> (r: &'static str)
    ensures
        r@ == minimum_napi_version(),
{
    "1.1.0"
}

impl PrepareError {
    /// The message shown to the user for this error.
    pub fn message(&self) -> (r: String)
        ensures
            r@ == error_message(*self),
    {
        match self {
            PrepareError::VersionedSoname { soname } => {
                let mut m = String::from_str("SONAME format with version number is not supported: '");
                m.append(soname.as_str());
                m.append("'. Please use format like 'libxx.so' or 'xx'.");
                m
            },
            PrepareError::NoRustProject { path } => {
                let mut m = String::from_str("No Rust project found in path: ");
                m.append(path.as_str());
                m.append(".");
                m
            },
            PrepareError::PackageMetaMissing => String::from_str("Try to get package meta-info failed."),
            PrepareError::NoPackageToBuild => String::from_str("No package need to build."),
            PrepareError::VersionMissing { dependency } => {
                let mut m = String::from_str("Try to get the version of the ");
                m.append(dependency.name());
                m.append(" failed.");
                m
            },
            PrepareError::VersionTooOld { dependency, version } => {
                let mut m = String::from_str("The version of the ");
                m.append(dependency.name());
                m.append(" is not >= ");
                m.append(minimum_version());
                m.append(", please update the ");
                m.append(dependency.name());
                m.append(" to >= ");
                m.append(minimum_version());
                m.append(", the current version is ");
                m.append(version.as_str());
                m.append(
                    ".\nIf you want to skip the check, you can set the skip_check to true: ohrs build --skip-check",
                );
                m
            },
            PrepareError::NdkHomeMissing => String::from_str(
                "Failed to get the OHOS_NDK_HOME environment variable, please make sure you have set it.",
            ),
        }
    }
}

} // verus!
