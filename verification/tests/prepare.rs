use ohos_rs::digest::{package_type_def_dir, type_def_dir_name};
use ohos_rs::error::{NapiCrate, PrepareError};
use ohos_rs::package::{
    dir_holds_by_text, manifest_matches, resolve_build_target_name, select_packages, PackageInfo,
    Target,
};
use ohos_rs::plan::{
    cargo_init_args, dist_package, force_build_packages, force_build_var_name,
    force_build_var_name_for, timestamped_path,
};
use ohos_rs::project::{ensure_rust_project, rust_project_missing, should_force_napi_build};
use ohos_rs::soname::{normalize_soname, validate_soname};
use ohos_rs::version::{check_minimum_version, check_napi_versions, find_package_version};

fn target(name: &str, kinds: &[&str]) -> Target {
    Target {
        name: name.to_string(),
        kind: kinds.iter().map(|k| k.to_string()).collect(),
    }
}

fn package(id: &str, name: &str, version: &str, manifest: &str, deps: &[&str]) -> PackageInfo {
    PackageInfo {
        id: id.to_string(),
        name: name.to_string(),
        version: version.to_string(),
        manifest_path: manifest.to_string(),
        dependencies: deps.iter().map(|d| d.to_string()).collect(),
        targets: vec![target(name, &["lib"])],
    }
}

#[test]
fn missing_cargo_toml_returns_custom_error() {
    let cargo_file = "/tmp/ohrs-prepare-1/Cargo.toml";

    let error = ensure_rust_project(cargo_file, Some(false)).unwrap_err();
    let message = error.message();

    assert!(
        message.contains("No Rust project found"),
        "expected custom missing-project error, got: {message}"
    );
    assert!(
        message.contains(cargo_file),
        "expected path in error, got: {message}"
    );
    assert!(rust_project_missing(Some(false)));
}

#[test]
fn existing_cargo_toml_is_accepted() {
    let cargo_file = "/tmp/ohrs-prepare-2/Cargo.toml";

    assert!(ensure_rust_project(cargo_file, Some(true)).is_ok());
    assert!(!rust_project_missing(Some(true)));
}

#[test]
fn force_build_is_true_only_when_tmp_path_is_absent() {
    assert!(should_force_napi_build(Some(false)));
    assert!(!should_force_napi_build(Some(true)));
}

#[test]
fn failed_probe_counts_as_missing() {
    assert!(rust_project_missing(None));
    assert!(should_force_napi_build(None));
    let error = ensure_rust_project("/x/Cargo.toml", None).unwrap_err();
    assert_eq!(error.message(), "No Rust project found in path: /x/Cargo.toml.");
}

#[test]
fn versioned_soname_is_refused() {
    let error = validate_soname("libxx.so.1").unwrap_err();
    assert_eq!(
        error.message(),
        "SONAME format with version number is not supported: 'libxx.so.1'. Please use format like 'libxx.so' or 'xx'."
    );
    assert!(normalize_soname("xx.so.2").is_err());
    assert!(matches!(
        normalize_soname("libxx.so.10"),
        Err(PrepareError::VersionedSoname { .. })
    ));
}

#[test]
fn soname_checks_only_the_first_so_marker() {
    assert!(validate_soname("libxx.so").is_ok());
    assert!(validate_soname("xx").is_ok());
    assert!(validate_soname("libxx.so.").is_ok());
    assert!(validate_soname("a.so.x.so.1").is_ok());
    assert!(validate_soname("a.so..so.1").is_ok());
}

#[test]
fn soname_is_normalized() {
    assert_eq!(normalize_soname("xx").unwrap(), "libxx.so");
    assert_eq!(normalize_soname("xx.so").unwrap(), "libxx.so");
    assert_eq!(normalize_soname("libxx.so").unwrap(), "libxx.so");
    assert_eq!(normalize_soname("libfoo").unwrap(), "liblibfoo.so");
    assert_eq!(normalize_soname("").unwrap(), "lib.so");
    assert_eq!(normalize_soname("libx.sox").unwrap(), "libx.sox");
}

#[test]
fn soname_normalization_is_idempotent() {
    for name in ["xx", "xx.so", "libxx.so", "libfoo", "a.so.x", "x."] {
        let once = normalize_soname(name).unwrap();
        let twice = normalize_soname(&once).unwrap();
        assert_eq!(once, twice);
    }
}

#[test]
fn build_target_prefers_cdylib_then_lib() {
    let mut p = package("id", "my-pkg", "0.1.0", "/p/Cargo.toml", &[]);
    p.targets = vec![
        target("tool", &["bin"]),
        target("core", &["lib"]),
        target("native", &["cdylib", "rlib"]),
    ];
    assert_eq!(resolve_build_target_name(&p), "native");
    p.targets = vec![target("tool", &["bin"]), target("core", &["rlib", "lib"])];
    assert_eq!(resolve_build_target_name(&p), "core");
    p.targets = vec![target("tool", &["bin"])];
    assert_eq!(resolve_build_target_name(&p), "my_pkg");
    p.targets = vec![];
    p.name = "a-b-c".to_string();
    assert_eq!(resolve_build_target_name(&p), "a_b_c");
}

#[test]
fn single_package_is_selected_by_manifest() {
    let pkgs = vec![
        package("a", "a", "0.1.0", "/w/a/Cargo.toml", &["napi-derive-ohos"]),
        package("b", "b", "0.1.0", "/w/b/Cargo.toml", &["napi-derive-ohos"]),
    ];
    let inside = vec![false, false];
    let matches = manifest_matches(&pkgs, "/w/b/Cargo.toml");
    assert_eq!(matches, vec![false, true]);
    let r = select_packages(&pkgs, &vec![], &matches, false, &inside).unwrap();
    assert_eq!(r, vec![1]);
    let matches = manifest_matches(&pkgs, "/w/c/Cargo.toml");
    let e = select_packages(&pkgs, &vec![], &matches, false, &inside).unwrap_err();
    assert!(matches!(e, PrepareError::PackageMetaMissing));
    assert_eq!(e.message(), "Try to get package meta-info failed.");
}

#[test]
fn manifests_are_compared_as_paths() {
    let pkgs = vec![
        package("a", "a", "0.1.0", "/w/a/Cargo.toml", &["napi-derive-ohos"]),
        package("b", "b", "0.1.0", "/w/b/Cargo.toml", &["napi-derive-ohos"]),
    ];
    let matches = manifest_matches(&pkgs, "/w/b/./Cargo.toml");
    assert_eq!(matches, vec![false, true]);
    let r = select_packages(&pkgs, &vec![], &matches, false, &vec![false, false]).unwrap();
    assert_eq!(r, vec![1]);
    assert_eq!(manifest_matches(&pkgs, "/w//a/Cargo.toml"), vec![true, false]);
    assert_eq!(manifest_matches(&pkgs, "/w/a/Cargo.toml/"), vec![true, false]);
    assert_eq!(manifest_matches(&pkgs, "/w/a/../a/Cargo.toml"), vec![false, false]);
    assert_eq!(manifest_matches(&pkgs, "w/a/Cargo.toml"), vec![false, false]);
    let rel = vec![package("r", "r", "0.1.0", "./Cargo.toml", &[])];
    assert_eq!(manifest_matches(&rel, "Cargo.toml"), vec![false]);
    assert_eq!(manifest_matches(&rel, "./Cargo.toml"), vec![true]);
    assert_eq!(manifest_matches(&rel, "././Cargo.toml"), vec![true]);
}

#[test]
fn working_directory_text_fallback() {
    assert!(dir_holds_by_text("/w/a/src", "/w/a"));
    assert!(dir_holds_by_text("/w/a", "/w/a"));
    assert!(dir_holds_by_text("/w/ab", "/w/a"));
    assert!(!dir_holds_by_text("/w", "/w/a"));
}

#[test]
fn package_without_napi_derive_is_not_built() {
    let pkgs = vec![package("a", "a", "0.1.0", "/w/a/Cargo.toml", &["serde"])];
    let inside = vec![true];
    let matches = vec![true];
    let e = select_packages(&pkgs, &vec![], &matches, false, &inside).unwrap_err();
    assert!(matches!(e, PrepareError::NoPackageToBuild));
    assert_eq!(e.message(), "No package need to build.");
    let r = select_packages(&pkgs, &vec![], &matches, true, &inside).unwrap();
    assert_eq!(r, vec![0]);
}

#[test]
fn workspace_builds_members_or_current_package() {
    let pkgs = vec![
        package("x", "x", "0.1.0", "/w/x/Cargo.toml", &["napi-derive-ohos"]),
        package("y", "y", "0.1.0", "/w/y/Cargo.toml", &["serde"]),
        package("z", "z", "0.1.0", "/w/z/Cargo.toml", &["napi-derive-ohos"]),
    ];
    let members = vec!["z".to_string(), "y".to_string(), "x".to_string(), "q".to_string()];
    let no_match = vec![false, false, false];
    let at_root = vec![false, false, false];
    let r = select_packages(&pkgs, &members, &no_match, false, &at_root).unwrap();
    assert_eq!(r, vec![2, 0]);
    assert_eq!(dist_package(true, &r, &at_root), None);

    let in_x = vec![true, false, false];
    let r = select_packages(&pkgs, &members, &no_match, false, &in_x).unwrap();
    assert_eq!(r, vec![0]);
    assert_eq!(dist_package(true, &r, &in_x), Some(0));

    let in_y = vec![false, true, false];
    let r = select_packages(&pkgs, &members, &no_match, false, &in_y).unwrap();
    assert_eq!(r, vec![2, 0]);
    let r = select_packages(&pkgs, &members, &no_match, true, &in_y).unwrap();
    assert_eq!(r, vec![1]);
    assert_eq!(dist_package(false, &r, &in_y), None);
}

#[test]
fn versions_are_checked_in_order() {
    let dep = |name: &str, version: &str| package(name, name, version, "/m/Cargo.toml", &[]);
    let ok = vec![dep("napi-ohos", "1.1.0"), dep("napi-derive-ohos", "1.2.3")];
    assert!(check_napi_versions(&ok).is_ok());

    let missing = vec![dep("napi-derive-ohos", "1.2.3")];
    let e = check_napi_versions(&missing).unwrap_err();
    assert_eq!(e.message(), "Try to get the version of the napi-ohos failed.");

    let missing = vec![dep("napi-ohos", "0.1.0")];
    let e = check_napi_versions(&missing).unwrap_err();
    assert_eq!(e.message(), "Try to get the version of the napi-derive-ohos failed.");

    let old = vec![dep("napi-ohos", "1.0.9"), dep("napi-derive-ohos", "1.0.0")];
    let e = check_napi_versions(&old).unwrap_err();
    assert_eq!(
        e.message(),
        "The version of the napi-ohos is not >= 1.1.0, please update the napi-ohos to >= 1.1.0, the current version is 1.0.9.\nIf you want to skip the check, you can set the skip_check to true: ohrs build --skip-check"
    );

    let old = vec![dep("napi-derive-ohos", "1.0.0"), dep("napi-ohos", "2.0.0")];
    let e = check_napi_versions(&old).unwrap_err();
    assert!(matches!(
        e,
        PrepareError::VersionTooOld { dependency: NapiCrate::NapiDeriveOhos, .. }
    ));

    assert_eq!(find_package_version(&old, "napi-ohos"), Some("2.0.0".to_string()));
    assert_eq!(find_package_version(&old, "serde"), None);
}

#[test]
fn minimum_check_takes_the_comparison() {
    assert!(check_minimum_version(NapiCrate::NapiOhos, "9.9.9", Ok(true)).is_ok());
    assert!(check_minimum_version(NapiCrate::NapiOhos, "9.9.9", Ok(false)).is_err());
    let e = check_minimum_version(NapiCrate::NapiDeriveOhos, "junk", Err(())).unwrap_err();
    assert!(e.message().contains("napi-derive-ohos is not >= 1.1.0"));
    assert!(e.message().contains("the current version is junk."));
}

#[test]
fn type_def_dir_uses_short_manifest_hash() {
    let p = package("d", "demo", "0.1.0", "/work/demo/Cargo.toml", &[]);
    assert_eq!(package_type_def_dir(&p), "demo-9ec215c1");
    let p = package("a", "a", "0.1.0", "/a/Cargo.toml", &[]);
    assert_eq!(package_type_def_dir(&p), "a-af3d5459");
    assert_eq!(type_def_dir_name("n", &vec![0x0f, 0xa0, 0x00, 0xff, 0x12]), "n-0fa000ff");
}

#[test]
fn init_args_follow_flags() {
    let none: Vec<String> = vec![];
    assert_eq!(cargo_init_args(false, false, &none), vec!["build".to_string()]);
    assert_eq!(cargo_init_args(true, false, &none), vec!["zigbuild".to_string()]);
    assert_eq!(
        cargo_init_args(false, true, &none),
        vec!["build".to_string(), "--release".to_string()]
    );
    let with_release = vec!["-v".to_string(), "--release".to_string()];
    assert_eq!(cargo_init_args(true, true, &with_release), vec!["zigbuild".to_string()]);
}

#[test]
fn force_build_covers_napi_dependents() {
    let pkgs = vec![
        package("x", "x", "0.1.0", "/w/x/Cargo.toml", &["napi-derive-ohos"]),
        package("y", "y", "0.1.0", "/w/y/Cargo.toml", &["serde"]),
        package("z", "z", "0.1.0", "/w/z/Cargo.toml", &["serde", "napi-derive-ohos"]),
    ];
    assert_eq!(force_build_packages(&pkgs, Some(false)), vec![0, 2]);
    assert_eq!(force_build_packages(&pkgs, None), vec![0, 2]);
    assert_eq!(force_build_packages(&pkgs, Some(true)), Vec::<usize>::new());
    assert_eq!(force_build_var_name("my-napi_pkg"), "NAPI_FORCE_BUILD_MY_NAPI_PKG");
    assert_eq!(force_build_var_name_for("ABC"), "NAPI_FORCE_BUILD_ABC");
}

#[test]
fn timestamp_is_appended_in_decimal() {
    assert_eq!(timestamped_path("/t/ohos-rs/a-1", 1700000000123), "/t/ohos-rs/a-1_1700000000123");
    assert_eq!(timestamped_path("p", 0), "p_0");
    assert_eq!(timestamped_path("p", 10), "p_10");
}

#[test]
fn remaining_error_messages() {
    assert_eq!(
        PrepareError::NdkHomeMissing.message(),
        "Failed to get the OHOS_NDK_HOME environment variable, please make sure you have set it."
    );
    assert_eq!(
        PrepareError::VersionMissing { dependency: NapiCrate::NapiDeriveOhos }.message(),
        "Try to get the version of the napi-derive-ohos failed."
    );
}
