//! The check that the N-API crates a project resolves to are recent enough.
use vstd::prelude::*;

use crate::error::{minimum_napi_version, minimum_version, napi_crate_name, NapiCrate, PrepareError};
use crate::package::PackageInfo;
use crate::text::same_text;

verus! {

/// What `version_compare::compare_to(version, minimum, Cmp::Ge)` returns:
/// `Ok(true)` when `version` is at least `minimum`, `Ok(false)` when it is
/// lower, `Err(())` when either string is not a version number.
pub uninterp spec fn version_at_least(version: Seq<char>, minimum: Seq<char>) -> Result<bool, ()>;

/// Compares two version strings with `version_compare::compare_to` and the
/// operator `Cmp::Ge`. The result is the crate's, named `version_at_least`;
/// what it is for given strings is left to the crate.
#[verifier::external_body]
fn compare_at_least(version: &str, minimum: &str) -> (r: Result<bool, ()>)
    ensures
        r == version_at_least(version@, minimum@),
{
    version_compare::compare_to(version, minimum, version_compare::Cmp::Ge)
}

/// `i` is the first package of `pkgs` named `name`.
pub open spec fn first_with_name(pkgs: Seq<PackageInfo>, name: Seq<char>, i: int) -> bool {
    &&& 0 <= i < pkgs.len()
    &&& pkgs[i].name@ == name
    &&& forall|j: int| 0 <= j < i ==> (#[trigger] pkgs[j]).name@ != name
}

/// The version of the first package named `name`, if any.
pub open spec fn version_of(pkgs: Seq<PackageInfo>, name: Seq<char>) -> Option<Seq<char>> {
    if exists|i: int| first_with_name(pkgs, name, i) {
        Some(pkgs[choose|i: int| first_with_name(pkgs, name, i)].version@)
    } else {
        None
    }
}

/// The outcome of checking `version` of `dependency` against the minimum,
/// given the comparison's result: anything but `Ok(true)` refuses it.
pub open spec fn minimum_check(
    dependency: NapiCrate,
    version: Seq<char>,
    comparison: Result<bool, ()>,
    r: Result<(), PrepareError>,
) -> bool {
    if comparison == Ok::<bool, ()>(true) {
        r is Ok
    } else {
        r matches Err(PrepareError::VersionTooOld { dependency: d, version: v }) && d == dependency
            && v@ == version
    }
}

/// The outcome of the version check over the resolved packages `pkgs`:
/// both crates must be present (`napi-ohos` is looked for first), then
/// `napi-ohos` and after it `napi-derive-ohos` must be at least the minimum.
pub open spec fn versions_check(pkgs: Seq<PackageInfo>, r: Result<(), PrepareError>) -> bool {
    let a = version_of(pkgs, napi_crate_name(NapiCrate::NapiOhos));
    let b = version_of(pkgs, napi_crate_name(NapiCrate::NapiDeriveOhos));
    if a is None {
        r matches Err(PrepareError::VersionMissing { dependency: d }) && d == NapiCrate::NapiOhos
    } else if b is None {
        r matches Err(PrepareError::VersionMissing { dependency: d }) && d
            == NapiCrate::NapiDeriveOhos
    } else if version_at_least(a->0, minimum_napi_version()) != Ok::<bool, ()>(true) {
        minimum_check(
            NapiCrate::NapiOhos,
            a->0,
            version_at_least(a->0, minimum_napi_version()),
            r,
        )
    } else {
        minimum_check(
            NapiCrate::NapiDeriveOhos,
            b->0,
            version_at_least(b->0, minimum_napi_version()),
            r,
        )
    }
}

/// The version of the first package named `name`, if any.
pub fn find_package_version(pkgs: &Vec<PackageInfo>, name: &str) -> (r: Option<String>)
    ensures
        match r {
            Some(v) => version_of(pkgs@, name@) == Some(v@),
            None => version_of(pkgs@, name@) is None,
        },
{
    let mut i: usize = 0;
    while i < pkgs.len()
        invariant
            i <= pkgs@.len(),
            forall|j: int| 0 <= j < i ==> (#[trigger] pkgs@[j]).name@ != name@,
        decreases pkgs.len() - i,
    {
        if same_text(&pkgs[i].name, name) {
            assert(first_with_name(pkgs@, name@, i as int));
            let ghost k = choose|k: int| first_with_name(pkgs@, name@, k);
            assert(k == i) by {
                if k < i {
                    assert(pkgs@[k].name@ != name@);
                } else if k > i {
                    assert(pkgs@[i as int].name@ != name@);
                }
            }
            return Some(pkgs[i].version.clone());
        }
        i = i + 1;
    }
    None
}

/// Accepts `version` of `dependency` when the comparison with the minimum
/// came out `Ok(true)`; refuses it otherwise, an unreadable version included.
pub fn check_minimum_version(
    dependency: NapiCrate,
    version: &str,
    comparison: Result<bool, ()>,
) -> (r: Result<(), PrepareError>)
    ensures
        minimum_check(dependency, version@, comparison, r),
{
    match comparison {
        Ok(true) => Ok(()),
        _ => Err(PrepareError::VersionTooOld { dependency, version: String::from_str(version) }),
    }
}

/// Checks that the resolved packages hold `napi-ohos` and
/// `napi-derive-ohos`, both at version 1.1.0 or later.
pub fn check_napi_versions(pkgs: &Vec<PackageInfo>) -> (r: Result<(), PrepareError>)
    ensures
        versions_check(pkgs@, r),
{
    let napi = find_package_version(pkgs, NapiCrate::NapiOhos.name());
    let derive = find_package_version(pkgs, NapiCrate::NapiDeriveOhos.name());
    let napi = match napi {
        Some(v) => v,
        None => {
            return Err(PrepareError::VersionMissing { dependency: NapiCrate::NapiOhos });
        },
    };
    let derive = match derive {
        Some(v) => v,
        None => {
            return Err(PrepareError::VersionMissing { dependency: NapiCrate::NapiDeriveOhos });
        },
    };
    let first = compare_at_least(napi.as_str(), minimum_version());
    check_minimum_version(NapiCrate::NapiOhos, napi.as_str(), first)?;
    let second = compare_at_least(derive.as_str(), minimum_version());
    check_minimum_version(NapiCrate::NapiDeriveOhos, derive.as_str(), second)
}

} // verus!

verus! {

/// The version check in terms of its outcome: it succeeds exactly when both
/// crates are resolved and both compare at least 1.1.0; a missing
/// `napi-ohos` is reported first, then a missing `napi-derive-ohos`; a
/// `napi-ohos` below the minimum is refused whatever the version of
/// `napi-derive-ohos`, and `napi-derive-ohos` is refused when it alone is
/// below the minimum. A refusal names the version that was found.
pub proof fn lemma_versions_check_outcome(pkgs: Seq<PackageInfo>, r: Result<(), PrepareError>)
    requires
        versions_check(pkgs, r),
    ensures
        ({
            let a = version_of(pkgs, "napi-ohos"@);
            let b = version_of(pkgs, "napi-derive-ohos"@);
            &&& r is Ok <==> (a is Some && b is Some && version_at_least(a->0, "1.1.0"@) == Ok::<
                bool,
                (),
            >(true) && version_at_least(b->0, "1.1.0"@) == Ok::<bool, ()>(true))
            &&& a is None ==> (r matches Err(PrepareError::VersionMissing { dependency: d })
                && d == NapiCrate::NapiOhos)
            &&& (a is Some && b is None) ==> (r matches Err(
                PrepareError::VersionMissing { dependency: d },
            ) && d == NapiCrate::NapiDeriveOhos)
            &&& (a is Some && b is Some && version_at_least(a->0, "1.1.0"@) != Ok::<bool, ()>(true))
                ==> (r matches Err(PrepareError::VersionTooOld { dependency: d, version: v }) && d
                == NapiCrate::NapiOhos && v@ == a->0)
            &&& (a is Some && b is Some && version_at_least(a->0, "1.1.0"@) == Ok::<bool, ()>(true)
                && version_at_least(b->0, "1.1.0"@) != Ok::<bool, ()>(true)) ==> (r matches Err(
                PrepareError::VersionTooOld { dependency: d, version: v },
            ) && d == NapiCrate::NapiDeriveOhos && v@ == b->0)
        }),
{
}

} // verus!

verus! {

/// The version looked up for `name` is that of the first package so named,
/// in the order of `pkgs`; there is none exactly when no package has that
/// name.
pub proof fn lemma_version_of_first_named(pkgs: Seq<PackageInfo>, name: Seq<char>)
    ensures
        match version_of(pkgs, name) {
            Some(v) => exists|i: int|
                0 <= i < pkgs.len() && (#[trigger] pkgs[i]).name@ == name && pkgs[i].version@ == v
                    && forall|j: int| 0 <= j < i ==> (#[trigger] pkgs[j]).name@ != name,
            None => forall|i: int| 0 <= i < pkgs.len() ==> (#[trigger] pkgs[i]).name@ != name,
        },
{
    if exists|i: int| first_with_name(pkgs, name, i) {
        let i = choose|i: int| first_with_name(pkgs, name, i);
        assert(first_with_name(pkgs, name, i));
    } else {
        assert forall|i: int| 0 <= i < pkgs.len() implies (#[trigger] pkgs[i]).name@ != name by {
            if pkgs[i].name@ == name {
                lemma_first_named_exists(pkgs, name, i);
            }
        }
    }
}

/// When some package has the name, there is a first one.
proof fn lemma_first_named_exists(pkgs: Seq<PackageInfo>, name: Seq<char>, k: int)
    requires
        0 <= k < pkgs.len(),
        pkgs[k].name@ == name,
    ensures
        exists|q: int| first_with_name(pkgs, name, q),
    decreases k,
{
    if exists|j: int| 0 <= j < k && (#[trigger] pkgs[j]).name@ == name {
        let j = choose|j: int| 0 <= j < k && (#[trigger] pkgs[j]).name@ == name;
        lemma_first_named_exists(pkgs, name, j);
    } else {
        assert(first_with_name(pkgs, name, k));
    }
}

} // verus!
