//! Cargo packages as the build sees them, and the choice of what to build.
//!
//! A package holds, as plain values, what the build reads of Cargo's
//! metadata: its id, name, version, manifest path, the names of its
//! dependencies and its targets.
use vstd::prelude::*;

use crate::error::PrepareError;
use crate::text::{
    chars_of, replace_char, replace_char_exec, same_text, starts_with_exec, starts_with_seq, string_of,
};

verus! {

/// A build target of a package: its name and kinds (`lib`, `cdylib`, `bin`, ...).
pub struct Target {
    pub name: String,
    pub kind: Vec<String>,
}

/// A package of Cargo's metadata.
pub struct PackageInfo {
    pub id: String,
    pub name: String,
    pub version: String,
    pub manifest_path: String,
    /// The names of the package's dependencies.
    pub dependencies: Vec<String>,
    pub targets: Vec<Target>,
}

/// The name of the procedural-macro crate whose users are built.
pub open spec fn napi_derive_name() -> Seq<char> {
    "napi-derive-ohos"@
}

/// The target lists `kind` among its kinds.
pub open spec fn has_kind(t: Target, kind: Seq<char>) -> bool {
    exists|i: int| 0 <= i < t.kind@.len() && (#[trigger] t.kind@[i])@ == kind
}

/// `i` is the first target of `ts` with the given kind.
pub open spec fn first_target_of_kind(ts: Seq<Target>, kind: Seq<char>, i: int) -> bool {
    &&& 0 <= i < ts.len()
    &&& has_kind(ts[i], kind)
    &&& forall|j: int| 0 <= j < i ==> !has_kind(#[trigger] ts[j], kind)
}

/// Some target of `ts` has the given kind.
pub open spec fn some_target_of_kind(ts: Seq<Target>, kind: Seq<char>) -> bool {
    exists|i: int| 0 <= i < ts.len() && has_kind(#[trigger] ts[i], kind)
}

/// The first target of `ts` with the given kind (meaningful when there is one).
pub open spec fn target_of_kind(ts: Seq<Target>, kind: Seq<char>) -> int {
    choose|i: int| first_target_of_kind(ts, kind, i)
}

/// The name under which the package's library is built: the first `cdylib`
/// target, else the first `lib` target, else the package name with `-`
/// replaced by `_`.
pub open spec fn build_target_name(p: PackageInfo) -> Seq<char> {
    if some_target_of_kind(p.targets@, "cdylib"@) {
        p.targets@[target_of_kind(p.targets@, "cdylib"@)].name@
    } else if some_target_of_kind(p.targets@, "lib"@) {
        p.targets@[target_of_kind(p.targets@, "lib"@)].name@
    } else {
        replace_char(p.name@, '-', '_')
    }
}

/// The package depends on a crate named `dep`.
pub open spec fn depends_on(p: PackageInfo, dep: Seq<char>) -> bool {
    exists|i: int| 0 <= i < p.dependencies@.len() && (#[trigger] p.dependencies@[i])@ == dep
}

/// The package is built: the N-API check is skipped, or it depends on the derive crate.
pub open spec fn wants_build(p: PackageInfo, skip_napi_check: bool) -> bool {
    skip_napi_check || depends_on(p, napi_derive_name())
}

/// `i` is the first package of `pkgs` whose id is `id`.
pub open spec fn first_with_id(pkgs: Seq<PackageInfo>, id: Seq<char>, i: int) -> bool {
    &&& 0 <= i < pkgs.len()
    &&& pkgs[i].id@ == id
    &&& forall|j: int| 0 <= j < i ==> (#[trigger] pkgs[j]).id@ != id
}

/// The package with the given id, if any.
pub open spec fn package_with_id(pkgs: Seq<PackageInfo>, id: Seq<char>) -> Option<int> {
    if exists|i: int| first_with_id(pkgs, id, i) {
        Some(choose|i: int| first_with_id(pkgs, id, i))
    } else {
        None
    }
}

/// `i` is the first package whose manifest matched the project's manifest.
pub open spec fn first_match(matches: Seq<bool>, i: int) -> bool {
    &&& 0 <= i < matches.len()
    &&& matches[i]
    &&& forall|j: int| 0 <= j < i ==> !#[trigger] matches[j]
}

/// The first package whose manifest matched the project's manifest, if any.
pub open spec fn matching_package(matches: Seq<bool>) -> Option<int> {
    if exists|i: int| first_match(matches, i) {
        Some(choose|i: int| first_match(matches, i))
    } else {
        None
    }
}

/// The workspace members that are built, in member order: each member's
/// package (the first package with its id), kept when it wants a build.
pub open spec fn workspace_candidates(
    pkgs: Seq<PackageInfo>,
    members: Seq<String>,
    skip_napi_check: bool,
) -> Seq<usize>
    decreases members.len(),
{
    if members.len() == 0 {
        Seq::empty()
    } else {
        let prev = workspace_candidates(pkgs, members.drop_last(), skip_napi_check);
        match package_with_id(pkgs, members.last()@) {
            Some(i) => if wants_build(pkgs[i], skip_napi_check) {
                prev.push(i as usize)
            } else {
                prev
            },
            None => prev,
        }
    }
}

/// `k` is the first position of `c` whose package holds the working directory.
pub open spec fn first_inside(c: Seq<usize>, inside: Seq<bool>, k: int) -> bool {
    &&& 0 <= k < c.len()
    &&& inside[c[k] as int]
    &&& forall|j: int| 0 <= j < k ==> !inside[#[trigger] c[j] as int]
}

/// Some package of `c` holds the working directory.
pub open spec fn some_inside(c: Seq<usize>, inside: Seq<bool>) -> bool {
    exists|k: int| 0 <= k < c.len() && inside[#[trigger] c[k] as int]
}

/// The packages to build before the check that the list is not empty.
///
/// In a workspace (some members), the candidates are the members that want
/// a build; when the working directory lies in one of them, only the first
/// such package is built, else all of them. Outside a workspace, the first
/// package whose manifest matched the project's manifest (`matches[i]`) is
/// built if it wants a build; when there is no such package, the metadata is
/// refused.
pub open spec fn chosen_packages(
    pkgs: Seq<PackageInfo>,
    members: Seq<String>,
    matches: Seq<bool>,
    skip_napi_check: bool,
    inside: Seq<bool>,
) -> Option<Seq<usize>> {
    if members.len() > 0 {
        let c = workspace_candidates(pkgs, members, skip_napi_check);
        if some_inside(c, inside) {
            let k = choose|k: int| first_inside(c, inside, k);
            if wants_build(pkgs[c[k] as int], skip_napi_check) {
                Some(seq![c[k]])
            } else {
                Some(Seq::empty())
            }
        } else {
            Some(c)
        }
    } else {
        match matching_package(matches) {
            Some(i) => if wants_build(pkgs[i], skip_napi_check) {
                Some(seq![i as usize])
            } else {
                Some(Seq::empty())
            },
            None => None,
        }
    }
}

/// The name under which the package's library is built.
pub fn resolve_build_target_name(pkg: &PackageInfo) -> (r: String)
    ensures
        r@ == build_target_name(*pkg),
{
    match find_target(&pkg.targets, "cdylib") {
        Some(i) => {
            return pkg.targets[i].name.clone();
        },
        None => {},
    }
    match find_target(&pkg.targets, "lib") {
        Some(i) => {
            return pkg.targets[i].name.clone();
        },
        None => {},
    }
    let name = chars_of(pkg.name.as_str());
    string_of(&replace_char_exec(&name, '-', '_'))
}

/// Whether the target lists `kind` among its kinds.
fn target_has_kind(t: &Target, kind: &str) -> (r: bool)
    ensures
        r == has_kind(*t, kind@),
{
    let mut i: usize = 0;
    while i < t.kind.len()
        invariant
            i <= t.kind@.len(),
            forall|j: int| 0 <= j < i ==> (#[trigger] t.kind@[j])@ != kind@,
        decreases t.kind.len() - i,
    {
        if same_text(&t.kind[i], kind) {
            return true;
        }
        i = i + 1;
    }
    false
}

/// The first target with the given kind, if any.
fn find_target(targets: &Vec<Target>, kind: &str) -> (r: Option<usize>)
    ensures
        match r {
            Some(i) => first_target_of_kind(targets@, kind@, i as int) && target_of_kind(
                targets@,
                kind@,
            ) == i,
            None => !some_target_of_kind(targets@, kind@),
        },
{
    let mut i: usize = 0;
    while i < targets.len()
        invariant
            i <= targets@.len(),
            forall|j: int| 0 <= j < i ==> !has_kind(#[trigger] targets@[j], kind@),
        decreases targets.len() - i,
    {
        if target_has_kind(&targets[i], kind) {
            assert(first_target_of_kind(targets@, kind@, i as int));
            let ghost k = target_of_kind(targets@, kind@);
            assert(k == i) by {
                if k < i {
                    assert(!has_kind(targets@[k], kind@));
                } else if k > i {
                    assert(!has_kind(targets@[i as int], kind@));
                }
            }
            return Some(i);
        }
        i = i + 1;
    }
    None
}

/// Whether the package depends on a crate named `dep`.
pub fn depends_on_crate(pkg: &PackageInfo, dep: &str) -> (r: bool)
    ensures
        r == depends_on(*pkg, dep@),
{
    let mut i: usize = 0;
    while i < pkg.dependencies.len()
        invariant
            i <= pkg.dependencies@.len(),
            forall|j: int| 0 <= j < i ==> (#[trigger] pkg.dependencies@[j])@ != dep@,
        decreases pkg.dependencies.len() - i,
    {
        if same_text(&pkg.dependencies[i], dep) {
            return true;
        }
        i = i + 1;
    }
    false
}

/// Whether the package is built.
pub fn package_wants_build(pkg: &PackageInfo, skip_napi_check: bool) -> (r: bool)
    ensures
        r == wants_build(*pkg, skip_napi_check),
{
    skip_napi_check || depends_on_crate(pkg, "napi-derive-ohos")
}

/// The first package with the given id, if any.
fn find_by_id(pkgs: &Vec<PackageInfo>, id: &String) -> (r: Option<usize>)
    ensures
        match r {
            Some(i) => package_with_id(pkgs@, id@) == Some(i as int),
            None => package_with_id(pkgs@, id@) is None,
        },
{
    let mut i: usize = 0;
    while i < pkgs.len()
        invariant
            i <= pkgs@.len(),
            forall|j: int| 0 <= j < i ==> (#[trigger] pkgs@[j]).id@ != id@,
        decreases pkgs.len() - i,
    {
        if pkgs[i].id == *id {
            assert(first_with_id(pkgs@, id@, i as int));
            let ghost k = choose|k: int| first_with_id(pkgs@, id@, k);
            assert(k == i) by {
                if k < i {
                    assert(pkgs@[k].id@ != id@);
                } else if k > i {
                    assert(pkgs@[i as int].id@ != id@);
                }
            }
            return Some(i);
        }
        i = i + 1;
    }
    None
}

/// A path spelled the same way on every platform: no `\\`, no `:` and no
/// leading `//`, so that it has no prefix and `/` is its only separator.
pub open spec fn plain_path(s: Seq<char>) -> bool {
    &&& forall|i: int| 0 <= i < s.len() ==> #[trigger] s[i] != '\\' && s[i] != ':'
    &&& !(s.len() >= 2 && s[0] == '/' && s[1] == '/')
}

/// The path starts at the root.
pub open spec fn path_rooted(s: Seq<char>) -> bool {
    s.len() > 0 && s[0] == '/'
}

/// The relative path starts with a `.` component, which is kept.
pub open spec fn path_leading_cur_dir(s: Seq<char>) -> bool {
    !path_rooted(s) && s.len() >= 1 && s[0] == '.' && (s.len() == 1 || s[1] == '/')
}

/// `cur`, the segment read so far, as components: none when it is empty
/// or `.`.
pub open spec fn segment_component(cur: Seq<char>) -> Seq<Seq<char>> {
    if cur.len() == 0 || cur == seq!['.'] {
        Seq::empty()
    } else {
        seq![cur]
    }
}

/// The `/`-separated segments of `s`, after `cur` that has been read
/// already, dropping empty and `.` segments.
pub open spec fn path_segments_from(s: Seq<char>, cur: Seq<char>) -> Seq<Seq<char>>
    decreases s.len(),
{
    if s.len() == 0 {
        segment_component(cur)
    } else if s[0] == '/' {
        segment_component(cur) + path_segments_from(s.drop_first(), Seq::empty())
    } else {
        path_segments_from(s.drop_first(), cur.push(s[0]))
    }
}

/// The named components of a path: its `/`-separated segments, without
/// empty segments (repeated or trailing separators) and `.` segments.
pub open spec fn path_segments(s: Seq<char>) -> Seq<Seq<char>> {
    path_segments_from(s, Seq::empty())
}

/// Two plain paths have the same components: both or neither start at the
/// root, both or neither start with a kept `.`, and their named components
/// are the same.
pub open spec fn same_components(a: Seq<char>, b: Seq<char>) -> bool {
    &&& path_rooted(a) == path_rooted(b)
    &&& path_leading_cur_dir(a) == path_leading_cur_dir(b)
    &&& path_segments(a) == path_segments(b)
}

/// Whether two paths are the same path, by camino's `Utf8Path` equality,
/// which compares std's `Path` components one by one. std documents the
/// components: repeated separators and a trailing separator are ignored,
/// and `.` is dropped except at the beginning of a relative path. For plain
/// paths (see `plain_path`) this is stated exactly; for other spellings
/// (prefixes, `\\`) the outcome follows the host platform's path syntax,
/// and only that a path is the same as itself is stated.
#[verifier::external_body]
fn same_path(a: &str, b: &str) -> (r: bool)
    ensures
        a@ == b@ ==> r,
        plain_path(a@) && plain_path(b@) ==> (r == same_components(a@, b@)),
{
    cargo_metadata::camino::Utf8Path::new(a) == cargo_metadata::camino::Utf8Path::new(b)
}

/// For each package, whether its manifest is the same path as `cargo_file`:
/// a manifest spelled exactly as `cargo_file` always matches, and for plain
/// paths a manifest matches exactly when it has the same components.
pub fn manifest_matches(pkgs: &Vec<PackageInfo>, cargo_file: &str) -> (r: Vec<bool>)
    ensures
        r@.len() == pkgs@.len(),
        forall|i: int|
            0 <= i < pkgs@.len() && (#[trigger] pkgs@[i]).manifest_path@ == cargo_file@ ==> r@[i],
        forall|i: int|
            0 <= i < pkgs@.len() && plain_path((#[trigger] pkgs@[i]).manifest_path@) && plain_path(
                cargo_file@,
            ) ==> r@[i] == same_components(pkgs@[i].manifest_path@, cargo_file@),
{
    let mut r: Vec<bool> = Vec::new();
    let mut i: usize = 0;
    while i < pkgs.len()
        invariant
            i <= pkgs@.len(),
            r@.len() == i,
            forall|j: int|
                0 <= j < i && (#[trigger] pkgs@[j]).manifest_path@ == cargo_file@ ==> r@[j],
            forall|j: int|
                0 <= j < i && plain_path((#[trigger] pkgs@[j]).manifest_path@) && plain_path(
                    cargo_file@,
                ) ==> r@[j] == same_components(pkgs@[j].manifest_path@, cargo_file@),
        decreases pkgs.len() - i,
    {
        r.push(same_path(pkgs[i].manifest_path.as_str(), cargo_file));
        i = i + 1;
    }
    r
}

/// The text fallback for telling whether the working directory lies in a
/// package's directory, used when the paths cannot be made canonical: the
/// working directory's text starts with the directory's text, or equals it.
pub fn dir_holds_by_text(pwd: &str, dir: &str) -> (r: bool)
    ensures
        r == (starts_with_seq(pwd@, dir@) || pwd@ == dir@),
{
    let p = chars_of(pwd);
    let d = chars_of(dir);
    let r = starts_with_exec(&p, &d);
    assert(p@ == d@ ==> p@.subrange(0, d@.len() as int) =~= d@);
    r
}

/// The first package whose manifest matched, if any.
fn find_match(matches: &Vec<bool>) -> (r: Option<usize>)
    ensures
        match r {
            Some(i) => matching_package(matches@) == Some(i as int),
            None => matching_package(matches@) is None,
        },
{
    let mut i: usize = 0;
    while i < matches.len()
        invariant
            i <= matches@.len(),
            forall|j: int| 0 <= j < i ==> !#[trigger] matches@[j],
        decreases matches.len() - i,
    {
        if matches[i] {
            assert(first_match(matches@, i as int));
            let ghost k = choose|k: int| first_match(matches@, k);
            assert(k == i) by {
                if k < i {
                    assert(!matches@[k]);
                } else if k > i {
                    assert(!matches@[i as int]);
                }
            }
            return Some(i);
        }
        i = i + 1;
    }
    None
}

/// The workspace members that are built, as indices into `pkgs`.
fn candidates(pkgs: &Vec<PackageInfo>, members: &Vec<String>, skip_napi_check: bool) -> (r: Vec<
    usize,
>)
    ensures
        r@ == workspace_candidates(pkgs@, members@, skip_napi_check),
        forall|k: int| 0 <= k < r@.len() ==> #[trigger] r@[k] < pkgs@.len(),
{
    let mut r: Vec<usize> = Vec::new();
    let mut m: usize = 0;
    while m < members.len()
        invariant
            m <= members@.len(),
            r@ == workspace_candidates(pkgs@, members@.take(m as int), skip_napi_check),
            forall|k: int| 0 <= k < r@.len() ==> #[trigger] r@[k] < pkgs@.len(),
        decreases members.len() - m,
    {
        assert(members@.take(m + 1).drop_last() =~= members@.take(m as int));
        assert(members@.take(m + 1).last() == members@[m as int]);
        match find_by_id(pkgs, &members[m]) {
            Some(i) => {
                if package_wants_build(&pkgs[i], skip_napi_check) {
                    r.push(i);
                }
            },
            None => {},
        }
        m = m + 1;
    }
    assert(members@.take(members.len() as int) =~= members@);
    r
}

/// The packages to build, as indices into `pkgs`, in build order.
///
/// `members` are the ids of the workspace members (none outside a
/// workspace), `matches[i]` whether the manifest of `pkgs[i]` is the
/// project's manifest (see `manifest_matches`) and `inside[i]`
/// whether the working directory lies in the directory of `pkgs[i]`.
pub fn select_packages(
    pkgs: &Vec<PackageInfo>,
    members: &Vec<String>,
    matches: &Vec<bool>,
    skip_napi_check: bool,
    inside: &Vec<bool>,
) -> (r: Result<Vec<usize>, PrepareError>)
    requires
        matches@.len() == pkgs@.len(),
        inside@.len() == pkgs@.len(),
    ensures
        match chosen_packages(pkgs@, members@, matches@, skip_napi_check, inside@) {
            Some(sel) => if sel.len() == 0 {
                r matches Err(PrepareError::NoPackageToBuild)
            } else {
                r matches Ok(v) && v@ == sel
            },
            None => r matches Err(PrepareError::PackageMetaMissing),
        },
        r matches Ok(v) ==> forall|k: int| 0 <= k < v@.len() ==> #[trigger] v@[k] < pkgs@.len(),
{
    let chosen: Vec<usize> = if members.len() > 0 {
        let c = candidates(pkgs, members, skip_napi_check);
        let mut k: usize = 0;
        let mut found: Option<usize> = None;
        while k < c.len()
            invariant
                k <= c@.len(),
                inside@.len() == pkgs@.len(),
                forall|q: int| 0 <= q < c@.len() ==> #[trigger] c@[q] < pkgs@.len(),
                found is None ==> forall|j: int| 0 <= j < k ==> !inside@[#[trigger] c@[j] as int],
                found matches Some(f) ==> first_inside(c@, inside@, f as int),
            decreases c.len() - k,
        {
            if found.is_none() && inside[c[k]] {
                found = Some(k);
            }
            k = k + 1;
        }
        match found {
            Some(f) => {
                let ghost q = choose|q: int| first_inside(c@, inside@, q);
                assert(q == f) by {
                    if q < f {
                        assert(!inside@[c@[q] as int]);
                    } else if q > f {
                        assert(!inside@[c@[f as int] as int]);
                    }
                }
                let pkg_index = c[f];
                if package_wants_build(&pkgs[pkg_index], skip_napi_check) {
                    let mut one: Vec<usize> = Vec::new();
                    one.push(pkg_index);
                    assert(one@ =~= seq![c@[f as int]]);
                    one
                } else {
                    Vec::new()
                }
            },
            None => {
                assert(!some_inside(c@, inside@));
                c
            },
        }
    } else {
        match find_match(matches) {
            Some(i) => {
                if package_wants_build(&pkgs[i], skip_napi_check) {
                    let mut one: Vec<usize> = Vec::new();
                    one.push(i);
                    assert(one@ =~= seq![i]);
                    one
                } else {
                    Vec::new()
                }
            },
            None => {
                return Err(PrepareError::PackageMetaMissing);
            },
        }
    };
    if chosen.len() == 0 {
        return Err(PrepareError::NoPackageToBuild);
    }
    Ok(chosen)
}

} // verus!

verus! {

/// When some target has the given kind, there is a first one.
proof fn lemma_first_target_exists(ts: Seq<Target>, kind: Seq<char>, k: int)
    requires
        0 <= k < ts.len(),
        has_kind(ts[k], kind),
    ensures
        exists|q: int| first_target_of_kind(ts, kind, q),
    decreases k,
{
    if exists|j: int| 0 <= j < k && has_kind(#[trigger] ts[j], kind) {
        let j = choose|j: int| 0 <= j < k && has_kind(#[trigger] ts[j], kind);
        lemma_first_target_exists(ts, kind, j);
    } else {
        assert(first_target_of_kind(ts, kind, k));
    }
}

/// Which name the library is built under, case by case: a `cdylib` target
/// wins over a `lib` target, and among targets of the winning kind the
/// first one in the package's order gives its name; with neither, the
/// package name is used with every `-` turned into `_`.
pub proof fn lemma_build_target_name_cases(p: PackageInfo)
    ensures
        (exists|i: int| 0 <= i < p.targets@.len() && has_kind(#[trigger] p.targets@[i], "cdylib"@))
            ==> (exists|i: int|
            0 <= i < p.targets@.len() && has_kind(#[trigger] p.targets@[i], "cdylib"@) && (forall|
                j: int,
            | 0 <= j < i ==> !has_kind(#[trigger] p.targets@[j], "cdylib"@))
                && build_target_name(p) == p.targets@[i].name@),
        (!(exists|i: int| 0 <= i < p.targets@.len() && has_kind(#[trigger] p.targets@[i], "cdylib"@))
            && exists|i: int| 0 <= i < p.targets@.len() && has_kind(#[trigger] p.targets@[i], "lib"@))
            ==> (exists|i: int|
            0 <= i < p.targets@.len() && has_kind(#[trigger] p.targets@[i], "lib"@) && (forall|
                j: int,
            | 0 <= j < i ==> !has_kind(#[trigger] p.targets@[j], "lib"@)) && build_target_name(p)
                == p.targets@[i].name@),
        (forall|i: int|
            0 <= i < p.targets@.len() ==> !has_kind(#[trigger] p.targets@[i], "cdylib"@) && !has_kind(
                p.targets@[i],
                "lib"@,
            )) ==> (build_target_name(p).len() == p.name@.len() && forall|k: int|
            0 <= k < p.name@.len() ==> #[trigger] build_target_name(p)[k] == (if p.name@[k] == '-' {
                '_'
            } else {
                p.name@[k]
            })),
{
    let ts = p.targets@;
    if some_target_of_kind(ts, "cdylib"@) {
        let w = choose|w: int| 0 <= w < ts.len() && has_kind(#[trigger] ts[w], "cdylib"@);
        lemma_first_target_exists(ts, "cdylib"@, w);
        let i = target_of_kind(ts, "cdylib"@);
        assert(first_target_of_kind(ts, "cdylib"@, i));
    } else if some_target_of_kind(ts, "lib"@) {
        let w = choose|w: int| 0 <= w < ts.len() && has_kind(#[trigger] ts[w], "lib"@);
        lemma_first_target_exists(ts, "lib"@, w);
        let i = target_of_kind(ts, "lib"@);
        assert(first_target_of_kind(ts, "lib"@, i));
    }
}

} // verus!
