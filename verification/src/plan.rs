//! The remaining decisions of a build's preparation: the cargo sub-command,
//! where the output goes, and which packages have their bindings regenerated.
use vstd::prelude::*;

use crate::package::{
    chosen_packages, depends_on, depends_on_crate, first_inside, napi_derive_name, some_inside,
    wants_build, workspace_candidates, PackageInfo,
};
use crate::text::{chars_of, concat_chars, replace_char, replace_char_exec, same_text, string_of};

verus! {

/// The command line handed to the argument list contains `--release`.
pub open spec fn has_release_flag(args: Seq<String>) -> bool {
    exists|i: int| 0 <= i < args.len() && (#[trigger] args[i])@ == "--release"@
}

/// The first arguments of the cargo invocation: the sub-command
/// (`zigbuild` or `build`), then `--release` for a release build unless the
/// user's own cargo arguments already hold it.
pub open spec fn init_args(zigbuild: bool, release: bool, cargo_args: Seq<String>) -> Seq<Seq<char>> {
    let base = if zigbuild {
        seq!["zigbuild"@]
    } else {
        seq!["build"@]
    };
    if release && !has_release_flag(cargo_args) {
        base.push("--release"@)
    } else {
        base
    }
}

/// The views of a list of strings.
pub open spec fn views(v: Seq<String>) -> Seq<Seq<char>> {
    v.map_values(|s: String| s@)
}

/// The first arguments of the cargo invocation.
pub fn cargo_init_args(zigbuild: bool, release: bool, cargo_args: &Vec<String>) -> (r: Vec<String>)
    ensures
        views(r@) == init_args(zigbuild, release, cargo_args@),
{
    let mut r: Vec<String> = Vec::new();
    if zigbuild {
        r.push(String::from_str("zigbuild"));
    } else {
        r.push(String::from_str("build"));
    }
    if release {
        let mut seen = false;
        let mut i: usize = 0;
        while i < cargo_args.len()
            invariant
                i <= cargo_args@.len(),
                seen == exists|j: int| 0 <= j < i && (#[trigger] cargo_args@[j])@ == "--release"@,
            decreases cargo_args.len() - i,
        {
            if same_text(&cargo_args[i], "--release") {
                seen = true;
            }
            i = i + 1;
        }
        if !seen {
            r.push(String::from_str("--release"));
        }
    }
    assert(views(r@) =~= init_args(zigbuild, release, cargo_args@));
    r
}

/// The package in whose directory the output goes: in a workspace, the
/// first package to build whose directory holds the working directory;
/// `None` (the working directory) otherwise.
pub open spec fn dist_package_of(is_workspace: bool, selection: Seq<usize>, inside: Seq<bool>) -> Option<
    usize,
> {
    if is_workspace && some_inside(selection, inside) {
        Some(selection[choose|k: int| first_inside(selection, inside, k)])
    } else {
        None
    }
}

/// The package in whose directory the output goes, if any.
pub fn dist_package(is_workspace: bool, selection: &Vec<usize>, inside: &Vec<bool>) -> (r: Option<
    usize,
>)
    requires
        forall|k: int| 0 <= k < selection@.len() ==> #[trigger] selection@[k] < inside@.len(),
    ensures
        r == dist_package_of(is_workspace, selection@, inside@),
{
    if !is_workspace {
        return None;
    }
    let mut k: usize = 0;
    while k < selection.len()
        invariant
            is_workspace,
            k <= selection@.len(),
            forall|q: int| 0 <= q < selection@.len() ==> #[trigger] selection@[q] < inside@.len(),
            forall|j: int| 0 <= j < k ==> !inside@[#[trigger] selection@[j] as int],
        decreases selection.len() - k,
    {
        if inside[selection[k]] {
            assert(first_inside(selection@, inside@, k as int));
            let ghost q = choose|q: int| first_inside(selection@, inside@, q);
            assert(q == k) by {
                if q < k {
                    assert(!inside@[selection@[q] as int]);
                } else if q > k {
                    assert(!inside@[selection@[k as int] as int]);
                }
            }
            return Some(selection[k]);
        }
        k = k + 1;
    }
    None
}

/// Every workspace candidate wants a build.
proof fn lemma_candidates_want_build(pkgs: Seq<PackageInfo>, members: Seq<String>, skip: bool)
    requires
        pkgs.len() <= usize::MAX,
    ensures
        forall|k: int|
            0 <= k < workspace_candidates(pkgs, members, skip).len() ==> {
                let i = #[trigger] workspace_candidates(pkgs, members, skip)[k] as int;
                0 <= i < pkgs.len() && wants_build(pkgs[i], skip)
            },
    decreases members.len(),
{
    if members.len() > 0 {
        let prev = workspace_candidates(pkgs, members.drop_last(), skip);
        lemma_candidates_want_build(pkgs, members.drop_last(), skip);
        let id = members.last()@;
        let c = workspace_candidates(pkgs, members, skip);
        if exists|i: int| crate::package::first_with_id(pkgs, id, i) {
            let i = choose|i: int| crate::package::first_with_id(pkgs, id, i);
            assert(crate::package::first_with_id(pkgs, id, i));
            if wants_build(pkgs[i], skip) {
                assert(c == prev.push(i as usize));
                assert forall|k: int| 0 <= k < c.len() implies {
                    let j = #[trigger] c[k] as int;
                    0 <= j < pkgs.len() && wants_build(pkgs[j], skip)
                } by {
                    if k < prev.len() {
                        assert(c[k] == prev[k]);
                    }
                }
            } else {
                assert(c == prev);
            }
        } else {
            assert(c == prev);
        }
    }
}

/// When some package of `c` holds the working directory, there is a first one.
pub proof fn lemma_first_inside_exists(c: Seq<usize>, inside: Seq<bool>, k: int)
    requires
        0 <= k < c.len(),
        inside[c[k] as int],
    ensures
        exists|q: int| first_inside(c, inside, q),
    decreases k,
{
    if exists|j: int| 0 <= j < k && inside[#[trigger] c[j] as int] {
        let j = choose|j: int| 0 <= j < k && inside[#[trigger] c[j] as int];
        lemma_first_inside_exists(c, inside, j);
    } else {
        assert(first_inside(c, inside, k));
    }
}

/// In a workspace, the output goes to a package's directory exactly when the
/// working directory lies in a package that is built, and that package is
/// then the only one built; otherwise no package to build holds the working
/// directory.
pub proof fn lemma_workspace_dist_is_the_built_package(
    pkgs: Seq<PackageInfo>,
    members: Seq<String>,
    matches: Seq<bool>,
    skip_napi_check: bool,
    inside: Seq<bool>,
)
    requires
        members.len() > 0,
        pkgs.len() <= usize::MAX,
        inside.len() == pkgs.len(),
        chosen_packages(pkgs, members, matches, skip_napi_check, inside) is Some,
    ensures
        ({
            let sel = chosen_packages(pkgs, members, matches, skip_napi_check, inside)->0;
            match dist_package_of(true, sel, inside) {
                Some(d) => sel == seq![d] && inside[d as int],
                None => forall|k: int| 0 <= k < sel.len() ==> !inside[#[trigger] sel[k] as int],
            }
        }),
{
    let c = workspace_candidates(pkgs, members, skip_napi_check);
    lemma_candidates_want_build(pkgs, members, skip_napi_check);
    let sel = chosen_packages(pkgs, members, matches, skip_napi_check, inside)->0;
    if some_inside(c, inside) {
        let w = choose|w: int| 0 <= w < c.len() && inside[#[trigger] c[w] as int];
        lemma_first_inside_exists(c, inside, w);
        let k = choose|k: int| first_inside(c, inside, k);
        assert(first_inside(c, inside, k));
        assert(wants_build(pkgs[c[k] as int], skip_napi_check));
        assert(sel == seq![c[k]]);
        assert(first_inside(sel, inside, 0));
        assert(some_inside(sel, inside));
        let q = choose|q: int| first_inside(sel, inside, q);
        assert(q == 0);
    } else {
        assert(sel == c);
    }
}

/// The indices of the packages among the first `n` of `pkgs` that depend
/// on the derive crate, in order.
pub open spec fn napi_dependents(pkgs: Seq<PackageInfo>, n: int) -> Seq<usize>
    decreases n,
{
    if n <= 0 {
        Seq::empty()
    } else if depends_on(pkgs[n - 1], napi_derive_name()) {
        napi_dependents(pkgs, n - 1).push((n - 1) as usize)
    } else {
        napi_dependents(pkgs, n - 1)
    }
}

/// The packages whose bindings are regenerated: when the type-definition
/// folder was not found (or could not be probed), every package that
/// depends on the derive crate; otherwise none.
pub open spec fn forced_packages(pkgs: Seq<PackageInfo>, tmp_exists: Option<bool>) -> Seq<usize> {
    if tmp_exists != Some(true) {
        napi_dependents(pkgs, pkgs.len() as int)
    } else {
        Seq::empty()
    }
}

/// The packages whose bindings are regenerated, as indices into `pkgs`.
pub fn force_build_packages(pkgs: &Vec<PackageInfo>, tmp_exists: Option<bool>) -> (r: Vec<usize>)
    ensures
        r@ == forced_packages(pkgs@, tmp_exists),
{
    let mut r: Vec<usize> = Vec::new();
    if !crate::project::should_force_napi_build(tmp_exists) {
        return r;
    }
    let mut i: usize = 0;
    while i < pkgs.len()
        invariant
            i <= pkgs@.len(),
            r@ == napi_dependents(pkgs@, i as int),
        decreases pkgs.len() - i,
    {
        if depends_on_crate(&pkgs[i], "napi-derive-ohos") {
            r.push(i);
        }
        i = i + 1;
    }
    r
}

/// What `str::to_uppercase` returns for `s` (Unicode upper case).
pub uninterp spec fn unicode_uppercase(s: Seq<char>) -> Seq<char>;

/// `str::to_uppercase`: the Unicode upper case of `s`, named `unicode_uppercase`.
#[verifier::external_body]
fn to_uppercase(s: &str) -> (r: String)
    ensures
        r@ == unicode_uppercase(s@),
{
    s.to_uppercase()
}

/// The environment variable that forces a package's bindings to be
/// regenerated, given the upper-cased package name.
pub open spec fn force_build_var_for(upper: Seq<char>) -> Seq<char> {
    "NAPI_FORCE_BUILD_"@ + upper
}

/// The environment variable for a package named `name`: its name with `-`
/// replaced by `_`, upper-cased, behind `NAPI_FORCE_BUILD_`.
pub open spec fn force_build_var(name: Seq<char>) -> Seq<char> {
    force_build_var_for(unicode_uppercase(replace_char(name, '-', '_')))
}

/// The environment variable, given the upper-cased package name.
pub fn force_build_var_name_for(upper: &str) -> (r: String)
    ensures
        r@ == force_build_var_for(upper@),
{
    let mut r = String::from_str("NAPI_FORCE_BUILD_");
    r.append(upper);
    r
}

/// The environment variable that forces the bindings of the package named
/// `name` to be regenerated.
pub fn force_build_var_name(name: &str) -> (r: String)
    ensures
        r@ == force_build_var(name@),
{
    let underscored = string_of(&replace_char_exec(&chars_of(name), '-', '_'));
    let upper = to_uppercase(underscored.as_str());
    force_build_var_name_for(upper.as_str())
}

/// The decimal digit for `d` (below 10).
pub open spec fn decimal_digit(d: int) -> char {
    if d == 0 {
        '0'
    } else if d == 1 {
        '1'
    } else if d == 2 {
        '2'
    } else if d == 3 {
        '3'
    } else if d == 4 {
        '4'
    } else if d == 5 {
        '5'
    } else if d == 6 {
        '6'
    } else if d == 7 {
        '7'
    } else if d == 8 {
        '8'
    } else {
        '9'
    }
}

/// The decimal text of `n`, without leading zeros.
pub open spec fn decimal(n: nat) -> Seq<char>
    decreases n,
{
    if n < 10 {
        seq![decimal_digit(n as int)]
    } else {
        decimal(n / 10).push(decimal_digit((n % 10) as int))
    }
}

fn decimal_digit_exec(d: u128) -> (c: char)
    requires
        d < 10,
    ensures
        c == decimal_digit(d as int),
{
    if d == 0 {
        '0'
    } else if d == 1 {
        '1'
    } else if d == 2 {
        '2'
    } else if d == 3 {
        '3'
    } else if d == 4 {
        '4'
    } else if d == 5 {
        '5'
    } else if d == 6 {
        '6'
    } else if d == 7 {
        '7'
    } else if d == 8 {
        '8'
    } else {
        '9'
    }
}

/// The decimal text of `n`.
pub fn decimal_chars(n: u128) -> (r: Vec<char>)
    ensures
        r@ == decimal(n as nat),
    decreases n,
{
    if n < 10 {
        let mut r: Vec<char> = Vec::new();
        r.push(decimal_digit_exec(n));
        assert(r@ =~= decimal(n as nat));
        r
    } else {
        let mut r = decimal_chars(n / 10);
        r.push(decimal_digit_exec(n % 10));
        r
    }
}

/// A fresh type-definition folder: `path`, `_`, and the time in milliseconds.
pub open spec fn timestamped(path: Seq<char>, millis: nat) -> Seq<char> {
    path + "_"@ + decimal(millis)
}

/// The type-definition folder with the time in milliseconds appended, used
/// when the folder is not to be reused between builds.
pub fn timestamped_path(path: &str, millis: u128) -> (r: String)
    ensures
        r@ == timestamped(path@, millis as nat),
{
    let with_sep = concat_chars(&chars_of(path), &chars_of("_"));
    string_of(&concat_chars(&with_sep, &decimal_chars(millis)))
}

} // verus!

verus! {

/// Every package chosen for a build wants one: the N-API check is skipped,
/// or the package depends on the derive crate.
pub proof fn lemma_chosen_packages_want_build(
    pkgs: Seq<PackageInfo>,
    members: Seq<String>,
    matches: Seq<bool>,
    skip_napi_check: bool,
    inside: Seq<bool>,
)
    requires
        pkgs.len() <= usize::MAX,
        matches.len() == pkgs.len(),
        chosen_packages(pkgs, members, matches, skip_napi_check, inside) is Some,
    ensures
        ({
            let sel = chosen_packages(pkgs, members, matches, skip_napi_check, inside)->0;
            forall|k: int|
                0 <= k < sel.len() ==> {
                    let i = #[trigger] sel[k] as int;
                    0 <= i < pkgs.len() && wants_build(pkgs[i], skip_napi_check)
                }
        }),
{
    let sel = chosen_packages(pkgs, members, matches, skip_napi_check, inside)->0;
    if members.len() > 0 {
        let c = workspace_candidates(pkgs, members, skip_napi_check);
        lemma_candidates_want_build(pkgs, members, skip_napi_check);
        if some_inside(c, inside) {
            let k = choose|k: int| first_inside(c, inside, k);
            if wants_build(pkgs[c[k] as int], skip_napi_check) {
                assert(sel == seq![c[k]]);
                assert forall|q: int| 0 <= q < sel.len() implies {
                    let i = #[trigger] sel[q] as int;
                    0 <= i < pkgs.len() && wants_build(pkgs[i], skip_napi_check)
                } by {
                    assert(sel[q] == c[k]);
                    let w = choose|w: int| 0 <= w < c.len() && inside[#[trigger] c[w] as int];
                    lemma_first_inside_exists(c, inside, w);
                    assert(first_inside(c, inside, k));
                }
            }
        } else {
            assert(sel == c);
        }
    } else {
        let i = crate::package::matching_package(matches)->0;
        let j = choose|j: int| crate::package::first_match(matches, j);
        assert(crate::package::first_match(matches, j));
        assert(i == j);
        if wants_build(pkgs[i], skip_napi_check) {
            assert(sel == seq![i as usize]);
        }
    }
}

} // verus!

verus! {

/// The cargo invocation starts with `zigbuild` exactly when zigbuild was
/// asked for, and `build` otherwise; a release build gets `--release` as the
/// second argument whenever none of the user's cargo arguments is
/// `--release`, whichever sub-command is used; in every other case the
/// sub-command stands alone.
pub proof fn lemma_init_args_release_flag(zigbuild: bool, release: bool, cargo_args: Seq<String>)
    ensures
        init_args(zigbuild, release, cargo_args).len() >= 1,
        init_args(zigbuild, release, cargo_args)[0] == (if zigbuild {
            "zigbuild"@
        } else {
            "build"@
        }),
        (init_args(zigbuild, release, cargo_args)[0] == "zigbuild"@) <==> zigbuild,
        (release && forall|i: int| 0 <= i < cargo_args.len() ==> (#[trigger] cargo_args[i])@
            != "--release"@) ==> (init_args(zigbuild, release, cargo_args).len() == 2
            && init_args(zigbuild, release, cargo_args)[1] == "--release"@),
        (!release || exists|i: int| 0 <= i < cargo_args.len() && (#[trigger] cargo_args[i])@
            == "--release"@) ==> init_args(zigbuild, release, cargo_args).len() == 1,
{
    reveal_strlit("zigbuild");
    reveal_strlit("build");
    assert("build"@[0] != "zigbuild"@[0]);
}

/// The variable that forces a package's bindings to be regenerated is
/// `NAPI_FORCE_BUILD_` followed by the upper case of the package name in
/// which every `-` (not only the first) has become `_`: `u` is that name,
/// character by character.
pub proof fn lemma_force_build_var_replaces_every_dash(name: Seq<char>, u: Seq<char>)
    requires
        u.len() == name.len(),
        forall|k: int|
            0 <= k < name.len() ==> #[trigger] u[k] == (if name[k] == '-' {
                '_'
            } else {
                name[k]
            }),
    ensures
        force_build_var(name) == "NAPI_FORCE_BUILD_"@ + unicode_uppercase(u),
{
    assert(u =~= replace_char(name, '-', '_'));
}

} // verus!

verus! {

/// Among the first `n` packages, the dependents of the derive crate are
/// listed in increasing order, each exactly once.
proof fn lemma_napi_dependents_members(pkgs: Seq<PackageInfo>, n: int)
    requires
        0 <= n <= pkgs.len(),
        pkgs.len() <= usize::MAX,
    ensures
        forall|a: int|
            0 <= a < napi_dependents(pkgs, n).len() ==> #[trigger] napi_dependents(pkgs, n)[a] < n,
        forall|a: int, b: int|
            0 <= a < b < napi_dependents(pkgs, n).len() ==> #[trigger] napi_dependents(pkgs, n)[a]
                < #[trigger] napi_dependents(pkgs, n)[b],
        forall|i: int|
            0 <= i < n ==> (napi_dependents(pkgs, n).contains(i as usize) <==> depends_on(
                #[trigger] pkgs[i],
                "napi-derive-ohos"@,
            )),
    decreases n,
{
    if n > 0 {
        lemma_napi_dependents_members(pkgs, n - 1);
        let prev = napi_dependents(pkgs, n - 1);
        let cur = napi_dependents(pkgs, n);
        assert forall|i: int| 0 <= i < n implies (cur.contains(i as usize) <==> depends_on(
            #[trigger] pkgs[i],
            "napi-derive-ohos"@,
        )) by {
            if i < n - 1 {
                if cur.contains(i as usize) && !prev.contains(i as usize) {
                    let a = choose|a: int| 0 <= a < cur.len() && cur[a] == i as usize;
                    assert(a == prev.len());
                }
                if prev.contains(i as usize) {
                    let a = choose|a: int| 0 <= a < prev.len() && prev[a] == i as usize;
                    assert(cur[a] == prev[a]);
                }
            } else {
                if depends_on(pkgs[n - 1], napi_derive_name()) {
                    assert(cur[prev.len() as int] == (n - 1) as usize);
                } else if cur.contains(i as usize) {
                    let a = choose|a: int| 0 <= a < cur.len() && cur[a] == i as usize;
                    assert(prev[a] < n - 1);
                }
            }
        }
    }
}

/// The packages whose bindings are regenerated: none when the
/// type-definition folder was found; otherwise exactly the packages that
/// depend on `napi-derive-ohos`, each once, in the order of `pkgs`.
pub proof fn lemma_forced_packages_members(pkgs: Seq<PackageInfo>, tmp_exists: Option<bool>)
    requires
        pkgs.len() <= usize::MAX,
    ensures
        tmp_exists == Some(true) ==> forced_packages(pkgs, tmp_exists).len() == 0,
        tmp_exists != Some(true) ==> forall|i: int|
            0 <= i < pkgs.len() ==> (forced_packages(pkgs, tmp_exists).contains(i as usize)
                <==> depends_on(#[trigger] pkgs[i], "napi-derive-ohos"@)),
        forall|a: int|
            0 <= a < forced_packages(pkgs, tmp_exists).len() ==> #[trigger] forced_packages(
                pkgs,
                tmp_exists,
            )[a] < pkgs.len(),
        forall|a: int, b: int|
            0 <= a < b < forced_packages(pkgs, tmp_exists).len() ==> #[trigger] forced_packages(
                pkgs,
                tmp_exists,
            )[a] < #[trigger] forced_packages(pkgs, tmp_exists)[b],
{
    lemma_napi_dependents_members(pkgs, pkgs.len() as int);
}

} // verus!

verus! {

/// The number written by the decimal digits `s`, most significant first.
pub open spec fn decimal_value(s: Seq<char>) -> int
    decreases s.len(),
{
    if s.len() == 0 {
        0
    } else {
        10 * decimal_value(s.drop_last()) + (s.last() as int - '0' as int)
    }
}

/// Reading back the decimal text of `n` gives `n`: the text is made of the
/// digits `0` to `9` only, and it starts with `0` only when `n` is zero.
pub proof fn lemma_decimal_reads_back(n: nat)
    ensures
        decimal(n).len() >= 1,
        decimal_value(decimal(n)) == n,
        forall|k: int| 0 <= k < decimal(n).len() ==> '0' <= #[trigger] decimal(n)[k] <= '9',
        decimal(n)[0] == '0' ==> n == 0,
    decreases n,
{
    let d = decimal(n);
    if n >= 10 {
        lemma_decimal_reads_back(n / 10);
        let r = (n % 10) as int;
        assert(decimal_digit(r) as int - '0' as int == r);
        assert(d.drop_last() =~= decimal(n / 10));
        assert(d[0] == decimal(n / 10)[0]);
        assert(n == 10 * (n / 10) + n % 10);
        assert(d.last() == decimal_digit(r));
        assert(decimal_value(d) == 10 * decimal_value(d.drop_last()) + (d.last() as int - '0' as int));
        assert(decimal_value(d) == 10 * (n / 10) + r);
    } else {
        assert(d.last() == decimal_digit(n as int));
        assert(decimal_value(d) == 10 * decimal_value(d.drop_last()) + (d.last() as int - '0' as int));
        assert(decimal_digit(n as int) as int - '0' as int == n);
        assert(d.drop_last() =~= Seq::<char>::empty());
    }
}

/// The fresh type-definition folder is the folder's path, `_`, and the
/// time in milliseconds written in decimal without leading zeros.
pub proof fn lemma_timestamped_shape(path: Seq<char>, millis: nat)
    ensures
        timestamped(path, millis).len() > path.len() + 1int,
        timestamped(path, millis).subrange(0, path.len() as int) == path,
        timestamped(path, millis)[path.len() as int] == '_',
        decimal_value(
            timestamped(path, millis).subrange(path.len() + 1int, timestamped(path, millis).len() as int),
        ) == millis,
        forall|k: int|
            path.len() < k < timestamped(path, millis).len() ==> '0' <= #[trigger] timestamped(
                path,
                millis,
            )[k] <= '9',
        timestamped(path, millis)[path.len() + 1int] == '0' ==> millis == 0,
{
    reveal_strlit("_");
    lemma_decimal_reads_back(millis);
    let t = timestamped(path, millis);
    let d = decimal(millis);
    assert(t.subrange(0, path.len() as int) =~= path);
    assert(t.subrange(path.len() + 1int, t.len() as int) =~= d);
    assert forall|k: int| path.len() < k < t.len() implies '0' <= #[trigger] t[k] <= '9' by {
        assert(t[k] == d[k - path.len() - 1]);
    }
}

} // verus!

verus! {

/// The output goes to a package's directory only in a workspace, and then
/// to the first package of the selection, in selection order, whose
/// directory holds the working directory; when none does (or outside a
/// workspace) it goes to the working directory.
pub proof fn lemma_dist_package_is_first_holding(
    is_workspace: bool,
    selection: Seq<usize>,
    inside: Seq<bool>,
)
    ensures
        match dist_package_of(is_workspace, selection, inside) {
            Some(d) => is_workspace && exists|k: int|
                0 <= k < selection.len() && #[trigger] selection[k] == d && inside[d as int]
                    && forall|j: int| 0 <= j < k ==> !inside[#[trigger] selection[j] as int],
            None => !is_workspace || forall|k: int|
                0 <= k < selection.len() ==> !inside[#[trigger] selection[k] as int],
        },
{
    if is_workspace && some_inside(selection, inside) {
        let w = choose|w: int| 0 <= w < selection.len() && inside[#[trigger] selection[w] as int];
        lemma_first_inside_exists(selection, inside, w);
        let k = choose|k: int| first_inside(selection, inside, k);
        assert(first_inside(selection, inside, k));
    }
}

} // verus!
