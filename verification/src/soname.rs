//! SONAME validation and normalisation for the shared library that a build produces.
use vstd::prelude::*;

use crate::error::PrepareError;
use crate::text::{
    chars_of, concat_chars, contains_exec, contains_seq, ends_with_exec, ends_with_seq,
    find_first, first_occurrence, is_ascii_digit, occurs_at, starts_with_exec, starts_with_seq,
    string_of,
};

verus! {

/// A SONAME carries a version number when its first `.so.` is directly
/// followed by an ASCII digit (as in `libxx.so.1`).
pub open spec fn versioned_soname(s: Seq<char>) -> bool {
    exists|i: int|
        #![trigger first_occurrence(s, ".so."@, i)]
        first_occurrence(s, ".so."@, i) && i + ".so."@.len() < s.len() && is_ascii_digit(
            s[i + ".so."@.len()],
        )
}

/// The full file name for a SONAME: kept as is when it already starts with
/// `lib` and contains `.so`; `lib` is prepended to a name ending in `.so`;
/// otherwise the base name is wrapped as `lib<name>.so`.
pub open spec fn normalized_soname(s: Seq<char>) -> Seq<char> {
    if starts_with_seq(s, "lib"@) && contains_seq(s, ".so"@) {
        s
    } else if ends_with_seq(s, ".so"@) {
        "lib"@ + s
    } else {
        "lib"@ + s + ".so"@
    }
}

/// `e` is the error that rejects the versioned SONAME `soname`.
pub open spec fn is_versioned_soname_error(e: PrepareError, soname: Seq<char>) -> bool {
    e matches PrepareError::VersionedSoname { soname: s } && s@ == soname
}

/// Rejects a SONAME that carries a version number, such as `libxx.so.1`.
pub fn validate_soname(soname: &str) -> (r: Result<(), PrepareError>)
    ensures
        r is Ok <==> !versioned_soname(soname@),
        r matches Err(e) ==> is_versioned_soname_error(e, soname@),
{
    let s = chars_of(soname);
    let pat = chars_of(".so.");
    match find_first(&s, &pat) {
        Some(i) => {
            if i < s.len() && pat.len() < s.len() - i {
                let c = s[i + pat.len()];
                if '0' <= c && c <= '9' {
                    return Err(PrepareError::VersionedSoname { soname: string_of(&s) });
                }
            }
            assert forall|j: int|
                #![trigger first_occurrence(s@, ".so."@, j)]
                first_occurrence(s@, ".so."@, j) implies !(j + ".so."@.len() < s@.len()
                && is_ascii_digit(s@[j + ".so."@.len()])) by {
                if j < i {
                    assert(!occurs_at(s@, pat@, j));
                } else if j > i {
                    assert(!occurs_at(s@, pat@, i as int));
                }
            }
            Ok(())
        },
        None => Ok(()),
    }
}

/// Turns a SONAME into the file name of the library: `xx` becomes
/// `libxx.so`, `xx.so` becomes `libxx.so`, and `libxx.so` is kept as is.
/// A SONAME with a version number is refused.
pub fn normalize_soname(soname: &str) -> (r: Result<String, PrepareError>)
    ensures
        match r {
            Ok(name) => !versioned_soname(soname@) && name@ == normalized_soname(soname@),
            Err(e) => versioned_soname(soname@) && is_versioned_soname_error(e, soname@),
        },
{
    validate_soname(soname)?;
    let s = chars_of(soname);
    let lib = chars_of("lib");
    let so = chars_of(".so");
    if starts_with_exec(&s, &lib) && contains_exec(&s, &so) {
        return Ok(string_of(&s));
    }
    if ends_with_exec(&s, &so) {
        return Ok(string_of(&concat_chars(&lib, &s)));
    }
    let with_prefix = concat_chars(&lib, &s);
    Ok(string_of(&concat_chars(&with_prefix, &so)))
}

} // verus!

verus! {

/// Occurrences of `.so.` in `lib` + `s` are those of `s`, shifted by three.
proof fn lemma_lib_prefix_occurrences(s: Seq<char>)
    ensures
        forall|p: int|
            #![trigger occurs_at("lib"@ + s, ".so."@, p)]
            occurs_at("lib"@ + s, ".so."@, p) <==> (p >= 3 && occurs_at(s, ".so."@, p - 3)),
        ("lib"@ + s).len() == s.len() + 3,
        forall|k: int| 3 <= k < s.len() + 3 ==> #[trigger] ("lib"@ + s)[k] == s[k - 3],
{
    reveal_strlit("lib");
    reveal_strlit(".so.");
    let n = "lib"@ + s;
    let d = ".so."@;
    assert forall|p: int| #![trigger occurs_at(n, d, p)] occurs_at(n, d, p) <==> (p >= 3
        && occurs_at(s, d, p - 3)) by {
        if occurs_at(n, d, p) {
            assert(n.subrange(p, p + 4)[0] == d[0]);
            if p < 3 {
                assert(n[p] == "lib"@[p]);
            } else {
                assert(s.subrange(p - 3, p + 1) =~= n.subrange(p, p + 4));
            }
        }
        if p >= 3 && occurs_at(s, d, p - 3) {
            assert(s.subrange(p - 3, p + 1) =~= n.subrange(p, p + 4));
        }
    }
}

/// Appending `.so` to a name that does not already end in `.so` adds no
/// occurrence of `.so.`.
proof fn lemma_so_suffix_occurrences(s: Seq<char>)
    requires
        !ends_with_seq(s, ".so"@),
    ensures
        forall|q: int|
            #![trigger occurs_at(s + ".so"@, ".so."@, q)]
            occurs_at(s + ".so"@, ".so."@, q) <==> occurs_at(s, ".so."@, q),
        (s + ".so"@).len() == s.len() + 3,
        (s + ".so"@)[s.len() as int] == '.',
        forall|k: int| 0 <= k < s.len() ==> #[trigger] (s + ".so"@)[k] == s[k],
{
    reveal_strlit(".so");
    reveal_strlit(".so.");
    let t = s + ".so"@;
    let d = ".so."@;
    assert forall|q: int| #![trigger occurs_at(t, d, q)] occurs_at(t, d, q) <==> occurs_at(
        s,
        d,
        q,
    ) by {
        if occurs_at(t, d, q) {
            if q + 4 <= s.len() {
                assert(s.subrange(q, q + 4) =~= t.subrange(q, q + 4));
            } else if q == s.len() - 1 {
                assert(t.subrange(q, q + 4)[1] == t[q + 1]);
            } else if q == s.len() - 2 {
                assert(t.subrange(q, q + 4)[2] == t[q + 2]);
            } else {
                assert(q == s.len() - 3);
                assert(s.subrange(q, q + 3) =~= ".so"@) by {
                    assert(t.subrange(q, q + 4)[0] == t[q]);
                    assert(t.subrange(q, q + 4)[1] == t[q + 1]);
                    assert(t.subrange(q, q + 4)[2] == t[q + 2]);
                }
                assert(ends_with_seq(s, ".so"@));
            }
        }
        if occurs_at(s, d, q) {
            assert(s.subrange(q, q + 4) =~= t.subrange(q, q + 4));
        }
    }
}

/// Prepending `lib` does not change whether a name is versioned.
proof fn lemma_lib_prefix_versioned(s: Seq<char>)
    ensures
        versioned_soname("lib"@ + s) == versioned_soname(s),
{
    reveal_strlit(".so.");
    lemma_lib_prefix_occurrences(s);
    let n = "lib"@ + s;
    let d = ".so."@;
    if versioned_soname(n) {
        let p = choose|p: int|
            #![trigger first_occurrence(n, d, p)]
            first_occurrence(n, d, p) && p + d.len() < n.len() && is_ascii_digit(n[p + d.len()]);
        assert(occurs_at(n, d, p));
        assert forall|j: int| 0 <= j < p - 3 implies !occurs_at(s, d, j) by {
            assert(!occurs_at(n, d, j + 3));
        }
        assert(first_occurrence(s, d, p - 3));
        assert(n[p + 4] == s[p + 1]);
    }
    if versioned_soname(s) {
        let q = choose|q: int|
            #![trigger first_occurrence(s, d, q)]
            first_occurrence(s, d, q) && q + d.len() < s.len() && is_ascii_digit(s[q + d.len()]);
        assert(occurs_at(n, d, q + 3));
        assert forall|j: int| 0 <= j < q + 3 implies !occurs_at(n, d, j) by {
            if j >= 3 {
                assert(!occurs_at(s, d, j - 3));
            }
        }
        assert(first_occurrence(n, d, q + 3));
        assert(n[q + 7] == s[q + 4]);
    }
}

/// Appending `.so` to a name that does not end in `.so` does not change
/// whether it is versioned.
proof fn lemma_so_suffix_versioned(s: Seq<char>)
    requires
        !ends_with_seq(s, ".so"@),
    ensures
        versioned_soname(s + ".so"@) == versioned_soname(s),
{
    reveal_strlit(".so.");
    lemma_so_suffix_occurrences(s);
    let t = s + ".so"@;
    let d = ".so."@;
    if versioned_soname(t) {
        let p = choose|p: int|
            #![trigger first_occurrence(t, d, p)]
            first_occurrence(t, d, p) && p + d.len() < t.len() && is_ascii_digit(t[p + d.len()]);
        assert(occurs_at(s, d, p));
        assert forall|j: int| 0 <= j < p implies !occurs_at(s, d, j) by {
            assert(!occurs_at(t, d, j));
        }
        assert(first_occurrence(s, d, p));
        if p + 4 == s.len() {
            assert(t[p + 4] == '.');
        }
    }
    if versioned_soname(s) {
        let q = choose|q: int|
            #![trigger first_occurrence(s, d, q)]
            first_occurrence(s, d, q) && q + d.len() < s.len() && is_ascii_digit(s[q + d.len()]);
        assert(occurs_at(t, d, q));
        assert forall|j: int| 0 <= j < q implies !occurs_at(t, d, j) by {
            assert(!occurs_at(s, d, j));
        }
        assert(first_occurrence(t, d, q));
    }
}

/// Normalising a SONAME is idempotent: the normalised name of an accepted
/// SONAME is accepted again and is its own normalised name.
pub proof fn lemma_normalize_soname_idempotent(s: Seq<char>)
    requires
        !versioned_soname(s),
    ensures
        !versioned_soname(normalized_soname(s)),
        normalized_soname(normalized_soname(s)) == normalized_soname(s),
{
    reveal_strlit("lib");
    reveal_strlit(".so");
    let n = normalized_soname(s);
    if starts_with_seq(s, "lib"@) && contains_seq(s, ".so"@) {
    } else if ends_with_seq(s, ".so"@) {
        lemma_lib_prefix_versioned(s);
        assert(n.subrange(0, 3) =~= "lib"@);
        let k = s.len() - 3;
        assert(n.subrange(k + 3, k + 6) =~= s.subrange(k, k + 3));
        assert(occurs_at(n, ".so"@, k + 3));
    } else {
        lemma_so_suffix_versioned(s);
        lemma_lib_prefix_versioned(s + ".so"@);
        assert(n =~= "lib"@ + (s + ".so"@));
        assert(n.subrange(0, 3) =~= "lib"@);
        assert(n.subrange(s.len() + 3int, s.len() + 6int) =~= ".so"@);
        assert(occurs_at(n, ".so"@, s.len() + 3int));
    }
}

} // verus!

verus! {

/// Which SONAMEs are refused, in terms of the characters of the name: a
/// name is refused exactly when its first `.so.` is directly followed by
/// one of the ten digits `0` to `9`; a name with no `.so.` is accepted.
/// `r` stands for the outcome of `validate_soname(s)`, by its contract.
pub proof fn lemma_versioned_soname_by_characters(s: Seq<char>, r: Result<(), PrepareError>)
    requires
        r is Ok <==> !versioned_soname(s),
    ensures
        forall|i: int|
            #![trigger first_occurrence(s, ".so."@, i)]
            first_occurrence(s, ".so."@, i) ==> (r is Err <==> (i + 4 < s.len() && '0' <= s[i + 4]
                && s[i + 4] <= '9')),
        !contains_seq(s, ".so."@) ==> r is Ok,
{
    reveal_strlit(".so.");
    assert forall|i: int|
        #![trigger first_occurrence(s, ".so."@, i)]
        first_occurrence(s, ".so."@, i) implies (r is Err <==> (i + 4 < s.len() && '0' <= s[i + 4]
            && s[i + 4] <= '9')) by {
        if versioned_soname(s) {
            let j = choose|j: int|
                #![trigger first_occurrence(s, ".so."@, j)]
                first_occurrence(s, ".so."@, j) && j + ".so."@.len() < s.len() && is_ascii_digit(
                    s[j + ".so."@.len()],
                );
            assert(j == i) by {
                if j < i {
                    assert(!occurs_at(s, ".so."@, j));
                } else if j > i {
                    assert(!occurs_at(s, ".so."@, i));
                }
            }
        }
    }
    if !contains_seq(s, ".so."@) {
        if versioned_soname(s) {
            let j = choose|j: int|
                #![trigger first_occurrence(s, ".so."@, j)]
                first_occurrence(s, ".so."@, j) && j + ".so."@.len() < s.len() && is_ascii_digit(
                    s[j + ".so."@.len()],
                );
            assert(occurs_at(s, ".so."@, j));
        }
    }
}

/// What the normalised name is, in terms of the characters of the request:
/// an accepted name comes back with `lib` in front; it comes back unchanged
/// exactly when it already starts with `lib` and contains `.so`; otherwise
/// the request follows the `lib` prefix, and three more characters (`.so`)
/// close the name unless the request already ends in `.so`. `r` stands for
/// the outcome of `normalize_soname(s)`, by its contract.
pub proof fn lemma_normalized_soname_shape(s: Seq<char>, r: Result<Seq<char>, ()>)
    requires
        match r {
            Ok(n) => !versioned_soname(s) && n == normalized_soname(s),
            Err(_) => versioned_soname(s),
        },
    ensures
        r matches Ok(n) ==> n.len() >= 3 && n[0] == 'l' && n[1] == 'i' && n[2] == 'b',
        r matches Ok(n) ==> ((n == s) <==> (starts_with_seq(s, "lib"@) && contains_seq(
            s,
            ".so"@,
        ))),
        r matches Ok(n) ==> (n != s ==> (n.len() >= s.len() + 3 && n.subrange(3, s.len() + 3int)
            == s && (n.len() == s.len() + 3 <==> ends_with_seq(s, ".so"@)))),
        r matches Ok(n) ==> (n.len() > s.len() + 3 ==> n.subrange(s.len() + 3int, n.len() as int)
            == seq!['.', 's', 'o']),
{
    reveal_strlit("lib");
    reveal_strlit(".so");
    if r is Ok {
        let n = r->Ok_0;
        if starts_with_seq(s, "lib"@) && contains_seq(s, ".so"@) {
            assert(s.subrange(0, 3)[0] == s[0]);
            assert(s.subrange(0, 3)[1] == s[1]);
            assert(s.subrange(0, 3)[2] == s[2]);
        } else if ends_with_seq(s, ".so"@) {
            assert(n.len() == s.len() + 3);
            assert(n.subrange(3, s.len() + 3int) =~= s);
        } else {
            assert(n.len() == s.len() + 6);
            assert(n.subrange(3, s.len() + 3int) =~= s);
            assert(n.subrange(s.len() + 3int, n.len() as int) =~= seq!['.', 's', 'o']);
        }
    }
}

} // verus!
