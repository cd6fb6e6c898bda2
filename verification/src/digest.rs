//! The folder name under which a package's type definitions are generated:
//! the package name and a short SHA-256 fingerprint of its manifest path.
use vstd::prelude::*;

use sha2::Digest;

use crate::package::PackageInfo;
use crate::text::{chars_of, concat_chars, string_of};

verus! {

/// What `sha2::Sha256::digest` returns for `data`.
pub uninterp spec fn sha256(data: Seq<u8>) -> Seq<u8>;

/// The SHA-256 digest of `data`, computed by `sha2::Sha256::digest`; the
/// digest is named `sha256` and has 32 bytes (the output size of `Sha256`).
#[verifier::external_body]
fn sha256_digest(data: &[u8]) -> (r: Vec<u8>)
    ensures
        r@ == sha256(data@),
        r@.len() == 32,
{
    sha2::Sha256::digest(data).to_vec()
}

/// The lower-case hexadecimal digit for `n` (below 16).
pub open spec fn hex_digit(n: int) -> char {
    if n == 0 {
        '0'
    } else if n == 1 {
        '1'
    } else if n == 2 {
        '2'
    } else if n == 3 {
        '3'
    } else if n == 4 {
        '4'
    } else if n == 5 {
        '5'
    } else if n == 6 {
        '6'
    } else if n == 7 {
        '7'
    } else if n == 8 {
        '8'
    } else if n == 9 {
        '9'
    } else if n == 10 {
        'a'
    } else if n == 11 {
        'b'
    } else if n == 12 {
        'c'
    } else if n == 13 {
        'd'
    } else if n == 14 {
        'e'
    } else {
        'f'
    }
}

/// The lower-case hexadecimal text of `bytes`: two digits per byte, high
/// nibble first, as `{:x}` prints a digest.
pub open spec fn lower_hex(bytes: Seq<u8>) -> Seq<char>
    decreases bytes.len(),
{
    if bytes.len() == 0 {
        Seq::empty()
    } else {
        let b = bytes.last();
        lower_hex(bytes.drop_last()).push(hex_digit((b / 16) as int)).push(hex_digit((b % 16) as int))
    }
}

/// The hexadecimal text has two digits per byte.
pub proof fn lemma_lower_hex_len(bytes: Seq<u8>)
    ensures
        lower_hex(bytes).len() == 2 * bytes.len(),
    decreases bytes.len(),
{
    if bytes.len() > 0 {
        lemma_lower_hex_len(bytes.drop_last());
    }
}

/// The folder name for a package named `name` whose manifest path has the
/// SHA-256 digest `digest`: the name, `-`, and the first eight hexadecimal
/// digits of the digest.
pub open spec fn type_def_dir(name: Seq<char>, digest: Seq<u8>) -> Seq<char> {
    name + "-"@ + lower_hex(digest).take(8)
}

fn hex_digit_exec(n: u8) -> (c: char)
    requires
        n < 16,
    ensures
        c == hex_digit(n as int),
{
    if n == 0 {
        '0'
    } else if n == 1 {
        '1'
    } else if n == 2 {
        '2'
    } else if n == 3 {
        '3'
    } else if n == 4 {
        '4'
    } else if n == 5 {
        '5'
    } else if n == 6 {
        '6'
    } else if n == 7 {
        '7'
    } else if n == 8 {
        '8'
    } else if n == 9 {
        '9'
    } else if n == 10 {
        'a'
    } else if n == 11 {
        'b'
    } else if n == 12 {
        'c'
    } else if n == 13 {
        'd'
    } else if n == 14 {
        'e'
    } else {
        'f'
    }
}

/// The lower-case hexadecimal text of `bytes`.
pub fn to_lower_hex(bytes: &Vec<u8>) -> (r: Vec<char>)
    ensures
        r@ == lower_hex(bytes@),
{
    let mut r: Vec<char> = Vec::new();
    let mut i: usize = 0;
    while i < bytes.len()
        invariant
            i <= bytes.len(),
            r@ == lower_hex(bytes@.take(i as int)),
        decreases bytes.len() - i,
    {
        let b = bytes[i];
        assert(bytes@.take(i + 1).drop_last() =~= bytes@.take(i as int));
        assert(bytes@.take(i + 1).last() == b);
        r.push(hex_digit_exec(b / 16));
        r.push(hex_digit_exec(b % 16));
        i = i + 1;
    }
    assert(bytes@.take(bytes.len() as int) =~= bytes@);
    r
}

/// The folder name for a package named `name` whose manifest path has the
/// digest `digest` (at least four bytes long).
pub fn type_def_dir_name(name: &str, digest: &Vec<u8>) -> (r: String)
    requires
        digest@.len() >= 4,
    ensures
        r@ == type_def_dir(name@, digest@),
{
    let hex = to_lower_hex(digest);
    proof {
        lemma_lower_hex_len(digest@);
    }
    let mut short: Vec<char> = Vec::new();
    let mut i: usize = 0;
    while i < 8
        invariant
            i <= 8,
            hex@.len() >= 8,
            short@ =~= hex@.take(i as int),
        decreases 8 - i,
    {
        short.push(hex[i]);
        i = i + 1;
    }
    let with_dash = concat_chars(&chars_of(name), &chars_of("-"));
    string_of(&concat_chars(&with_dash, &short))
}

/// The type-definition folder name of a package, from the SHA-256 digest of
/// the bytes of its manifest path.
pub fn package_type_def_dir(pkg: &PackageInfo) -> (r: String)
    ensures
        r@ == type_def_dir(pkg.name@, sha256(vstd::utf8::encode_utf8(pkg.manifest_path@))),
{
    let digest = sha256_digest(pkg.manifest_path.as_str().as_bytes());
    type_def_dir_name(pkg.name.as_str(), &digest)
}

} // verus!

verus! {

/// The number a lower-case hexadecimal digit stands for.
pub open spec fn hex_value(c: char) -> int {
    if '0' <= c <= '9' {
        c as int - '0' as int
    } else {
        c as int - 'a' as int + 10
    }
}

/// A lower-case hexadecimal digit: `0` to `9` or `a` to `f`.
pub open spec fn is_lower_hex_digit(c: char) -> bool {
    ('0' <= c <= '9') || ('a' <= c <= 'f')
}

/// Reading back the hexadecimal text gives the bytes: two lower-case
/// digits per byte, and the pair at `2 * k` and `2 * k + 1` is byte `k`,
/// high nibble first.
pub proof fn lemma_lower_hex_reads_back(bytes: Seq<u8>)
    ensures
        lower_hex(bytes).len() == 2 * bytes.len(),
        forall|i: int| 0 <= i < lower_hex(bytes).len() ==> is_lower_hex_digit(#[trigger] lower_hex(bytes)[i]),
        forall|k: int|
            0 <= k < bytes.len() ==> 16 * hex_value(lower_hex(bytes)[2 * k]) + hex_value(
                lower_hex(bytes)[2 * k + 1],
            ) == #[trigger] bytes[k],
    decreases bytes.len(),
{
    lemma_lower_hex_len(bytes);
    if bytes.len() > 0 {
        let prev = bytes.drop_last();
        lemma_lower_hex_reads_back(prev);
        let h = lower_hex(bytes);
        let hp = lower_hex(prev);
        let b = bytes.last();
        let hi = (b / 16) as int;
        let lo = (b % 16) as int;
        assert(hex_value(hex_digit(hi)) == hi && is_lower_hex_digit(hex_digit(hi)));
        assert(hex_value(hex_digit(lo)) == lo && is_lower_hex_digit(hex_digit(lo)));
        assert(b == 16 * hi + lo);
        assert forall|i: int| 0 <= i < h.len() implies is_lower_hex_digit(#[trigger] h[i]) by {
            if i < hp.len() {
                assert(h[i] == hp[i]);
            }
        }
        assert forall|k: int| 0 <= k < bytes.len() implies 16 * hex_value(h[2 * k]) + hex_value(
            h[2 * k + 1],
        ) == #[trigger] bytes[k] by {
            if k < prev.len() {
                assert(h[2 * k] == hp[2 * k]);
                assert(h[2 * k + 1] == hp[2 * k + 1]);
                assert(bytes[k] == prev[k]);
            }
        }
    }
}

/// The type-definition folder name is the package name, `-`, and eight
/// lower-case hexadecimal digits that spell the first four bytes of the
/// digest, high nibble first.
pub proof fn lemma_type_def_dir_shape(name: Seq<char>, digest: Seq<u8>)
    requires
        digest.len() >= 4,
    ensures
        type_def_dir(name, digest).len() == name.len() + 9,
        type_def_dir(name, digest).subrange(0, name.len() as int) == name,
        type_def_dir(name, digest)[name.len() as int] == '-',
        forall|i: int|
            name.len() < i < name.len() + 9 ==> is_lower_hex_digit(#[trigger] type_def_dir(name, digest)[i]),
        forall|k: int|
            0 <= k < 4 ==> 16 * hex_value(type_def_dir(name, digest)[name.len() + 1 + 2 * k])
                + hex_value(type_def_dir(name, digest)[name.len() + 2 + 2 * k]) == #[trigger] digest[k],
{
    reveal_strlit("-");
    lemma_lower_hex_reads_back(digest);
    let t = type_def_dir(name, digest);
    let h = lower_hex(digest);
    assert(t.subrange(0, name.len() as int) =~= name);
    assert forall|i: int| name.len() < i < name.len() + 9 implies is_lower_hex_digit(#[trigger] t[i]) by {
        assert(t[i] == h[i - name.len() - 1]);
    }
    assert forall|k: int| 0 <= k < 4 implies 16 * hex_value(t[name.len() + 1 + 2 * k]) + hex_value(
        t[name.len() + 2 + 2 * k],
    ) == #[trigger] digest[k] by {
        assert(t[name.len() + 1 + 2 * k] == h[2 * k]);
        assert(t[name.len() + 2 + 2 * k] == h[2 * k + 1]);
    }
}

} // verus!
