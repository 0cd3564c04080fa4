//! Key splitting and timestamp helpers.
//!
//! A flat-map key is either a plain field name or `base#tag`, where the tag
//! is everything after the first `#`. Splitting performs no validation of the
//! tag text; an empty suffix is the distinct tag `""`, not the absence of a
//! tag.

use vstd::prelude::*;
use vstd::string::StrSliceExecFns;
use vstd::string::StringExecFns;
use vstd::arithmetic::div_mod::lemma_div_multiples_vanish_fancy;

verus! {

/// Index of the first `'#'` in `k`, or `k.len()` if there is none.
pub open spec fn first_hash(k: Seq<char>) -> int
    decreases k.len(),
{
    if k.len() == 0 {
        0
    } else if k[0] == '#' {
        0
    } else {
        1 + first_hash(k.drop_first())
    }
}

/// `first_hash` points at the first `'#'`: nothing before it is `'#'`, and it
/// is in range exactly when the key contains one.
pub proof fn lemma_first_hash(k: Seq<char>)
    ensures
        0 <= first_hash(k) <= k.len(),
        first_hash(k) < k.len() ==> k[first_hash(k)] == '#',
        forall|j: int| 0 <= j < first_hash(k) ==> k[j] != '#',
    decreases k.len(),
{
    if k.len() == 0 {
    } else if k[0] == '#' {
    } else {
        lemma_first_hash(k.drop_first());
        assert forall|j: int| 0 <= j < first_hash(k) implies k[j] != '#' by {
            if j > 0 {
                assert(k.drop_first()[j - 1] == k[j]);
            }
        }
        if first_hash(k) < k.len() {
            assert(k.drop_first()[first_hash(k) - 1] == k[first_hash(k)]);
        }
    }
}

/// If `k[i]` is the first `'#'`, then `first_hash(k) == i`.
pub proof fn lemma_first_hash_at(k: Seq<char>, i: int)
    requires
        0 <= i < k.len(),
        k[i] == '#',
        forall|j: int| 0 <= j < i ==> k[j] != '#',
    ensures
        first_hash(k) == i,
    decreases k.len(),
{
    if i == 0 {
    } else {
        assert(k[0] != '#');
        assert(k.drop_first()[i - 1] == k[i]);
        assert forall|j: int| 0 <= j < i - 1 implies k.drop_first()[j] != '#' by {
            assert(k.drop_first()[j] == k[j + 1]);
        }
        lemma_first_hash_at(k.drop_first(), i - 1);
    }
}

/// Split a key at the first `'#'`: the base name before it and, if the `'#'`
/// is present, the (possibly empty) tag after it.
pub open spec fn spec_split_key(k: Seq<char>) -> (Seq<char>, Option<Seq<char>>) {
    if first_hash(k) < k.len() {
        (k.subrange(0, first_hash(k)), Some(k.subrange(first_hash(k) + 1, k.len() as int)))
    } else {
        (k, None)
    }
}

/// Assemble a key from a base name and an optional tag.
pub open spec fn spec_encode_key(base: Seq<char>, tag: Option<Seq<char>>) -> Seq<char> {
    match tag {
        None => base,
        Some(t) => base + seq!['#'] + t,
    }
}

/// Splitting a key assembled from a `#`-free base undoes the assembly,
/// whatever the tag holds.
pub proof fn lemma_split_encode_key(base: Seq<char>, tag: Option<Seq<char>>)
    requires
        forall|j: int| 0 <= j < base.len() ==> base[j] != '#',
    ensures
        spec_split_key(spec_encode_key(base, tag)) == (base, tag),
{
    match tag {
        None => {
            lemma_first_hash(base);
        },
        Some(t) => {
            let k = base + seq!['#'] + t;
            assert(k[base.len() as int] == '#');
            assert forall|j: int| 0 <= j < base.len() implies k[j] != '#' by {
                assert(k[j] == base[j]);
            }
            lemma_first_hash_at(k, base.len() as int);
            assert(k.subrange(0, base.len() as int) =~= base);
            assert(k.subrange(base.len() as int + 1, k.len() as int) =~= t);
        },
    }
}

/// Split a flat-map key into its base field name and optional language tag,
/// at the first `'#'`.
pub fn split_language_tag_key(key: &str) -> (r: (String, Option<String>))
    ensures
        ({
            let (b, t) = spec_split_key(key@);
            r.0@ == b && r.1.deep_view() == t
        }),
{
    let len = key.unicode_len();
    let mut i: usize = 0;
    while i < len && key.get_char(i) != '#'
        invariant
            i <= len,
            len == key@.len(),
            forall|j: int| 0 <= j < i ==> key@[j] != '#',
        decreases len - i,
    {
        i = i + 1;
    }
    if i == len {
        proof {
            lemma_first_hash(key@);
        }
        (String::from_str(key), None)
    } else {
        proof {
            lemma_first_hash_at(key@, i as int);
        }
        let base = key.substring_char(0, i);
        let tag = key.substring_char(i + 1, len);
        (String::from_str(base), Some(String::from_str(tag)))
    }
}

/// Assemble the flat-map key for a base field name and an optional tag.
pub fn assemble_key(base: &str, tag: &Option<String>) -> (r: String)
    ensures
        r@ == spec_encode_key(base@, tag.deep_view()),
{
    match tag {
        None => String::from_str(base),
        Some(t) => {
            let mut s = String::from_str(base);
            s.append("#");
            s.append(t.as_str());
            proof {
                reveal_strlit("#");
                assert(s@ =~= base@ + seq!['#'] + t@);
            }
            s
        },
    }
}

/// Truncation toward zero of a count of nanoseconds to whole seconds.
pub open spec fn spec_trunc_nanos_to_seconds(total_nanos: int) -> int {
    if total_nanos >= 0 {
        total_nanos / 1_000_000_000
    } else {
        -((-total_nanos) / 1_000_000_000)
    }
}

/// Whole seconds of a timestamp, truncated toward zero.
///
/// The timestamp is given decomposed as a floor-rounded second count plus the
/// nonnegative nanoseconds above that floor, the usual decomposition of a
/// calendar time library. Truncation toward zero differs from the floor only
/// for instants before the epoch with a fractional part.
pub fn seconds_toward_zero(floor_seconds: i64, subsec_nanos: u32) -> (r: i64)
    requires
        subsec_nanos < 1_000_000_000,
    ensures
        r == spec_trunc_nanos_to_seconds(floor_seconds * 1_000_000_000 + subsec_nanos),
{
    let ghost n: int = 1_000_000_000;
    let ghost f: int = floor_seconds as int;
    let ghost total: int = f * n + subsec_nanos;
    if floor_seconds < 0 && subsec_nanos > 0 {
        proof {
            assert(total < 0) by (nonlinear_arith)
                requires
                    f < 0,
                    0 < subsec_nanos < n,
                    total == f * n + subsec_nanos,
            ;
            assert(-total == n * (-f - 1) + (n - subsec_nanos)) by (nonlinear_arith)
                requires
                    total == f * n + subsec_nanos,
            ;
            lemma_div_multiples_vanish_fancy(-f - 1, n - subsec_nanos, n);
        }
        floor_seconds + 1
    } else {
        proof {
            if floor_seconds >= 0 {
                assert(total >= 0 && total == n * f + subsec_nanos) by (nonlinear_arith)
                    requires
                        f >= 0,
                        n > 0,
                        0 <= subsec_nanos,
                        total == f * n + subsec_nanos,
                ;
                lemma_div_multiples_vanish_fancy(f, subsec_nanos as int, n);
            } else {
                assert(total < 0 && -total == n * (-f) + 0) by (nonlinear_arith)
                    requires
                        f < 0,
                        n > 0,
                        subsec_nanos == 0,
                        total == f * n + subsec_nanos,
                ;
                lemma_div_multiples_vanish_fancy(-f, 0, n);
            }
        }
        floor_seconds
    }
}

/// Compare two string slices by their character sequences.
pub fn str_eq(a: &str, b: &str) -> (r: bool)
    ensures
        r == (a@ == b@),
{
    let sa = String::from_str(a);
    let sb = String::from_str(b);
    sa == sb
}

} // verus!
