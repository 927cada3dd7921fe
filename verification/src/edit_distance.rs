//! How close a typed text comes to an expected one, by the Levenshtein
//! distance between their characters.
use vstd::prelude::*;

verus! {

/// How similar two strings are.
///
/// A similar pair carries its Levenshtein `distance` and the `length` (in
/// characters) of the first string; the ratio `distance / length`, below
/// one fifth, is what callers report.
#[derive(Debug, Clone, Copy, PartialEq, Eq, Structural)]
pub enum Similarity {
    Identical,
    Similar { distance: usize, length: usize },
    Dissimilar,
}

pub open spec fn min3(x: nat, y: nat, z: nat) -> nat {
    if x <= y && x <= z {
        x
    } else if y <= z {
        y
    } else {
        z
    }
}

/// Cost of putting `y` in the place of `x`.
pub open spec fn substitution_cost(x: char, y: char) -> nat {
    if x == y {
        0
    } else {
        1
    }
}

/// Levenshtein distance between the first `i` characters of `a` and the
/// first `j` characters of `b`: the least number of single-character
/// insertions, deletions and substitutions that turn one into the other.
pub open spec fn lev(a: Seq<char>, b: Seq<char>, i: nat, j: nat) -> nat
    decreases i + j,
{
    if i == 0 {
        j
    } else if j == 0 {
        i
    } else {
        min3(
            lev(a, b, (i - 1) as nat, j) + 1,
            lev(a, b, i, (j - 1) as nat) + 1,
            lev(a, b, (i - 1) as nat, (j - 1) as nat) + substitution_cost(a[i - 1], b[j - 1]),
        )
    }
}

/// Levenshtein distance between `a` and `b`.
pub open spec fn levenshtein(a: Seq<char>, b: Seq<char>) -> nat {
    lev(a, b, a.len(), b.len())
}

/// What `edit_distance` answers for the characters `a` and `b`: identical
/// strings are `Identical`; otherwise a pair with an empty side is
/// `Dissimilar`; otherwise the pair is `Similar` exactly when the distance
/// is under a fifth of the length of `a`.
pub open spec fn similarity(a: Seq<char>, b: Seq<char>) -> Similarity {
    if a == b {
        Similarity::Identical
    } else if a.len() == 0 || b.len() == 0 {
        Similarity::Dissimilar
    } else if 5 * levenshtein(a, b) < a.len() {
        Similarity::Similar {
            distance: levenshtein(a, b) as usize,
            length: a.len() as usize,
        }
    } else {
        Similarity::Dissimilar
    }
}

/// No prefix distance exceeds the longer of the two prefixes.
pub proof fn lemma_lev_bounded(a: Seq<char>, b: Seq<char>, i: nat, j: nat)
    ensures
        lev(a, b, i, j) <= if i >= j { i } else { j },
    decreases i + j,
{
    if i > 0 && j > 0 {
        lemma_lev_bounded(a, b, (i - 1) as nat, (j - 1) as nat);
    }
}

/// The characters of `s`, in order.
pub fn chars_of(s: &str) -> (v: Vec<char>)
    ensures
        v@ == s@,
{
    broadcast use vstd::string::group_string_axioms;

    let mut v: Vec<char> = Vec::new();
    for c in it: s.chars()
        invariant
            v@ == it.seq().take(it.index()),
    {
        v.push(c);
    }
    assert(v@ =~= s@);
    v
}

fn same_chars(a: &Vec<char>, b: &Vec<char>) -> (r: bool)
    ensures
        r == (a@ == b@),
{
    if a.len() != b.len() {
        return false;
    }
    let mut i: usize = 0;
    while i < a.len()
        invariant
            i <= a.len(),
            a.len() == b.len(),
            forall|k: int| 0 <= k < i ==> a@[k] == b@[k],
        decreases a.len() - i,
    {
        if a[i] != b[i] {
            return false;
        }
        i = i + 1;
    }
    assert(a@ =~= b@);
    true
}

/// Levenshtein distance between the characters `a` and `b`, both non-empty,
/// kept in a single row of the distance table.
fn levenshtein_distance(a: &Vec<char>, b: &Vec<char>) -> (d: usize)
    requires
        a.len() > 0,
        b.len() > 0,
    ensures
        d == levenshtein(a@, b@),
{
    let la = a.len();
    let lb = b.len();
    let ghost sa = a@;
    let ghost sb = b@;

    // cache[k] holds the distance between a[..k + 1] and the part of b read so far.
    let mut cache: Vec<usize> = Vec::new();
    for k in 0..la
        invariant
            la == a.len(),
            cache@.len() == k,
            forall|t: int| 0 <= t < k ==> cache@[t] == lev(sa, sb, (t + 1) as nat, 0),
    {
        cache.push(k + 1);
    }

    let mut result: usize = 0;
    for index_b in 0..lb
        invariant
            la == a.len(),
            lb == b.len(),
            sa == a@,
            sb == b@,
            la > 0,
            cache@.len() == la,
            forall|t: int| 0 <= t < la ==> cache@[t] == lev(sa, sb, (t + 1) as nat, index_b as nat),
            index_b > 0 ==> result == lev(sa, sb, la as nat, index_b as nat),
    {
        result = index_b;
        let mut distance_a = index_b;
        let code_b = b[index_b];
        for index_a in 0..la
            invariant
                la == a.len(),
                lb == b.len(),
                sa == a@,
                sb == b@,
                index_b < lb,
                code_b == sb[index_b as int],
                cache@.len() == la,
                forall|t: int|
                    index_a <= t < la ==> cache@[t] == lev(sa, sb, (t + 1) as nat, index_b as nat),
                forall|t: int|
                    0 <= t < index_a ==> cache@[t] == lev(
                        sa,
                        sb,
                        (t + 1) as nat,
                        (index_b + 1) as nat,
                    ),
                distance_a == lev(sa, sb, index_a as nat, index_b as nat),
                result == if index_a == 0 {
                    index_b as nat
                } else {
                    lev(sa, sb, index_a as nat, (index_b + 1) as nat)
                },
        {
            proof {
                lemma_lev_bounded(sa, sb, index_a as nat, index_b as nat);
                lemma_lev_bounded(sa, sb, (index_a + 1) as nat, index_b as nat);
                lemma_lev_bounded(sa, sb, (index_a + 1) as nat, (index_b + 1) as nat);
            }
            let distance_b = if a[index_a] == code_b {
                distance_a
            } else {
                distance_a + 1
            };
            distance_a = cache[index_a];
            result =
                if distance_a > result {
                if distance_b > result {
                    result + 1
                } else {
                    distance_b
                }
            } else if distance_b > distance_a {
                distance_a + 1
            } else {
                distance_b
            };
            assert(result == lev(sa, sb, (index_a + 1) as nat, (index_b + 1) as nat));
            cache.set(index_a, result);
        }
    }
    result
}

/// Attempts to identify how similar two given strings are, by the
/// Levenshtein distance between their characters.
pub fn edit_distance(a: &str, b: &str) -> (r: Similarity)
    ensures
        r == similarity(a@, b@),
{
    let av = chars_of(a);
    let bv = chars_of(b);
    if same_chars(&av, &bv) {
        return Similarity::Identical;
    }
    let length_a = av.len();
    let length_b = bv.len();
    if length_a == 0 || length_b == 0 {
        return Similarity::Dissimilar;
    }
    let result = levenshtein_distance(&av, &bv);
    proof {
        lemma_lev_bounded(a@, b@, a@.len(), b@.len());
    }
    if result <= (length_a - 1) / 5 {
        Similarity::Similar { distance: result, length: length_a }
    } else {
        Similarity::Dissimilar
    }
}

/// Only equal prefixes are at distance zero.
pub proof fn lemma_lev_zero(a: Seq<char>, b: Seq<char>, i: nat, j: nat)
    requires
        i <= a.len(),
        j <= b.len(),
        lev(a, b, i, j) == 0,
    ensures
        i == j,
        a.take(i as int) == b.take(j as int),
    decreases i + j,
{
    if i > 0 && j > 0 {
        lemma_lev_zero(a, b, (i - 1) as nat, (j - 1) as nat);
        assert(a.take(i as int) =~= a.take(i - 1).push(a[i - 1]));
        assert(b.take(j as int) =~= b.take(j - 1).push(b[j - 1]));
    }
}

/// A string is identical to itself.
pub proof fn identical_strings(s: Seq<char>)
    ensures
        similarity(s, s) == Similarity::Identical,
{
}

/// Two strings that are similar are never at distance zero, and their
/// distance is under a fifth of the length of the first.
pub proof fn similar_strings_differ(a: Seq<char>, b: Seq<char>)
    requires
        similarity(a, b) is Similar,
        a.len() <= usize::MAX,
        b.len() <= usize::MAX,
    ensures
        similarity(a, b)->distance > 0,
        5 * similarity(a, b)->distance < similarity(a, b)->length,
        similarity(a, b)->length == a.len(),
{
    lemma_lev_bounded(a, b, a.len(), b.len());
    if levenshtein(a, b) == 0 {
        lemma_lev_zero(a, b, a.len(), b.len());
        assert(a.take(a.len() as int) =~= a);
        assert(b.take(b.len() as int) =~= b);
    }
}

/// No two prefixes are closer than the difference of their lengths.
pub proof fn lemma_lev_at_least_length_gap(a: Seq<char>, b: Seq<char>, i: nat, j: nat)
    ensures
        lev(a, b, i, j) >= if i >= j { i - j } else { j - i },
    decreases i + j,
{
    if i > 0 && j > 0 {
        lemma_lev_at_least_length_gap(a, b, (i - 1) as nat, j);
        lemma_lev_at_least_length_gap(a, b, i, (j - 1) as nat);
        lemma_lev_at_least_length_gap(a, b, (i - 1) as nat, (j - 1) as nat);
    }
}

proof fn lemma_lev_prefix_at_most_gap(a: Seq<char>, b: Seq<char>, i: nat, j: nat)
    requires
        i <= a.len(),
        j <= b.len(),
        b.len() <= a.len(),
        forall|k: int| 0 <= k < b.len() ==> b[k] == a[k],
    ensures
        lev(a, b, i, j) <= if i >= j { i - j } else { j - i },
    decreases i + j,
{
    if i > 0 && j > 0 {
        if i == j {
            lemma_lev_prefix_at_most_gap(a, b, (i - 1) as nat, (j - 1) as nat);
            assert(a[i - 1] == b[j - 1]);
        } else if i > j {
            lemma_lev_prefix_at_most_gap(a, b, (i - 1) as nat, j);
        } else {
            lemma_lev_prefix_at_most_gap(a, b, i, (j - 1) as nat);
        }
    }
}

/// Two strings are never closer than the difference of their lengths.
pub proof fn distance_at_least_length_gap(a: Seq<char>, b: Seq<char>)
    ensures
        levenshtein(a, b) >= if a.len() >= b.len() { a.len() - b.len() } else { b.len() - a.len() },
{
    lemma_lev_at_least_length_gap(a, b, a.len(), b.len());
}

/// Leaving out the last `a.len() - n` characters of `a` is exactly that
/// many edits away from `a`.
pub proof fn dropping_trailing_characters(a: Seq<char>, n: nat)
    requires
        n <= a.len(),
    ensures
        levenshtein(a, a.take(n as int)) == a.len() - n,
{
    let b = a.take(n as int);
    lemma_lev_at_least_length_gap(a, b, a.len(), n);
    lemma_lev_prefix_at_most_gap(a, b, a.len(), n);
}

/// Two different non-empty strings are similar exactly when their distance
/// is under a fifth of the length of the first; a similar pair carries that
/// distance and that length, and every other pair is dissimilar.
pub proof fn similar_exactly_under_a_fifth(a: Seq<char>, b: Seq<char>)
    requires
        a != b,
        a.len() > 0,
        b.len() > 0,
        a.len() <= usize::MAX,
        b.len() <= usize::MAX,
    ensures
        (similarity(a, b) is Similar) <==> 5 * levenshtein(a, b) < a.len(),
        similarity(a, b) is Similar ==> similarity(a, b)->distance == levenshtein(a, b)
            && similarity(a, b)->length == a.len(),
        !(similarity(a, b) is Similar) ==> similarity(a, b) == Similarity::Dissimilar,
{
    lemma_lev_bounded(a, b, a.len(), b.len());
}

} // verus!
