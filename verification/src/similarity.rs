use vstd::prelude::*;
use vstd::string::*;

verus! {

/// The smaller of two integers.
pub open spec fn min2(a: int, b: int) -> int {
    if a <= b {
        a
    } else {
        b
    }
}

/// The larger of two integers.
pub open spec fn max2(a: int, b: int) -> int {
    if a >= b {
        a
    } else {
        b
    }
}

/// The Levenshtein edit distance between two character sequences: the least
/// number of single-character insertions, deletions and substitutions that
/// turns one into the other.
pub open spec fn lev(s: Seq<char>, t: Seq<char>) -> int
    decreases s.len(), t.len(),
{
    if s.len() == 0 {
        t.len() as int
    } else if t.len() == 0 {
        s.len() as int
    } else {
        min2(
            min2(lev(s.drop_last(), t) + 1, lev(s, t.drop_last()) + 1),
            lev(s.drop_last(), t.drop_last()) + if s.last() == t.last() {
                0int
            } else {
                1int
            },
        )
    }
}

/// The edit distance never exceeds the longer length, and is never negative.
pub proof fn lemma_lev_bounds(s: Seq<char>, t: Seq<char>)
    ensures
        0 <= lev(s, t) <= max2(s.len() as int, t.len() as int),
    decreases s.len(), t.len(),
{
    if s.len() == 0 || t.len() == 0 {
    } else {
        lemma_lev_bounds(s.drop_last(), t);
        lemma_lev_bounds(s, t.drop_last());
        lemma_lev_bounds(s.drop_last(), t.drop_last());
    }
}

/// The characters of a string as a vector.
pub fn str_chars(s: &str) -> (r: Vec<char>)
    ensures
        r@ == s@,
{
    let n = s.unicode_len();
    let mut out: Vec<char> = Vec::new();
    let mut i: usize = 0;
    while i < n
        invariant
            n == s@.len(),
            i <= n,
            out@ =~= s@.take(i as int),
        decreases n - i,
    {
        out.push(s.get_char(i));
        proof {
            assert(out@ =~= s@.take(i as int + 1));
        }
        i = i + 1;
    }
    proof {
        assert(s@.take(n as int) =~= s@);
    }
    out
}

/// The edit distance between two strings, by the usual dynamic program over
/// prefixes.
#[verifier::rlimit(60)]
pub fn levenshtein(a: &str, b: &str) -> (d: usize)
    requires
        a@.len() < usize::MAX,
        b@.len() < usize::MAX,
    ensures
        d == lev(a@, b@),
{
    let av = str_chars(a);
    let bv = str_chars(b);
    let m = av.len();
    let n = bv.len();

    // Row for the empty prefix of `a`: distance to each prefix of `b` is its
    // length.
    let mut prev: Vec<usize> = Vec::new();
    let mut j: usize = 0;
    while j <= n
        invariant
            n == b@.len(),
            n < usize::MAX,
            j <= n + 1,
            prev@.len() == j,
            forall|k: int| 0 <= k < j ==> prev@[k] == lev(a@.take(0), b@.take(k)),
        decreases n + 1 - j,
    {
        proof {
            assert(a@.take(0) =~= Seq::<char>::empty());
            assert(b@.take(j as int).len() == j as int);
        }
        prev.push(j);
        j = j + 1;
    }

    let mut i: usize = 1;
    while i <= m
        invariant
            m == a@.len(),
            n == b@.len(),
            m < usize::MAX,
            n < usize::MAX,
            av@ == a@,
            bv@ == b@,
            av@.len() == m,
            bv@.len() == n,
            1 <= i <= m + 1,
            prev@.len() == n + 1,
            forall|k: int| 0 <= k <= n ==> prev@[k] == lev(a@.take(i as int - 1), b@.take(k)),
        decreases m + 1 - i,
    {
        let mut cur: Vec<usize> = Vec::new();
        proof {
            assert(a@.take(i as int).len() == i as int);
            assert(b@.take(0) =~= Seq::<char>::empty());
        }
        cur.push(i);
        let mut j: usize = 1;
        while j <= n
            invariant
                m == a@.len(),
                n == b@.len(),
                m < usize::MAX,
                n < usize::MAX,
                av@ == a@,
                bv@ == b@,
                1 <= i <= m,
                1 <= j <= n + 1,
                prev@.len() == n + 1,
                forall|k: int| 0 <= k <= n ==> prev@[k] == lev(a@.take(i as int - 1), b@.take(k)),
                cur@.len() == j,
                forall|k: int| 0 <= k < j ==> cur@[k] == lev(a@.take(i as int), b@.take(k)),
            decreases n + 1 - j,
        {
            let cost: usize = if av[i - 1] == bv[j - 1] {
                0
            } else {
                1
            };
            proof {
                lemma_lev_bounds(a@.take(i as int - 1), b@.take(j as int));
                lemma_lev_bounds(a@.take(i as int), b@.take(j as int - 1));
                lemma_lev_bounds(a@.take(i as int - 1), b@.take(j as int - 1));
            }
            let del = prev[j] + 1;
            let ins = cur[j - 1] + 1;
            let sub = prev[j - 1] + cost;
            let mut best = del;
            if ins < best {
                best = ins;
            }
            if sub < best {
                best = sub;
            }
            proof {
                let sp = a@.take(i as int);
                let tp = b@.take(j as int);
                assert(sp.drop_last() =~= a@.take(i as int - 1));
                assert(tp.drop_last() =~= b@.take(j as int - 1));
                assert(sp.last() == a@[i as int - 1]);
                assert(tp.last() == b@[j as int - 1]);
                assert(best == lev(sp, tp));
            }
            cur.push(best);
            j = j + 1;
        }
        prev = cur;
        i = i + 1;
    }
    proof {
        assert(a@.take(m as int) =~= a@);
        assert(b@.take(n as int) =~= b@);
    }
    prev[n]
}

/// The numerator of the similarity score of two character sequences: how far
/// the edit distance falls short of the longer length. Two empty sequences
/// score one over one.
pub open spec fn similarity_num(s: Seq<char>, t: Seq<char>) -> int {
    if s.len() == 0 && t.len() == 0 {
        1
    } else {
        max2(s.len() as int, t.len() as int) - lev(s, t)
    }
}

/// The denominator of the similarity score of two character sequences: the
/// longer length, or one when both are empty.
pub open spec fn similarity_den(s: Seq<char>, t: Seq<char>) -> int {
    if s.len() == 0 && t.len() == 0 {
        1
    } else {
        max2(s.len() as int, t.len() as int)
    }
}

/// The normalized similarity of two strings, as the exact fraction
/// numerator over denominator of `1 - distance / max(len1, len2)`. Equal
/// strings score one; an empty against a non-empty string scores zero.
pub fn calculate_similarity(s1: &str, s2: &str) -> (r: (usize, usize))
    requires
        s1@.len() < usize::MAX,
        s2@.len() < usize::MAX,
    ensures
        r.0 == similarity_num(s1@, s2@),
        r.1 == similarity_den(s1@, s2@),
        0 <= r.0 <= r.1,
        0 < r.1,
{
    let l1 = s1.unicode_len();
    let l2 = s2.unicode_len();
    if l1 == 0 && l2 == 0 {
        return (1, 1);
    }
    let max_len = if l1 >= l2 {
        l1
    } else {
        l2
    };
    let d = levenshtein(s1, s2);
    proof {
        lemma_lev_bounds(s1@, s2@);
    }
    (max_len - d, max_len)
}

/// Whether the similarity fraction `num / den` lies strictly above six
/// tenths, the threshold a candidate match must clear.
pub open spec fn above_threshold(num: int, den: int) -> bool {
    5 * num > 3 * den
}

/// Whether the similarity fraction `num / den` clears the threshold,
/// computed without overflow.
pub fn similarity_above_threshold(num: usize, den: usize) -> (r: bool)
    ensures
        r == above_threshold(num as int, den as int),
{
    let r = 5u128 * (num as u128) > 3u128 * (den as u128);
    proof {
        assert(r == (5 * num as int > 3 * den as int)) by (nonlinear_arith)
            requires
                r == (5u128 * (num as u128) > 3u128 * (den as u128)),
                num as u128 == num as int,
                den as u128 == den as int,
        ;
    }
    r
}

} // verus!
