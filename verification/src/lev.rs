//! Edit distances, and the choice of the closest candidates for "did you mean" hints.

use vstd::prelude::*;

verus! {

/// The smallest of three numbers.
pub open spec fn min3(x: int, y: int, z: int) -> int {
    if x <= y && x <= z {
        x
    } else if y <= z {
        y
    } else {
        z
    }
}

/// The Levenshtein distance of `a` and `b`: the fewest insertions, deletions and
/// substitutions of single characters that turn `a` into `b`.
pub open spec fn lev<T>(a: Seq<T>, b: Seq<T>) -> int
    decreases a.len() + b.len(),
{
    if a.len() == 0 {
        b.len() as int
    } else if b.len() == 0 {
        a.len() as int
    } else {
        min3(
            lev(a.drop_last(), b) + 1,
            lev(a, b.drop_last()) + 1,
            lev(a.drop_last(), b.drop_last()) + if a.last() == b.last() {
                0int
            } else {
                1int
            },
        )
    }
}

/// The distance is never negative and at most the two lengths together.
pub proof fn lemma_lev_bounds<T>(a: Seq<T>, b: Seq<T>)
    ensures
        0 <= lev(a, b) <= a.len() + b.len(),
    decreases a.len() + b.len(),
{
    if a.len() > 0 && b.len() > 0 {
        lemma_lev_bounds(a.drop_last(), b);
        lemma_lev_bounds(a, b.drop_last());
        lemma_lev_bounds(a.drop_last(), b.drop_last());
    }
}

/// The distance is symmetric: turning `a` into `b` takes as many edits as turning `b`
/// into `a`.
pub proof fn lemma_lev_symmetric<T>(a: Seq<T>, b: Seq<T>)
    ensures
        lev(a, b) == lev(b, a),
    decreases a.len() + b.len(),
{
    if a.len() > 0 && b.len() > 0 {
        lemma_lev_symmetric(a.drop_last(), b);
        lemma_lev_symmetric(a, b.drop_last());
        lemma_lev_symmetric(a.drop_last(), b.drop_last());
    }
}

/// A string is at distance zero from itself.
pub proof fn lemma_lev_self<T>(a: Seq<T>)
    ensures
        lev(a, a) == 0,
    decreases a.len(),
{
    if a.len() > 0 {
        lemma_lev_self(a.drop_last());
        lemma_lev_bounds(a.drop_last(), a);
        lemma_lev_bounds(a, a.drop_last());
    }
}

/// The distance is at most the longer of the two lengths.
pub proof fn lemma_lev_max<T>(a: Seq<T>, b: Seq<T>)
    ensures
        lev(a, b) <= if a.len() >= b.len() {
            a.len() as int
        } else {
            b.len() as int
        },
    decreases a.len() + b.len(),
{
    if a.len() > 0 && b.len() > 0 {
        lemma_lev_max(a.drop_last(), b.drop_last());
    }
}

/// The Levenshtein distance of the byte strings `a` and `b`, by dynamic programming over
/// two rows.
pub fn byte_distance(a: &[u8], b: &[u8]) -> (r: usize)
    ensures
        r == lev(a@, b@),
{
    let n = a.len();
    let m = b.len();
    let mut prev: Vec<usize> = Vec::new();
    prev.push(0);
    proof {
        assert(a@.take(0).len() == 0);
        assert(b@.take(0).len() == 0);
    }
    let mut j: usize = 0;
    while j < m
        invariant
            m == b@.len(),
            j <= m,
            prev@.len() == j + 1,
            forall|k: int| 0 <= k <= j ==> prev@[k] == lev(a@.take(0), b@.take(k)),
        decreases m - j,
    {
        proof {
            assert(a@.take(0).len() == 0);
            assert(b@.take(j + 1).len() == j + 1);
        }
        prev.push(j + 1);
        j += 1;
    }
    let mut i: usize = 0;
    while i < n
        invariant
            n == a@.len(),
            m == b@.len(),
            i <= n,
            prev@.len() == m + 1,
            forall|k: int| 0 <= k <= m ==> prev@[k] == lev(a@.take(i as int), b@.take(k)),
        decreases n - i,
    {
        let mut cur: Vec<usize> = Vec::new();
        proof {
            assert(b@.take(0).len() == 0);
            assert(a@.take(i + 1).len() == i + 1);
        }
        cur.push(i + 1);
        let mut j: usize = 0;
        while j < m
            invariant
                n == a@.len(),
                m == b@.len(),
                i < n,
                j <= m,
                prev@.len() == m + 1,
                cur@.len() == j + 1,
                forall|k: int| 0 <= k <= m ==> prev@[k] == lev(a@.take(i as int), b@.take(k)),
                forall|k: int| 0 <= k <= j ==> cur@[k] == lev(a@.take(i + 1), b@.take(k)),
            decreases m - j,
        {
            let ghost ai = a@.take(i + 1);
            let ghost bj = b@.take(j + 1);
            proof {
                assert(ai.drop_last() =~= a@.take(i as int));
                assert(bj.drop_last() =~= b@.take(j as int));
                assert(ai.last() == a@[i as int]);
                assert(bj.last() == b@[j as int]);
                lemma_lev_bounds(a@.take(i as int), b@.take(j as int));
                lemma_lev_bounds(a@.take(i as int), bj);
                lemma_lev_bounds(ai, b@.take(j as int));
                lemma_lev_max(a@.take(i as int), b@.take(j as int));
                lemma_lev_max(ai, bj);
            }
            let d0 = prev[j + 1];
            let del = if d0 < usize::MAX {
                d0 + 1
            } else {
                d0
            };
            let i0 = cur[j];
            let ins = if i0 < usize::MAX {
                i0 + 1
            } else {
                i0
            };
            let sub = if a[i] == b[j] {
                prev[j]
            } else {
                prev[j] + 1
            };
            let best = if del <= ins && del <= sub {
                del
            } else if ins <= sub {
                ins
            } else {
                sub
            };
            cur.push(best);
            j += 1;
        }
        prev = cur;
        i += 1;
    }
    proof {
        assert(a@.take(n as int) =~= a@);
        assert(b@.take(m as int) =~= b@);
    }
    prev[m]
}

/// The characters of `s`.
pub fn chars_of(s: &str) -> (r: Vec<char>)
    ensures
        r@ == s@,
{
    let n = s.unicode_len();
    let mut out: Vec<char> = Vec::new();
    let mut i: usize = 0;
    while i < n
        invariant
            n == s@.len(),
            i <= n,
            out@ == s@.take(i as int),
        decreases n - i,
    {
        out.push(s.get_char(i));
        i += 1;
        assert(out@ =~= s@.take(i as int));
    }
    assert(s@.take(n as int) =~= s@);
    out
}

/// The Levenshtein distance of `a` and `b`, by dynamic programming over two rows.
pub fn distance(a: &str, b: &str) -> (r: usize)
    requires
        a@.len() + b@.len() < usize::MAX,
    ensures
        r == lev(a@, b@),
{
    let av = chars_of(a);
    let bv = chars_of(b);
    let n = av.len();
    let m = bv.len();
    let mut prev: Vec<usize> = Vec::new();
    let mut j: usize = 0;
    while j <= m
        invariant
            m == b@.len(),
            n == a@.len(),
            n + m < usize::MAX,
            j <= m + 1,
            prev.len() == j,
            forall|k: int| 0 <= k < j ==> prev@[k] == lev(a@.take(0), b@.take(k)),
        decreases m + 1 - j,
    {
        proof {
            assert(a@.take(0).len() == 0);
        }
        prev.push(j);
        j += 1;
    }
    let mut i: usize = 1;
    while i <= n
        invariant
            av@ == a@,
            bv@ == b@,
            m == b@.len(),
            n == a@.len(),
            n + m < usize::MAX,
            1 <= i <= n + 1,
            prev.len() == m + 1,
            forall|k: int| 0 <= k <= m ==> prev@[k] == lev(a@.take(i - 1), b@.take(k)),
        decreases n + 1 - i,
    {
        let mut cur: Vec<usize> = Vec::new();
        proof {
            assert(b@.take(0).len() == 0);
            assert(a@.take(i as int).len() == i);
        }
        cur.push(i);
        let mut j: usize = 1;
        while j <= m
            invariant
                av@ == a@,
                bv@ == b@,
                m == b@.len(),
                n == a@.len(),
                n + m < usize::MAX,
                1 <= i <= n,
                1 <= j <= m + 1,
                prev.len() == m + 1,
                cur.len() == j,
                forall|k: int| 0 <= k <= m ==> prev@[k] == lev(a@.take(i - 1), b@.take(k)),
                forall|k: int| 0 <= k < j ==> cur@[k] == lev(a@.take(i as int), b@.take(k)),
            decreases m + 1 - j,
        {
            let ghost ai = a@.take(i as int);
            let ghost bj = b@.take(j as int);
            proof {
                assert(ai.drop_last() =~= a@.take(i - 1));
                assert(bj.drop_last() =~= b@.take(j - 1));
                assert(ai.last() == a@[i - 1]);
                assert(bj.last() == b@[j - 1]);
                lemma_lev_bounds(a@.take(i - 1), b@.take(j as int));
                lemma_lev_bounds(ai, b@.take(j - 1));
                lemma_lev_bounds(a@.take(i - 1), b@.take(j - 1));
            }
            let del = prev[j] + 1;
            let ins = cur[j - 1] + 1;
            let sub = if av[i - 1] == bv[j - 1] {
                prev[j - 1]
            } else {
                prev[j - 1] + 1
            };
            let best = if del <= ins && del <= sub {
                del
            } else if ins <= sub {
                ins
            } else {
                sub
            };
            cur.push(best);
            j += 1;
        }
        prev = cur;
        i += 1;
    }
    proof {
        assert(a@.take(n as int) =~= a@);
        assert(b@.take(m as int) =~= b@);
    }
    prev[m]
}

/// Whether the pair `(d, i)` comes before `(e, j)`: a smaller distance first, and of two
/// equal distances the earlier candidate.
pub open spec fn before(d: int, i: int, e: int, j: int) -> bool {
    d < e || (d == e && i < j)
}

/// Whether candidate `i` is the closest of those not in `chosen` (the earliest of them
/// where several are equally close).
pub open spec fn is_next_closest(dist: Seq<usize>, chosen: Seq<usize>, i: int) -> bool {
    &&& 0 <= i < dist.len()
    &&& !chosen.contains(i as usize)
    &&& forall|j: int|
        0 <= j < dist.len() && j != i && !chosen.contains(j as usize) ==> before(
            dist[i] as int,
            i,
            dist[j] as int,
            j,
        )
}

/// The up to `count` closest candidates within distance `max`, by their distances
/// `dist`: each is the closest of those not chosen before it, and the choice stops at
/// `count`, when no candidate is left, or when the closest one left is too far.
pub open spec fn closest_within(dist: Seq<usize>, max: usize, count: usize, r: Seq<usize>) -> bool {
    &&& r.len() <= count
    &&& forall|k: int|
        0 <= k < r.len() ==> is_next_closest(dist, r.take(k), #[trigger] r[k] as int) && dist[r[k]
            as int] <= max
    &&& r.len() < count ==> forall|i: int|
        is_next_closest(dist, r, i) ==> dist[i] > max
}

/// Indices of the up to `count` closest candidates within distance `max`, closest first.
pub fn closest(dist: &Vec<usize>, max: usize, count: usize) -> (r: Vec<usize>)
    ensures
        closest_within(dist@, max, count, r@),
{
    let mut out: Vec<usize> = Vec::new();
    while out.len() < count
        invariant
            out.len() <= count,
            forall|k: int|
                0 <= k < out.len() ==> is_next_closest(dist@, out@.take(k), #[trigger] out@[k] as int)
                    && dist@[out@[k] as int] <= max,
        decreases count - out.len(),
    {
        let mut best: Option<usize> = None;
        let mut i: usize = 0;
        while i < dist.len()
            invariant
                i <= dist.len(),
                best matches Some(b) ==> {
                    &&& b < i
                    &&& !out@.contains(b)
                    &&& forall|j: int|
                        0 <= j < i && j != b && !out@.contains(j as usize) ==> before(
                            dist@[b as int] as int,
                            b as int,
                            dist@[j] as int,
                            j,
                        )
                },
                best is None ==> forall|j: usize| j < i ==> #[trigger] out@.contains(j),
            decreases dist.len() - i,
        {
            let mut taken = false;
            let mut k: usize = 0;
            while k < out.len()
                invariant
                    k <= out.len(),
                    taken == exists|t: int| 0 <= t < k && #[trigger] out@[t] == i,
                decreases out.len() - k,
            {
                if out[k] == i {
                    taken = true;
                }
                k += 1;
            }
            proof {
                if taken {
                    let t = choose|t: int| 0 <= t < out.len() && out@[t] == i;
                    assert(out@.contains(i));
                } else {
                    assert(!out@.contains(i));
                }
            }
            if !taken {
                match best {
                    Some(b) => {
                        if dist[i] < dist[b] {
                            best = Some(i);
                        }
                    },
                    None => {
                        best = Some(i);
                    },
                }
            }
            i += 1;
        }
        match best {
            Some(b) => {
                if dist[b] > max {
                    return out;
                }
                proof {
                    assert(out@.push(b).take(out.len() as int) =~= out@);
                    assert forall|k: int| 0 <= k < out.len() implies out@.push(b).take(k) =~= out@.take(k) by {}
                }
                out.push(b);
            },
            None => {
                return out;
            },
        }
    }
    out
}


/// Among the first `n` candidates, one is at least as close as each of them (the earliest
/// where several are equally close).
proof fn lemma_closest_exists(dist: Seq<usize>, n: int) -> (m: int)
    requires
        0 < n <= dist.len(),
    ensures
        0 <= m < n,
        forall|j: int| 0 <= j < n && j != m ==> before(dist[m] as int, m, dist[j] as int, j),
    decreases n,
{
    if n == 1 {
        0
    } else {
        let m0 = lemma_closest_exists(dist, n - 1);
        if dist[n - 1] < dist[m0] {
            n - 1
        } else {
            m0
        }
    }
}

/// Where the closest candidates within `max` are chosen (`closest_within`) and at least
/// one may be: one is chosen exactly when some candidate is within `max`, and the first
/// chosen is at least as close as every candidate.
pub proof fn lemma_first_closest(dist: Seq<usize>, max: usize, count: usize, r: Seq<usize>)
    requires
        closest_within(dist, max, count, r),
        count > 0,
    ensures
        r.len() > 0 <==> exists|i: int| 0 <= i < dist.len() && dist[i] <= max,
        r.len() > 0 ==> 0 <= r[0] < dist.len() && forall|j: int| 0 <= j < dist.len() ==> dist[r[0] as int] <= #[trigger] dist[j],
{
    if r.len() > 0 {
        assert(r.take(0) =~= Seq::<usize>::empty());
        assert(is_next_closest(dist, r.take(0), r[0] as int));
        assert forall|j: int| 0 <= j < dist.len() implies dist[r[0] as int] <= #[trigger] dist[j] by {
            if j != r[0] as int {
                assert(!r.take(0).contains(j as usize));
            }
        }
    } else if dist.len() > 0 {
        let m = lemma_closest_exists(dist, dist.len() as int);
        assert(r =~= Seq::<usize>::empty());
        assert(is_next_closest(dist, r, m));
        assert forall|i: int| 0 <= i < dist.len() implies dist[i] > max by {
            if i != m {
                assert(before(dist[m] as int, m, dist[i] as int, i));
            }
        }
    }
}

} // verus!
