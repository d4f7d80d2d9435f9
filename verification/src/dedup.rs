//! Collapsing near-duplicate listings: at most one listing per author
//! survives, favoring the listing carrying the most descriptive tag.

use vstd::prelude::*;
use vstd::string::StrSliceExecFns;
use crate::listing::{ListingView, PFListing};

verus! {

/// Listing `i` is kept in preference to listing `j`: longer flags win, and on
/// equal flags the earlier original position wins.
pub open spec fn keeps_before(s: Seq<ListingView>, i: int, j: int) -> bool {
    s[i].flags.len() > s[j].flags.len() || (s[i].flags.len() == s[j].flags.len() && i < j)
}

/// Listing `k` is the one deduplication keeps for its author: it is preferred
/// to every other listing by the same author.
pub open spec fn is_best_for_author(s: Seq<ListingView>, k: int) -> bool {
    &&& 0 <= k < s.len()
    &&& forall|m: int|
        0 <= m < s.len() && m != k && (#[trigger] s[m]).author == s[k].author ==> keeps_before(
            s,
            k,
            m,
        )
}

/// For each author, at most one listing is the kept one.
pub proof fn lemma_best_is_unique(s: Seq<ListingView>, i: int, j: int)
    requires
        is_best_for_author(s, i),
        is_best_for_author(s, j),
        s[i].author == s[j].author,
    ensures
        i == j,
{
    if i != j {
        assert(keeps_before(s, i, j));
        assert(keeps_before(s, j, i));
    }
}

/// The index deduplication keeps among the first `n` listings by author `a`,
/// or -1 where none of them has that author.
spec fn best_upto(s: Seq<ListingView>, a: Seq<char>, n: int) -> int
    decreases n,
{
    if n <= 0 {
        -1
    } else {
        let b = best_upto(s, a, n - 1);
        if s[n - 1].author != a {
            b
        } else if b == -1 {
            n - 1
        } else if s[b].flags.len() >= s[n - 1].flags.len() {
            b
        } else {
            n - 1
        }
    }
}

proof fn lemma_best_upto(s: Seq<ListingView>, a: Seq<char>, n: int)
    requires
        0 <= n <= s.len(),
    ensures
        best_upto(s, a, n) == -1 || (0 <= best_upto(s, a, n) < n && s[best_upto(s, a, n)].author
            == a),
        (exists|j: int| 0 <= j < n && (#[trigger] s[j]).author == a) ==> 0 <= best_upto(s, a, n),
        0 <= best_upto(s, a, n) ==> forall|m: int|
            0 <= m < n && m != best_upto(s, a, n) && (#[trigger] s[m]).author == a
                ==> keeps_before(s, best_upto(s, a, n), m),
    decreases n,
{
    if n > 0 {
        lemma_best_upto(s, a, n - 1);
    }
}

/// For every listing there is a kept listing with the same author.
pub proof fn lemma_best_exists(s: Seq<ListingView>, k: int)
    requires
        0 <= k < s.len(),
    ensures
        exists|b: int| #[trigger] is_best_for_author(s, b) && s[b].author == s[k].author,
{
    lemma_best_upto(s, s[k].author, s.len() as int);
    let b = best_upto(s, s[k].author, s.len() as int);
    assert(0 <= b < s.len());
    assert(is_best_for_author(s, b));
}

/// `l` is the listing deduplication keeps for some author of `s`.
pub open spec fn is_kept_value(s: Seq<ListingView>, l: ListingView) -> bool {
    exists|k: int| #[trigger] is_best_for_author(s, k) && l == s[k]
}

/// Some listing with author `a` appears in `out`.
pub open spec fn has_author(out: Seq<ListingView>, a: Seq<char>) -> bool {
    exists|p: int| 0 <= p < out.len() && (#[trigger] out[p]).author == a
}

/// Kept listing `a` precedes kept listing `b` in the deduplicated order:
/// their original positions are ordered by `keeps_before`.
pub open spec fn kept_in_order(s: Seq<ListingView>, a: ListingView, b: ListingView) -> bool {
    exists|i: int, j: int|
        #[trigger] is_best_for_author(s, i) && #[trigger] is_best_for_author(s, j) && a == s[i] && b
            == s[j] && keeps_before(s, i, j)
}

/// The character length of a listing's flags text.
fn flags_len(l: &PFListing) -> (n: usize)
    ensures
        n == l@.flags.len(),
{
    l.flags.as_str().unicode_len()
}

/// Whether listing `k` is the one deduplication keeps for its author.
fn check_best(listings: &Vec<PFListing>, k: usize) -> (r: bool)
    requires
        k < listings@.len(),
    ensures
        r == is_best_for_author(listings.deep_view(), k as int),
{
    let ghost lv = listings.deep_view();
    let n = listings.len();
    let lk = flags_len(&listings[k]);
    let mut m: usize = 0;
    while m < n
        invariant
            lv == listings.deep_view(),
            n == lv.len(),
            k < n,
            lk == lv[k as int].flags.len(),
            m <= n,
            forall|j: int|
                0 <= j < m && j != k && (#[trigger] lv[j]).author == lv[k as int].author
                    ==> keeps_before(lv, k as int, j),
        decreases n - m,
    {
        if m != k && listings[m].author == listings[k].author {
            let lm = flags_len(&listings[m]);
            if !(lk > lm || (lk == lm && k < m)) {
                proof {
                    assert(!keeps_before(lv, k as int, m as int));
                }
                return false;
            }
        }
        m = m + 1;
    }
    true
}

/// Picks, among the remaining original indices, the one whose listing every
/// other remaining listing yields to.
fn pick_best(listings: &Vec<PFListing>, rest: &Vec<usize>) -> (p: usize)
    requires
        rest@.len() > 0,
        forall|q: int| 0 <= q < rest@.len() ==> #[trigger] rest@[q] < listings@.len(),
        forall|q1: int, q2: int|
            0 <= q1 < q2 < rest@.len() ==> rest@[q1] != rest@[q2],
    ensures
        p < rest@.len(),
        forall|q: int|
            0 <= q < rest@.len() && q != p ==> keeps_before(
                listings.deep_view(),
                rest@[p as int] as int,
                rest@[q] as int,
            ),
{
    let ghost lv = listings.deep_view();
    let mut p: usize = 0;
    let mut best_len = flags_len(&listings[rest[0]]);
    let mut q: usize = 1;
    while q < rest.len()
        invariant
            lv == listings.deep_view(),
            forall|j: int| 0 <= j < rest@.len() ==> #[trigger] rest@[j] < lv.len(),
            forall|j1: int, j2: int|
                0 <= j1 < j2 < rest@.len() ==> rest@[j1] != rest@[j2],
            q <= rest@.len(),
            p < q,
            best_len == lv[rest@[p as int] as int].flags.len(),
            forall|j: int|
                0 <= j < q && j != p ==> keeps_before(lv, rest@[p as int] as int, rest@[j] as int),
        decreases rest@.len() - q,
    {
        let lq = flags_len(&listings[rest[q]]);
        if lq > best_len || (lq == best_len && rest[q] < rest[p]) {
            proof {
                assert forall|j: int| 0 <= j < q + 1 && j != q implies keeps_before(
                    lv,
                    rest@[q as int] as int,
                    rest@[j] as int,
                ) by {
                    if j != p {
                        assert(keeps_before(lv, rest@[p as int] as int, rest@[j] as int));
                    }
                }
            }
            p = q;
            best_len = lq;
        } else {
            proof {
                assert(keeps_before(lv, rest@[p as int] as int, rest@[q as int] as int));
            }
        }
        q = q + 1;
    }
    p
}

/// Deduplicates a parsed batch: the output holds exactly one listing per
/// distinct author appearing in the input — the one with the longest flags
/// text among that author's listings, earliest first on ties — ordered by
/// descending flags length.
pub fn dedup_listings(listings: &Vec<PFListing>) -> (out: Vec<PFListing>)
    ensures
        forall|p: int, q: int|
            0 <= p < q < out.deep_view().len() ==> (#[trigger] out.deep_view()[p]).author != (
            #[trigger] out.deep_view()[q]).author,
        forall|p: int|
            0 <= p < out.deep_view().len() ==> is_kept_value(
                listings.deep_view(),
                #[trigger] out.deep_view()[p],
            ),
        forall|k: int|
            0 <= k < listings.deep_view().len() ==> has_author(
                out.deep_view(),
                (#[trigger] listings.deep_view()[k]).author,
            ),
        forall|p: int, q: int|
            0 <= p < q < out.deep_view().len() ==> (#[trigger] out.deep_view()[p]).flags.len() >= (
            #[trigger] out.deep_view()[q]).flags.len(),
        forall|p: int, q: int|
            0 <= p < q < out.deep_view().len() ==> kept_in_order(
                listings.deep_view(),
                #[trigger] out.deep_view()[p],
                #[trigger] out.deep_view()[q],
            ),
{
    let ghost lv = listings.deep_view();
    let n = listings.len();

    // Phase one: the kept index of every author present, in original order.
    let mut rest: Vec<usize> = Vec::new();
    let mut k: usize = 0;
    while k < n
        invariant
            lv == listings.deep_view(),
            n == lv.len(),
            k <= n,
            forall|q: int| 0 <= q < rest@.len() ==> #[trigger] rest@[q] < k,
            forall|q: int|
                0 <= q < rest@.len() ==> is_best_for_author(lv, #[trigger] rest@[q] as int),
            forall|q1: int, q2: int| 0 <= q1 < q2 < rest@.len() ==> rest@[q1] < rest@[q2],
            forall|j: int|
                0 <= j < k && is_best_for_author(lv, j) ==> exists|q: int|
                    0 <= q < rest@.len() && #[trigger] rest@[q] == j,
        decreases n - k,
    {
        let ghost old_rest = rest@;
        let is_best = check_best(listings, k);
        if is_best {
            rest.push(k);
        }
        k = k + 1;
        proof {
            assert forall|j: int| 0 <= j < k && is_best_for_author(lv, j) implies exists|q: int|
                0 <= q < rest@.len() && #[trigger] rest@[q] == j by {
                if j < k - 1 {
                    let q = choose|q: int| 0 <= q < old_rest.len() && #[trigger] old_rest[q] == j;
                    assert(rest@[q] == j);
                } else {
                    assert(rest@[rest@.len() - 1] == j);
                }
            }
        }
    }

    // Phase two: order the kept indices by descending flags length, original
    // position on ties.
    let mut ordered: Vec<usize> = Vec::new();
    while rest.len() > 0
        invariant
            lv == listings.deep_view(),
            n == lv.len(),
            forall|q: int| 0 <= q < rest@.len() ==> #[trigger] rest@[q] < n,
            forall|q: int|
                0 <= q < rest@.len() ==> is_best_for_author(lv, #[trigger] rest@[q] as int),
            forall|q1: int, q2: int| 0 <= q1 < q2 < rest@.len() ==> rest@[q1] < rest@[q2],
            forall|t: int| 0 <= t < ordered@.len() ==> #[trigger] ordered@[t] < n,
            forall|t: int|
                0 <= t < ordered@.len() ==> is_best_for_author(lv, #[trigger] ordered@[t] as int),
            forall|t1: int, t2: int|
                0 <= t1 < t2 < ordered@.len() ==> keeps_before(
                    lv,
                    #[trigger] ordered@[t1] as int,
                    #[trigger] ordered@[t2] as int,
                ),
            forall|t: int, q: int|
                0 <= t < ordered@.len() && 0 <= q < rest@.len() ==> keeps_before(
                    lv,
                    #[trigger] ordered@[t] as int,
                    #[trigger] rest@[q] as int,
                ),
            forall|j: int|
                0 <= j < n && is_best_for_author(lv, j) ==> (exists|t: int|
                    0 <= t < ordered@.len() && #[trigger] ordered@[t] == j) || (exists|q: int|
                    0 <= q < rest@.len() && #[trigger] rest@[q] == j),
        decreases rest@.len(),
    {
        let p = pick_best(listings, &rest);
        let ghost old_rest = rest@;
        let ghost old_ordered = ordered@;
        let idx = rest[p];
        ordered.push(idx);
        rest.remove(p);
        proof {
            assert forall|q: int| 0 <= q < rest@.len() implies #[trigger] rest@[q] < n
                && is_best_for_author(lv, rest@[q] as int) by {
                if q < p {
                    assert(rest@[q] == old_rest[q]);
                } else {
                    assert(rest@[q] == old_rest[q + 1]);
                }
            }
            assert forall|q1: int, q2: int| 0 <= q1 < q2 < rest@.len() implies rest@[q1]
                < rest@[q2] by {
                let o1: int = if q1 < p { q1 } else { q1 + 1 };
                let o2: int = if q2 < p { q2 } else { q2 + 1 };
                assert(rest@[q1] == old_rest[o1]);
                assert(rest@[q2] == old_rest[o2]);
            }
            assert forall|t: int, q: int|
                0 <= t < ordered@.len() && 0 <= q < rest@.len() implies keeps_before(
                lv,
                #[trigger] ordered@[t] as int,
                #[trigger] rest@[q] as int,
            ) by {
                let o: int = if q < p { q } else { q + 1 };
                assert(rest@[q] == old_rest[o]);
                if t < old_ordered.len() {
                    assert(keeps_before(lv, old_ordered[t] as int, old_rest[o] as int));
                } else {
                    assert(ordered@[t] == idx);
                    assert(keeps_before(lv, old_rest[p as int] as int, old_rest[o] as int));
                }
            }
            assert forall|j: int| 0 <= j < n && is_best_for_author(lv, j) implies (exists|t: int|
                0 <= t < ordered@.len() && #[trigger] ordered@[t] == j) || (exists|q: int|
                0 <= q < rest@.len() && #[trigger] rest@[q] == j) by {
                if exists|t: int| 0 <= t < old_ordered.len() && #[trigger] old_ordered[t] == j {
                    let t = choose|t: int| 0 <= t < old_ordered.len() && #[trigger] old_ordered[t]
                        == j;
                    assert(ordered@[t] == j);
                } else {
                    let q = choose|q: int| 0 <= q < old_rest.len() && #[trigger] old_rest[q] == j;
                    if q == p {
                        assert(ordered@[ordered@.len() - 1] == j);
                    } else if q < p {
                        assert(rest@[q] == j);
                    } else {
                        assert(rest@[q - 1] == j);
                    }
                }
            }
        }
    }

    // Phase three: the kept listings themselves, in that order.
    let mut out: Vec<PFListing> = Vec::new();
    let mut t: usize = 0;
    while t < ordered.len()
        invariant
            lv == listings.deep_view(),
            n == lv.len(),
            t <= ordered@.len(),
            forall|u: int| 0 <= u < ordered@.len() ==> #[trigger] ordered@[u] < n,
            forall|u: int|
                0 <= u < ordered@.len() ==> is_best_for_author(lv, #[trigger] ordered@[u] as int),
            forall|u1: int, u2: int|
                0 <= u1 < u2 < ordered@.len() ==> keeps_before(
                    lv,
                    #[trigger] ordered@[u1] as int,
                    #[trigger] ordered@[u2] as int,
                ),
            forall|j: int|
                0 <= j < n && is_best_for_author(lv, j) ==> exists|u: int|
                    0 <= u < ordered@.len() && #[trigger] ordered@[u] == j,
            out@.len() == t,
            forall|u: int| 0 <= u < t ==> (#[trigger] out@[u])@ == lv[ordered@[u] as int],
        decreases ordered@.len() - t,
    {
        let ghost old_out = out@;
        let l = listings[ordered[t]].clone();
        proof {
            assert(l@ == lv[ordered@[t as int] as int]);
        }
        out.push(l);
        t = t + 1;
        proof {
            assert forall|u: int| 0 <= u < t implies (#[trigger] out@[u])@ == lv[ordered@[u] as int]
                by {
                if u < t - 1 {
                    assert(out@[u] == old_out[u]);
                } else {
                    assert(out@[u] == l);
                }
            }
        }
    }

    proof {
        let ov = out.deep_view();
        assert(ov.len() == out@.len());
        assert forall|u: int| 0 <= u < ov.len() implies #[trigger] ov[u]
            == lv[ordered@[u] as int] by {
            assert(ov[u] == out@[u]@);
        }
        assert forall|p: int, q: int| 0 <= p < q < ov.len() implies (#[trigger] ov[p]).author != (
        #[trigger] ov[q]).author by {
            if ov[p].author == ov[q].author {
                lemma_best_is_unique(lv, ordered@[p] as int, ordered@[q] as int);
                assert(keeps_before(lv, ordered@[p] as int, ordered@[q] as int));
            }
        }
        assert forall|p: int| 0 <= p < out.deep_view().len() implies is_kept_value(
            listings.deep_view(),
            #[trigger] out.deep_view()[p],
        ) by {
            let kk = ordered@[p] as int;
            assert(is_best_for_author(lv, kk) && ov[p] == lv[kk]);
        }
        assert forall|k: int| 0 <= k < listings.deep_view().len() implies has_author(
            out.deep_view(),
            (#[trigger] listings.deep_view()[k]).author,
        ) by {
            lemma_best_exists(lv, k);
            let b = choose|b: int| #[trigger] is_best_for_author(lv, b) && lv[b].author
                == lv[k].author;
            let u = choose|u: int| 0 <= u < ordered@.len() && #[trigger] ordered@[u] == b;
            assert(0 <= u < ov.len() && ov[u].author == lv[k].author);
        }
        assert forall|p: int, q: int| 0 <= p < q < ov.len() implies (#[trigger] ov[p]).flags.len()
            >= (#[trigger] ov[q]).flags.len() by {
            assert(keeps_before(lv, ordered@[p] as int, ordered@[q] as int));
        }
        assert forall|p: int, q: int| 0 <= p < q < out.deep_view().len() implies kept_in_order(
            listings.deep_view(),
            #[trigger] out.deep_view()[p],
            #[trigger] out.deep_view()[q],
        ) by {
            let kp = ordered@[p] as int;
            let kq = ordered@[q] as int;
            assert(is_best_for_author(lv, kp) && is_best_for_author(lv, kq) && ov[p] == lv[kp]
                && ov[q] == lv[kq] && keeps_before(lv, kp, kq));
        }
    }
    out
}

} // verus!
