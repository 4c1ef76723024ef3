//! Enumeration of grid-search parameter combinations.
//!
//! A grid is given by the number of values on each axis. Its points are the
//! index tuples of all combinations, listed the way nested loops list them:
//! the first axis varies slowest, the last axis fastest. Point `k` is the
//! mixed-radix representation of `k` with the axis sizes as radices.
use vstd::arithmetic::div_mod::{lemma_fundamental_div_mod, lemma_fundamental_div_mod_converse};
use vstd::prelude::*;

verus! {

/// Number of combinations of a grid: the product of its axis sizes.
pub open spec fn grid_size(dims: Seq<usize>) -> nat
    decreases dims.len(),
{
    if dims.len() == 0 {
        1
    } else {
        grid_size(dims.drop_last()) * (dims.last() as nat)
    }
}

/// The `k`-th combination of the grid: one index per axis, the last axis
/// varying fastest.
pub open spec fn grid_point(dims: Seq<usize>, k: nat) -> Seq<usize>
    decreases dims.len(),
{
    if dims.len() == 0 {
        Seq::empty()
    } else {
        let b = dims.last() as nat;
        grid_point(dims.drop_last(), k / b).push((k % b) as usize)
    }
}

/// The position of a combination in the enumeration (inverse of `grid_point`).
pub open spec fn grid_index(dims: Seq<usize>, t: Seq<usize>) -> nat
    decreases t.len(),
{
    if t.len() == 0 || dims.len() == 0 {
        0
    } else {
        grid_index(dims.drop_last(), t.drop_last()) * (dims.last() as nat) + (t.last() as nat)
    }
}

/// A combination that picks, on every axis, an index within that axis.
pub open spec fn in_grid(dims: Seq<usize>, t: Seq<usize>) -> bool {
    &&& t.len() == dims.len()
    &&& forall|p: int| 0 <= p < t.len() ==> #[trigger] t[p] < dims[p]
}

proof fn lemma_size_positive(dims: Seq<usize>)
    requires
        forall|p: int| 0 <= p < dims.len() ==> #[trigger] dims[p] > 0,
    ensures
        grid_size(dims) > 0,
    decreases dims.len(),
{
    if dims.len() > 0 {
        lemma_size_positive(dims.drop_last());
        let a = grid_size(dims.drop_last());
        let b = dims.last() as nat;
        assert(a * b > 0) by (nonlinear_arith)
            requires
                a > 0,
                b > 0,
        ;
    }
}

proof fn lemma_size_zero(dims: Seq<usize>, p: int)
    requires
        0 <= p < dims.len(),
        dims[p] == 0,
    ensures
        grid_size(dims) == 0,
    decreases dims.len(),
{
    if p == dims.len() - 1 {
        let a = grid_size(dims.drop_last());
        assert(a * 0 == 0) by (nonlinear_arith);
    } else {
        lemma_size_zero(dims.drop_last(), p);
        let b = dims.last() as nat;
        assert(0 * b == 0) by (nonlinear_arith);
    }
}

proof fn lemma_prefix_size_le(dims: Seq<usize>, i: int)
    requires
        0 <= i <= dims.len(),
        forall|p: int| 0 <= p < dims.len() ==> #[trigger] dims[p] > 0,
    ensures
        grid_size(dims.take(i)) <= grid_size(dims),
    decreases dims.len(),
{
    if i < dims.len() {
        let d = dims.drop_last();
        assert(d.take(i) =~= dims.take(i));
        lemma_prefix_size_le(d, i);
        lemma_size_positive(d);
        let a = grid_size(d);
        let b = dims.last() as nat;
        assert(a <= a * b) by (nonlinear_arith)
            requires
                b >= 1,
        ;
    } else {
        assert(dims.take(i) =~= dims);
    }
}

/// Law: every grid point picks an index within each axis.
pub proof fn lemma_grid_point_in_grid(dims: Seq<usize>, k: nat)
    requires
        k < grid_size(dims),
    ensures
        in_grid(dims, grid_point(dims, k)),
    decreases dims.len(),
{
    if dims.len() > 0 {
        let d = dims.drop_last();
        let b = dims.last() as nat;
        let s = grid_size(d);
        assert(b > 0 && s > 0) by (nonlinear_arith)
            requires
                k < s * b,
        ;
        let q = k / b;
        lemma_fundamental_div_mod(k as int, b as int);
        assert(q < s) by (nonlinear_arith)
            requires
                k < s * b,
                k == b * q + k % b,
                0 <= k % b,
                b > 0,
        ;
        lemma_grid_point_in_grid(d, q);
        let t = grid_point(dims, k);
        assert forall|p: int| 0 <= p < t.len() implies #[trigger] t[p] < dims[p] by {
            if p < t.len() - 1 {
                assert(t[p] == grid_point(d, q)[p]);
                assert(dims[p] == d[p]);
            }
        }
    }
}

/// Law: the enumeration position of the `k`-th point is `k`, so no
/// combination is listed twice.
pub proof fn lemma_grid_index_of_point(dims: Seq<usize>, k: nat)
    requires
        k < grid_size(dims),
    ensures
        grid_index(dims, grid_point(dims, k)) == k,
    decreases dims.len(),
{
    if dims.len() > 0 {
        let d = dims.drop_last();
        let b = dims.last() as nat;
        let s = grid_size(d);
        assert(b > 0 && s > 0) by (nonlinear_arith)
            requires
                k < s * b,
        ;
        let q = k / b;
        let r = k % b;
        lemma_fundamental_div_mod(k as int, b as int);
        assert(q < s) by (nonlinear_arith)
            requires
                k < s * b,
                k == b * q + r,
                0 <= r,
                b > 0,
        ;
        lemma_grid_index_of_point(d, q);
        let t = grid_point(dims, k);
        assert(t.drop_last() =~= grid_point(d, q));
        assert(grid_index(dims, t) == q * b + r);
        assert(q * b + r == k) by (nonlinear_arith)
            requires
                k == b * q + r,
        ;
    }
}

/// Law: every combination within the grid is listed, at the position
/// `grid_index` gives it.
pub proof fn lemma_grid_point_of_index(dims: Seq<usize>, t: Seq<usize>)
    requires
        in_grid(dims, t),
    ensures
        grid_index(dims, t) < grid_size(dims),
        grid_point(dims, grid_index(dims, t)) == t,
    decreases dims.len(),
{
    if dims.len() > 0 {
        let d = dims.drop_last();
        let t2 = t.drop_last();
        let b = dims.last() as nat;
        let r = t.last() as nat;
        assert(in_grid(d, t2)) by {
            assert forall|p: int| 0 <= p < t2.len() implies #[trigger] t2[p] < d[p] by {
                assert(t2[p] == t[p]);
                assert(d[p] == dims[p]);
            }
        }
        lemma_grid_point_of_index(d, t2);
        let i2 = grid_index(d, t2);
        let s = grid_size(d);
        assert(r < b) by {
            assert(t[t.len() - 1] < dims[dims.len() - 1]);
        }
        let i = grid_index(dims, t);
        assert(i == i2 * b + r);
        assert(i < s * b) by (nonlinear_arith)
            requires
                i == i2 * b + r,
                i2 < s,
                r < b,
        ;
        lemma_fundamental_div_mod_converse(i as int, b as int, i2 as int, r as int);
        assert(grid_point(dims, i) =~= t);
    }
}

/// The `k`-th point of the grid made of the first `n` axes of `dims`.
fn point_at(dims: &Vec<usize>, n: usize, k: usize) -> (pt: Vec<usize>)
    requires
        n <= dims.len(),
        forall|p: int| 0 <= p < n ==> #[trigger] dims@[p] > 0,
    ensures
        pt@ == grid_point(dims@.take(n as int), k as nat),
    decreases n,
{
    if n == 0 {
        Vec::new()
    } else {
        let b = dims[n - 1];
        let mut pt = point_at(dims, n - 1, k / b);
        pt.push(k % b);
        assert(dims@.take(n as int).drop_last() =~= dims@.take(n - 1));
        pt
    }
}

/// Whether the grid's number of combinations fits in `usize`, as
/// `grid_points` requires.
pub fn grid_size_fits(dims: &Vec<usize>) -> (ok: bool)
    ensures
        ok == (grid_size(dims@) <= usize::MAX),
{
    let n = dims.len();
    let mut i: usize = 0;
    while i < n
        invariant
            n == dims.len(),
            i <= n,
            forall|p: int| 0 <= p < i ==> #[trigger] dims@[p] > 0,
        decreases n - i,
    {
        if dims[i] == 0 {
            proof {
                lemma_size_zero(dims@, i as int);
            }
            return true;
        }
        i = i + 1;
    }
    let mut total: usize = 1;
    let mut j: usize = 0;
    while j < n
        invariant
            n == dims.len(),
            j <= n,
            forall|p: int| 0 <= p < n ==> #[trigger] dims@[p] > 0,
            total as nat == grid_size(dims@.take(j as int)),
        decreases n - j,
    {
        proof {
            assert(dims@.take(j + 1).drop_last() =~= dims@.take(j as int));
            lemma_prefix_size_le(dims@, j + 1);
        }
        match total.checked_mul(dims[j]) {
            Some(t) => {
                total = t;
            },
            None => {
                return false;
            },
        }
        j = j + 1;
    }
    assert(dims@.take(n as int) =~= dims@);
    true
}

/// All combinations of a grid with the given axis sizes, in enumeration
/// order.
pub fn grid_points(dims: &Vec<usize>) -> (pts: Vec<Vec<usize>>)
    requires
        grid_size(dims@) <= usize::MAX,
    ensures
        pts.len() == grid_size(dims@),
        forall|k: int| 0 <= k < pts.len() ==> (#[trigger] pts@[k])@ == grid_point(dims@, k as nat),
{
    let n = dims.len();
    let mut i: usize = 0;
    while i < n
        invariant
            n == dims.len(),
            i <= n,
            forall|p: int| 0 <= p < i ==> #[trigger] dims@[p] > 0,
        decreases n - i,
    {
        if dims[i] == 0 {
            proof {
                lemma_size_zero(dims@, i as int);
            }
            return Vec::new();
        }
        i = i + 1;
    }
    let mut total: usize = 1;
    let mut j: usize = 0;
    while j < n
        invariant
            n == dims.len(),
            j <= n,
            forall|p: int| 0 <= p < n ==> #[trigger] dims@[p] > 0,
            grid_size(dims@) <= usize::MAX,
            total as nat == grid_size(dims@.take(j as int)),
        decreases n - j,
    {
        proof {
            assert(dims@.take(j + 1).drop_last() =~= dims@.take(j as int));
            lemma_prefix_size_le(dims@, j + 1);
        }
        total = total * dims[j];
        j = j + 1;
    }
    assert(dims@.take(n as int) =~= dims@);
    let mut pts: Vec<Vec<usize>> = Vec::new();
    let mut k: usize = 0;
    while k < total
        invariant
            n == dims.len(),
            forall|p: int| 0 <= p < n ==> #[trigger] dims@[p] > 0,
            total == grid_size(dims@),
            dims@.take(n as int) == dims@,
            k <= total,
            pts.len() == k,
            forall|m: int| 0 <= m < k ==> (#[trigger] pts@[m])@ == grid_point(dims@, m as nat),
        decreases total - k,
    {
        let pt = point_at(dims, n, k);
        pts.push(pt);
        k = k + 1;
    }
    pts
}

/// Axis sizes of the grid that combines two lists.
pub open spec fn dims2(la: nat, lb: nat) -> Seq<usize> {
    seq![la as usize, lb as usize]
}

/// Axis sizes of the grid that combines three lists.
pub open spec fn dims3(la: nat, lb: nat, lc: nat) -> Seq<usize> {
    seq![la as usize, lb as usize, lc as usize]
}

/// Every pair of an element of `a` with an element of `b`, the first list
/// varying slowest, each numbered with its position.
pub fn product2<A: Copy, B: Copy>(a: &Vec<A>, b: &Vec<B>) -> (out: Vec<(usize, (A, B))>)
    requires
        grid_size(dims2(a.len() as nat, b.len() as nat)) <= usize::MAX,
    ensures
        out.len() == grid_size(dims2(a.len() as nat, b.len() as nat)),
        forall|k: int|
            0 <= k < out.len() ==> {
                let p = grid_point(dims2(a.len() as nat, b.len() as nat), k as nat);
                #[trigger] out@[k] == (k as usize, (a@[p[0] as int], b@[p[1] as int]))
            },
{
    let dims: Vec<usize> = vec![a.len(), b.len()];
    assert(dims@ =~= dims2(a.len() as nat, b.len() as nat));
    let pts = grid_points(&dims);
    let mut out: Vec<(usize, (A, B))> = Vec::new();
    let mut k: usize = 0;
    while k < pts.len()
        invariant
            dims@ == dims2(a.len() as nat, b.len() as nat),
            pts.len() == grid_size(dims@),
            forall|m: int| 0 <= m < pts.len() ==> (#[trigger] pts@[m])@ == grid_point(dims@, m as nat),
            k <= pts.len(),
            out.len() == k,
            forall|m: int|
                0 <= m < k ==> {
                    let p = grid_point(dims@, m as nat);
                    #[trigger] out@[m] == (m as usize, (a@[p[0] as int], b@[p[1] as int]))
                },
        decreases pts.len() - k,
    {
        proof {
            lemma_grid_point_in_grid(dims@, k as nat);
        }
        let p = &pts[k];
        assert(p@ == grid_point(dims@, k as nat));
        assert(p@[0] < dims@[0] && p@[1] < dims@[1]);
        out.push((k, (a[p[0]], b[p[1]])));
        k = k + 1;
    }
    out
}

/// Every triple of elements of `a`, `b` and `c`, the first list varying
/// slowest and the last fastest, each numbered with its position.
pub fn product3<A: Copy, B: Copy, C: Copy>(a: &Vec<A>, b: &Vec<B>, c: &Vec<C>) -> (out: Vec<(usize, (A, B, C))>)
    requires
        grid_size(dims3(a.len() as nat, b.len() as nat, c.len() as nat)) <= usize::MAX,
    ensures
        out.len() == grid_size(dims3(a.len() as nat, b.len() as nat, c.len() as nat)),
        forall|k: int|
            0 <= k < out.len() ==> {
                let p = grid_point(dims3(a.len() as nat, b.len() as nat, c.len() as nat), k as nat);
                #[trigger] out@[k] == (k as usize, (a@[p[0] as int], b@[p[1] as int], c@[p[2] as int]))
            },
{
    let dims: Vec<usize> = vec![a.len(), b.len(), c.len()];
    assert(dims@ =~= dims3(a.len() as nat, b.len() as nat, c.len() as nat));
    let pts = grid_points(&dims);
    let mut out: Vec<(usize, (A, B, C))> = Vec::new();
    let mut k: usize = 0;
    while k < pts.len()
        invariant
            dims@ == dims3(a.len() as nat, b.len() as nat, c.len() as nat),
            pts.len() == grid_size(dims@),
            forall|m: int| 0 <= m < pts.len() ==> (#[trigger] pts@[m])@ == grid_point(dims@, m as nat),
            k <= pts.len(),
            out.len() == k,
            forall|m: int|
                0 <= m < k ==> {
                    let p = grid_point(dims@, m as nat);
                    #[trigger] out@[m] == (m as usize, (a@[p[0] as int], b@[p[1] as int], c@[p[2] as int]))
                },
        decreases pts.len() - k,
    {
        proof {
            lemma_grid_point_in_grid(dims@, k as nat);
        }
        let p = &pts[k];
        assert(p@ == grid_point(dims@, k as nat));
        assert(p@[0] < dims@[0] && p@[1] < dims@[1] && p@[2] < dims@[2]);
        out.push((k, (a[p[0]], b[p[1]], c[p[2]])));
        k = k + 1;
    }
    out
}

/// The positions whose flag is set, in order.
pub open spec fn kept_positions(keep: Seq<bool>) -> Seq<usize> {
    Seq::new(keep.len(), |i: int| i as usize).filter(|i: usize| keep[i as int])
}

/// Numbers the kept entries of a list consecutively: one `(number,
/// position)` pair per entry whose flag is set, in order.
pub fn number_kept(keep: &Vec<bool>) -> (out: Vec<(usize, usize)>)
    ensures
        out.len() == kept_positions(keep@).len(),
        forall|j: int| 0 <= j < out.len() ==> #[trigger] out@[j] == (j as usize, kept_positions(keep@)[j]),
{
    let ghost all = Seq::new(keep@.len(), |i: int| i as usize);
    let ghost pred = |i: usize| keep@[i as int];
    let mut out: Vec<(usize, usize)> = Vec::new();
    let mut i: usize = 0;
    while i < keep.len()
        invariant
            i <= keep.len(),
            all == Seq::new(keep@.len(), |i: int| i as usize),
            pred == (|i: usize| keep@[i as int]),
            out.len() == all.take(i as int).filter(pred).len(),
            forall|j: int| 0 <= j < out.len() ==> #[trigger] out@[j] == (j as usize, all.take(i as int).filter(pred)[j]),
        decreases keep.len() - i,
    {
        proof {
            reveal(Seq::filter);
            assert(all.take(i + 1).drop_last() =~= all.take(i as int));
            assert(all.take(i + 1).last() == i as usize);
        }
        if keep[i] {
            let n = out.len();
            out.push((n, i));
        }
        i = i + 1;
    }
    assert(all.take(keep.len() as int) =~= all);
    out
}

} // verus!
