//! Dense vector and matrix operations. A matrix of `rows` by `cols` is held
//! flat, row by row: entry `(r, c)` sits at index `r * cols + c`.
use vstd::prelude::*;

use crate::scalar::{sigmoid_prime, sigmoid_prime_spec, Scalar};

verus! {

/// The flat index of entry `(r, c)` lies inside a `rows` by `cols` matrix.
pub proof fn lemma_flat_index(r: int, c: int, rows: int, cols: int)
    requires
        0 <= r < rows,
        0 <= c < cols,
    ensures
        0 <= r * cols + c < rows * cols,
{
    assert(0 <= r * cols) by (nonlinear_arith)
        requires
            0 <= r,
            0 <= cols,
    ;
    assert(r * cols + cols <= rows * cols) by (nonlinear_arith)
        requires
            r + 1 <= rows,
            0 <= cols,
    ;
}


/// `Σ_{c' < c} W[r][c'] · a[c']`, summed from the left starting at zero.
pub open spec fn row_dot<T: Scalar>(w: Seq<T>, cols: int, r: int, a: Seq<T>, c: int) -> T
    decreases c,
{
    if c <= 0 {
        T::zero_spec()
    } else {
        row_dot(w, cols, r, a, c - 1).plus_spec(w[r * cols + c - 1].times_spec(a[c - 1]))
    }
}

/// `Σ_{r' < r} W[r'][c] · d[r']`, summed from the left starting at zero.
pub open spec fn col_dot<T: Scalar>(w: Seq<T>, cols: int, c: int, d: Seq<T>, r: int) -> T
    decreases r,
{
    if r <= 0 {
        T::zero_spec()
    } else {
        col_dot(w, cols, c, d, r - 1).plus_spec(w[(r - 1) * cols + c].times_spec(d[r - 1]))
    }
}

/// `W · a + b` for a `rows` by `cols` matrix `W`.
pub open spec fn affine_spec<T: Scalar>(w: Seq<T>, rows: int, cols: int, b: Seq<T>, a: Seq<T>) -> Seq<T> {
    Seq::new(rows as nat, |r: int| row_dot(w, cols, r, a, cols).plus_spec(b[r]))
}

/// `Wᵀ · d` for a `rows` by `cols` matrix `W`.
pub open spec fn transpose_spec<T: Scalar>(w: Seq<T>, rows: int, cols: int, d: Seq<T>) -> Seq<T> {
    Seq::new(cols as nat, |c: int| col_dot(w, cols, c, d, rows))
}

/// `x ⊙ y`.
pub open spec fn hadamard_spec<T: Scalar>(x: Seq<T>, y: Seq<T>) -> Seq<T> {
    Seq::new(x.len(), |i: int| x[i].times_spec(y[i]))
}

/// `x - y`.
pub open spec fn difference_spec<T: Scalar>(x: Seq<T>, y: Seq<T>) -> Seq<T> {
    Seq::new(x.len(), |i: int| x[i].minus_spec(y[i]))
}

/// The logistic function of each entry.
pub open spec fn sigmoid_map<T: Scalar>(z: Seq<T>) -> Seq<T> {
    Seq::new(z.len(), |i: int| z[i].sigmoid_spec())
}

/// The logistic function's derivative at each entry.
pub open spec fn sigmoid_prime_map<T: Scalar>(z: Seq<T>) -> Seq<T> {
    Seq::new(z.len(), |i: int| sigmoid_prime_spec(z[i]))
}

/// `W - (d ⊗ a) · lr`, entry `(r, c)` at `r * cols + c`.
pub open spec fn outer_step_spec<T: Scalar>(w: Seq<T>, rows: int, cols: int, d: Seq<T>, a: Seq<T>, lr: T) -> Seq<T> {
    Seq::new(
        (rows * cols) as nat,
        |k: int| w[k].minus_spec(d[k / cols].times_spec(a[k % cols]).times_spec(lr)),
    )
}

/// `b - d · lr`.
pub open spec fn scaled_step_spec<T: Scalar>(b: Seq<T>, d: Seq<T>, lr: T) -> Seq<T> {
    Seq::new(b.len(), |i: int| b[i].minus_spec(d[i].times_spec(lr)))
}

/// The first index of a largest entry among the first `n` entries: a later
/// entry takes over only when strictly greater.
pub open spec fn first_max<T: Scalar>(v: Seq<T>, n: int) -> int
    decreases n,
{
    if n <= 1 {
        0
    } else {
        let b = first_max(v, n - 1);
        if v[n - 1].gt_spec(v[b]) {
            n - 1
        } else {
            b
        }
    }
}

/// `len` entries, one at index `k`, zero elsewhere.
pub open spec fn one_hot_spec<T: Scalar>(len: int, k: int) -> Seq<T> {
    Seq::new(len as nat, |i: int| if i == k { T::one_spec() } else { T::zero_spec() })
}

/// Entry `k` of a matrix with `cols` columns lies in row `k / cols`, column `k % cols`.
proof fn lemma_flat_split(r: int, c: int, cols: int)
    requires
        0 <= c < cols,
        0 <= r,
    ensures
        (r * cols + c) / cols == r,
        (r * cols + c) % cols == c,
{
    vstd::arithmetic::div_mod::lemma_fundamental_div_mod_converse(r * cols + c, cols, r, c);
}

/// `W · a + b` for a `rows` by `cols` matrix `W`.
pub fn affine<T: Scalar>(w: &Vec<T>, rows: usize, cols: usize, b: &Vec<T>, a: &Vec<T>) -> (z:
    Vec<T>)
    requires
        w.len() == rows * cols,
        b.len() == rows,
        a.len() == cols,
    ensures
        z@ == affine_spec(w@, rows as int, cols as int, b@, a@),
{
    let mut z: Vec<T> = Vec::new();
    let mut r: usize = 0;
    while r < rows
        invariant
            r <= rows,
            z.len() == r,
            w.len() == rows * cols,
            b.len() == rows,
            a.len() == cols,
            forall|j: int| 0 <= j < r ==> #[trigger] z@[j] == affine_spec(w@, rows as int, cols as int, b@, a@)[j],
        decreases rows - r,
    {
        let mut sum = T::zero();
        let mut c: usize = 0;
        while c < cols
            invariant
                r < rows,
                c <= cols,
                w.len() == rows * cols,
                a.len() == cols,
                sum == row_dot(w@, cols as int, r as int, a@, c as int),
            decreases cols - c,
        {
            proof {
                lemma_flat_index(r as int, c as int, rows as int, cols as int);
            }
            sum = sum.plus(w[r * cols + c].times(a[c]));
            c = c + 1;
        }
        z.push(sum.plus(b[r]));
        r = r + 1;
    }
    assert(z@ =~= affine_spec(w@, rows as int, cols as int, b@, a@));
    z
}

/// `Wᵀ · d` for a `rows` by `cols` matrix `W`.
pub fn transpose_times<T: Scalar>(w: &Vec<T>, rows: usize, cols: usize, d: &Vec<T>) -> (v: Vec<T>)
    requires
        w.len() == rows * cols,
        d.len() == rows,
    ensures
        v@ == transpose_spec(w@, rows as int, cols as int, d@),
{
    let mut v: Vec<T> = Vec::new();
    let mut c: usize = 0;
    while c < cols
        invariant
            c <= cols,
            v.len() == c,
            w.len() == rows * cols,
            d.len() == rows,
            forall|j: int| 0 <= j < c ==> #[trigger] v@[j] == transpose_spec(w@, rows as int, cols as int, d@)[j],
        decreases cols - c,
    {
        let mut sum = T::zero();
        let mut r: usize = 0;
        while r < rows
            invariant
                c < cols,
                r <= rows,
                w.len() == rows * cols,
                d.len() == rows,
                sum == col_dot(w@, cols as int, c as int, d@, r as int),
            decreases rows - r,
        {
            proof {
                lemma_flat_index(r as int, c as int, rows as int, cols as int);
            }
            sum = sum.plus(w[r * cols + c].times(d[r]));
            r = r + 1;
        }
        v.push(sum);
        c = c + 1;
    }
    assert(v@ =~= transpose_spec(w@, rows as int, cols as int, d@));
    v
}

/// The elementwise product of two vectors of one length.
pub fn hadamard<T: Scalar>(x: &Vec<T>, y: &Vec<T>) -> (p: Vec<T>)
    requires
        x.len() == y.len(),
    ensures
        p@ == hadamard_spec(x@, y@),
{
    let mut p: Vec<T> = Vec::new();
    let mut i: usize = 0;
    while i < x.len()
        invariant
            i <= x.len(),
            p.len() == i,
            x.len() == y.len(),
            forall|j: int| 0 <= j < i ==> #[trigger] p@[j] == hadamard_spec(x@, y@)[j],
        decreases x.len() - i,
    {
        p.push(x[i].times(y[i]));
        i = i + 1;
    }
    assert(p@ =~= hadamard_spec(x@, y@));
    p
}

/// The elementwise difference `x - y` of two vectors of one length.
pub fn difference<T: Scalar>(x: &Vec<T>, y: &Vec<T>) -> (p: Vec<T>)
    requires
        x.len() == y.len(),
    ensures
        p@ == difference_spec(x@, y@),
{
    let mut p: Vec<T> = Vec::new();
    let mut i: usize = 0;
    while i < x.len()
        invariant
            i <= x.len(),
            p.len() == i,
            x.len() == y.len(),
            forall|j: int| 0 <= j < i ==> #[trigger] p@[j] == difference_spec(x@, y@)[j],
        decreases x.len() - i,
    {
        p.push(x[i].minus(y[i]));
        i = i + 1;
    }
    assert(p@ =~= difference_spec(x@, y@));
    p
}

/// The logistic function applied to each entry.
pub fn map_sigmoid<T: Scalar>(z: &Vec<T>) -> (a: Vec<T>)
    ensures
        a@ == sigmoid_map(z@),
{
    let mut a: Vec<T> = Vec::new();
    let mut i: usize = 0;
    while i < z.len()
        invariant
            i <= z.len(),
            a.len() == i,
            forall|j: int| 0 <= j < i ==> #[trigger] a@[j] == sigmoid_map(z@)[j],
        decreases z.len() - i,
    {
        a.push(z[i].sigmoid());
        i = i + 1;
    }
    assert(a@ =~= sigmoid_map(z@));
    a
}

/// The derivative of the logistic function applied to each entry.
pub fn map_sigmoid_prime<T: Scalar>(z: &Vec<T>) -> (a: Vec<T>)
    ensures
        a@ == sigmoid_prime_map(z@),
{
    let mut a: Vec<T> = Vec::new();
    let mut i: usize = 0;
    while i < z.len()
        invariant
            i <= z.len(),
            a.len() == i,
            forall|j: int| 0 <= j < i ==> #[trigger] a@[j] == sigmoid_prime_map(z@)[j],
        decreases z.len() - i,
    {
        a.push(sigmoid_prime(z[i]));
        i = i + 1;
    }
    assert(a@ =~= sigmoid_prime_map(z@));
    a
}

/// The index of the largest entry; among equal largest entries, the first.
pub fn argmax<T: Scalar>(v: &Vec<T>) -> (k: usize)
    requires
        v.len() > 0,
    ensures
        k == first_max(v@, v.len() as int),
        k < v.len(),
{
    let mut best: usize = 0;
    let mut i: usize = 1;
    while i < v.len()
        invariant
            1 <= i <= v.len(),
            best == first_max(v@, i as int),
            best < i,
        decreases v.len() - i,
    {
        if v[i].greater_than(v[best]) {
            best = i;
        }
        i = i + 1;
    }
    best
}

/// `W - (d ⊗ a) · lr` for a `rows` by `cols` matrix `W`: one gradient step
/// on a weight matrix, with `d` indexed by rows and `a` by columns.
pub fn outer_step<T: Scalar>(w: &Vec<T>, rows: usize, cols: usize, d: &Vec<T>, a: &Vec<T>, lr: T) -> (nw: Vec<T>)
    requires
        w.len() == rows * cols,
        d.len() == rows,
        a.len() == cols,
    ensures
        nw@ == outer_step_spec(w@, rows as int, cols as int, d@, a@, lr),
{
    let ghost spec = outer_step_spec(w@, rows as int, cols as int, d@, a@, lr);
    let mut nw: Vec<T> = Vec::new();
    let mut r: usize = 0;
    while r < rows
        invariant
            r <= rows,
            nw.len() == r * cols,
            w.len() == rows * cols,
            d.len() == rows,
            a.len() == cols,
            spec == outer_step_spec(w@, rows as int, cols as int, d@, a@, lr),
            forall|k: int| 0 <= k < nw.len() ==> #[trigger] nw@[k] == spec[k],
        decreases rows - r,
    {
        let mut c: usize = 0;
        while c < cols
            invariant
                r < rows,
                c <= cols,
                nw.len() == r * cols + c,
                w.len() == rows * cols,
                d.len() == rows,
                a.len() == cols,
                spec == outer_step_spec(w@, rows as int, cols as int, d@, a@, lr),
                forall|k: int| 0 <= k < nw.len() ==> #[trigger] nw@[k] == spec[k],
            decreases cols - c,
        {
            proof {
                lemma_flat_index(r as int, c as int, rows as int, cols as int);
                lemma_flat_split(r as int, c as int, cols as int);
            }
            nw.push(w[r * cols + c].minus(d[r].times(a[c]).times(lr)));
            c = c + 1;
        }
        assert(nw.len() == (r + 1) * cols) by (nonlinear_arith)
            requires
                nw.len() == r * cols + cols,
        ;
        r = r + 1;
    }
    assert(nw@ =~= spec);
    nw
}

/// `b - d · lr`: one gradient step on a bias vector.
pub fn scaled_step<T: Scalar>(b: &Vec<T>, d: &Vec<T>, lr: T) -> (nb: Vec<T>)
    requires
        b.len() == d.len(),
    ensures
        nb@ == scaled_step_spec(b@, d@, lr),
{
    let mut nb: Vec<T> = Vec::new();
    let mut i: usize = 0;
    while i < b.len()
        invariant
            i <= b.len(),
            nb.len() == i,
            b.len() == d.len(),
            forall|j: int| 0 <= j < i ==> #[trigger] nb@[j] == scaled_step_spec(b@, d@, lr)[j],
        decreases b.len() - i,
    {
        nb.push(b[i].minus(d[i].times(lr)));
        i = i + 1;
    }
    assert(nb@ =~= scaled_step_spec(b@, d@, lr));
    nb
}

/// An entry-by-entry copy of `v`.
pub fn copy_vec<T: Copy>(v: &Vec<T>) -> (c: Vec<T>)
    ensures
        c@ == v@,
{
    let mut c: Vec<T> = Vec::new();
    let mut i: usize = 0;
    while i < v.len()
        invariant
            i <= v.len(),
            c@ == v@.subrange(0, i as int),
        decreases v.len() - i,
    {
        c.push(v[i]);
        i = i + 1;
        assert(c@ =~= v@.subrange(0, i as int));
    }
    assert(c@ =~= v@);
    c
}

/// A vector of `len` entries, one at index `k` and zero elsewhere.
pub fn one_hot<T: Scalar>(len: usize, k: usize) -> (y: Vec<T>)
    requires
        k < len,
    ensures
        y@ == one_hot_spec::<T>(len as int, k as int),
{
    let mut y: Vec<T> = Vec::new();
    let mut i: usize = 0;
    while i < len
        invariant
            i <= len,
            y.len() == i,
            forall|j: int| 0 <= j < i ==> #[trigger] y@[j] == one_hot_spec::<T>(len as int, k as int)[j],
        decreases len - i,
    {
        if i == k {
            y.push(T::one());
        } else {
            y.push(T::zero());
        }
        i = i + 1;
    }
    assert(y@ =~= one_hot_spec::<T>(len as int, k as int));
    y
}

} // verus!
