//! The multiplier: a recursive block decomposition over quadrant views that
//! falls back to a direct triple loop at the size threshold, with element
//! arithmetic wrapping modulo 2^64.

use crate::arith::{
    lemma_wrap_i64_add, lemma_wrap_i64_in_range, lemma_wrapping_add_is_wrap,
    lemma_wrapping_mul_is_wrap, wrap_i64,
};
use crate::constraints::{in_region, is_square, off_in, view_ent, MatrixWithOffset, Offset, Split};
use crate::validation::{
    is_pow2, valid_matrix, validate_matrices, validate_matrices_spec, MatricesError,
};
use vstd::prelude::*;

verus! {

/// The side length at or below which the recursion stops and the direct
/// triple-loop multiply takes over.
pub const THRESHOLD: usize = 2;

/// The exact (unbounded) dot product of the first `k` elements of row `i` of
/// the region of `a` based at `(ar, ac)` with column `j` of the region of `b`
/// based at `(br, bc)`.
pub open spec fn dot(
    a: Seq<Vec<i64>>,
    ar: int,
    ac: int,
    b: Seq<Vec<i64>>,
    br: int,
    bc: int,
    i: int,
    j: int,
    k: int,
) -> int
    decreases k,
{
    if k <= 0 {
        0
    } else {
        dot(a, ar, ac, b, br, bc, i, j, k - 1) + a[ar + i]@[ac + (k - 1)] * b[br + (k - 1)]@[bc
            + j]
    }
}

/// `m1` has exactly the row lengths of `m0`.
pub open spec fn same_shape(m0: Seq<Vec<i64>>, m1: Seq<Vec<i64>>) -> bool {
    m0.len() == m1.len() && forall|r: int|
        0 <= r < m0.len() ==> (#[trigger] m1[r]@.len()) == m0[r]@.len()
}

/// `m1` keeps the shape of `m0` and agrees with it on every element outside
/// the region described by `off`.
pub open spec fn unchanged_outside(m0: Seq<Vec<i64>>, m1: Seq<Vec<i64>>, off: Offset) -> bool {
    &&& same_shape(m0, m1)
    &&& forall|r: int, c: int|
        0 <= r < m0.len() && 0 <= c < m0[r]@.len() && !in_region(off, r, c) ==> (#[trigger] m1[r]@[c])
            == m0[r]@[c]
}

/// The region of `c` described by `co` holds the wrapped product of the
/// region of `a` based at `ao` with the region of `b` based at `bo`.
pub open spec fn region_is_product(
    c: Seq<Vec<i64>>,
    co: Offset,
    a: Seq<Vec<i64>>,
    ao: Offset,
    b: Seq<Vec<i64>>,
    bo: Offset,
) -> bool {
    forall|i: int, j: int|
        0 <= i < co.n && 0 <= j < co.n ==> (#[trigger] view_ent(c, co, i, j)) == wrap_i64(
            dot(
                a,
                ao.row_start as int,
                ao.col_start as int,
                b,
                bo.row_start as int,
                bo.col_start as int,
                i,
                j,
                co.n as int,
            ),
        )
}

/// Writes `v` at physical coordinate `(r, c)`, leaving every other element
/// and every row length as it was.
fn mat_set(m: &mut Vec<Vec<i64>>, r: usize, c: usize, v: i64)
    requires
        r < old(m)@.len(),
        c < old(m)@[r as int]@.len(),
    ensures
        final(m)@.len() == old(m)@.len(),
        forall|k: int| 0 <= k < old(m)@.len() && k != r ==> (#[trigger] final(m)@[k]) == old(m)@[k],
        final(m)@[r as int]@ == old(m)@[r as int]@.update(c as int, v),
{
    m[r][c] = v;
}

/// A freshly allocated `n` by `n` matrix of zeros.
fn zero_matrix(n: usize) -> (m: Vec<Vec<i64>>)
    ensures
        m@.len() == n,
        is_square(m@),
        forall|r: int, c: int| 0 <= r < n && 0 <= c < n ==> (#[trigger] m@[r]@[c]) == 0i64,
{
    let mut m: Vec<Vec<i64>> = Vec::new();
    let mut r: usize = 0;
    while r < n
        invariant
            m@.len() == r,
            r <= n,
            forall|k: int| 0 <= k < r ==> (#[trigger] m@[k]@.len()) == n,
            forall|k: int, c: int| 0 <= k < r && 0 <= c < n ==> (#[trigger] m@[k]@[c]) == 0i64,
        decreases n - r,
    {
        let mut row: Vec<i64> = Vec::new();
        let mut c: usize = 0;
        while c < n
            invariant
                row@.len() == c,
                c <= n,
                forall|t: int| 0 <= t < c ==> (#[trigger] row@[t]) == 0i64,
            decreases n - c,
        {
            row.push(0);
            c = c + 1;
        }
        m.push(row);
        r = r + 1;
    }
    m
}

/// Multiplies two matrices of size 2^a x 2^a using the naive algorithm into
/// the result region, overwriting whatever the region held.
pub fn naive_multiply_into(
    a: &MatrixWithOffset,
    b: &MatrixWithOffset,
    result: &mut Vec<Vec<i64>>,
    result_offset: Offset,
)
    requires
        a.valid(),
        b.valid(),
        is_square(old(result)@),
        off_in(old(result)@, result_offset),
        a.offset.n == result_offset.n,
        b.offset.n == result_offset.n,
    ensures
        unchanged_outside(old(result)@, final(result)@, result_offset),
        region_is_product(final(result)@, result_offset, a.matrix@, a.offset, b.matrix@, b.offset),
{
    let n = result_offset.n;
    let rows = result.len();
    let ghost m0 = result@;
    let mut i: usize = 0;
    while i < n
        invariant
            n == result_offset.n,
            a.valid(),
            b.valid(),
            a.offset.n == n,
            b.offset.n == n,
            is_square(m0),
            off_in(m0, result_offset),
            rows == m0.len(),
            i <= n,
            unchanged_outside(m0, result@, result_offset),
            forall|i0: int, j0: int|
                0 <= i0 < i && 0 <= j0 < n ==> (#[trigger] view_ent(result@, result_offset, i0, j0))
                    == wrap_i64(
                    dot(
                        a.matrix@,
                        a.offset.row_start as int,
                        a.offset.col_start as int,
                        b.matrix@,
                        b.offset.row_start as int,
                        b.offset.col_start as int,
                        i0,
                        j0,
                        n as int,
                    ),
                ),
        decreases n - i,
    {
        let mut j: usize = 0;
        while j < n
            invariant
                n == result_offset.n,
                a.valid(),
                b.valid(),
                a.offset.n == n,
                b.offset.n == n,
                is_square(m0),
                off_in(m0, result_offset),
                rows == m0.len(),
                i < n,
                j <= n,
                unchanged_outside(m0, result@, result_offset),
                forall|i0: int, j0: int|
                    0 <= i0 < i && 0 <= j0 < n ==> (#[trigger] view_ent(
                        result@,
                        result_offset,
                        i0,
                        j0,
                    )) == wrap_i64(
                        dot(
                            a.matrix@,
                            a.offset.row_start as int,
                            a.offset.col_start as int,
                            b.matrix@,
                            b.offset.row_start as int,
                            b.offset.col_start as int,
                            i0,
                            j0,
                            n as int,
                        ),
                    ),
                forall|j0: int|
                    0 <= j0 < j ==> (#[trigger] view_ent(result@, result_offset, i as int, j0))
                        == wrap_i64(
                        dot(
                            a.matrix@,
                            a.offset.row_start as int,
                            a.offset.col_start as int,
                            b.matrix@,
                            b.offset.row_start as int,
                            b.offset.col_start as int,
                            i as int,
                            j0,
                            n as int,
                        ),
                    ),
            decreases n - j,
        {
            let mut s: i64 = 0;
            let mut k: usize = 0;
            while k < n
                invariant
                    n == result_offset.n,
                    a.valid(),
                    b.valid(),
                    a.offset.n == n,
                    b.offset.n == n,
                    i < n,
                    j < n,
                    k <= n,
                    s == wrap_i64(
                        dot(
                            a.matrix@,
                            a.offset.row_start as int,
                            a.offset.col_start as int,
                            b.matrix@,
                            b.offset.row_start as int,
                            b.offset.col_start as int,
                            i as int,
                            j as int,
                            k as int,
                        ),
                    ),
                decreases n - k,
            {
                let p: i64 = a.at(i, k).wrapping_mul(b.at(k, j));
                proof {
                    let ae = view_ent(a.matrix@, a.offset, i as int, k as int);
                    let be = view_ent(b.matrix@, b.offset, k as int, j as int);
                    let d = dot(
                        a.matrix@,
                        a.offset.row_start as int,
                        a.offset.col_start as int,
                        b.matrix@,
                        b.offset.row_start as int,
                        b.offset.col_start as int,
                        i as int,
                        j as int,
                        k as int,
                    );
                    lemma_wrapping_mul_is_wrap(ae, be);
                    lemma_wrapping_add_is_wrap(s, wrap_i64(ae * be));
                    lemma_wrap_i64_add(ae * be, wrap_i64(d) as int);
                    lemma_wrap_i64_add(d, ae * be);
                    assert(wrap_i64(wrap_i64(d) + wrap_i64(ae * be)) == wrap_i64(d + ae * be));
                }
                s = s.wrapping_add(p);
                k = k + 1;
            }
            proof {
                assert(result_offset.row_start + i < rows);
                assert(result@[result_offset.row_start + i]@.len() == m0.len());
            }
            let ghost prev = result@;
            mat_set(result, result_offset.row_start + i, result_offset.col_start + j, s);
            proof {
                assert forall|i0: int, j0: int|
                    0 <= i0 < n && 0 <= j0 < n && !(i0 == i && j0 == j) implies (#[trigger] view_ent(
                    result@,
                    result_offset,
                    i0,
                    j0,
                )) == view_ent(prev, result_offset, i0, j0) by {
                    if i0 != i {
                        assert(result@[result_offset.row_start + i0] == prev[result_offset.row_start
                            + i0]);
                    } else {
                        assert(result@[result_offset.row_start + i]@ == prev[result_offset.row_start
                            + i]@.update(result_offset.col_start + j, s));
                    }
                }
                assert(view_ent(result@, result_offset, i as int, j as int) == s);
            }
            j = j + 1;
        }
        i = i + 1;
    }
}

/// Adds the elements of the region viewed by `b` into the region of `a`
/// described by `a_offset`, element by element, wrapping modulo 2^64.
fn add_into(a: &mut Vec<Vec<i64>>, a_offset: Offset, b: &MatrixWithOffset)
    requires
        b.valid(),
        is_square(old(a)@),
        off_in(old(a)@, a_offset),
        b.offset.n == a_offset.n,
    ensures
        unchanged_outside(old(a)@, final(a)@, a_offset),
        forall|i: int, j: int|
            0 <= i < a_offset.n && 0 <= j < a_offset.n ==> (#[trigger] view_ent(
                final(a)@,
                a_offset,
                i,
                j,
            )) == wrap_i64(
                view_ent(old(a)@, a_offset, i, j) + view_ent(b.matrix@, b.offset, i, j),
            ),
{
    let n = a_offset.n;
    let rows = a.len();
    let ghost m0 = a@;
    let mut i: usize = 0;
    while i < n
        invariant
            n == a_offset.n,
            b.valid(),
            b.offset.n == n,
            is_square(m0),
            off_in(m0, a_offset),
            rows == m0.len(),
            i <= n,
            unchanged_outside(m0, a@, a_offset),
            forall|i0: int, j0: int|
                0 <= i0 < i && 0 <= j0 < n ==> (#[trigger] view_ent(a@, a_offset, i0, j0))
                    == wrap_i64(
                    view_ent(m0, a_offset, i0, j0) + view_ent(b.matrix@, b.offset, i0, j0),
                ),
            forall|i0: int, j0: int|
                i <= i0 < n && 0 <= j0 < n ==> (#[trigger] view_ent(a@, a_offset, i0, j0))
                    == view_ent(m0, a_offset, i0, j0),
        decreases n - i,
    {
        let mut j: usize = 0;
        while j < n
            invariant
                n == a_offset.n,
                b.valid(),
                b.offset.n == n,
                is_square(m0),
                off_in(m0, a_offset),
                rows == m0.len(),
                i < n,
                j <= n,
                unchanged_outside(m0, a@, a_offset),
                forall|i0: int, j0: int|
                    0 <= i0 < i && 0 <= j0 < n ==> (#[trigger] view_ent(a@, a_offset, i0, j0))
                        == wrap_i64(
                        view_ent(m0, a_offset, i0, j0) + view_ent(b.matrix@, b.offset, i0, j0),
                    ),
                forall|j0: int|
                    0 <= j0 < j ==> (#[trigger] view_ent(a@, a_offset, i as int, j0)) == wrap_i64(
                        view_ent(m0, a_offset, i as int, j0) + view_ent(b.matrix@, b.offset, i as int, j0),
                    ),
                forall|j0: int|
                    j <= j0 < n ==> (#[trigger] view_ent(a@, a_offset, i as int, j0)) == view_ent(
                        m0,
                        a_offset,
                        i as int,
                        j0,
                    ),
                forall|i0: int, j0: int|
                    i < i0 < n && 0 <= j0 < n ==> (#[trigger] view_ent(a@, a_offset, i0, j0))
                        == view_ent(m0, a_offset, i0, j0),
            decreases n - j,
        {
            let cur: i64 = {
                let r = a_offset.row_start + i;
                let c = a_offset.col_start + j;
                proof {
                    assert(a@[r as int]@.len() == m0.len());
                }
                a[r][c]
            };
            let other: i64 = b.at(i, j);
            proof {
                lemma_wrapping_add_is_wrap(cur, other);
            }
            let v: i64 = cur.wrapping_add(other);
            let ghost prev = a@;
            mat_set(a, a_offset.row_start + i, a_offset.col_start + j, v);
            proof {
                assert forall|i0: int, j0: int|
                    0 <= i0 < n && 0 <= j0 < n && !(i0 == i && j0 == j) implies (#[trigger] view_ent(
                    a@,
                    a_offset,
                    i0,
                    j0,
                )) == view_ent(prev, a_offset, i0, j0) by {
                    if i0 != i {
                        assert(a@[a_offset.row_start + i0] == prev[a_offset.row_start + i0]);
                    } else {
                        assert(a@[a_offset.row_start + i]@ == prev[a_offset.row_start + i]@.update(
                            a_offset.col_start + j,
                            v,
                        ));
                    }
                }
                assert(view_ent(a@, a_offset, i as int, j as int) == v);
                assert(cur == view_ent(prev, a_offset, i as int, j as int));
                assert(view_ent(prev, a_offset, i as int, j as int) == view_ent(
                    m0,
                    a_offset,
                    i as int,
                    j as int,
                ));
                assert(view_ent(a@, a_offset, i as int, j as int) == wrap_i64(
                    view_ent(m0, a_offset, i as int, j as int) + view_ent(
                        b.matrix@,
                        b.offset,
                        i as int,
                        j as int,
                    ),
                ));
            }
            j = j + 1;
        }
        i = i + 1;
    }
}

/// A dot product over `m + k` terms is the dot product over the first `m`
/// terms plus the dot product over the remaining `k`, whose region bases move
/// `m` columns into `a` and `m` rows into `b`.
proof fn lemma_dot_split(
    a: Seq<Vec<i64>>,
    ar: int,
    ac: int,
    b: Seq<Vec<i64>>,
    br: int,
    bc: int,
    i: int,
    j: int,
    m: int,
    k: int,
)
    requires
        0 <= m,
        0 <= k,
    ensures
        dot(a, ar, ac, b, br, bc, i, j, m + k) == dot(a, ar, ac, b, br, bc, i, j, m) + dot(
            a,
            ar,
            ac + m,
            b,
            br + m,
            bc,
            i,
            j,
            k,
        ),
    decreases k,
{
    if k > 0 {
        lemma_dot_split(a, ar, ac, b, br, bc, i, j, m, k - 1);
        assert(ac + m + (k - 1) == ac + (m + k - 1));
        assert(br + m + (k - 1) == br + (m + k - 1));
    }
}

/// Moving `di` rows of the base of `a` into the logical row index, and `dj`
/// columns of the base of `b` into the logical column index, reads the same
/// elements and so gives the same dot product.
proof fn lemma_dot_reindex(
    a: Seq<Vec<i64>>,
    ar: int,
    ac: int,
    b: Seq<Vec<i64>>,
    br: int,
    bc: int,
    i: int,
    j: int,
    k: int,
    di: int,
    dj: int,
)
    ensures
        dot(a, ar, ac, b, br, bc, i, j, k) == dot(a, ar + di, ac, b, br, bc + dj, i - di, j - dj, k),
    decreases k,
{
    if k > 0 {
        lemma_dot_reindex(a, ar, ac, b, br, bc, i, j, k - 1, di, dj);
        assert((ar + di) + (i - di) == ar + i);
        assert((bc + dj) + (j - dj) == bc + j);
    }
}

/// An element outside the region that a step left unchanged is unchanged.
proof fn lemma_outside_point(m0: Seq<Vec<i64>>, m1: Seq<Vec<i64>>, off: Offset, r: int, c: int)
    requires
        unchanged_outside(m0, m1, off),
        0 <= r < m0.len(),
        0 <= c < m0[r]@.len(),
        !in_region(off, r, c),
    ensures
        m1[r]@[c] == m0[r]@[c],
{
}

/// Multiplies two matrices of size 2^a x 2^a using the block algorithm into
/// the result region: at or below the threshold by the direct triple loop,
/// above it by splitting all three regions into quadrants and combining two
/// recursive sub-products per output quadrant through a scratch buffer.
#[verifier::rlimit(60)]
fn multiply_into(a: &MatrixWithOffset, b: &MatrixWithOffset, c: &mut Vec<Vec<i64>>, c_offset: Offset)
    requires
        a.valid(),
        b.valid(),
        is_square(old(c)@),
        off_in(old(c)@, c_offset),
        a.offset.n == c_offset.n,
        b.offset.n == c_offset.n,
        is_pow2(c_offset.n as nat),
    ensures
        unchanged_outside(old(c)@, final(c)@, c_offset),
        region_is_product(final(c)@, c_offset, a.matrix@, a.offset, b.matrix@, b.offset),
    decreases c_offset.n,
{
    let n = a.offset.n;
    if n <= THRESHOLD {
        naive_multiply_into(a, b, c, c_offset);
        return;
    }
    let mid = n / 2;

    // binding the backing lengths shows the quadrant corners fit in usize
    let a_rows = a.matrix.len();
    let b_rows = b.matrix.len();
    let c_rows = c.len();
    proof {
        assert(is_pow2((n / 2) as nat));
    }

    let a_split = a.offset.split();
    let Split { s11: a11, s12: a12, s21: a21, s22: a22 } = a.create_from_split(&a_split);

    let b_split = b.offset.split();
    let Split { s11: b11, s12: b12, s21: b21, s22: b22 } = b.create_from_split(&b_split);

    let c_split = c_offset.split();

    let ghost c0 = c@;
    let ghost av = a.matrix@;
    let ghost bv = b.matrix@;
    let ghost ar = a.offset.row_start as int;
    let ghost ac = a.offset.col_start as int;
    let ghost br = b.offset.row_start as int;
    let ghost bc = b.offset.col_start as int;

    let mut buffer = zero_matrix(mid);
    let buffer_offset = Offset::new_unchecked(&buffer);

    // upper left: C11 = A11*B11 + A12*B21
    multiply_into(&a11, &b11, &mut buffer, buffer_offset);
    multiply_into(&a12, &b21, c, c_split.s11);
    add_into(c, c_split.s11, &buffer_offset.as_matrix_with_offset(&buffer));
    let ghost buf1 = buffer@;
    let ghost c1 = c@;

    // upper right: C12 = A11*B12 + A12*B22
    multiply_into(&a11, &b12, &mut buffer, buffer_offset);
    multiply_into(&a12, &b22, c, c_split.s12);
    add_into(c, c_split.s12, &buffer_offset.as_matrix_with_offset(&buffer));
    let ghost buf2 = buffer@;
    let ghost c2 = c@;

    // lower left: C21 = A21*B11 + A22*B21
    multiply_into(&a21, &b11, &mut buffer, buffer_offset);
    multiply_into(&a22, &b21, c, c_split.s21);
    add_into(c, c_split.s21, &buffer_offset.as_matrix_with_offset(&buffer));
    let ghost buf3 = buffer@;
    let ghost c3 = c@;

    // lower right: C22 = A21*B12 + A22*B22
    multiply_into(&a21, &b12, &mut buffer, buffer_offset);
    multiply_into(&a22, &b22, c, c_split.s22);
    add_into(c, c_split.s22, &buffer_offset.as_matrix_with_offset(&buffer));
    let ghost c4 = c@;

    proof {
        let ro = c_offset.row_start as int;
        let co = c_offset.col_start as int;

        assert forall|r: int, cc: int|
            0 <= r < c0.len() && 0 <= cc < c0[r]@.len() && !in_region(c_offset, r, cc)
                implies (#[trigger] c4[r]@[cc]) == c0[r]@[cc] by {
            lemma_outside_point(c0, c1, c_split.s11, r, cc);
            lemma_outside_point(c1, c2, c_split.s12, r, cc);
            lemma_outside_point(c2, c3, c_split.s21, r, cc);
            lemma_outside_point(c3, c4, c_split.s22, r, cc);
        }
        assert(unchanged_outside(c0, c4, c_offset));

        assert forall|i: int, j: int| 0 <= i < n && 0 <= j < n implies (#[trigger] view_ent(
            c4,
            c_offset,
            i,
            j,
        )) == wrap_i64(dot(av, ar, ac, bv, br, bc, i, j, n as int)) by {
            lemma_dot_split(av, ar, ac, bv, br, bc, i, j, mid as int, mid as int);
            if i < mid && j < mid {
                // settled by the upper-left step, untouched after it
                let d1 = dot(av, ar, ac, bv, br, bc, i, j, mid as int);
                let d2 = dot(av, ar, ac + mid, bv, br + mid, bc, i, j, mid as int);
                assert(view_ent(buf1, buffer_offset, i, j) == wrap_i64(d1));
                lemma_wrap_i64_add(d2, wrap_i64(d1) as int);
                lemma_wrap_i64_add(d1, d2);
                assert(view_ent(c1, c_split.s11, i, j) == wrap_i64(d1 + d2));
                lemma_outside_point(c1, c2, c_split.s12, ro + i, co + j);
                lemma_outside_point(c2, c3, c_split.s21, ro + i, co + j);
                lemma_outside_point(c3, c4, c_split.s22, ro + i, co + j);
                assert(view_ent(c4, c_offset, i, j) == view_ent(c1, c_split.s11, i, j));
            } else if i < mid && j >= mid {
                let d1 = dot(av, ar, ac, bv, br, bc + mid, i, j - mid, mid as int);
                let d2 = dot(av, ar, ac + mid, bv, br + mid, bc + mid, i, j - mid, mid as int);
                lemma_dot_reindex(av, ar, ac, bv, br, bc, i, j, mid as int, 0, mid as int);
                lemma_dot_reindex(av, ar, ac + mid, bv, br + mid, bc, i, j, mid as int, 0, mid as int);
                assert(view_ent(buf2, buffer_offset, i, j - mid) == wrap_i64(d1));
                lemma_wrap_i64_add(d2, wrap_i64(d1) as int);
                lemma_wrap_i64_add(d1, d2);
                assert(view_ent(c2, c_split.s12, i, j - mid) == wrap_i64(d1 + d2));
                lemma_outside_point(c2, c3, c_split.s21, ro + i, co + j);
                lemma_outside_point(c3, c4, c_split.s22, ro + i, co + j);
                assert(view_ent(c4, c_offset, i, j) == view_ent(c2, c_split.s12, i, j - mid));
            } else if i >= mid && j < mid {
                let d1 = dot(av, ar + mid, ac, bv, br, bc, i - mid, j, mid as int);
                let d2 = dot(av, ar + mid, ac + mid, bv, br + mid, bc, i - mid, j, mid as int);
                lemma_dot_reindex(av, ar, ac, bv, br, bc, i, j, mid as int, mid as int, 0);
                lemma_dot_reindex(av, ar, ac + mid, bv, br + mid, bc, i, j, mid as int, mid as int, 0);
                assert(view_ent(buf3, buffer_offset, i - mid, j) == wrap_i64(d1));
                lemma_wrap_i64_add(d2, wrap_i64(d1) as int);
                lemma_wrap_i64_add(d1, d2);
                assert(view_ent(c3, c_split.s21, i - mid, j) == wrap_i64(d1 + d2));
                lemma_outside_point(c3, c4, c_split.s22, ro + i, co + j);
                assert(view_ent(c4, c_offset, i, j) == view_ent(c3, c_split.s21, i - mid, j));
            } else {
                let d1 = dot(av, ar + mid, ac, bv, br, bc + mid, i - mid, j - mid, mid as int);
                let d2 = dot(av, ar + mid, ac + mid, bv, br + mid, bc + mid, i - mid, j - mid, mid as int);
                lemma_dot_reindex(av, ar, ac, bv, br, bc, i, j, mid as int, mid as int, mid as int);
                lemma_dot_reindex(
                    av,
                    ar,
                    ac + mid,
                    bv,
                    br + mid,
                    bc,
                    i,
                    j,
                    mid as int,
                    mid as int,
                    mid as int,
                );
                lemma_wrap_i64_add(d2, wrap_i64(d1) as int);
                lemma_wrap_i64_add(d1, d2);
                assert(view_ent(c4, c_split.s22, i - mid, j - mid) == wrap_i64(d1 + d2));
                assert(view_ent(c4, c_offset, i, j) == view_ent(c4, c_split.s22, i - mid, j - mid));
            }
        }
    }
}

/// Element `(i, j)` of the product of the square matrices `a` and `b`: the
/// dot product of row `i` of `a` with column `j` of `b`, wrapped into `i64`.
pub open spec fn product_entry(a: Seq<Vec<i64>>, b: Seq<Vec<i64>>, i: int, j: int) -> i64 {
    wrap_i64(dot(a, 0, 0, b, 0, 0, i, j, a.len() as int))
}

/// Everything `multiply` promises of its result: on invalid input exactly the
/// error that `validate_matrices` reports, and on valid input a fresh square
/// matrix of the operands' dimension holding their product, element for
/// element.
pub open spec fn multiply_post(
    a: Seq<Vec<i64>>,
    b: Seq<Vec<i64>>,
    result: Result<Vec<Vec<i64>>, MatricesError>,
) -> bool {
    match (validate_matrices_spec(a, b), result) {
        (Ok(()), Ok(c)) => {
            &&& c@.len() == a.len()
            &&& is_square(c@)
            &&& forall|i: int, j: int|
                0 <= i < a.len() && 0 <= j < a.len() ==> (#[trigger] c@[i]@[j]) == product_entry(
                    a,
                    b,
                    i,
                    j,
                )
        },
        (Err(e), Err(e2)) => e2 == e,
        _ => false,
    }
}

/// Multiplies two matrices of size 2^a x 2^a using the block algorithm and
/// returns the result. Validation failures are reported before any numeric
/// work; on success the result is the wrapped product of the operands.
pub fn multiply(a: Vec<Vec<i64>>, b: Vec<Vec<i64>>) -> (result: Result<
    Vec<Vec<i64>>,
    MatricesError,
>)
    ensures
        multiply_post(a@, b@, result),
        result is Ok <==> validate_matrices_spec(a@, b@) is Ok,
{
    match validate_matrices(&a, &b) {
        Err(e) => {
            return Err(e);
        },
        Ok(()) => {},
    }
    let a_offset = Offset::new_unchecked(&a);
    let b_offset = Offset::new_unchecked(&b);

    let n = a_offset.n;
    let mut c = zero_matrix(n);
    let c_offset = Offset::new_unchecked(&c);

    proof {
        assert(valid_matrix(a@) && valid_matrix(b@) && a@.len() == b@.len());
        assert(c_offset.n == a@.len());
    }
    multiply_into(
        &a_offset.as_matrix_with_offset(&a),
        &b_offset.as_matrix_with_offset(&b),
        &mut c,
        c_offset,
    );

    proof {
        assert forall|i: int, j: int| 0 <= i < a@.len() && 0 <= j < a@.len() implies (
        #[trigger] c@[i]@[j]) == product_entry(a@, b@, i, j) by {
            assert(view_ent(c@, c_offset, i, j) == wrap_i64(
                dot(a@, 0, 0, b@, 0, 0, i, j, c_offset.n as int),
            ));
        }
    }
    Ok(c)
}

/// The matrix is square and holds ones on its diagonal and zeros elsewhere.
pub open spec fn is_identity(m: Seq<Vec<i64>>) -> bool {
    is_square(m) && forall|i: int, j: int|
        0 <= i < m.len() && 0 <= j < m.len() ==> (#[trigger] m[i]@[j]) == (
        if i == j {
            1i64
        } else {
            0i64
        })
}

/// A dot product against a column of the identity picks out one element of
/// the row: all other terms vanish.
proof fn lemma_dot_identity_right(a: Seq<Vec<i64>>, id: Seq<Vec<i64>>, i: int, j: int, k: int)
    requires
        is_identity(id),
        0 <= j < id.len(),
        k <= id.len(),
    ensures
        dot(a, 0, 0, id, 0, 0, i, j, k) == if j < k {
            a[i]@[j] as int
        } else {
            0
        },
    decreases k,
{
    if k > 0 {
        lemma_dot_identity_right(a, id, i, j, k - 1);
    }
}

/// A dot product of a row of the identity picks out one element of the
/// column: all other terms vanish.
proof fn lemma_dot_identity_left(id: Seq<Vec<i64>>, b: Seq<Vec<i64>>, i: int, j: int, k: int)
    requires
        is_identity(id),
        0 <= i < id.len(),
        k <= id.len(),
    ensures
        dot(id, 0, 0, b, 0, 0, i, j, k) == if i < k {
            b[i]@[j] as int
        } else {
            0
        },
    decreases k,
{
    if k > 0 {
        lemma_dot_identity_left(id, b, i, j, k - 1);
    }
}

/// Identity law, right form: multiplying a valid matrix by the identity of
/// its dimension succeeds and returns the matrix unchanged, element for
/// element.
pub proof fn lemma_multiply_identity_right(
    a: Seq<Vec<i64>>,
    id: Seq<Vec<i64>>,
    r: Result<Vec<Vec<i64>>, MatricesError>,
)
    requires
        valid_matrix(a),
        is_identity(id),
        id.len() == a.len(),
        multiply_post(a, id, r),
    ensures
        r is Ok,
        r->Ok_0@.len() == a.len(),
        forall|i: int, j: int|
            0 <= i < a.len() && 0 <= j < a.len() ==> (#[trigger] r->Ok_0@[i]@[j]) == a[i]@[j],
{
    assert(validate_matrices_spec(a, id) is Ok);
    let c = r->Ok_0;
    assert forall|i: int, j: int| 0 <= i < a.len() && 0 <= j < a.len() implies (#[trigger] c@[i]@[j])
        == a[i]@[j] by {
        assert(c@[i]@[j] == product_entry(a, id, i, j));
        lemma_dot_identity_right(a, id, i, j, a.len() as int);
        lemma_wrap_i64_in_range(a[i]@[j] as int);
    }
}

/// Identity law, left form: multiplying the identity by a valid matrix of its
/// dimension succeeds and returns the matrix unchanged, element for element.
pub proof fn lemma_multiply_identity_left(
    id: Seq<Vec<i64>>,
    b: Seq<Vec<i64>>,
    r: Result<Vec<Vec<i64>>, MatricesError>,
)
    requires
        valid_matrix(b),
        is_identity(id),
        id.len() == b.len(),
        multiply_post(id, b, r),
    ensures
        r is Ok,
        r->Ok_0@.len() == b.len(),
        forall|i: int, j: int|
            0 <= i < b.len() && 0 <= j < b.len() ==> (#[trigger] r->Ok_0@[i]@[j]) == b[i]@[j],
{
    assert(validate_matrices_spec(id, b) is Ok);
    let c = r->Ok_0;
    assert forall|i: int, j: int| 0 <= i < b.len() && 0 <= j < b.len() implies (#[trigger] c@[i]@[j])
        == b[i]@[j] by {
        assert(c@[i]@[j] == product_entry(id, b, i, j));
        lemma_dot_identity_left(id, b, i, j, b.len() as int);
        lemma_wrap_i64_in_range(b[i]@[j] as int);
    }
}

/// Determinism law: any two results that `multiply` can return for the same
/// operands agree — the same error, or products equal element for element.
pub proof fn lemma_multiply_deterministic(
    a: Seq<Vec<i64>>,
    b: Seq<Vec<i64>>,
    r1: Result<Vec<Vec<i64>>, MatricesError>,
    r2: Result<Vec<Vec<i64>>, MatricesError>,
)
    requires
        multiply_post(a, b, r1),
        multiply_post(a, b, r2),
    ensures
        r1 is Ok <==> r2 is Ok,
        r1 is Err ==> r1 == r2,
        r1 is Ok ==> r1->Ok_0@.len() == r2->Ok_0@.len(),
        r1 is Ok ==> forall|i: int, j: int|
            0 <= i < a.len() && 0 <= j < a.len() ==> (#[trigger] r1->Ok_0@[i]@[j])
                == r2->Ok_0@[i]@[j],
{
    if r1 is Ok {
        let c1 = r1->Ok_0;
        let c2 = r2->Ok_0;
        assert forall|i: int, j: int| 0 <= i < a.len() && 0 <= j < a.len() implies (
        #[trigger] c1@[i]@[j]) == c2@[i]@[j] by {
            assert(c1@[i]@[j] == product_entry(a, b, i, j));
            assert(c2@[i]@[j] == product_entry(a, b, i, j));
        }
    }
}

} // verus!
