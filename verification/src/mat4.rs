//! The render step's transform arithmetic: 4x4 matrices in row-major
//! order over 64-bit integers (the caller picks the fixed-point
//! convention), with multiplication, the combined model-view-projection
//! product in its documented order, and application to a vector.

use vstd::prelude::*;
use vstd::arithmetic::mul::{
    lemma_mul_is_associative, lemma_mul_is_distributive_add,
    lemma_mul_is_distributive_add_other_way,
};

verus! {

/// Magnitude bound on the entries an operand of a product may hold, so
/// that the four partial products of an entry of the result stay
/// within the accumulator.
pub const ENTRY_BOUND: i64 = 0x4000_0000_0000_0000;

/// A 4x4 matrix, row-major: entry (i, j) is `entries[4*i + j]`.
pub struct Mat4 {
    pub entries: Vec<i64>,
}

impl Mat4 {
    pub open spec fn wf(self) -> bool {
        self.entries@.len() == 16
    }

    /// Entry in row `i`, column `j`, as a mathematical integer.
    pub open spec fn at(self, i: int, j: int) -> int {
        self.entries@[4 * i + j] as int
    }

    /// Every entry lies within `ENTRY_BOUND` in magnitude.
    pub open spec fn bounded(self) -> bool {
        forall|i: int, j: int|
            0 <= i < 4 && 0 <= j < 4 ==> -(ENTRY_BOUND as int) <= #[trigger] self.at(i, j)
                <= ENTRY_BOUND as int
    }

    pub fn from_entries(entries: Vec<i64>) -> (m: Mat4)
        requires
            entries@.len() == 16,
        ensures
            m.wf(),
            forall|i: int, j: int|
                0 <= i < 4 && 0 <= j < 4 ==> #[trigger] m.at(i, j) == entries@[4 * i + j] as int,
    {
        Mat4 { entries }
    }

    /// The identity transform: ones on the diagonal, zeroes elsewhere.
    pub fn identity() -> (m: Mat4)
        ensures
            m.wf(),
            forall|i: int, j: int|
                0 <= i < 4 && 0 <= j < 4 ==> #[trigger] m.at(i, j) == if i == j {
                    1int
                } else {
                    0int
                },
    {
        let entries: Vec<i64> = vec![
            1, 0, 0, 0,
            0, 1, 0, 0,
            0, 0, 1, 0,
            0, 0, 0, 1,
        ];
        let m = Mat4 { entries };
        assert forall|i: int, j: int| 0 <= i < 4 && 0 <= j < 4 implies #[trigger] m.at(i, j)
            == if i == j { 1int } else { 0int } by {
            assert(m.entries@[4 * i + j] == if i == j { 1i64 } else { 0i64 });
        }
        m
    }

    pub fn entry(&self, i: usize, j: usize) -> (e: i64)
        requires
            self.wf(),
            i < 4,
            j < 4,
        ensures
            e as int == self.at(i as int, j as int),
    {
        self.entries[4 * i + j]
    }
}

/// Entry (i, j) of the matrix product `a * b`.
pub open spec fn mul_at(a: Mat4, b: Mat4, i: int, j: int) -> int {
    a.at(i, 0) * b.at(0, j) + a.at(i, 1) * b.at(1, j) + a.at(i, 2) * b.at(2, j) + a.at(i, 3)
        * b.at(3, j)
}

/// Every entry of the product `a * b` fits in a 64-bit integer.
pub open spec fn mul_fits(a: Mat4, b: Mat4) -> bool {
    forall|i: int, j: int|
        0 <= i < 4 && 0 <= j < 4 ==> -0x8000_0000_0000_0000 <= #[trigger] mul_at(a, b, i, j)
            <= 0x7fff_ffff_ffff_ffff
}

/// One partial product of a result entry, within the accumulator's range.
proof fn lemma_product_in_range(x: int, y: int)
    requires
        -(ENTRY_BOUND as int) <= x <= ENTRY_BOUND as int,
        -(ENTRY_BOUND as int) <= y <= ENTRY_BOUND as int,
    ensures
        -0x1000_0000_0000_0000_0000_0000_0000_0000 <= x * y
            <= 0x1000_0000_0000_0000_0000_0000_0000_0000,
{
    assert(-0x1000_0000_0000_0000_0000_0000_0000_0000 <= x * y
        <= 0x1000_0000_0000_0000_0000_0000_0000_0000) by (nonlinear_arith)
        requires
            -0x4000_0000_0000_0000 <= x <= 0x4000_0000_0000_0000,
            -0x4000_0000_0000_0000 <= y <= 0x4000_0000_0000_0000,
    ;
}

/// The matrix product `a * b`, entry for entry.
pub fn mat_mul(a: &Mat4, b: &Mat4) -> (r: Mat4)
    requires
        a.wf(),
        b.wf(),
        a.bounded(),
        b.bounded(),
        mul_fits(*a, *b),
    ensures
        r.wf(),
        forall|i: int, j: int|
            0 <= i < 4 && 0 <= j < 4 ==> #[trigger] r.at(i, j) == mul_at(*a, *b, i, j),
{
    let mut out: Vec<i64> = Vec::new();
    let mut i: usize = 0;
    while i < 4
        invariant
            a.wf(),
            b.wf(),
            a.bounded(),
            b.bounded(),
            mul_fits(*a, *b),
            i <= 4,
            out@.len() == 4 * i,
            forall|ii: int, jj: int|
                0 <= ii < i && 0 <= jj < 4 ==> out@[4 * ii + jj] as int == mul_at(
                    *a,
                    *b,
                    ii,
                    jj,
                ),
        decreases 4 - i,
    {
        let mut j: usize = 0;
        while j < 4
            invariant
                a.wf(),
                b.wf(),
                a.bounded(),
                b.bounded(),
                mul_fits(*a, *b),
                i < 4,
                j <= 4,
                out@.len() == 4 * i + j,
                forall|ii: int, jj: int|
                    0 <= ii < i && 0 <= jj < 4 ==> out@[4 * ii + jj] as int == mul_at(
                        *a,
                        *b,
                        ii,
                        jj,
                    ),
                forall|jj: int|
                    0 <= jj < j ==> out@[4 * (i as int) + jj] as int == mul_at(
                        *a,
                        *b,
                        i as int,
                        jj,
                    ),
            decreases 4 - j,
        {
            let a0 = a.entries[4 * i] as i128;
            let a1 = a.entries[4 * i + 1] as i128;
            let a2 = a.entries[4 * i + 2] as i128;
            let a3 = a.entries[4 * i + 3] as i128;
            let b0 = b.entries[j] as i128;
            let b1 = b.entries[4 + j] as i128;
            let b2 = b.entries[8 + j] as i128;
            let b3 = b.entries[12 + j] as i128;
            proof {
                assert(a0 as int == a.at(i as int, 0) && a1 as int == a.at(i as int, 1) && a2
                    as int == a.at(i as int, 2) && a3 as int == a.at(i as int, 3));
                assert(b0 as int == b.at(0, j as int) && b1 as int == b.at(1, j as int) && b2
                    as int == b.at(2, j as int) && b3 as int == b.at(3, j as int));
                lemma_product_in_range(a0 as int, b0 as int);
                lemma_product_in_range(a1 as int, b1 as int);
                lemma_product_in_range(a2 as int, b2 as int);
                lemma_product_in_range(a3 as int, b3 as int);
            }
            let s: i128 = a0 * b0 + a1 * b1 + a2 * b2 + a3 * b3;
            proof {
                assert(s as int == mul_at(*a, *b, i as int, j as int));
            }
            out.push(s as i64);
            j = j + 1;
        }
        i = i + 1;
    }
    let r = Mat4 { entries: out };
    assert forall|i: int, j: int| 0 <= i < 4 && 0 <= j < 4 implies #[trigger] r.at(i, j) == mul_at(
        *a,
        *b,
        i,
        j,
    ) by {
        assert(r.entries@[4 * i + j] as int == mul_at(*a, *b, i, j));
    }
    r
}

/// Entry (i, j) of the combined model-view-projection transform:
/// `projection * view * model`, in that order.
pub open spec fn mvp_at(p: Mat4, v: Mat4, m: Mat4, i: int, j: int) -> int {
    mul_at(p, v, i, 0) * m.at(0, j) + mul_at(p, v, i, 1) * m.at(1, j) + mul_at(p, v, i, 2) * m.at(
        2,
        j,
    ) + mul_at(p, v, i, 3) * m.at(3, j)
}

/// Every entry of the product `p * v` also lies within `ENTRY_BOUND`,
/// so the product can stand as an operand of a further product.
pub open spec fn mul_bounded(a: Mat4, b: Mat4) -> bool {
    forall|i: int, j: int|
        0 <= i < 4 && 0 <= j < 4 ==> -(ENTRY_BOUND as int) <= #[trigger] mul_at(a, b, i, j)
            <= ENTRY_BOUND as int
}

/// Every entry of the combined transform fits in a 64-bit integer.
pub open spec fn mvp_fits(p: Mat4, v: Mat4, m: Mat4) -> bool {
    forall|i: int, j: int|
        0 <= i < 4 && 0 <= j < 4 ==> -0x8000_0000_0000_0000 <= #[trigger] mvp_at(p, v, m, i, j)
            <= 0x7fff_ffff_ffff_ffff
}

/// The combined model-view-projection transform, computed as
/// `projection * view`, then that product times `model`: the
/// documented multiplication order of the render step.
pub fn compose_mvp(p: &Mat4, v: &Mat4, m: &Mat4) -> (r: Mat4)
    requires
        p.wf(),
        v.wf(),
        m.wf(),
        p.bounded(),
        v.bounded(),
        m.bounded(),
        mul_bounded(*p, *v),
        mvp_fits(*p, *v, *m),
    ensures
        r.wf(),
        forall|i: int, j: int|
            0 <= i < 4 && 0 <= j < 4 ==> #[trigger] r.at(i, j) == mvp_at(*p, *v, *m, i, j),
{
    let pv = mat_mul(p, v);
    assert forall|i: int, j: int| 0 <= i < 4 && 0 <= j < 4 implies -0x8000_0000_0000_0000
        <= #[trigger] mul_at(pv, *m, i, j) <= 0x7fff_ffff_ffff_ffff by {
        assert(mul_at(pv, *m, i, j) == mvp_at(*p, *v, *m, i, j));
    }
    let r = mat_mul(&pv, m);
    assert forall|i: int, j: int| 0 <= i < 4 && 0 <= j < 4 implies #[trigger] r.at(i, j) == mvp_at(
        *p,
        *v,
        *m,
        i,
        j,
    ) by {
        assert(mul_at(pv, *m, i, j) == mvp_at(*p, *v, *m, i, j));
    }
    r
}

/// Entry `i` of the image of `v` under `m`.
pub open spec fn apply_at(m: Mat4, v: Seq<i64>, i: int) -> int {
    m.at(i, 0) * v[0] + m.at(i, 1) * v[1] + m.at(i, 2) * v[2] + m.at(i, 3) * v[3]
}

/// Every component of a vector lies within `ENTRY_BOUND` in magnitude.
pub open spec fn vec_bounded(v: Seq<i64>) -> bool {
    forall|i: int| 0 <= i < v.len() ==> -(ENTRY_BOUND as int) <= #[trigger] v[i] as int
        <= ENTRY_BOUND as int
}

/// Every component of the image of `v` under `m` fits in a 64-bit integer.
pub open spec fn apply_fits(m: Mat4, v: Seq<i64>) -> bool {
    forall|i: int|
        0 <= i < 4 ==> -0x8000_0000_0000_0000 <= #[trigger] apply_at(m, v, i)
            <= 0x7fff_ffff_ffff_ffff
}

/// Applies the transform to a vector of four components.
pub fn transform(m: &Mat4, v: &Vec<i64>) -> (r: Vec<i64>)
    requires
        m.wf(),
        v@.len() == 4,
        m.bounded(),
        vec_bounded(v@),
        apply_fits(*m, v@),
    ensures
        r@.len() == 4,
        forall|i: int| 0 <= i < 4 ==> #[trigger] r@[i] as int == apply_at(*m, v@, i),
{
    let mut out: Vec<i64> = Vec::new();
    let mut i: usize = 0;
    while i < 4
        invariant
            m.wf(),
            v@.len() == 4,
            m.bounded(),
            vec_bounded(v@),
            apply_fits(*m, v@),
            i <= 4,
            out@.len() == i,
            forall|ii: int| 0 <= ii < i ==> #[trigger] out@[ii] as int == apply_at(*m, v@, ii),
        decreases 4 - i,
    {
        let m0 = m.entries[4 * i] as i128;
        let m1 = m.entries[4 * i + 1] as i128;
        let m2 = m.entries[4 * i + 2] as i128;
        let m3 = m.entries[4 * i + 3] as i128;
        let v0 = v[0] as i128;
        let v1 = v[1] as i128;
        let v2 = v[2] as i128;
        let v3 = v[3] as i128;
        proof {
            assert(m0 as int == m.at(i as int, 0) && m1 as int == m.at(i as int, 1) && m2 as int
                == m.at(i as int, 2) && m3 as int == m.at(i as int, 3));
            assert(v0 as int == v@[0] as int && v1 as int == v@[1] as int && v2 as int == v@[2]
                as int && v3 as int == v@[3] as int);
            lemma_product_in_range(m0 as int, v0 as int);
            lemma_product_in_range(m1 as int, v1 as int);
            lemma_product_in_range(m2 as int, v2 as int);
            lemma_product_in_range(m3 as int, v3 as int);
        }
        let s: i128 = m0 * v0 + m1 * v1 + m2 * v2 + m3 * v3;
        proof {
            assert(s as int == apply_at(*m, v@, i as int));
        }
        out.push(s as i64);
        i = i + 1;
    }
    out
}

/// Entry `i` of the image of the integer vector `y` under `m`.
pub open spec fn apply_at_int(m: Mat4, y: Seq<int>, i: int) -> int {
    m.at(i, 0) * y[0] + m.at(i, 1) * y[1] + m.at(i, 2) * y[2] + m.at(i, 3) * y[3]
}

/// The image of the integer vector `y` under `m`.
pub open spec fn image_int(m: Mat4, y: Seq<int>) -> Seq<int> {
    Seq::new(4, |i: int| apply_at_int(m, y, i))
}

/// The image of the integer vector `y` under the combined
/// model-view-projection transform.
pub open spec fn mvp_image(p: Mat4, v: Mat4, m: Mat4, y: Seq<int>) -> Seq<int> {
    Seq::new(
        4,
        |i: int|
            mvp_at(p, v, m, i, 0) * y[0] + mvp_at(p, v, m, i, 1) * y[1] + mvp_at(p, v, m, i, 2)
                * y[2] + mvp_at(p, v, m, i, 3) * y[3],
    )
}

/// A sum of four weights distributes over a common factor.
proof fn lemma_scale_dot(c0: int, c1: int, c2: int, c3: int, x: int)
    ensures
        (c0 + c1 + c2 + c3) * x == c0 * x + c1 * x + c2 * x + c3 * x,
{
    lemma_mul_is_distributive_add_other_way(x, c0 + c1 + c2, c3);
    lemma_mul_is_distributive_add_other_way(x, c0 + c1, c2);
    lemma_mul_is_distributive_add_other_way(x, c0, c1);
}

/// A weight distributes over a sum of four products.
proof fn lemma_dot_scale(
    a: int,
    b0: int,
    b1: int,
    b2: int,
    b3: int,
    x0: int,
    x1: int,
    x2: int,
    x3: int,
)
    ensures
        a * (b0 * x0 + b1 * x1 + b2 * x2 + b3 * x3) == (a * b0) * x0 + (a * b1) * x1 + (a * b2)
            * x2 + (a * b3) * x3,
{
    lemma_mul_is_distributive_add(a, b0 * x0 + b1 * x1 + b2 * x2, b3 * x3);
    lemma_mul_is_distributive_add(a, b0 * x0 + b1 * x1, b2 * x2);
    lemma_mul_is_distributive_add(a, b0 * x0, b1 * x1);
    lemma_mul_is_associative(a, b0, x0);
    lemma_mul_is_associative(a, b1, x1);
    lemma_mul_is_associative(a, b2, x2);
    lemma_mul_is_associative(a, b3, x3);
}

/// Swapping the order of a double sum of products: applying a matrix
/// built from row weights equals weighting the row images.
proof fn lemma_bilinear_swap(
    a0: int, a1: int, a2: int, a3: int,
    b00: int, b01: int, b02: int, b03: int,
    b10: int, b11: int, b12: int, b13: int,
    b20: int, b21: int, b22: int, b23: int,
    b30: int, b31: int, b32: int, b33: int,
    x0: int, x1: int, x2: int, x3: int,
)
    ensures
        (a0 * b00 + a1 * b10 + a2 * b20 + a3 * b30) * x0
            + (a0 * b01 + a1 * b11 + a2 * b21 + a3 * b31) * x1
            + (a0 * b02 + a1 * b12 + a2 * b22 + a3 * b32) * x2
            + (a0 * b03 + a1 * b13 + a2 * b23 + a3 * b33) * x3
            == a0 * (b00 * x0 + b01 * x1 + b02 * x2 + b03 * x3)
            + a1 * (b10 * x0 + b11 * x1 + b12 * x2 + b13 * x3)
            + a2 * (b20 * x0 + b21 * x1 + b22 * x2 + b23 * x3)
            + a3 * (b30 * x0 + b31 * x1 + b32 * x2 + b33 * x3),
{
    lemma_scale_dot(a0 * b00, a1 * b10, a2 * b20, a3 * b30, x0);
    lemma_scale_dot(a0 * b01, a1 * b11, a2 * b21, a3 * b31, x1);
    lemma_scale_dot(a0 * b02, a1 * b12, a2 * b22, a3 * b32, x2);
    lemma_scale_dot(a0 * b03, a1 * b13, a2 * b23, a3 * b33, x3);
    lemma_dot_scale(a0, b00, b01, b02, b03, x0, x1, x2, x3);
    lemma_dot_scale(a1, b10, b11, b12, b13, x0, x1, x2, x3);
    lemma_dot_scale(a2, b20, b21, b22, b23, x0, x1, x2, x3);
    lemma_dot_scale(a3, b30, b31, b32, b33, x0, x1, x2, x3);
}

/// The combined transform does in one application what the three
/// transforms do in stages: applying `projection * view * model` to a
/// vector gives exactly the result of applying the model transform,
/// then the view transform, then the projection.
pub proof fn lemma_mvp_applies_in_stages(p: Mat4, v: Mat4, m: Mat4, y: Seq<int>)
    requires
        y.len() == 4,
    ensures
        mvp_image(p, v, m, y) == image_int(p, image_int(v, image_int(m, y))),
{
    let mx = image_int(m, y);
    let vmx = image_int(v, mx);
    assert forall|i: int| 0 <= i < 4 implies mvp_image(p, v, m, y)[i] == image_int(p, vmx)[i] by {
        let p0 = p.at(i, 0); let p1 = p.at(i, 1); let p2 = p.at(i, 2); let p3 = p.at(i, 3);
        let v00 = v.at(0, 0); let v01 = v.at(0, 1); let v02 = v.at(0, 2); let v03 = v.at(0, 3);
        let v10 = v.at(1, 0); let v11 = v.at(1, 1); let v12 = v.at(1, 2); let v13 = v.at(1, 3);
        let v20 = v.at(2, 0); let v21 = v.at(2, 1); let v22 = v.at(2, 2); let v23 = v.at(2, 3);
        let v30 = v.at(3, 0); let v31 = v.at(3, 1); let v32 = v.at(3, 2); let v33 = v.at(3, 3);
        let m00 = m.at(0, 0); let m01 = m.at(0, 1); let m02 = m.at(0, 2); let m03 = m.at(0, 3);
        let m10 = m.at(1, 0); let m11 = m.at(1, 1); let m12 = m.at(1, 2); let m13 = m.at(1, 3);
        let m20 = m.at(2, 0); let m21 = m.at(2, 1); let m22 = m.at(2, 2); let m23 = m.at(2, 3);
        let m30 = m.at(3, 0); let m31 = m.at(3, 1); let m32 = m.at(3, 2); let m33 = m.at(3, 3);
        let x0 = y[0]; let x1 = y[1]; let x2 = y[2]; let x3 = y[3];
        assert(mx[0] == m00 * x0 + m01 * x1 + m02 * x2 + m03 * x3);
        assert(mx[1] == m10 * x0 + m11 * x1 + m12 * x2 + m13 * x3);
        assert(mx[2] == m20 * x0 + m21 * x1 + m22 * x2 + m23 * x3);
        assert(mx[3] == m30 * x0 + m31 * x1 + m32 * x2 + m33 * x3);
        assert(vmx[0] == v00 * mx[0] + v01 * mx[1] + v02 * mx[2] + v03 * mx[3]);
        assert(vmx[1] == v10 * mx[0] + v11 * mx[1] + v12 * mx[2] + v13 * mx[3]);
        assert(vmx[2] == v20 * mx[0] + v21 * mx[1] + v22 * mx[2] + v23 * mx[3]);
        assert(vmx[3] == v30 * mx[0] + v31 * mx[1] + v32 * mx[2] + v33 * mx[3]);
        assert(mul_at(p, v, i, 0) == p0 * v00 + p1 * v10 + p2 * v20 + p3 * v30);
        assert(mul_at(p, v, i, 1) == p0 * v01 + p1 * v11 + p2 * v21 + p3 * v31);
        assert(mul_at(p, v, i, 2) == p0 * v02 + p1 * v12 + p2 * v22 + p3 * v32);
        assert(mul_at(p, v, i, 3) == p0 * v03 + p1 * v13 + p2 * v23 + p3 * v33);
        assert(mvp_at(p, v, m, i, 0) == mul_at(p, v, i, 0) * m00 + mul_at(p, v, i, 1) * m10 + mul_at(p, v, i, 2) * m20 + mul_at(p, v, i, 3) * m30);
        assert(mvp_at(p, v, m, i, 1) == mul_at(p, v, i, 0) * m01 + mul_at(p, v, i, 1) * m11 + mul_at(p, v, i, 2) * m21 + mul_at(p, v, i, 3) * m31);
        assert(mvp_at(p, v, m, i, 2) == mul_at(p, v, i, 0) * m02 + mul_at(p, v, i, 1) * m12 + mul_at(p, v, i, 2) * m22 + mul_at(p, v, i, 3) * m32);
        assert(mvp_at(p, v, m, i, 3) == mul_at(p, v, i, 0) * m03 + mul_at(p, v, i, 1) * m13 + mul_at(p, v, i, 2) * m23 + mul_at(p, v, i, 3) * m33);
        assert(image_int(p, vmx)[i] == p0 * vmx[0] + p1 * vmx[1] + p2 * vmx[2] + p3 * vmx[3]);
        lemma_bilinear_swap(
            mul_at(p, v, i, 0),
            mul_at(p, v, i, 1),
            mul_at(p, v, i, 2),
            mul_at(p, v, i, 3),
            m00,
            m01,
            m02,
            m03,
            m10,
            m11,
            m12,
            m13,
            m20,
            m21,
            m22,
            m23,
            m30,
            m31,
            m32,
            m33,
            x0,
            x1,
            x2,
            x3,
        );
        lemma_bilinear_swap(
            p0,
            p1,
            p2,
            p3,
            v00,
            v01,
            v02,
            v03,
            v10,
            v11,
            v12,
            v13,
            v20,
            v21,
            v22,
            v23,
            v30,
            v31,
            v32,
            v33,
            mx[0],
            mx[1],
            mx[2],
            mx[3],
        );
    }
    assert(mvp_image(p, v, m, y) =~= image_int(p, image_int(v, image_int(m, y))));
}

} // verus!
