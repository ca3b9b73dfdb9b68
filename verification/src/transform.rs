//! A 3x3 affine transform matrix over exact rational coordinates.
//!
//! A [`Transform`] specifies how to translate, rotate, scale or shear
//! 2D entities. It is a plain value type: freely copied, never shared.
//! All arithmetic is exact — integer numerators over one common
//! denominator — so every operation carries a contract that pins the
//! resulting matrix down entry by entry, and the algebraic laws of the
//! transform algebra (identity, associativity, inversion, fused
//! rotation about a center, bounding-box growth) are proved below. In
//! particular, inversion is exact: combining any non-singular
//! transform with its inverse gives the identity, not an
//! approximation.
//!
//! Rotations are parametrised by a cosine/sine pair rather than by an
//! angle in degrees, which keeps every operation closed over exact
//! values. Only the pairs (1, 0), (0, 1), (-1, 0) and (0, -1) — the
//! quarter turns — lie on the unit circle in integers; any other pair
//! (c, s) combines the rotation of its direction with a uniform
//! scaling by the length of (c, s). A caller that needs other pure
//! rotations works with a pair close to its angle and treats the
//! common scale as part of its own convention.

use vstd::prelude::*;

verus! {

/// Bound on matrix entries and on translation/scale/point arguments:
/// products of two bounded values fit comfortably in an `i64`.
pub const LIMIT: i64 = 0x4000_0000;

/// Bound on the arguments of the fused `*_with_center` combinators,
/// whose matrices hold products of two arguments.
pub const CENTER_LIMIT: i64 = 0x4000;

/// Bound on rectangle coordinates handed to `transform_rect`: the four
/// transformed corners and their spans all fit in an `i64`.
pub const COORD_LIMIT: i64 = 0x2000_0000;

/// Bound on the numerators and denominator of a transform handed to
/// `inverse`: the adjugate scaled by the denominator, and the
/// determinant, fit in an `i64`.
pub const INVERT_LIMIT: i64 = 0x10_0000;

/// The mathematical model of a transform: a 3x3 matrix of unbounded
/// rational numbers, held as nine integer numerators, row major
/// (`a01` is row 0, column 1), over one common positive denominator
/// `d`. Entry (i, j) has the value `aij / d`. Construction and the
/// combinators keep `d == 1`; only inversion introduces a larger
/// denominator, which is what lets the inverse be exact.
pub ghost struct Mat {
    pub a00: int,
    pub a01: int,
    pub a02: int,
    pub a10: int,
    pub a11: int,
    pub a12: int,
    pub a20: int,
    pub a21: int,
    pub a22: int,
    pub d: int,
}

/// Whether `a` and `b` are the same rational matrix: equality of every
/// entry after cross-multiplying the denominators. For positive
/// denominators this is an equivalence relation, and it is what `==`
/// on [`Transform`] means.
pub open spec fn mat_equiv(a: Mat, b: Mat) -> bool {
    &&& a.a00 * b.d == b.a00 * a.d
    &&& a.a01 * b.d == b.a01 * a.d
    &&& a.a02 * b.d == b.a02 * a.d
    &&& a.a10 * b.d == b.a10 * a.d
    &&& a.a11 * b.d == b.a11 * a.d
    &&& a.a12 * b.d == b.a12 * a.d
    &&& a.a20 * b.d == b.a20 * a.d
    &&& a.a21 * b.d == b.a21 * a.d
    &&& a.a22 * b.d == b.a22 * a.d
}

/// The model of a 2D point.
pub ghost struct Pt {
    pub x: int,
    pub y: int,
}

/// The model of an axis-aligned rectangle: origin plus size.
pub ghost struct Aabb {
    pub left: int,
    pub top: int,
    pub width: int,
    pub height: int,
}

/// The multiplicative identity matrix.
pub open spec fn mat_identity() -> Mat {
    Mat { a00: 1, a01: 0, a02: 0, a10: 0, a11: 1, a12: 0, a20: 0, a21: 0, a22: 1, d: 1 }
}

/// The full 3x3 matrix product `l * r`.
pub open spec fn mat_mul(l: Mat, r: Mat) -> Mat {
    Mat {
        a00: l.a00 * r.a00 + l.a01 * r.a10 + l.a02 * r.a20,
        a01: l.a00 * r.a01 + l.a01 * r.a11 + l.a02 * r.a21,
        a02: l.a00 * r.a02 + l.a01 * r.a12 + l.a02 * r.a22,
        a10: l.a10 * r.a00 + l.a11 * r.a10 + l.a12 * r.a20,
        a11: l.a10 * r.a01 + l.a11 * r.a11 + l.a12 * r.a21,
        a12: l.a10 * r.a02 + l.a11 * r.a12 + l.a12 * r.a22,
        a20: l.a20 * r.a00 + l.a21 * r.a10 + l.a22 * r.a20,
        a21: l.a20 * r.a01 + l.a21 * r.a11 + l.a22 * r.a21,
        a22: l.a20 * r.a02 + l.a21 * r.a12 + l.a22 * r.a22,
        d: l.d * r.d,
    }
}

/// The matrix of a translation by `(x, y)`.
pub open spec fn mat_translation(x: int, y: int) -> Mat {
    Mat { a00: 1, a01: 0, a02: x, a10: 0, a11: 1, a12: y, a20: 0, a21: 0, a22: 1, d: 1 }
}

/// The matrix of a rotation about the origin whose cosine is `c` and
/// whose sine is `s`.
pub open spec fn mat_rotation(c: int, s: int) -> Mat {
    Mat { a00: c, a01: -s, a02: 0, a10: s, a11: c, a12: 0, a20: 0, a21: 0, a22: 1, d: 1 }
}

/// The fused matrix of a rotation by `(c, s)` about the center
/// `(cx, cy)`: translate the center to the origin, rotate, translate
/// back, folded into a single matrix.
pub open spec fn mat_rotation_about(c: int, s: int, cx: int, cy: int) -> Mat {
    Mat {
        a00: c,
        a01: -s,
        a02: cx - c * cx + s * cy,
        a10: s,
        a11: c,
        a12: cy - s * cx - c * cy,
        a20: 0,
        a21: 0,
        a22: 1,
        d: 1,
    }
}

/// The matrix of a scaling by `(sx, sy)` about the origin.
pub open spec fn mat_scaling(sx: int, sy: int) -> Mat {
    Mat { a00: sx, a01: 0, a02: 0, a10: 0, a11: sy, a12: 0, a20: 0, a21: 0, a22: 1, d: 1 }
}

/// The fused matrix of a scaling by `(sx, sy)` about the center
/// `(cx, cy)`.
pub open spec fn mat_scaling_about(sx: int, sy: int, cx: int, cy: int) -> Mat {
    Mat {
        a00: sx,
        a01: 0,
        a02: cx - sx * cx,
        a10: 0,
        a11: sy,
        a12: cy - sy * cy,
        a20: 0,
        a21: 0,
        a22: 1,
        d: 1,
    }
}

/// The absolute value of `x`.
pub open spec fn int_abs(x: int) -> int {
    if x >= 0 {
        x
    } else {
        -x
    }
}

/// Division rounding toward zero, the convention used when a mapped
/// coordinate is reduced to an integer: fold the signs out and divide
/// the magnitudes. Wherever the divisor divides exactly — as it does
/// when a transform combined with its inverse is applied — no rounding
/// happens at all.
pub open spec fn trunc_div(a: int, b: int) -> int {
    if (a < 0) == (b < 0) {
        int_abs(a) / int_abs(b)
    } else {
        -(int_abs(a) / int_abs(b))
    }
}

/// The adjugate (transposed cofactor matrix) of the numerators of
/// `m`: the integer matrix with `m * mat_adjugate(m) == mat_det(m) *
/// identity` at the numerator level.
pub open spec fn mat_adjugate(m: Mat) -> Mat {
    Mat {
        a00: m.a11 * m.a22 - m.a12 * m.a21,
        a01: m.a02 * m.a21 - m.a01 * m.a22,
        a02: m.a01 * m.a12 - m.a02 * m.a11,
        a10: m.a12 * m.a20 - m.a10 * m.a22,
        a11: m.a00 * m.a22 - m.a02 * m.a20,
        a12: m.a02 * m.a10 - m.a00 * m.a12,
        a20: m.a10 * m.a21 - m.a11 * m.a20,
        a21: m.a01 * m.a20 - m.a00 * m.a21,
        a22: m.a00 * m.a11 - m.a01 * m.a10,
        d: 1,
    }
}

/// The determinant of the numerators of `m`, by cofactor expansion
/// along the first row. The rational determinant is this over `d`
/// cubed, so the two vanish together.
pub open spec fn mat_det(m: Mat) -> int {
    m.a00 * mat_adjugate(m).a00 + m.a01 * mat_adjugate(m).a10 + m.a02 * mat_adjugate(m).a20
}

/// The exact inverse of `m`: the adjugate of the numerators, scaled by
/// the old denominator, over the determinant folded positive. For
/// every non-singular `m`, `mat_mul(m, mat_inverse(m))` is the
/// identity as a rational matrix (`lemma_combine_inverse`). A singular
/// matrix has no inverse; the identity is the defined fallback, not an
/// error.
pub open spec fn mat_inverse(m: Mat) -> Mat {
    if mat_det(m) == 0 {
        mat_identity()
    } else {
        let dt = mat_det(m);
        let adj = mat_adjugate(m);
        if dt > 0 {
            Mat {
                a00: adj.a00 * m.d,
                a01: adj.a01 * m.d,
                a02: adj.a02 * m.d,
                a10: adj.a10 * m.d,
                a11: adj.a11 * m.d,
                a12: adj.a12 * m.d,
                a20: adj.a20 * m.d,
                a21: adj.a21 * m.d,
                a22: adj.a22 * m.d,
                d: dt,
            }
        } else {
            Mat {
                a00: -(adj.a00 * m.d),
                a01: -(adj.a01 * m.d),
                a02: -(adj.a02 * m.d),
                a10: -(adj.a10 * m.d),
                a11: -(adj.a11 * m.d),
                a12: -(adj.a12 * m.d),
                a20: -(adj.a20 * m.d),
                a21: -(adj.a21 * m.d),
                a22: -(adj.a22 * m.d),
                d: -dt,
            }
        }
    }
}

/// Whether every entry of `m` lies within `[-b, b]`.
pub open spec fn mat_bounded(m: Mat, b: int) -> bool {
    &&& -b <= m.a00 <= b
    &&& -b <= m.a01 <= b
    &&& -b <= m.a02 <= b
    &&& -b <= m.a10 <= b
    &&& -b <= m.a11 <= b
    &&& -b <= m.a12 <= b
    &&& -b <= m.a20 <= b
    &&& -b <= m.a21 <= b
    &&& -b <= m.a22 <= b
}

/// The x coordinate of the image of `(x, y)` under `m`: the rational
/// value reduced to an integer, rounding toward zero. With `d == 1`
/// the image is exact.
pub open spec fn apply_x(m: Mat, x: int, y: int) -> int {
    trunc_div(m.a00 * x + m.a01 * y + m.a02, m.d)
}

/// The y coordinate of the image of `(x, y)` under `m`.
pub open spec fn apply_y(m: Mat, x: int, y: int) -> int {
    trunc_div(m.a10 * x + m.a11 * y + m.a12, m.d)
}

/// The image of the point `p` under `m`.
pub open spec fn map_point(m: Mat, p: Pt) -> Pt {
    Pt { x: apply_x(m, p.x, p.y), y: apply_y(m, p.x, p.y) }
}

pub open spec fn min2(a: int, b: int) -> int {
    if a <= b {
        a
    } else {
        b
    }
}

pub open spec fn max2(a: int, b: int) -> int {
    if a >= b {
        a
    } else {
        b
    }
}

/// The axis-aligned bounding box of the images of the four corners of
/// `r` under `m`. When `m` rotates or shears, this box is larger than
/// the exact image of `r`; that growth is the defined behaviour.
pub open spec fn map_rect(m: Mat, r: Aabb) -> Aabb {
    let x1 = apply_x(m, r.left, r.top);
    let x2 = apply_x(m, r.left + r.width, r.top);
    let x3 = apply_x(m, r.left, r.top + r.height);
    let x4 = apply_x(m, r.left + r.width, r.top + r.height);
    let y1 = apply_y(m, r.left, r.top);
    let y2 = apply_y(m, r.left + r.width, r.top);
    let y3 = apply_y(m, r.left, r.top + r.height);
    let y4 = apply_y(m, r.left + r.width, r.top + r.height);
    let lo_x = min2(min2(x1, x2), min2(x3, x4));
    let hi_x = max2(max2(x1, x2), max2(x3, x4));
    let lo_y = min2(min2(y1, y2), min2(y3, y4));
    let hi_y = max2(max2(y1, y2), max2(y3, y4));
    Aabb { left: lo_x, top: lo_y, width: hi_x - lo_x, height: hi_y - lo_y }
}

/// A 2D point with exact integer coordinates.
#[derive(Clone, Copy, PartialEq, Eq, Structural, Debug)]
pub struct Vector2 {
    pub x: i64,
    pub y: i64,
}

impl View for Vector2 {
    type V = Pt;

    open spec fn view(&self) -> Pt {
        Pt { x: self.x as int, y: self.y as int }
    }
}

/// An axis-aligned rectangle: origin plus size, exact integer
/// coordinates.
#[derive(Clone, Copy, PartialEq, Eq, Structural, Debug)]
pub struct Rect {
    pub left: i64,
    pub top: i64,
    pub width: i64,
    pub height: i64,
}

impl View for Rect {
    type V = Aabb;

    open spec fn view(&self) -> Aabb {
        Aabb {
            left: self.left as int,
            top: self.top as int,
            width: self.width as int,
            height: self.height as int,
        }
    }
}

/// A 3x3 affine transform matrix of exact rational entries: nine
/// numerators, row major (`m01` is row 0, column 1), over the common
/// positive denominator `den`. Translation lives in the third column.
/// Construction and every combinator keep `den == 1`; only `inverse`
/// returns a larger denominator, which is what makes inversion exact.
/// `==` compares the rational values, so a transform combined with its
/// inverse equals the identity.
#[derive(Clone, Copy, Debug)]
pub struct Transform {
    pub m00: i64,
    pub m01: i64,
    pub m02: i64,
    pub m10: i64,
    pub m11: i64,
    pub m12: i64,
    pub m20: i64,
    pub m21: i64,
    pub m22: i64,
    pub den: i64,
}

impl View for Transform {
    type V = Mat;

    open spec fn view(&self) -> Mat {
        Mat {
            a00: self.m00 as int,
            a01: self.m01 as int,
            a02: self.m02 as int,
            a10: self.m10 as int,
            a11: self.m11 as int,
            a12: self.m12 as int,
            a20: self.m20 as int,
            a21: self.m21 as int,
            a22: self.m22 as int,
            d: self.den as int,
        }
    }
}

impl PartialEq for Transform {
    /// Equality of the rational values: every entry agrees after
    /// cross-multiplying the denominators.
    fn eq(&self, other: &Transform) -> (r: bool) {
        let sd = self.den as i128;
        let od = other.den as i128;
        proof {
            let b = i64::MAX as int + 1;
            lemma_abs_mul_le(self.m00 as int, other.den as int, b, b);
            lemma_abs_mul_le(self.m01 as int, other.den as int, b, b);
            lemma_abs_mul_le(self.m02 as int, other.den as int, b, b);
            lemma_abs_mul_le(self.m10 as int, other.den as int, b, b);
            lemma_abs_mul_le(self.m11 as int, other.den as int, b, b);
            lemma_abs_mul_le(self.m12 as int, other.den as int, b, b);
            lemma_abs_mul_le(self.m20 as int, other.den as int, b, b);
            lemma_abs_mul_le(self.m21 as int, other.den as int, b, b);
            lemma_abs_mul_le(self.m22 as int, other.den as int, b, b);
            lemma_abs_mul_le(other.m00 as int, self.den as int, b, b);
            lemma_abs_mul_le(other.m01 as int, self.den as int, b, b);
            lemma_abs_mul_le(other.m02 as int, self.den as int, b, b);
            lemma_abs_mul_le(other.m10 as int, self.den as int, b, b);
            lemma_abs_mul_le(other.m11 as int, self.den as int, b, b);
            lemma_abs_mul_le(other.m12 as int, self.den as int, b, b);
            lemma_abs_mul_le(other.m20 as int, self.den as int, b, b);
            lemma_abs_mul_le(other.m21 as int, self.den as int, b, b);
            lemma_abs_mul_le(other.m22 as int, self.den as int, b, b);
        }
        (self.m00 as i128) * od == (other.m00 as i128) * sd
            && (self.m01 as i128) * od == (other.m01 as i128) * sd
            && (self.m02 as i128) * od == (other.m02 as i128) * sd
            && (self.m10 as i128) * od == (other.m10 as i128) * sd
            && (self.m11 as i128) * od == (other.m11 as i128) * sd
            && (self.m12 as i128) * od == (other.m12 as i128) * sd
            && (self.m20 as i128) * od == (other.m20 as i128) * sd
            && (self.m21 as i128) * od == (other.m21 as i128) * sd
            && (self.m22 as i128) * od == (other.m22 as i128) * sd
    }
}

impl vstd::std_specs::cmp::PartialEqSpecImpl for Transform {
    open spec fn obeys_eq_spec() -> bool {
        true
    }

    open spec fn eq_spec(&self, other: &Transform) -> bool {
        mat_equiv(self@, other@)
    }
}

/// The 4x4 homogeneous, column-major export of `m`: the affine 3x3
/// block padded with the identity's third row and column.
pub open spec fn mat4_of(m: Mat) -> Seq<int> {
    seq![
        m.a00, m.a10, 0, m.a20,
        m.a01, m.a11, 0, m.a21,
        0, 0, 1, 0,
        m.a02, m.a12, 0, m.a22,
    ]
}

impl Transform {
    /// Create a new transform from a 3x3 matrix, given as an array in
    /// row-major order:
    ///
    /// ```text
    /// [(0, 0), (0, 1), (0, 2),
    ///  (1, 0), (1, 1), (1, 2),
    ///  (2, 0), (2, 1), (2, 2)]
    /// ```
    ///
    /// Any nine values are accepted, degenerate matrices included.
    pub fn new(matrix: [i64; 9]) -> (t: Transform)
        ensures
            t@ == (Mat {
                a00: matrix@[0] as int,
                a01: matrix@[1] as int,
                a02: matrix@[2] as int,
                a10: matrix@[3] as int,
                a11: matrix@[4] as int,
                a12: matrix@[5] as int,
                a20: matrix@[6] as int,
                a21: matrix@[7] as int,
                a22: matrix@[8] as int,
                d: 1,
            }),
    {
        Transform {
            m00: matrix[0],
            m01: matrix[1],
            m02: matrix[2],
            m10: matrix[3],
            m11: matrix[4],
            m12: matrix[5],
            m20: matrix[6],
            m21: matrix[7],
            m22: matrix[8],
            den: 1,
        }
    }

    /// The identity transform (does nothing).
    pub fn identity() -> (t: Transform)
        ensures
            t@ == mat_identity(),
    {
        Transform {
            m00: 1,
            m01: 0,
            m02: 0,
            m10: 0,
            m11: 1,
            m12: 0,
            m20: 0,
            m21: 0,
            m22: 1,
            den: 1,
        }
    }

    /// Export the matrix in the 4x4 homogeneous, column-major form used
    /// for interop with 3D-capable rendering backends. A pure read.
    /// The exported entries are the numerators; a transform built by
    /// `new` or by the combinators has denominator one, so they are
    /// the matrix itself, and a reader of a transform returned by
    /// `inverse` divides by `den`.
    pub fn matrix(&self) -> (m: [i64; 16])
        ensures
            m@.len() == 16,
            forall|i: int| 0 <= i < 16 ==> #[trigger] mat4_of(self@)[i] == m@[i] as int,
    {
        let out: [i64; 16] = [
            self.m00, self.m10, 0, self.m20,
            self.m01, self.m11, 0, self.m21,
            0, 0, 1, 0,
            self.m02, self.m12, 0, self.m22,
        ];
        out
    }
}

/// `|x * y| <= bx * by` whenever `|x| <= bx` and `|y| <= by`.
proof fn lemma_abs_mul_le(x: int, y: int, bx: int, by: int)
    by (nonlinear_arith)
    requires
        -bx <= x <= bx,
        -by <= y <= by,
    ensures
        -(bx * by) <= x * y <= bx * by,
{
}

/// `a * x + b * y + c * z`, exactly, for bounded operands.
fn dot3(a: i64, b: i64, c: i64, x: i64, y: i64, z: i64) -> (r: i64)
    requires
        -LIMIT <= a <= LIMIT,
        -LIMIT <= b <= LIMIT,
        -LIMIT <= c <= LIMIT,
        -2 * LIMIT <= x <= 2 * LIMIT,
        -2 * LIMIT <= y <= 2 * LIMIT,
        -2 * LIMIT <= z <= 2 * LIMIT,
    ensures
        r == a * x + b * y + c * z,
{
    proof {
        lemma_abs_mul_le(a as int, x as int, LIMIT as int, 2 * LIMIT as int);
        lemma_abs_mul_le(b as int, y as int, LIMIT as int, 2 * LIMIT as int);
        lemma_abs_mul_le(c as int, z as int, LIMIT as int, 2 * LIMIT as int);
    }
    a * x + b * y + c * z
}

impl Transform {
    /// Combine this transform with `other`: `self` becomes the matrix
    /// product `self * other`. Applying the result to a point applies
    /// `other` first, then the original `self`. Composition is
    /// associative but not commutative.
    pub fn combine(&mut self, other: &Transform)
        requires
            mat_bounded(old(self)@, LIMIT as int),
            mat_bounded(other@, 2 * LIMIT as int),
            0 < old(self).den <= LIMIT,
            0 < other.den <= 2 * LIMIT,
        ensures
            final(self)@ == mat_mul(old(self)@, other@),
            0 < final(self).den,
    {
        proof {
            lemma_abs_mul_le(self.den as int, other.den as int, LIMIT as int, 2 * LIMIT as int);
            vstd::arithmetic::mul::lemma_mul_strictly_positive(self.den as int, other.den as int);
        }
        let rden = self.den * other.den;
        let r00 = dot3(self.m00, self.m01, self.m02, other.m00, other.m10, other.m20);
        let r01 = dot3(self.m00, self.m01, self.m02, other.m01, other.m11, other.m21);
        let r02 = dot3(self.m00, self.m01, self.m02, other.m02, other.m12, other.m22);
        let r10 = dot3(self.m10, self.m11, self.m12, other.m00, other.m10, other.m20);
        let r11 = dot3(self.m10, self.m11, self.m12, other.m01, other.m11, other.m21);
        let r12 = dot3(self.m10, self.m11, self.m12, other.m02, other.m12, other.m22);
        let r20 = dot3(self.m20, self.m21, self.m22, other.m00, other.m10, other.m20);
        let r21 = dot3(self.m20, self.m21, self.m22, other.m01, other.m11, other.m21);
        let r22 = dot3(self.m20, self.m21, self.m22, other.m02, other.m12, other.m22);
        self.m00 = r00;
        self.m01 = r01;
        self.m02 = r02;
        self.m10 = r10;
        self.m11 = r11;
        self.m12 = r12;
        self.m20 = r20;
        self.m21 = r21;
        self.m22 = r22;
        self.den = rden;
    }

    /// Combine this transform with a translation by `(x, y)`.
    pub fn translate(&mut self, x: i64, y: i64)
        requires
            mat_bounded(old(self)@, LIMIT as int),
            0 < old(self).den <= LIMIT,
            -LIMIT <= x <= LIMIT,
            -LIMIT <= y <= LIMIT,
        ensures
            final(self)@ == mat_mul(old(self)@, mat_translation(x as int, y as int)),
    {
        let t = Transform {
            m00: 1,
            m01: 0,
            m02: x,
            m10: 0,
            m11: 1,
            m12: y,
            m20: 0,
            m21: 0,
            m22: 1,
            den: 1,
        };
        self.combine(&t);
    }

    /// Combine this transform with a rotation about the origin whose
    /// cosine is `c` and whose sine is `s`.
    pub fn rotate(&mut self, c: i64, s: i64)
        requires
            mat_bounded(old(self)@, LIMIT as int),
            0 < old(self).den <= LIMIT,
            -LIMIT <= c <= LIMIT,
            -LIMIT <= s <= LIMIT,
        ensures
            final(self)@ == mat_mul(old(self)@, mat_rotation(c as int, s as int)),
    {
        let t = Transform {
            m00: c,
            m01: -s,
            m02: 0,
            m10: s,
            m11: c,
            m12: 0,
            m20: 0,
            m21: 0,
            m22: 1,
            den: 1,
        };
        self.combine(&t);
    }

    /// Combine this transform with a rotation by `(c, s)` about the
    /// center `(cx, cy)`: a single fused matrix in place of the usual
    /// translate, rotate, translate-back sequence. The law
    /// `lemma_rotate_with_center_composes` shows the two agree.
    pub fn rotate_with_center(&mut self, c: i64, s: i64, cx: i64, cy: i64)
        requires
            mat_bounded(old(self)@, LIMIT as int),
            0 < old(self).den <= LIMIT,
            -CENTER_LIMIT <= c <= CENTER_LIMIT,
            -CENTER_LIMIT <= s <= CENTER_LIMIT,
            -CENTER_LIMIT <= cx <= CENTER_LIMIT,
            -CENTER_LIMIT <= cy <= CENTER_LIMIT,
        ensures
            final(self)@ == mat_mul(
                old(self)@,
                mat_rotation_about(c as int, s as int, cx as int, cy as int),
            ),
    {
        proof {
            lemma_abs_mul_le(c as int, cx as int, CENTER_LIMIT as int, CENTER_LIMIT as int);
            lemma_abs_mul_le(s as int, cy as int, CENTER_LIMIT as int, CENTER_LIMIT as int);
            lemma_abs_mul_le(s as int, cx as int, CENTER_LIMIT as int, CENTER_LIMIT as int);
            lemma_abs_mul_le(c as int, cy as int, CENTER_LIMIT as int, CENTER_LIMIT as int);
        }
        let tx = cx - c * cx + s * cy;
        let ty = cy - s * cx - c * cy;
        let t = Transform {
            m00: c,
            m01: -s,
            m02: tx,
            m10: s,
            m11: c,
            m12: ty,
            m20: 0,
            m21: 0,
            m22: 1,
            den: 1,
        };
        self.combine(&t);
    }

    /// Combine this transform with a scaling by `(sx, sy)` about the
    /// origin.
    pub fn scale(&mut self, sx: i64, sy: i64)
        requires
            mat_bounded(old(self)@, LIMIT as int),
            0 < old(self).den <= LIMIT,
            -LIMIT <= sx <= LIMIT,
            -LIMIT <= sy <= LIMIT,
        ensures
            final(self)@ == mat_mul(old(self)@, mat_scaling(sx as int, sy as int)),
    {
        let t = Transform {
            m00: sx,
            m01: 0,
            m02: 0,
            m10: 0,
            m11: sy,
            m12: 0,
            m20: 0,
            m21: 0,
            m22: 1,
            den: 1,
        };
        self.combine(&t);
    }

    /// Combine this transform with a scaling by `(sx, sy)` about the
    /// center `(cx, cy)`, as a single fused matrix.
    pub fn scale_with_center(&mut self, sx: i64, sy: i64, cx: i64, cy: i64)
        requires
            mat_bounded(old(self)@, LIMIT as int),
            0 < old(self).den <= LIMIT,
            -CENTER_LIMIT <= sx <= CENTER_LIMIT,
            -CENTER_LIMIT <= sy <= CENTER_LIMIT,
            -CENTER_LIMIT <= cx <= CENTER_LIMIT,
            -CENTER_LIMIT <= cy <= CENTER_LIMIT,
        ensures
            final(self)@ == mat_mul(
                old(self)@,
                mat_scaling_about(sx as int, sy as int, cx as int, cy as int),
            ),
    {
        proof {
            lemma_abs_mul_le(sx as int, cx as int, CENTER_LIMIT as int, CENTER_LIMIT as int);
            lemma_abs_mul_le(sy as int, cy as int, CENTER_LIMIT as int, CENTER_LIMIT as int);
        }
        let tx = cx - sx * cx;
        let ty = cy - sy * cy;
        let t = Transform {
            m00: sx,
            m01: 0,
            m02: tx,
            m10: 0,
            m11: sy,
            m12: ty,
            m20: 0,
            m21: 0,
            m22: 1,
            den: 1,
        };
        self.combine(&t);
    }

    /// Apply this transform to a 2D point. A pure read.
    pub fn transform_point(&self, point: &Vector2) -> (r: Vector2)
        requires
            mat_bounded(self@, LIMIT as int),
            0 < self.den,
            -2 * LIMIT <= point.x <= 2 * LIMIT,
            -2 * LIMIT <= point.y <= 2 * LIMIT,
        ensures
            r@ == map_point(self@, point@),
    {
        let nx = dot3(self.m00, self.m01, self.m02, point.x, point.y, 1);
        let ny = dot3(self.m10, self.m11, self.m12, point.x, point.y, 1);
        let qx = div_trunc_i128(nx as i128, self.den as i128);
        let qy = div_trunc_i128(ny as i128, self.den as i128);
        Vector2 { x: qx as i64, y: qy as i64 }
    }
}

/// The quotient of `a` by `b`, rounded toward zero: the magnitudes are
/// divided and the sign is folded back in.
fn div_trunc_i128(a: i128, b: i128) -> (q: i128)
    requires
        b != 0,
        a != i128::MIN,
        b != i128::MIN,
    ensures
        q == trunc_div(a as int, b as int),
        -int_abs(a as int) <= q <= int_abs(a as int),
{
    let neg = (a < 0) != (b < 0);
    let ua: u128 = if a < 0 {
        (-a) as u128
    } else {
        a as u128
    };
    let ub: u128 = if b < 0 {
        (-b) as u128
    } else {
        b as u128
    };
    let uq: u128 = ua / ub;
    proof {
        vstd::arithmetic::div_mod::lemma_div_nonincreasing(ua as int, ub as int);
        vstd::arithmetic::div_mod::lemma_div_pos_is_pos(ua as int, ub as int);
    }
    if neg {
        -(uq as i128)
    } else {
        uq as i128
    }
}

impl Transform {
    /// The exact inverse of this transform: the adjugate of the
    /// numerators, scaled by the old denominator, over the determinant
    /// folded positive. Combining a non-singular transform with its
    /// inverse gives the identity exactly, as a rational value. If the
    /// matrix is singular the identity transform is returned; that
    /// fallback is defined behaviour, not an error.
    pub fn inverse(&self) -> (r: Transform)
        requires
            mat_bounded(self@, INVERT_LIMIT as int),
            0 < self.den <= INVERT_LIMIT,
        ensures
            r@ == mat_inverse(self@),
            0 < r.den,
            mat_det(self@) != 0 ==> mat_equiv(mat_mul(self@, r@), mat_identity()),
            mat_det(self@) != 0 ==> mat_equiv(mat_mul(r@, self@), mat_identity()),
    {
        let a00 = self.m00 as i128;
        let a01 = self.m01 as i128;
        let a02 = self.m02 as i128;
        let a10 = self.m10 as i128;
        let a11 = self.m11 as i128;
        let a12 = self.m12 as i128;
        let a20 = self.m20 as i128;
        let a21 = self.m21 as i128;
        let a22 = self.m22 as i128;
        proof {
            let l = INVERT_LIMIT as int;
            lemma_abs_mul_le(a11 as int, a22 as int, l, l);
            lemma_abs_mul_le(a12 as int, a21 as int, l, l);
            lemma_abs_mul_le(a02 as int, a21 as int, l, l);
            lemma_abs_mul_le(a01 as int, a22 as int, l, l);
            lemma_abs_mul_le(a01 as int, a12 as int, l, l);
            lemma_abs_mul_le(a02 as int, a11 as int, l, l);
            lemma_abs_mul_le(a12 as int, a20 as int, l, l);
            lemma_abs_mul_le(a10 as int, a22 as int, l, l);
            lemma_abs_mul_le(a00 as int, a22 as int, l, l);
            lemma_abs_mul_le(a02 as int, a20 as int, l, l);
            lemma_abs_mul_le(a02 as int, a10 as int, l, l);
            lemma_abs_mul_le(a00 as int, a12 as int, l, l);
            lemma_abs_mul_le(a10 as int, a21 as int, l, l);
            lemma_abs_mul_le(a11 as int, a20 as int, l, l);
            lemma_abs_mul_le(a01 as int, a20 as int, l, l);
            lemma_abs_mul_le(a00 as int, a21 as int, l, l);
            lemma_abs_mul_le(a00 as int, a11 as int, l, l);
            lemma_abs_mul_le(a01 as int, a10 as int, l, l);
        }
        let e00 = a11 * a22 - a12 * a21;
        let e01 = a02 * a21 - a01 * a22;
        let e02 = a01 * a12 - a02 * a11;
        let e10 = a12 * a20 - a10 * a22;
        let e11 = a00 * a22 - a02 * a20;
        let e12 = a02 * a10 - a00 * a12;
        let e20 = a10 * a21 - a11 * a20;
        let e21 = a01 * a20 - a00 * a21;
        let e22 = a00 * a11 - a01 * a10;
        proof {
            let l = INVERT_LIMIT as int;
            let cof = 2 * l * l;
            lemma_abs_mul_le(a00 as int, e00 as int, l, cof);
            lemma_abs_mul_le(a01 as int, e10 as int, l, cof);
            lemma_abs_mul_le(a02 as int, e20 as int, l, cof);
        }
        let det = a00 * e00 + a01 * e10 + a02 * e20;
        let result: Transform;
        if det == 0 {
            result = Transform::identity();
        } else {
            let da = self.den as i128;
            proof {
                let l = INVERT_LIMIT as int;
                let cof = 2 * l * l;
                lemma_abs_mul_le(e00 as int, da as int, cof, l);
                lemma_abs_mul_le(e01 as int, da as int, cof, l);
                lemma_abs_mul_le(e02 as int, da as int, cof, l);
                lemma_abs_mul_le(e10 as int, da as int, cof, l);
                lemma_abs_mul_le(e11 as int, da as int, cof, l);
                lemma_abs_mul_le(e12 as int, da as int, cof, l);
                lemma_abs_mul_le(e20 as int, da as int, cof, l);
                lemma_abs_mul_le(e21 as int, da as int, cof, l);
                lemma_abs_mul_le(e22 as int, da as int, cof, l);
            }
            if det > 0 {
                result = Transform {
                    m00: (e00 * da) as i64,
                    m01: (e01 * da) as i64,
                    m02: (e02 * da) as i64,
                    m10: (e10 * da) as i64,
                    m11: (e11 * da) as i64,
                    m12: (e12 * da) as i64,
                    m20: (e20 * da) as i64,
                    m21: (e21 * da) as i64,
                    m22: (e22 * da) as i64,
                    den: det as i64,
                };
            } else {
                result = Transform {
                    m00: (-(e00 * da)) as i64,
                    m01: (-(e01 * da)) as i64,
                    m02: (-(e02 * da)) as i64,
                    m10: (-(e10 * da)) as i64,
                    m11: (-(e11 * da)) as i64,
                    m12: (-(e12 * da)) as i64,
                    m20: (-(e20 * da)) as i64,
                    m21: (-(e21 * da)) as i64,
                    m22: (-(e22 * da)) as i64,
                    den: (-det) as i64,
                };
            }
        }
        proof {
            if mat_det(self@) != 0 {
                lemma_combine_inverse(self@);
            }
        }
        result
    }
}

/// The truncated quotient is no larger in magnitude than the
/// dividend.
proof fn lemma_trunc_div_magnitude(a: int, b: int)
    requires
        b != 0,
    ensures
        -int_abs(a) <= trunc_div(a, b) <= int_abs(a),
{
    vstd::arithmetic::div_mod::lemma_div_nonincreasing(int_abs(a), int_abs(b));
    vstd::arithmetic::div_mod::lemma_div_pos_is_pos(int_abs(a), int_abs(b));
}

fn min2_i64(a: i64, b: i64) -> (r: i64)
    ensures
        r == min2(a as int, b as int),
{
    if a <= b {
        a
    } else {
        b
    }
}

fn max2_i64(a: i64, b: i64) -> (r: i64)
    ensures
        r == max2(a as int, b as int),
{
    if a >= b {
        a
    } else {
        b
    }
}

impl Transform {
    /// Apply this transform to a rectangle: map its four corners and
    /// return the axis-aligned bounding rectangle of the images. If
    /// the transform rotates or shears, the result is strictly larger
    /// than the exact transformed shape; that lossy growth is the
    /// defined behaviour, not an error.
    pub fn transform_rect(&self, rectangle: &Rect) -> (r: Rect)
        requires
            mat_bounded(self@, LIMIT as int),
            0 < self.den,
            -COORD_LIMIT <= rectangle.left <= COORD_LIMIT,
            -COORD_LIMIT <= rectangle.top <= COORD_LIMIT,
            -COORD_LIMIT <= rectangle.width <= COORD_LIMIT,
            -COORD_LIMIT <= rectangle.height <= COORD_LIMIT,
        ensures
            r@ == map_rect(self@, rectangle@),
    {
        let x_far = rectangle.left + rectangle.width;
        let y_far = rectangle.top + rectangle.height;
        proof {
            let cb = 2 * COORD_LIMIT as int;
            lemma_abs_mul_le(self.m00 as int, rectangle.left as int, LIMIT as int, cb);
            lemma_abs_mul_le(self.m00 as int, x_far as int, LIMIT as int, cb);
            lemma_abs_mul_le(self.m01 as int, rectangle.top as int, LIMIT as int, cb);
            lemma_abs_mul_le(self.m01 as int, y_far as int, LIMIT as int, cb);
            lemma_abs_mul_le(self.m10 as int, rectangle.left as int, LIMIT as int, cb);
            lemma_abs_mul_le(self.m10 as int, x_far as int, LIMIT as int, cb);
            lemma_abs_mul_le(self.m11 as int, rectangle.top as int, LIMIT as int, cb);
            lemma_abs_mul_le(self.m11 as int, y_far as int, LIMIT as int, cb);
            let mm = self@;
            let lf = rectangle.left as int;
            let tp = rectangle.top as int;
            let xf = x_far as int;
            let yf = y_far as int;
            lemma_trunc_div_magnitude(mm.a00 * lf + mm.a01 * tp + mm.a02, mm.d);
            lemma_trunc_div_magnitude(mm.a00 * xf + mm.a01 * tp + mm.a02, mm.d);
            lemma_trunc_div_magnitude(mm.a00 * lf + mm.a01 * yf + mm.a02, mm.d);
            lemma_trunc_div_magnitude(mm.a00 * xf + mm.a01 * yf + mm.a02, mm.d);
            lemma_trunc_div_magnitude(mm.a10 * lf + mm.a11 * tp + mm.a12, mm.d);
            lemma_trunc_div_magnitude(mm.a10 * xf + mm.a11 * tp + mm.a12, mm.d);
            lemma_trunc_div_magnitude(mm.a10 * lf + mm.a11 * yf + mm.a12, mm.d);
            lemma_trunc_div_magnitude(mm.a10 * xf + mm.a11 * yf + mm.a12, mm.d);
        }
        let p1 = self.transform_point(&Vector2 { x: rectangle.left, y: rectangle.top });
        let p2 = self.transform_point(&Vector2 { x: x_far, y: rectangle.top });
        let p3 = self.transform_point(&Vector2 { x: rectangle.left, y: y_far });
        let p4 = self.transform_point(&Vector2 { x: x_far, y: y_far });
        let lo_x = min2_i64(min2_i64(p1.x, p2.x), min2_i64(p3.x, p4.x));
        let hi_x = max2_i64(max2_i64(p1.x, p2.x), max2_i64(p3.x, p4.x));
        let lo_y = min2_i64(min2_i64(p1.y, p2.y), min2_i64(p3.y, p4.y));
        let hi_y = max2_i64(max2_i64(p1.y, p2.y), max2_i64(p3.y, p4.y));
        Rect { left: lo_x, top: lo_y, width: hi_x - lo_x, height: hi_y - lo_y }
    }
}

/// Identity law, matrix form: the identity is neutral for combination
/// on either side.
pub proof fn lemma_mat_mul_identity(m: Mat)
    ensures
        mat_mul(m, mat_identity()) == m,
        mat_mul(mat_identity(), m) == m,
{
}

/// Dividing by one changes nothing.
proof fn lemma_trunc_div_one(a: int)
    ensures
        trunc_div(a, 1) == a,
{
    vstd::arithmetic::div_mod::lemma_div_multiples_vanish(int_abs(a), 1);
}

/// With the denominator one, a mapped coordinate is the plain
/// numerator sum: no rounding happens.
proof fn lemma_apply_unit_den(m: Mat, x: int, y: int)
    requires
        m.d == 1,
    ensures
        apply_x(m, x, y) == m.a00 * x + m.a01 * y + m.a02,
        apply_y(m, x, y) == m.a10 * x + m.a11 * y + m.a12,
{
    lemma_trunc_div_one(m.a00 * x + m.a01 * y + m.a02);
    lemma_trunc_div_one(m.a10 * x + m.a11 * y + m.a12);
}

/// Identity law for points: applying the identity moves nothing.
pub proof fn lemma_identity_point(p: Pt)
    ensures
        map_point(mat_identity(), p) == p,
{
    lemma_apply_unit_den(mat_identity(), p.x, p.y);
}

/// Identity law for rectangles: applying the identity returns the
/// rectangle unchanged. A negative size would first be normalised by
/// the corner bounding box, so sizes are asked to be non-negative.
pub proof fn lemma_identity_rect(r: Aabb)
    requires
        r.width >= 0,
        r.height >= 0,
    ensures
        map_rect(mat_identity(), r) == r,
{
    lemma_apply_unit_den(mat_identity(), r.left, r.top);
    lemma_apply_unit_den(mat_identity(), r.left + r.width, r.top);
    lemma_apply_unit_den(mat_identity(), r.left, r.top + r.height);
    lemma_apply_unit_den(mat_identity(), r.left + r.width, r.top + r.height);
}

/// `x * y == 0` whenever one factor is zero; stated for terms the
/// linear solver treats as opaque.
proof fn lemma_mul_zero(x: int, y: int)
    by (nonlinear_arith)
    requires
        x == 0,
    ensures
        x * y == 0,
        y * x == 0,
{
}

/// Distribution of a three-way sum over a right factor.
proof fn lemma_mul_dist3_right(p: int, q: int, r: int, z: int)
    by (nonlinear_arith)
    ensures
        (p + q + r) * z == p * z + q * z + r * z,
{
}

/// Distribution of a left factor over a three-way sum.
proof fn lemma_mul_dist3_left(x: int, u: int, v: int, w: int)
    by (nonlinear_arith)
    ensures
        x * (u + v + w) == x * u + x * v + x * w,
{
}

/// Associativity of a product of three factors.
proof fn lemma_mul_assoc3(a: int, b: int, c: int)
    by (nonlinear_arith)
    ensures
        (a * b) * c == a * (b * c),
{
}

/// Associativity of a three-way dot product: one entry of the matrix
/// associativity law, over plain integers.
proof fn lemma_dot_assoc(
    x0: int,
    x1: int,
    x2: int,
    y00: int,
    y01: int,
    y02: int,
    y10: int,
    y11: int,
    y12: int,
    y20: int,
    y21: int,
    y22: int,
    z0: int,
    z1: int,
    z2: int,
)
    ensures
        (x0 * y00 + x1 * y10 + x2 * y20) * z0 + (x0 * y01 + x1 * y11 + x2 * y21) * z1 + (x0 * y02
            + x1 * y12 + x2 * y22) * z2 == x0 * (y00 * z0 + y01 * z1 + y02 * z2) + x1 * (y10 * z0
            + y11 * z1 + y12 * z2) + x2 * (y20 * z0 + y21 * z1 + y22 * z2),
{
    lemma_mul_dist3_right(x0 * y00, x1 * y10, x2 * y20, z0);
    lemma_mul_dist3_right(x0 * y01, x1 * y11, x2 * y21, z1);
    lemma_mul_dist3_right(x0 * y02, x1 * y12, x2 * y22, z2);
    lemma_mul_assoc3(x0, y00, z0);
    lemma_mul_assoc3(x1, y10, z0);
    lemma_mul_assoc3(x2, y20, z0);
    lemma_mul_assoc3(x0, y01, z1);
    lemma_mul_assoc3(x1, y11, z1);
    lemma_mul_assoc3(x2, y21, z1);
    lemma_mul_assoc3(x0, y02, z2);
    lemma_mul_assoc3(x1, y12, z2);
    lemma_mul_assoc3(x2, y22, z2);
    lemma_mul_dist3_left(x0, y00 * z0, y01 * z1, y02 * z2);
    lemma_mul_dist3_left(x1, y10 * z0, y11 * z1, y12 * z2);
    lemma_mul_dist3_left(x2, y20 * z0, y21 * z1, y22 * z2);
}

/// Combination is associative (though not commutative).
pub proof fn lemma_mat_mul_assoc(x: Mat, y: Mat, z: Mat)
    ensures
        mat_mul(mat_mul(x, y), z) == mat_mul(x, mat_mul(y, z)),
{
    lemma_mul_assoc3(x.d, y.d, z.d);
    lemma_dot_assoc(
        x.a00, x.a01, x.a02,
        y.a00, y.a01, y.a02, y.a10, y.a11, y.a12, y.a20, y.a21, y.a22,
        z.a00, z.a10, z.a20,
    );
    lemma_dot_assoc(
        x.a00, x.a01, x.a02,
        y.a00, y.a01, y.a02, y.a10, y.a11, y.a12, y.a20, y.a21, y.a22,
        z.a01, z.a11, z.a21,
    );
    lemma_dot_assoc(
        x.a00, x.a01, x.a02,
        y.a00, y.a01, y.a02, y.a10, y.a11, y.a12, y.a20, y.a21, y.a22,
        z.a02, z.a12, z.a22,
    );
    lemma_dot_assoc(
        x.a10, x.a11, x.a12,
        y.a00, y.a01, y.a02, y.a10, y.a11, y.a12, y.a20, y.a21, y.a22,
        z.a00, z.a10, z.a20,
    );
    lemma_dot_assoc(
        x.a10, x.a11, x.a12,
        y.a00, y.a01, y.a02, y.a10, y.a11, y.a12, y.a20, y.a21, y.a22,
        z.a01, z.a11, z.a21,
    );
    lemma_dot_assoc(
        x.a10, x.a11, x.a12,
        y.a00, y.a01, y.a02, y.a10, y.a11, y.a12, y.a20, y.a21, y.a22,
        z.a02, z.a12, z.a22,
    );
    lemma_dot_assoc(
        x.a20, x.a21, x.a22,
        y.a00, y.a01, y.a02, y.a10, y.a11, y.a12, y.a20, y.a21, y.a22,
        z.a00, z.a10, z.a20,
    );
    lemma_dot_assoc(
        x.a20, x.a21, x.a22,
        y.a00, y.a01, y.a02, y.a10, y.a11, y.a12, y.a20, y.a21, y.a22,
        z.a01, z.a11, z.a21,
    );
    lemma_dot_assoc(
        x.a20, x.a21, x.a22,
        y.a00, y.a01, y.a02, y.a10, y.a11, y.a12, y.a20, y.a21, y.a22,
        z.a02, z.a12, z.a22,
    );
}

/// Translations compose by adding their offsets.
pub proof fn lemma_translation_compose(x1: int, y1: int, x2: int, y2: int)
    ensures
        mat_mul(mat_translation(x1, y1), mat_translation(x2, y2)) == mat_translation(
            x1 + x2,
            y1 + y2,
        ),
{
}

/// Degenerate inverse: however a transform was built, scaling it by
/// `(0, 0)` makes it singular, and inverting the result yields the
/// identity exactly.
pub proof fn lemma_degenerate_inverse(m: Mat)
    ensures
        mat_inverse(mat_mul(m, mat_scaling(0, 0))) == mat_identity(),
{
    let k = mat_mul(m, mat_scaling(0, 0));
    let adj = mat_adjugate(k);
    assert(k.a00 == 0 && k.a01 == 0 && k.a10 == 0 && k.a11 == 0 && k.a20 == 0 && k.a21 == 0);
    lemma_mul_zero(k.a10, k.a21);
    lemma_mul_zero(k.a11, k.a20);
    assert(adj.a20 == 0);
    lemma_mul_zero(k.a00, adj.a00);
    lemma_mul_zero(k.a01, adj.a10);
    lemma_mul_zero(adj.a20, k.a02);
    assert(mat_det(k) == 0);
}

/// Round trip through the homogeneous export: the 4x4 column-major
/// form holds the affine 3x3 block unchanged, padded with the
/// identity's third row and column.
pub proof fn lemma_matrix_round_trip(m: Mat)
    ensures
        mat4_of(m)[0] == m.a00,
        mat4_of(m)[4] == m.a01,
        mat4_of(m)[12] == m.a02,
        mat4_of(m)[1] == m.a10,
        mat4_of(m)[5] == m.a11,
        mat4_of(m)[13] == m.a12,
        mat4_of(m)[3] == m.a20,
        mat4_of(m)[7] == m.a21,
        mat4_of(m)[15] == m.a22,
        mat4_of(m)[2] == 0,
        mat4_of(m)[6] == 0,
        mat4_of(m)[8] == 0,
        mat4_of(m)[9] == 0,
        mat4_of(m)[11] == 0,
        mat4_of(m)[14] == 0,
        mat4_of(m)[10] == 1,
{
}

/// Sign rules for products whose factors the linear solver only sees
/// negated.
proof fn lemma_mul_neg(x: int, y: int)
    by (nonlinear_arith)
    ensures
        x * (-y) == -(x * y),
        (-x) * y == -(x * y),
        (-x) * (-y) == x * y,
{
}

/// Distribution of a factor over a sum and over a difference.
proof fn lemma_mul_sub(x: int, a: int, b: int)
    by (nonlinear_arith)
    ensures
        x * (a - b) == x * a - x * b,
        x * (a + b) == x * a + x * b,
        (a - b) * x == a * x - b * x,
        (a + b) * x == a * x + b * x,
{
}

/// Commutativity of multiplication, for terms the linear solver treats
/// as opaque.
proof fn lemma_mul_comm(x: int, y: int)
    by (nonlinear_arith)
    ensures
        x * y == y * x,
{
}

/// Multiplying both sides of an equality by a common factor; the
/// linear solver cannot substitute inside a product of two variables.
proof fn lemma_mul_congr(x: int, y: int, z: int)
    by (nonlinear_arith)
    requires
        x == y,
    ensures
        x * z == y * z,
        z * x == z * y,
{
}

/// The fused rotation-about-a-center matrix equals the three-step
/// product: translate the center to the origin, rotate, translate
/// back.
pub proof fn lemma_rotation_about_fused(c: int, s: int, cx: int, cy: int)
    ensures
        mat_rotation_about(c, s, cx, cy) == mat_mul(
            mat_mul(mat_translation(cx, cy), mat_rotation(c, s)),
            mat_translation(-cx, -cy),
        ),
{
    let tr = mat_mul(mat_translation(cx, cy), mat_rotation(c, s));
    lemma_mul_congr(tr.a00, c, -cx);
    lemma_mul_congr(tr.a01, -s, -cy);
    lemma_mul_congr(tr.a10, s, -cx);
    lemma_mul_congr(tr.a11, c, -cy);
    lemma_mul_congr(tr.a20, 0, -cx);
    lemma_mul_congr(tr.a21, 0, -cy);
    lemma_mul_neg(c, cx);
    lemma_mul_neg(s, cy);
    lemma_mul_neg(s, cx);
    lemma_mul_neg(c, cy);
}

/// Fused rotation about a center, from any starting transform: the
/// single fused combination equals the three successive combinations.
pub proof fn lemma_rotate_with_center_composes(m: Mat, c: int, s: int, cx: int, cy: int)
    ensures
        mat_mul(m, mat_rotation_about(c, s, cx, cy)) == mat_mul(
            mat_mul(mat_mul(m, mat_translation(cx, cy)), mat_rotation(c, s)),
            mat_translation(-cx, -cy),
        ),
{
    lemma_rotation_about_fused(c, s, cx, cy);
    lemma_mat_mul_assoc(m, mat_translation(cx, cy), mat_rotation(c, s));
    lemma_mat_mul_assoc(
        m,
        mat_mul(mat_translation(cx, cy), mat_rotation(c, s)),
        mat_translation(-cx, -cy),
    );
}

/// The fused scaling-about-a-center matrix equals the three-step
/// product.
pub proof fn lemma_scaling_about_fused(sx: int, sy: int, cx: int, cy: int)
    ensures
        mat_scaling_about(sx, sy, cx, cy) == mat_mul(
            mat_mul(mat_translation(cx, cy), mat_scaling(sx, sy)),
            mat_translation(-cx, -cy),
        ),
{
    let ts = mat_mul(mat_translation(cx, cy), mat_scaling(sx, sy));
    lemma_mul_congr(ts.a00, sx, -cx);
    lemma_mul_congr(ts.a01, 0, -cy);
    lemma_mul_congr(ts.a10, 0, -cx);
    lemma_mul_congr(ts.a11, sy, -cy);
    lemma_mul_congr(ts.a20, 0, -cx);
    lemma_mul_congr(ts.a21, 0, -cy);
    lemma_mul_neg(sx, cx);
    lemma_mul_neg(sy, cy);
}

/// Fused scaling about a center, from any starting transform: the
/// single fused combination equals the three successive combinations.
pub proof fn lemma_scale_with_center_composes(m: Mat, sx: int, sy: int, cx: int, cy: int)
    ensures
        mat_mul(m, mat_scaling_about(sx, sy, cx, cy)) == mat_mul(
            mat_mul(mat_mul(m, mat_translation(cx, cy)), mat_scaling(sx, sy)),
            mat_translation(-cx, -cy),
        ),
{
    lemma_scaling_about_fused(sx, sy, cx, cy);
    lemma_mat_mul_assoc(m, mat_translation(cx, cy), mat_scaling(sx, sy));
    lemma_mat_mul_assoc(
        m,
        mat_mul(mat_translation(cx, cy), mat_scaling(sx, sy)),
        mat_translation(-cx, -cy),
    );
}

/// Bounding-box growth under rotation about the rectangle's own
/// center: for a rotation pair in the first quadrant, the mapped box
/// keeps its center `(cx, cy)` and its half-sizes `w`, `h` grow to
/// `c*w + s*h` and `s*w + c*h`.
pub proof fn lemma_rotation_bbox(c: int, s: int, cx: int, cy: int, w: int, h: int)
    requires
        0 <= c,
        0 <= s,
        0 <= w,
        0 <= h,
    ensures
        map_rect(
            mat_rotation_about(c, s, cx, cy),
            Aabb { left: cx - w, top: cy - h, width: 2 * w, height: 2 * h },
        ) == (Aabb {
            left: cx - (c * w + s * h),
            top: cy - (s * w + c * h),
            width: 2 * (c * w + s * h),
            height: 2 * (s * w + c * h),
        }),
{
    lemma_apply_unit_den(mat_rotation_about(c, s, cx, cy), cx - w, cy - h);
    lemma_apply_unit_den(mat_rotation_about(c, s, cx, cy), (cx - w) + 2 * w, cy - h);
    lemma_apply_unit_den(mat_rotation_about(c, s, cx, cy), cx - w, (cy - h) + 2 * h);
    lemma_apply_unit_den(mat_rotation_about(c, s, cx, cy), (cx - w) + 2 * w, (cy - h) + 2 * h);
    lemma_mul_sub(c, cx, w);
    lemma_mul_sub(s, cx, w);
    lemma_mul_sub(c, cy, h);
    lemma_mul_sub(s, cy, h);
    lemma_mul_neg(s, cy - h);
    lemma_mul_neg(s, cy + h);
    vstd::arithmetic::mul::lemma_mul_nonnegative(c, w);
    vstd::arithmetic::mul::lemma_mul_nonnegative(s, h);
    vstd::arithmetic::mul::lemma_mul_nonnegative(s, w);
    vstd::arithmetic::mul::lemma_mul_nonnegative(c, h);
}

/// `trunc_div` undoes an exact multiple: where `d` divides `a`, the
/// truncated quotient times `d` gives back `a`.
proof fn lemma_trunc_div_exact(a: int, d: int)
    requires
        d != 0,
        a % d == 0,
    ensures
        trunc_div(a, d) * d == a,
{
    vstd::arithmetic::div_mod::lemma_fundamental_div_mod(a, d);
    let q = a / d;
    lemma_mul_neg(d, q);
    lemma_mul_comm(d, q);
    if d > 0 {
        if a >= 0 {
            assert(trunc_div(a, d) == a / d);
        } else {
            vstd::arithmetic::div_mod::lemma_div_multiples_vanish(-q, d);
            assert((-a) / d == -q);
        }
    } else {
        if a >= 0 {
            vstd::arithmetic::div_mod::lemma_div_multiples_vanish(-q, -d);
            assert(a / (-d) == -q);
        } else {
            vstd::arithmetic::div_mod::lemma_div_multiples_vanish(q, -d);
            assert((-a) / (-d) == q);
        }
    }
}

/// Reorderings of a product of three factors.
proof fn lemma_mul_shuffle(x: int, y: int, z: int)
    by (nonlinear_arith)
    ensures
        x * (y * z) == y * (x * z),
        x * (y * z) == y * (z * x),
        x * (y * z) == z * (x * y),
{
}

/// Reorderings of a left-nested product of three factors.
proof fn lemma_mul_left_shuffle(x: int, y: int, z: int)
    by (nonlinear_arith)
    ensures
        (x * y) * z == x * (y * z),
        (x * y) * z == x * (z * y),
        (x * y) * z == y * (x * z),
{
}

/// Cofactor expansion along the second row gives the same value as
/// the expansion along the first row.
proof fn lemma_cof_diag_mid(
    a00: int,
    a01: int,
    a02: int,
    a10: int,
    a11: int,
    a12: int,
    a20: int,
    a21: int,
    a22: int,
)
    ensures
        a10 * (a02 * a21 - a01 * a22) + a11 * (a00 * a22 - a02 * a20) + a12 * (a01 * a20 - a00
            * a21) == a00 * (a11 * a22 - a12 * a21) + a01 * (a12 * a20 - a10 * a22) + a02 * (a10
            * a21 - a11 * a20),
{
    lemma_mul_sub(a10, a02 * a21, a01 * a22);
    lemma_mul_sub(a11, a00 * a22, a02 * a20);
    lemma_mul_sub(a12, a01 * a20, a00 * a21);
    lemma_mul_sub(a00, a11 * a22, a12 * a21);
    lemma_mul_sub(a01, a12 * a20, a10 * a22);
    lemma_mul_sub(a02, a10 * a21, a11 * a20);
    lemma_mul_shuffle(a10, a02, a21);
    lemma_mul_shuffle(a10, a01, a22);
    lemma_mul_shuffle(a11, a00, a22);
    lemma_mul_shuffle(a11, a02, a20);
    lemma_mul_shuffle(a12, a01, a20);
    lemma_mul_shuffle(a12, a00, a21);
}

/// Cofactor expansion along the third row gives the same value as the
/// expansion along the first row.
proof fn lemma_cof_diag_last(
    a00: int,
    a01: int,
    a02: int,
    a10: int,
    a11: int,
    a12: int,
    a20: int,
    a21: int,
    a22: int,
)
    ensures
        a20 * (a01 * a12 - a02 * a11) + a21 * (a02 * a10 - a00 * a12) + a22 * (a00 * a11 - a01
            * a10) == a00 * (a11 * a22 - a12 * a21) + a01 * (a12 * a20 - a10 * a22) + a02 * (a10
            * a21 - a11 * a20),
{
    lemma_mul_sub(a20, a01 * a12, a02 * a11);
    lemma_mul_sub(a21, a02 * a10, a00 * a12);
    lemma_mul_sub(a22, a00 * a11, a01 * a10);
    lemma_mul_sub(a00, a11 * a22, a12 * a21);
    lemma_mul_sub(a01, a12 * a20, a10 * a22);
    lemma_mul_sub(a02, a10 * a21, a11 * a20);
    lemma_mul_shuffle(a20, a01, a12);
    lemma_mul_shuffle(a20, a02, a11);
    lemma_mul_shuffle(a21, a02, a10);
    lemma_mul_shuffle(a21, a00, a12);
    lemma_mul_shuffle(a22, a00, a11);
    lemma_mul_shuffle(a22, a01, a10);
}

/// Column expansion: the first row of the adjugate times the first
/// column of the matrix gives the first-row cofactor expansion.
proof fn lemma_cof_left_first(
    a00: int,
    a01: int,
    a02: int,
    a10: int,
    a11: int,
    a12: int,
    a20: int,
    a21: int,
    a22: int,
)
    ensures
        (a11 * a22 - a12 * a21) * a00 + (a02 * a21 - a01 * a22) * a10 + (a01 * a12 - a02 * a11)
            * a20 == a00 * (a11 * a22 - a12 * a21) + a01 * (a12 * a20 - a10 * a22) + a02 * (a10
            * a21 - a11 * a20),
{
    lemma_mul_sub(a00, a11 * a22, a12 * a21);
    lemma_mul_sub(a10, a02 * a21, a01 * a22);
    lemma_mul_sub(a20, a01 * a12, a02 * a11);
    lemma_mul_sub(a01, a12 * a20, a10 * a22);
    lemma_mul_sub(a02, a10 * a21, a11 * a20);
    lemma_mul_comm(a11 * a22, a00);
    lemma_mul_comm(a12 * a21, a00);
    lemma_mul_left_shuffle(a02, a21, a10);
    lemma_mul_left_shuffle(a01, a22, a10);
    lemma_mul_left_shuffle(a01, a12, a20);
    lemma_mul_left_shuffle(a02, a11, a20);
}

/// Column expansion for the second column.
proof fn lemma_cof_left_mid(
    a00: int,
    a01: int,
    a02: int,
    a10: int,
    a11: int,
    a12: int,
    a20: int,
    a21: int,
    a22: int,
)
    ensures
        (a12 * a20 - a10 * a22) * a01 + (a00 * a22 - a02 * a20) * a11 + (a02 * a10 - a00 * a12)
            * a21 == a00 * (a11 * a22 - a12 * a21) + a01 * (a12 * a20 - a10 * a22) + a02 * (a10
            * a21 - a11 * a20),
{
    lemma_mul_sub(a01, a12 * a20, a10 * a22);
    lemma_mul_sub(a11, a00 * a22, a02 * a20);
    lemma_mul_sub(a21, a02 * a10, a00 * a12);
    lemma_mul_sub(a00, a11 * a22, a12 * a21);
    lemma_mul_sub(a02, a10 * a21, a11 * a20);
    lemma_mul_comm(a12 * a20, a01);
    lemma_mul_comm(a10 * a22, a01);
    lemma_mul_left_shuffle(a00, a22, a11);
    lemma_mul_left_shuffle(a02, a20, a11);
    lemma_mul_left_shuffle(a02, a10, a21);
    lemma_mul_left_shuffle(a00, a12, a21);
}

/// Column expansion for the third column.
proof fn lemma_cof_left_last(
    a00: int,
    a01: int,
    a02: int,
    a10: int,
    a11: int,
    a12: int,
    a20: int,
    a21: int,
    a22: int,
)
    ensures
        (a10 * a21 - a11 * a20) * a02 + (a01 * a20 - a00 * a21) * a12 + (a00 * a11 - a01 * a10)
            * a22 == a00 * (a11 * a22 - a12 * a21) + a01 * (a12 * a20 - a10 * a22) + a02 * (a10
            * a21 - a11 * a20),
{
    lemma_mul_sub(a02, a10 * a21, a11 * a20);
    lemma_mul_sub(a12, a01 * a20, a00 * a21);
    lemma_mul_sub(a22, a00 * a11, a01 * a10);
    lemma_mul_sub(a00, a11 * a22, a12 * a21);
    lemma_mul_sub(a01, a12 * a20, a10 * a22);
    lemma_mul_comm(a10 * a21, a02);
    lemma_mul_comm(a11 * a20, a02);
    lemma_mul_left_shuffle(a01, a20, a12);
    lemma_mul_left_shuffle(a00, a21, a12);
    lemma_mul_left_shuffle(a00, a11, a22);
    lemma_mul_left_shuffle(a01, a10, a22);
}

/// The defining identity of the adjugate, on both sides: `m * adj(m)`
/// and `adj(m) * m` are the determinant times the identity.
proof fn lemma_mul_adjugate(m: Mat)
    ensures
        mat_mul(m, mat_adjugate(m)) == (Mat {
            a00: mat_det(m),
            a01: 0,
            a02: 0,
            a10: 0,
            a11: mat_det(m),
            a12: 0,
            a20: 0,
            a21: 0,
            a22: mat_det(m),
            d: m.d,
        }),
        mat_mul(mat_adjugate(m), m) == (Mat {
            a00: mat_det(m),
            a01: 0,
            a02: 0,
            a10: 0,
            a11: mat_det(m),
            a12: 0,
            a20: 0,
            a21: 0,
            a22: mat_det(m),
            d: m.d,
        }),
{
    let a00 = m.a00;
    let a01 = m.a01;
    let a02 = m.a02;
    let a10 = m.a10;
    let a11 = m.a11;
    let a12 = m.a12;
    let a20 = m.a20;
    let a21 = m.a21;
    let a22 = m.a22;
    let adj = mat_adjugate(m);
    let d = mat_det(m);
    assert(a00 * adj.a01 + a01 * adj.a11 + a02 * adj.a21 == 0) by (nonlinear_arith)
        requires
            adj.a01 == a02 * a21 - a01 * a22,
            adj.a11 == a00 * a22 - a02 * a20,
            adj.a21 == a01 * a20 - a00 * a21,
    ;
    assert(a00 * adj.a02 + a01 * adj.a12 + a02 * adj.a22 == 0) by (nonlinear_arith)
        requires
            adj.a02 == a01 * a12 - a02 * a11,
            adj.a12 == a02 * a10 - a00 * a12,
            adj.a22 == a00 * a11 - a01 * a10,
    ;
    assert(a10 * adj.a00 + a11 * adj.a10 + a12 * adj.a20 == 0) by (nonlinear_arith)
        requires
            adj.a00 == a11 * a22 - a12 * a21,
            adj.a10 == a12 * a20 - a10 * a22,
            adj.a20 == a10 * a21 - a11 * a20,
    ;
    lemma_mul_congr(adj.a00, a11 * a22 - a12 * a21, a00);
    lemma_mul_congr(adj.a10, a12 * a20 - a10 * a22, a01);
    lemma_mul_congr(adj.a20, a10 * a21 - a11 * a20, a02);
    lemma_mul_congr(adj.a01, a02 * a21 - a01 * a22, a10);
    lemma_mul_congr(adj.a11, a00 * a22 - a02 * a20, a11);
    lemma_mul_congr(adj.a21, a01 * a20 - a00 * a21, a12);
    lemma_cof_diag_mid(a00, a01, a02, a10, a11, a12, a20, a21, a22);
    assert(a10 * adj.a01 + a11 * adj.a11 + a12 * adj.a21 == d);
    assert(a10 * adj.a02 + a11 * adj.a12 + a12 * adj.a22 == 0) by (nonlinear_arith)
        requires
            adj.a02 == a01 * a12 - a02 * a11,
            adj.a12 == a02 * a10 - a00 * a12,
            adj.a22 == a00 * a11 - a01 * a10,
    ;
    assert(a20 * adj.a00 + a21 * adj.a10 + a22 * adj.a20 == 0) by (nonlinear_arith)
        requires
            adj.a00 == a11 * a22 - a12 * a21,
            adj.a10 == a12 * a20 - a10 * a22,
            adj.a20 == a10 * a21 - a11 * a20,
    ;
    assert(a20 * adj.a01 + a21 * adj.a11 + a22 * adj.a21 == 0) by (nonlinear_arith)
        requires
            adj.a01 == a02 * a21 - a01 * a22,
            adj.a11 == a00 * a22 - a02 * a20,
            adj.a21 == a01 * a20 - a00 * a21,
    ;
    lemma_mul_congr(adj.a02, a01 * a12 - a02 * a11, a20);
    lemma_mul_congr(adj.a12, a02 * a10 - a00 * a12, a21);
    lemma_mul_congr(adj.a22, a00 * a11 - a01 * a10, a22);
    lemma_cof_diag_last(a00, a01, a02, a10, a11, a12, a20, a21, a22);
    assert(a20 * adj.a02 + a21 * adj.a12 + a22 * adj.a22 == d);
    assert(adj.a00 * a01 + adj.a01 * a11 + adj.a02 * a21 == 0) by (nonlinear_arith)
        requires
            adj.a00 == a11 * a22 - a12 * a21,
            adj.a01 == a02 * a21 - a01 * a22,
            adj.a02 == a01 * a12 - a02 * a11,
    ;
    assert(adj.a00 * a02 + adj.a01 * a12 + adj.a02 * a22 == 0) by (nonlinear_arith)
        requires
            adj.a00 == a11 * a22 - a12 * a21,
            adj.a01 == a02 * a21 - a01 * a22,
            adj.a02 == a01 * a12 - a02 * a11,
    ;
    assert(adj.a10 * a00 + adj.a11 * a10 + adj.a12 * a20 == 0) by (nonlinear_arith)
        requires
            adj.a10 == a12 * a20 - a10 * a22,
            adj.a11 == a00 * a22 - a02 * a20,
            adj.a12 == a02 * a10 - a00 * a12,
    ;
    assert(adj.a10 * a02 + adj.a11 * a12 + adj.a12 * a22 == 0) by (nonlinear_arith)
        requires
            adj.a10 == a12 * a20 - a10 * a22,
            adj.a11 == a00 * a22 - a02 * a20,
            adj.a12 == a02 * a10 - a00 * a12,
    ;
    assert(adj.a20 * a00 + adj.a21 * a10 + adj.a22 * a20 == 0) by (nonlinear_arith)
        requires
            adj.a20 == a10 * a21 - a11 * a20,
            adj.a21 == a01 * a20 - a00 * a21,
            adj.a22 == a00 * a11 - a01 * a10,
    ;
    assert(adj.a20 * a01 + adj.a21 * a11 + adj.a22 * a21 == 0) by (nonlinear_arith)
        requires
            adj.a20 == a10 * a21 - a11 * a20,
            adj.a21 == a01 * a20 - a00 * a21,
            adj.a22 == a00 * a11 - a01 * a10,
    ;
    lemma_cof_left_first(a00, a01, a02, a10, a11, a12, a20, a21, a22);
    assert(adj.a00 * a00 + adj.a01 * a10 + adj.a02 * a20 == d);
    lemma_cof_left_mid(a00, a01, a02, a10, a11, a12, a20, a21, a22);
    assert(adj.a10 * a01 + adj.a11 * a11 + adj.a12 * a21 == d);
    lemma_cof_left_last(a00, a01, a02, a10, a11, a12, a20, a21, a22);
    assert(adj.a20 * a02 + adj.a21 * a12 + adj.a22 * a22 == d);
}

/// Cancellation of a common non-zero factor.
proof fn lemma_cancel_factor(d: int, x: int, y: int)
    by (nonlinear_arith)
    requires
        d != 0,
        d * x == d * y,
    ensures
        x == y,
{
}

/// `trunc_div` undoes a multiple: for a positive divisor `d`,
/// dividing `d * x` by `d` gives back `x` exactly.
proof fn lemma_trunc_div_multiple(x: int, d: int)
    requires
        0 < d,
    ensures
        trunc_div(d * x, d) == x,
{
    vstd::arithmetic::div_mod::lemma_mod_multiples_basic(x, d);
    lemma_mul_comm(d, x);
    lemma_trunc_div_exact(d * x, d);
    lemma_cancel_factor(d, trunc_div(d * x, d), x);
}

/// One entry of the product of a matrix row with a column of the
/// scaled adjugate: scaling the column by `dd` scales the dot product
/// by `dd`.
proof fn lemma_inv_entry(
    dd: int,
    m0: int,
    m1: int,
    m2: int,
    i0: int,
    i1: int,
    i2: int,
    a0: int,
    a1: int,
    a2: int,
    target: int,
)
    requires
        i0 == a0 * dd,
        i1 == a1 * dd,
        i2 == a2 * dd,
        m0 * a0 + m1 * a1 + m2 * a2 == target,
    ensures
        m0 * i0 + m1 * i1 + m2 * i2 == dd * target,
{
    lemma_mul_congr(i0, a0 * dd, m0);
    lemma_mul_congr(i1, a1 * dd, m1);
    lemma_mul_congr(i2, a2 * dd, m2);
    lemma_mul_shuffle(m0, a0, dd);
    lemma_mul_shuffle(m1, a1, dd);
    lemma_mul_shuffle(m2, a2, dd);
    lemma_mul_dist3_left(dd, m0 * a0, m1 * a1, m2 * a2);
    lemma_mul_congr(m0 * a0 + m1 * a1 + m2 * a2, target, dd);
}

/// The mirror of `lemma_inv_entry`, with the scaled column as the
/// left factor.
proof fn lemma_inv_entry_left(
    dd: int,
    m0: int,
    m1: int,
    m2: int,
    i0: int,
    i1: int,
    i2: int,
    a0: int,
    a1: int,
    a2: int,
    target: int,
)
    requires
        i0 == a0 * dd,
        i1 == a1 * dd,
        i2 == a2 * dd,
        a0 * m0 + a1 * m1 + a2 * m2 == target,
    ensures
        i0 * m0 + i1 * m1 + i2 * m2 == dd * target,
{
    lemma_mul_congr(i0, a0 * dd, m0);
    lemma_mul_congr(i1, a1 * dd, m1);
    lemma_mul_congr(i2, a2 * dd, m2);
    lemma_mul_left_shuffle(a0, dd, m0);
    lemma_mul_left_shuffle(a1, dd, m1);
    lemma_mul_left_shuffle(a2, dd, m2);
    lemma_mul_dist3_left(dd, a0 * m0, a1 * m1, a2 * m2);
    lemma_mul_congr(a0 * m0 + a1 * m1 + a2 * m2, target, dd);
}

/// The entries of a transform combined with its inverse: the diagonal
/// numerators equal the (positive) common denominator, the rest are
/// zero — the identity, written as a rational matrix.
proof fn lemma_combine_inverse_parts(m: Mat)
    requires
        mat_det(m) != 0,
        0 < m.d,
    ensures
        0 < mat_mul(m, mat_inverse(m)).d,
        mat_mul(m, mat_inverse(m)).a00 == mat_mul(m, mat_inverse(m)).d,
        mat_mul(m, mat_inverse(m)).a11 == mat_mul(m, mat_inverse(m)).d,
        mat_mul(m, mat_inverse(m)).a22 == mat_mul(m, mat_inverse(m)).d,
        mat_mul(m, mat_inverse(m)).a01 == 0,
        mat_mul(m, mat_inverse(m)).a02 == 0,
        mat_mul(m, mat_inverse(m)).a10 == 0,
        mat_mul(m, mat_inverse(m)).a12 == 0,
        mat_mul(m, mat_inverse(m)).a20 == 0,
        mat_mul(m, mat_inverse(m)).a21 == 0,
{
    let dt = mat_det(m);
    let adj = mat_adjugate(m);
    let inv = mat_inverse(m);
    let dd: int = if dt > 0 {
        m.d
    } else {
        -m.d
    };
    if dt <= 0 {
        lemma_mul_neg(adj.a00, m.d);
        lemma_mul_neg(adj.a01, m.d);
        lemma_mul_neg(adj.a02, m.d);
        lemma_mul_neg(adj.a10, m.d);
        lemma_mul_neg(adj.a11, m.d);
        lemma_mul_neg(adj.a12, m.d);
        lemma_mul_neg(adj.a20, m.d);
        lemma_mul_neg(adj.a21, m.d);
        lemma_mul_neg(adj.a22, m.d);
    }
    assert(inv.a00 == adj.a00 * dd);
    assert(inv.a01 == adj.a01 * dd);
    assert(inv.a02 == adj.a02 * dd);
    assert(inv.a10 == adj.a10 * dd);
    assert(inv.a11 == adj.a11 * dd);
    assert(inv.a12 == adj.a12 * dd);
    assert(inv.a20 == adj.a20 * dd);
    assert(inv.a21 == adj.a21 * dd);
    assert(inv.a22 == adj.a22 * dd);
    lemma_mul_adjugate(m);
    lemma_inv_entry(dd, m.a00, m.a01, m.a02, inv.a00, inv.a10, inv.a20, adj.a00, adj.a10, adj.a20, dt);
    lemma_inv_entry(dd, m.a00, m.a01, m.a02, inv.a01, inv.a11, inv.a21, adj.a01, adj.a11, adj.a21, 0);
    lemma_inv_entry(dd, m.a00, m.a01, m.a02, inv.a02, inv.a12, inv.a22, adj.a02, adj.a12, adj.a22, 0);
    lemma_inv_entry(dd, m.a10, m.a11, m.a12, inv.a00, inv.a10, inv.a20, adj.a00, adj.a10, adj.a20, 0);
    lemma_inv_entry(dd, m.a10, m.a11, m.a12, inv.a01, inv.a11, inv.a21, adj.a01, adj.a11, adj.a21, dt);
    lemma_inv_entry(dd, m.a10, m.a11, m.a12, inv.a02, inv.a12, inv.a22, adj.a02, adj.a12, adj.a22, 0);
    lemma_inv_entry(dd, m.a20, m.a21, m.a22, inv.a00, inv.a10, inv.a20, adj.a00, adj.a10, adj.a20, 0);
    lemma_inv_entry(dd, m.a20, m.a21, m.a22, inv.a01, inv.a11, inv.a21, adj.a01, adj.a11, adj.a21, 0);
    lemma_inv_entry(dd, m.a20, m.a21, m.a22, inv.a02, inv.a12, inv.a22, adj.a02, adj.a12, adj.a22, dt);
    vstd::arithmetic::mul::lemma_mul_strictly_positive(m.d, inv.d);
    if dt > 0 {
        lemma_mul_congr(inv.d, dt, m.d);
        lemma_mul_congr(dd, m.d, dt);
    } else {
        lemma_mul_congr(inv.d, -dt, m.d);
        lemma_mul_congr(dd, -m.d, dt);
        lemma_mul_neg(m.d, dt);
    }
}

/// The mirror of `lemma_combine_inverse_parts`: the inverse combined
/// with the transform, in that order, is also the identity written as
/// a rational matrix.
proof fn lemma_combine_inverse_parts_left(m: Mat)
    requires
        mat_det(m) != 0,
        0 < m.d,
    ensures
        0 < mat_mul(mat_inverse(m), m).d,
        mat_mul(mat_inverse(m), m).a00 == mat_mul(mat_inverse(m), m).d,
        mat_mul(mat_inverse(m), m).a11 == mat_mul(mat_inverse(m), m).d,
        mat_mul(mat_inverse(m), m).a22 == mat_mul(mat_inverse(m), m).d,
        mat_mul(mat_inverse(m), m).a01 == 0,
        mat_mul(mat_inverse(m), m).a02 == 0,
        mat_mul(mat_inverse(m), m).a10 == 0,
        mat_mul(mat_inverse(m), m).a12 == 0,
        mat_mul(mat_inverse(m), m).a20 == 0,
        mat_mul(mat_inverse(m), m).a21 == 0,
{
    let dt = mat_det(m);
    let adj = mat_adjugate(m);
    let inv = mat_inverse(m);
    let dd: int = if dt > 0 {
        m.d
    } else {
        -m.d
    };
    if dt <= 0 {
        lemma_mul_neg(adj.a00, m.d);
        lemma_mul_neg(adj.a01, m.d);
        lemma_mul_neg(adj.a02, m.d);
        lemma_mul_neg(adj.a10, m.d);
        lemma_mul_neg(adj.a11, m.d);
        lemma_mul_neg(adj.a12, m.d);
        lemma_mul_neg(adj.a20, m.d);
        lemma_mul_neg(adj.a21, m.d);
        lemma_mul_neg(adj.a22, m.d);
    }
    lemma_mul_adjugate(m);
    lemma_inv_entry_left(dd, m.a00, m.a10, m.a20, inv.a00, inv.a01, inv.a02, adj.a00, adj.a01, adj.a02, dt);
    lemma_inv_entry_left(dd, m.a01, m.a11, m.a21, inv.a00, inv.a01, inv.a02, adj.a00, adj.a01, adj.a02, 0);
    lemma_inv_entry_left(dd, m.a02, m.a12, m.a22, inv.a00, inv.a01, inv.a02, adj.a00, adj.a01, adj.a02, 0);
    lemma_inv_entry_left(dd, m.a00, m.a10, m.a20, inv.a10, inv.a11, inv.a12, adj.a10, adj.a11, adj.a12, 0);
    lemma_inv_entry_left(dd, m.a01, m.a11, m.a21, inv.a10, inv.a11, inv.a12, adj.a10, adj.a11, adj.a12, dt);
    lemma_inv_entry_left(dd, m.a02, m.a12, m.a22, inv.a10, inv.a11, inv.a12, adj.a10, adj.a11, adj.a12, 0);
    lemma_inv_entry_left(dd, m.a00, m.a10, m.a20, inv.a20, inv.a21, inv.a22, adj.a20, adj.a21, adj.a22, 0);
    lemma_inv_entry_left(dd, m.a01, m.a11, m.a21, inv.a20, inv.a21, inv.a22, adj.a20, adj.a21, adj.a22, 0);
    lemma_inv_entry_left(dd, m.a02, m.a12, m.a22, inv.a20, inv.a21, inv.a22, adj.a20, adj.a21, adj.a22, dt);
    vstd::arithmetic::mul::lemma_mul_strictly_positive(inv.d, m.d);
    if dt > 0 {
        lemma_mul_congr(inv.d, dt, m.d);
        lemma_mul_congr(dd, m.d, dt);
        lemma_mul_comm(m.d, dt);
    } else {
        lemma_mul_congr(inv.d, -dt, m.d);
        lemma_mul_congr(dd, -m.d, dt);
        lemma_mul_neg(m.d, dt);
        lemma_mul_neg(dt, m.d);
        lemma_mul_comm(m.d, dt);
    }
}

/// Inverse law: combining any non-singular transform with its
/// inverse, in either order, yields the identity, exactly, as a
/// rational matrix.
pub proof fn lemma_combine_inverse(m: Mat)
    requires
        mat_det(m) != 0,
        0 < m.d,
    ensures
        mat_equiv(mat_mul(m, mat_inverse(m)), mat_identity()),
        mat_equiv(mat_mul(mat_inverse(m), m), mat_identity()),
{
    lemma_combine_inverse_parts(m);
    lemma_combine_inverse_parts_left(m);
    let k = mat_mul(m, mat_inverse(m));
    let k2 = mat_mul(mat_inverse(m), m);
    lemma_mul_zero(0, k.d);
    lemma_mul_zero(0, k2.d);
}

/// Inverse law at a point: applying a non-singular transform combined
/// with its inverse moves no point — exactly, since the remaining
/// division is by a divisor that divides.
pub proof fn lemma_inverse_round_trip(m: Mat, p: Pt)
    requires
        mat_det(m) != 0,
        0 < m.d,
    ensures
        map_point(mat_mul(m, mat_inverse(m)), p) == p,
{
    lemma_combine_inverse_parts(m);
    let k = mat_mul(m, mat_inverse(m));
    lemma_mul_congr(k.a00, k.d, p.x);
    lemma_mul_congr(k.a01, 0, p.y);
    lemma_mul_congr(k.a10, 0, p.x);
    lemma_mul_congr(k.a11, k.d, p.y);
    lemma_mul_zero(0, p.x);
    lemma_mul_zero(0, p.y);
    lemma_trunc_div_multiple(p.x, k.d);
    lemma_trunc_div_multiple(p.y, k.d);
}

impl Default for Transform {
    /// Default construction yields the identity.
    fn default() -> (t: Transform)
        ensures
            t@ == mat_identity(),
    {
        Transform::identity()
    }
}

} // verus!
