//! Octonions: eight components, the Cayley–Dickson product over quaternion
//! halves, conjugate and squared norm. Arithmetic is given for `i64`
//! components; construction and layout work for any component type.

use vstd::prelude::*;
use crate::text::{ascii_chars, i64_to_string, signed_decimal};

verus! {

/// An octonion `r + e1·i1 + … + e7·i7`.
#[derive(Debug, Clone, Copy, PartialEq)]
pub struct Octonion<T> {
    pub r: T,
    pub e1: T,
    pub e2: T,
    pub e3: T,
    pub e4: T,
    pub e5: T,
    pub e6: T,
    pub e7: T,
}

/// The components in order `r, e1, …, e7`.
pub open spec fn components<T>(o: Octonion<T>) -> Seq<T> {
    seq![o.r, o.e1, o.e2, o.e3, o.e4, o.e5, o.e6, o.e7]
}

/// The octonion with these eight components.
pub open spec fn from_components<T>(s: Seq<T>) -> Octonion<T>
    recommends
        s.len() == 8,
{
    Octonion { r: s[0], e1: s[1], e2: s[2], e3: s[3], e4: s[4], e5: s[5], e6: s[6], e7: s[7] }
}

/// A quaternion as four integers.
pub type Quat = (int, int, int, int);

/// The Hamilton product of two quaternions.
pub open spec fn q_mul(a: Quat, b: Quat) -> Quat {
    (
        a.0 * b.0 - a.1 * b.1 - a.2 * b.2 - a.3 * b.3,
        a.0 * b.1 + a.1 * b.0 + a.2 * b.3 - a.3 * b.2,
        a.0 * b.2 - a.1 * b.3 + a.2 * b.0 + a.3 * b.1,
        a.0 * b.3 + a.1 * b.2 - a.2 * b.1 + a.3 * b.0,
    )
}

/// The conjugate of a quaternion.
pub open spec fn q_conj(q: Quat) -> Quat {
    (q.0, -q.1, -q.2, -q.3)
}

/// The first quaternion half `(r, e1, e2, e3)`.
pub open spec fn low(o: Octonion<int>) -> Quat {
    (o.r, o.e1, o.e2, o.e3)
}

/// The second quaternion half `(e4, e5, e6, e7)`.
pub open spec fn high(o: Octonion<int>) -> Quat {
    (o.e4, o.e5, o.e6, o.e7)
}

/// The octonion with these two halves.
pub open spec fn join(p: Quat, q: Quat) -> Octonion<int> {
    Octonion { r: p.0, e1: p.1, e2: p.2, e3: p.3, e4: q.0, e5: q.1, e6: q.2, e7: q.3 }
}

/// The product `(a, b)(c, d) = (ac − d·b*, a*·d + c·b)` of octonions given by
/// quaternion halves.
pub open spec fn oct_mul(x: Octonion<int>, y: Octonion<int>) -> Octonion<int> {
    let (a, b, c, d) = (low(x), high(x), low(y), high(y));
    let ac = q_mul(a, c);
    let dcb = q_mul(d, q_conj(b));
    let cad = q_mul(q_conj(a), d);
    let cb = q_mul(c, b);
    join(
        (ac.0 - dcb.0, ac.1 - dcb.1, ac.2 - dcb.2, ac.3 - dcb.3),
        (cad.0 + cb.0, cad.1 + cb.1, cad.2 + cb.2, cad.3 + cb.3),
    )
}

/// The conjugate: the real part kept, the seven imaginary parts negated.
pub open spec fn oct_conj(x: Octonion<int>) -> Octonion<int> {
    Octonion { r: x.r, e1: -x.e1, e2: -x.e2, e3: -x.e3, e4: -x.e4, e5: -x.e5, e6: -x.e6, e7: -x.e7 }
}

/// The sum of the squares of the components.
pub open spec fn oct_norm_sq(x: Octonion<int>) -> int {
    x.r * x.r + x.e1 * x.e1 + x.e2 * x.e2 + x.e3 * x.e3 + x.e4 * x.e4 + x.e5 * x.e5 + x.e6 * x.e6
        + x.e7 * x.e7
}

/// Signs move out of products, and products commute.
pub proof fn lemma_mul_signs(a: int, b: int)
    ensures
        (-a) * b == -(a * b),
        a * (-b) == -(a * b),
        (-a) * (-b) == a * b,
        a * b == b * a,
{
    assert((-a) * b == -(a * b)) by (nonlinear_arith);
    assert(a * (-b) == -(a * b)) by (nonlinear_arith);
    assert((-a) * (-b) == a * b) by (nonlinear_arith);
    assert(a * b == b * a) by (nonlinear_arith);
}

/// `lemma_mul_signs` for every pair of integers.
pub proof fn lemma_mul_signs_all()
    ensures
        forall|a: int, b: int| #[trigger] ((-a) * b) == -(a * b),
        forall|a: int, b: int| #[trigger] (a * (-b)) == -(a * b),
        forall|a: int, b: int| #[trigger] ((-a) * (-b)) == a * b,
        forall|a: int, b: int| #[trigger] (a * b) == b * a,
{
    assert forall|a: int, b: int| #[trigger] ((-a) * b) == -(a * b) by {
        lemma_mul_signs(a, b);
    }
    assert forall|a: int, b: int| #[trigger] (a * (-b)) == -(a * b) by {
        lemma_mul_signs(a, b);
    }
    assert forall|a: int, b: int| #[trigger] ((-a) * (-b)) == a * b by {
        lemma_mul_signs(a, b);
    }
    assert forall|a: int, b: int| #[trigger] (a * b) == b * a by {
        lemma_mul_signs(a, b);
    }
}

/// Conjugating twice gives the octonion back.
pub proof fn law_conj_involution(x: Octonion<int>)
    ensures
        oct_conj(oct_conj(x)) == x,
{
}

/// An octonion and its conjugate have the same squared norm.
pub proof fn law_conj_norm(x: Octonion<int>)
    ensures
        oct_norm_sq(oct_conj(x)) == oct_norm_sq(x),
{
    lemma_mul_signs_all();
}

/// The conjugate of a product is the product of the conjugates in reverse
/// order.
pub proof fn law_conj_of_product(x: Octonion<int>, y: Octonion<int>)
    ensures
        oct_conj(oct_mul(x, y)) == oct_mul(oct_conj(y), oct_conj(x)),
{
    lemma_mul_signs_all();
}

/// An octonion times its conjugate, on either side, is its squared norm as a
/// real octonion (which is what makes the conjugate over the squared norm an
/// inverse).
pub proof fn law_conj_product_is_norm(x: Octonion<int>)
    ensures
        oct_mul(x, oct_conj(x)) == oct_real(oct_norm_sq(x)),
        oct_mul(oct_conj(x), x) == oct_real(oct_norm_sq(x)),
{
    lemma_mul_signs_all();
}

/// A value an `i64` can hold.
pub open spec fn fits(v: int) -> bool {
    i64::MIN <= v <= i64::MAX
}

/// The components of an `i64` octonion as integers.
pub open spec fn oct_int(o: Octonion<i64>) -> Octonion<int> {
    Octonion {
        r: o.r as int,
        e1: o.e1 as int,
        e2: o.e2 as int,
        e3: o.e3 as int,
        e4: o.e4 as int,
        e5: o.e5 as int,
        e6: o.e6 as int,
        e7: o.e7 as int,
    }
}

/// An integer octonion cut to `i64` components.
pub open spec fn oct_i64(o: Octonion<int>) -> Octonion<i64> {
    Octonion {
        r: o.r as i64,
        e1: o.e1 as i64,
        e2: o.e2 as i64,
        e3: o.e3 as i64,
        e4: o.e4 as i64,
        e5: o.e5 as i64,
        e6: o.e6 as i64,
        e7: o.e7 as i64,
    }
}

/// Every component fits in an `i64`.
pub open spec fn all_fit(o: Octonion<int>) -> bool {
    fits(o.r) && fits(o.e1) && fits(o.e2) && fits(o.e3) && fits(o.e4) && fits(o.e5) && fits(o.e6)
        && fits(o.e7)
}

/// A quaternion of `i64` components as integers.
pub open spec fn q_int(q: (i64, i64, i64, i64)) -> Quat {
    (q.0 as int, q.1 as int, q.2 as int, q.3 as int)
}

/// Negating the imaginary parts of a quaternion stays in `i64`.
pub open spec fn q_conj_fits(q: Quat) -> bool {
    fits(-q.1) && fits(-q.2) && fits(-q.3)
}

/// Every product and every partial sum of the Hamilton product, in the order
/// they are computed, stays in `i64`.
pub open spec fn q_mul_fits(a: Quat, b: Quat) -> bool {
    &&& fits(a.0 * b.0) && fits(a.1 * b.1) && fits(a.2 * b.2) && fits(a.3 * b.3)
    &&& fits(a.0 * b.1) && fits(a.1 * b.0) && fits(a.2 * b.3) && fits(a.3 * b.2)
    &&& fits(a.0 * b.2) && fits(a.1 * b.3) && fits(a.2 * b.0) && fits(a.3 * b.1)
    &&& fits(a.0 * b.3) && fits(a.1 * b.2) && fits(a.2 * b.1) && fits(a.3 * b.0)
    &&& fits(a.0 * b.0 - a.1 * b.1) && fits(a.0 * b.0 - a.1 * b.1 - a.2 * b.2)
    &&& fits(a.0 * b.1 + a.1 * b.0) && fits(a.0 * b.1 + a.1 * b.0 + a.2 * b.3)
    &&& fits(a.0 * b.2 - a.1 * b.3) && fits(a.0 * b.2 - a.1 * b.3 + a.2 * b.0)
    &&& fits(a.0 * b.3 + a.1 * b.2) && fits(a.0 * b.3 + a.1 * b.2 - a.2 * b.1)
    &&& fits(q_mul(a, b).0) && fits(q_mul(a, b).1) && fits(q_mul(a, b).2) && fits(q_mul(a, b).3)
}

/// The product of two `i64` octonions is computed without leaving `i64`:
/// the four quaternion products, the conjugates they use, and the final
/// differences and sums all fit.
pub open spec fn mul_fits(x: Octonion<int>, y: Octonion<int>) -> bool {
    let (a, b, c, d) = (low(x), high(x), low(y), high(y));
    let ac = q_mul(a, c);
    let dcb = q_mul(d, q_conj(b));
    let cad = q_mul(q_conj(a), d);
    let cb = q_mul(c, b);
    &&& q_mul_fits(a, c)
    &&& q_conj_fits(b)
    &&& q_mul_fits(d, q_conj(b))
    &&& q_conj_fits(a)
    &&& q_mul_fits(q_conj(a), d)
    &&& q_mul_fits(c, b)
    &&& fits(ac.0 - dcb.0) && fits(ac.1 - dcb.1) && fits(ac.2 - dcb.2) && fits(ac.3 - dcb.3)
    &&& fits(cad.0 + cb.0) && fits(cad.1 + cb.1) && fits(cad.2 + cb.2) && fits(cad.3 + cb.3)
}

/// Component-wise sum.
pub open spec fn oct_add(x: Octonion<int>, y: Octonion<int>) -> Octonion<int> {
    Octonion {
        r: x.r + y.r,
        e1: x.e1 + y.e1,
        e2: x.e2 + y.e2,
        e3: x.e3 + y.e3,
        e4: x.e4 + y.e4,
        e5: x.e5 + y.e5,
        e6: x.e6 + y.e6,
        e7: x.e7 + y.e7,
    }
}

/// Component-wise difference.
pub open spec fn oct_sub(x: Octonion<int>, y: Octonion<int>) -> Octonion<int> {
    Octonion {
        r: x.r - y.r,
        e1: x.e1 - y.e1,
        e2: x.e2 - y.e2,
        e3: x.e3 - y.e3,
        e4: x.e4 - y.e4,
        e5: x.e5 - y.e5,
        e6: x.e6 - y.e6,
        e7: x.e7 - y.e7,
    }
}

/// Every component negated.
pub open spec fn oct_neg(x: Octonion<int>) -> Octonion<int> {
    Octonion { r: -x.r, e1: -x.e1, e2: -x.e2, e3: -x.e3, e4: -x.e4, e5: -x.e5, e6: -x.e6, e7: -x.e7 }
}

/// The octonion `r` with no imaginary part.
pub open spec fn oct_real(r: int) -> Octonion<int> {
    Octonion { r, e1: 0, e2: 0, e3: 0, e4: 0, e5: 0, e6: 0, e7: 0 }
}

/// One is a unit on both sides of the product.
pub proof fn law_unit(x: Octonion<int>)
    ensures
        oct_mul(oct_real(1), x) == x,
        oct_mul(x, oct_real(1)) == x,
{
    lemma_mul_signs_all();
    let one = oct_real(1);
    assert(q_mul(low(one), low(x)) == low(x));
    assert(q_mul(q_conj(low(one)), high(x)) == high(x));
    assert(q_mul(high(x), q_conj(high(one))) == (0int, 0int, 0int, 0int));
    assert(q_mul(low(x), high(one)) == (0int, 0int, 0int, 0int));
}

/// Subtracting is adding the negation, and an octonion plus its negation is
/// zero.
pub proof fn law_sub_is_add_neg(x: Octonion<int>, y: Octonion<int>)
    ensures
        oct_sub(x, y) == oct_add(x, oct_neg(y)),
        oct_add(x, oct_neg(x)) == oct_real(0),
{
}

/// The Hamilton product of `i64` quaternions.
fn quaternion_mul(a: (i64, i64, i64, i64), b: (i64, i64, i64, i64)) -> (r: (i64, i64, i64, i64))
    requires
        q_mul_fits(q_int(a), q_int(b)),
    ensures
        q_int(r) == q_mul(q_int(a), q_int(b)),
{
    let (a1, a2, a3, a4) = a;
    let (b1, b2, b3, b4) = b;
    (
        a1 * b1 - a2 * b2 - a3 * b3 - a4 * b4,
        a1 * b2 + a2 * b1 + a3 * b4 - a4 * b3,
        a1 * b3 - a2 * b4 + a3 * b1 + a4 * b2,
        a1 * b4 + a2 * b3 - a3 * b2 + a4 * b1,
    )
}

/// The conjugate of an `i64` quaternion.
fn quaternion_conj(q: (i64, i64, i64, i64)) -> (r: (i64, i64, i64, i64))
    requires
        q_conj_fits(q_int(q)),
    ensures
        q_int(r) == q_conj(q_int(q)),
{
    (q.0, -q.1, -q.2, -q.3)
}

impl<T> Octonion<T> {
    /// The octonion with these components.
    pub fn new(r: T, e1: T, e2: T, e3: T, e4: T, e5: T, e6: T, e7: T) -> (o: Self)
        ensures
            o == (Octonion { r, e1, e2, e3, e4, e5, e6, e7 }),
    {
        Octonion { r, e1, e2, e3, e4, e5, e6, e7 }
    }

    /// The components in order `r, e1, …, e7`.
    pub fn to_array(&self) -> (a: [T; 8])
        where
            T: Copy,
        ensures
            a@ == components(*self),
    {
        let a = [self.r, self.e1, self.e2, self.e3, self.e4, self.e5, self.e6, self.e7];
        assert(a@ =~= components(*self));
        a
    }

    /// The octonion whose components, in order, are those of the array.
    pub fn from_array(arr: [T; 8]) -> (o: Self)
        where
            T: Copy,
        ensures
            o == from_components(arr@),
    {
        Octonion {
            r: arr[0],
            e1: arr[1],
            e2: arr[2],
            e3: arr[3],
            e4: arr[4],
            e5: arr[5],
            e6: arr[6],
            e7: arr[7],
        }
    }
}

/// Reading the components out and back in gives the same octonion, and the
/// other way round.
pub proof fn law_array_roundtrip<T>(o: Octonion<T>, s: Seq<T>)
    requires
        s.len() == 8,
    ensures
        from_components(components(o)) == o,
        components(from_components(s)) == s,
{
    assert(components(from_components(s)) =~= s);
}

impl Octonion<i64> {
    /// The octonion `r` with no imaginary part.
    pub fn from_real(r: i64) -> (o: Self)
        ensures
            oct_int(o) == oct_real(r as int),
    {
        Octonion { r, e1: 0, e2: 0, e3: 0, e4: 0, e5: 0, e6: 0, e7: 0 }
    }

    /// The conjugate: the imaginary parts negated.
    pub fn conj(&self) -> (o: Self)
        requires
            all_fit(oct_conj(oct_int(*self))),
        ensures
            oct_int(o) == oct_conj(oct_int(*self)),
    {
        Octonion {
            r: self.r,
            e1: -self.e1,
            e2: -self.e2,
            e3: -self.e3,
            e4: -self.e4,
            e5: -self.e5,
            e6: -self.e6,
            e7: -self.e7,
        }
    }

    /// The sum of the squares of the components.
    pub fn norm_sq(&self) -> (n: i64)
        requires
            oct_norm_sq(oct_int(*self)) <= i64::MAX,
        ensures
            n == oct_norm_sq(oct_int(*self)),
    {
        proof {
            lemma_square_nonneg(self.r as int);
            lemma_square_nonneg(self.e1 as int);
            lemma_square_nonneg(self.e2 as int);
            lemma_square_nonneg(self.e3 as int);
            lemma_square_nonneg(self.e4 as int);
            lemma_square_nonneg(self.e5 as int);
            lemma_square_nonneg(self.e6 as int);
            lemma_square_nonneg(self.e7 as int);
        }
        self.r * self.r + self.e1 * self.e1 + self.e2 * self.e2 + self.e3 * self.e3 + self.e4
            * self.e4 + self.e5 * self.e5 + self.e6 * self.e6 + self.e7 * self.e7
    }
}

/// A square is never negative.
pub proof fn lemma_square_nonneg(v: int)
    ensures
        v * v >= 0,
{
    assert(v * v >= 0) by (nonlinear_arith);
}

impl vstd::std_specs::ops::MulSpecImpl for Octonion<i64> {
    open spec fn obeys_mul_spec() -> bool {
        true
    }

    open spec fn mul_req(self, rhs: Self) -> bool {
        mul_fits(oct_int(self), oct_int(rhs))
    }

    open spec fn mul_spec(self, rhs: Self) -> Self {
        oct_i64(oct_mul(oct_int(self), oct_int(rhs)))
    }
}

impl core::ops::Mul for Octonion<i64> {
    type Output = Self;

    /// The Cayley–Dickson product over the quaternion halves.
    fn mul(self, rhs: Self) -> (o: Self)
        ensures
            oct_int(o) == oct_mul(oct_int(self), oct_int(rhs)),
    {
        let a = (self.r, self.e1, self.e2, self.e3);
        let b = (self.e4, self.e5, self.e6, self.e7);
        let c = (rhs.r, rhs.e1, rhs.e2, rhs.e3);
        let d = (rhs.e4, rhs.e5, rhs.e6, rhs.e7);
        let ac = quaternion_mul(a, c);
        let d_conj_b = quaternion_mul(d, quaternion_conj(b));
        let conj_a_d = quaternion_mul(quaternion_conj(a), d);
        let c_b = quaternion_mul(c, b);
        let real_q = (ac.0 - d_conj_b.0, ac.1 - d_conj_b.1, ac.2 - d_conj_b.2, ac.3 - d_conj_b.3);
        let imag_q = (conj_a_d.0 + c_b.0, conj_a_d.1 + c_b.1, conj_a_d.2 + c_b.2, conj_a_d.3 + c_b.3);
        Octonion {
            r: real_q.0,
            e1: real_q.1,
            e2: real_q.2,
            e3: real_q.3,
            e4: imag_q.0,
            e5: imag_q.1,
            e6: imag_q.2,
            e7: imag_q.3,
        }
    }
}

impl vstd::std_specs::ops::AddSpecImpl for Octonion<i64> {
    open spec fn obeys_add_spec() -> bool {
        true
    }

    open spec fn add_req(self, rhs: Self) -> bool {
        all_fit(oct_add(oct_int(self), oct_int(rhs)))
    }

    open spec fn add_spec(self, rhs: Self) -> Self {
        oct_i64(oct_add(oct_int(self), oct_int(rhs)))
    }
}

impl core::ops::Add for Octonion<i64> {
    type Output = Self;

    /// Component-wise sum.
    fn add(self, rhs: Self) -> (o: Self)
        ensures
            oct_int(o) == oct_add(oct_int(self), oct_int(rhs)),
    {
        Octonion {
            r: self.r + rhs.r,
            e1: self.e1 + rhs.e1,
            e2: self.e2 + rhs.e2,
            e3: self.e3 + rhs.e3,
            e4: self.e4 + rhs.e4,
            e5: self.e5 + rhs.e5,
            e6: self.e6 + rhs.e6,
            e7: self.e7 + rhs.e7,
        }
    }
}

impl vstd::std_specs::ops::SubSpecImpl for Octonion<i64> {
    open spec fn obeys_sub_spec() -> bool {
        true
    }

    open spec fn sub_req(self, rhs: Self) -> bool {
        all_fit(oct_sub(oct_int(self), oct_int(rhs)))
    }

    open spec fn sub_spec(self, rhs: Self) -> Self {
        oct_i64(oct_sub(oct_int(self), oct_int(rhs)))
    }
}

impl core::ops::Sub for Octonion<i64> {
    type Output = Self;

    /// Component-wise difference.
    fn sub(self, rhs: Self) -> (o: Self)
        ensures
            oct_int(o) == oct_sub(oct_int(self), oct_int(rhs)),
    {
        Octonion {
            r: self.r - rhs.r,
            e1: self.e1 - rhs.e1,
            e2: self.e2 - rhs.e2,
            e3: self.e3 - rhs.e3,
            e4: self.e4 - rhs.e4,
            e5: self.e5 - rhs.e5,
            e6: self.e6 - rhs.e6,
            e7: self.e7 - rhs.e7,
        }
    }
}

impl vstd::std_specs::ops::NegSpecImpl for Octonion<i64> {
    open spec fn obeys_neg_spec() -> bool {
        true
    }

    open spec fn neg_req(self) -> bool {
        all_fit(oct_neg(oct_int(self)))
    }

    open spec fn neg_spec(self) -> Self {
        oct_i64(oct_neg(oct_int(self)))
    }
}

impl core::ops::Neg for Octonion<i64> {
    type Output = Self;

    /// Every component negated.
    fn neg(self) -> (o: Self)
        ensures
            oct_int(o) == oct_neg(oct_int(self)),
    {
        Octonion {
            r: -self.r,
            e1: -self.e1,
            e2: -self.e2,
            e3: -self.e3,
            e4: -self.e4,
            e5: -self.e5,
            e6: -self.e6,
            e7: -self.e7,
        }
    }
}

/// A layer that multiplies each input by its weight and adds the bias.
pub struct OctonionLinear<T> {
    pub weights: Vec<Octonion<T>>,
    pub bias: Octonion<T>,
}

/// The output of the layer at position `i`: weight times input, plus bias.
pub open spec fn layer_output(w: Octonion<i64>, x: Octonion<i64>, bias: Octonion<i64>) -> Octonion<int> {
    oct_add(oct_mul(oct_int(w), oct_int(x)), oct_int(bias))
}

/// The layer's arithmetic stays in `i64` at position `i`.
pub open spec fn layer_fits(w: Octonion<i64>, x: Octonion<i64>, bias: Octonion<i64>) -> bool {
    mul_fits(oct_int(w), oct_int(x)) && all_fit(layer_output(w, x, bias))
}

impl OctonionLinear<i64> {
    /// `weights[i] * input[i] + bias` for each position both sequences have.
    pub fn forward(&self, input: &[Octonion<i64>]) -> (out: Vec<Octonion<i64>>)
        requires
            forall|i: int|
                0 <= i < input@.len() && i < self.weights@.len() ==> layer_fits(
                    #[trigger] self.weights@[i],
                    input@[i],
                    self.bias,
                ),
        ensures
            out@.len() == if input@.len() < self.weights@.len() {
                input@.len()
            } else {
                self.weights@.len()
            },
            forall|i: int|
                0 <= i < out@.len() ==> oct_int(#[trigger] out@[i]) == layer_output(
                    self.weights@[i],
                    input@[i],
                    self.bias,
                ),
    {
        let n = if input.len() < self.weights.len() {
            input.len()
        } else {
            self.weights.len()
        };
        let mut out: Vec<Octonion<i64>> = Vec::new();
        let mut i: usize = 0;
        while i < n
            invariant
                i <= n,
                n <= input@.len(),
                n <= self.weights@.len(),
                out@.len() == i,
                forall|j: int|
                    0 <= j < input@.len() && j < self.weights@.len() ==> layer_fits(
                        #[trigger] self.weights@[j],
                        input@[j],
                        self.bias,
                    ),
                forall|j: int|
                    0 <= j < i ==> oct_int(#[trigger] out@[j]) == layer_output(
                        self.weights@[j],
                        input@[j],
                        self.bias,
                    ),
            decreases n - i,
        {
            let w = self.weights[i];
            let x = input[i];
            assert(layer_fits(self.weights@[i as int], input@[i as int], self.bias));
            let wx = w * x;
            let y = wx + self.bias;
            out.push(y);
            i = i + 1;
        }
        out
    }
}

/// A quaternion `w + x·i + y·j + z·k`.
#[derive(Debug, Clone, Copy, PartialEq)]
pub struct Quaternion<T> {
    pub w: T,
    pub x: T,
    pub y: T,
    pub z: T,
}

impl<T: Copy> vstd::std_specs::convert::FromSpecImpl<Octonion<T>> for Quaternion<T> {
    open spec fn obeys_from_spec() -> bool {
        true
    }

    open spec fn from_spec(o: Octonion<T>) -> Self {
        Quaternion { w: o.r, x: o.e1, y: o.e2, z: o.e3 }
    }
}

impl<T: Copy> From<Octonion<T>> for Quaternion<T> {
    /// The first quaternion half of an octonion.
    fn from(o: Octonion<T>) -> Self {
        Quaternion { w: o.r, x: o.e1, y: o.e2, z: o.e3 }
    }
}

impl vstd::std_specs::convert::FromSpecImpl<Quaternion<i64>> for Octonion<i64> {
    open spec fn obeys_from_spec() -> bool {
        true
    }

    open spec fn from_spec(q: Quaternion<i64>) -> Self {
        Octonion { r: q.w, e1: q.x, e2: q.y, e3: q.z, e4: 0, e5: 0, e6: 0, e7: 0 }
    }
}

impl From<Quaternion<i64>> for Octonion<i64> {
    /// The octonion whose first half is the quaternion and whose second half
    /// is zero.
    fn from(q: Quaternion<i64>) -> Self {
        Octonion { r: q.w, e1: q.x, e2: q.y, e3: q.z, e4: 0, e5: 0, e6: 0, e7: 0 }
    }
}

impl Default for Octonion<i64> {
    /// The zero octonion.
    fn default() -> (o: Self)
        ensures
            oct_int(o) == oct_real(0),
    {
        Octonion { r: 0, e1: 0, e2: 0, e3: 0, e4: 0, e5: 0, e6: 0, e7: 0 }
    }
}

/// The decimal text of a component.
pub open spec fn component_text(v: i64) -> Seq<char> {
    ascii_chars(signed_decimal(v as int))
}

/// The display form `(r + e1e1 + e2e2 + … + e7e7)` with each component in
/// decimal.
pub open spec fn octonion_text(o: Octonion<i64>) -> Seq<char> {
    "("@ + component_text(o.r) + " + "@ + component_text(o.e1) + "e1 + "@ + component_text(o.e2)
        + "e2 + "@ + component_text(o.e3) + "e3 + "@ + component_text(o.e4) + "e4 + "@
        + component_text(o.e5) + "e5 + "@ + component_text(o.e6) + "e6 + "@ + component_text(o.e7)
        + "e7)"@
}

impl Octonion<i64> {
    /// The display form `(r + e1e1 + … + e7e7)`.
    pub fn to_string(&self) -> (s: String)
        ensures
            s@ == octonion_text(*self),
    {
        let mut s = String::from_str("(");
        s.append(i64_to_string(self.r).as_str());
        s.append(" + ");
        s.append(i64_to_string(self.e1).as_str());
        s.append("e1 + ");
        s.append(i64_to_string(self.e2).as_str());
        s.append("e2 + ");
        s.append(i64_to_string(self.e3).as_str());
        s.append("e3 + ");
        s.append(i64_to_string(self.e4).as_str());
        s.append("e4 + ");
        s.append(i64_to_string(self.e5).as_str());
        s.append("e5 + ");
        s.append(i64_to_string(self.e6).as_str());
        s.append("e6 + ");
        s.append(i64_to_string(self.e7).as_str());
        s.append("e7)");
        s
    }
}

/// The square of a sum of eight terms.
pub proof fn lemma_square8(t0: int, t1: int, t2: int, t3: int, t4: int, t5: int, t6: int, t7: int)
    by (nonlinear_arith)
    ensures
        (t0 + t1 + t2 + t3 + t4 + t5 + t6 + t7) * (t0 + t1 + t2 + t3 + t4 + t5 + t6 + t7)
            == t0 * t0 + t1 * t1 + t2 * t2 + t3 * t3 + t4 * t4 + t5 * t5 + t6 * t6 + t7 * t7
            + 2 * (t0 * t1 + t0 * t2 + t0 * t3 + t0 * t4 + t0 * t5 + t0 * t6 + t0 * t7
            + t1 * t2 + t1 * t3 + t1 * t4 + t1 * t5 + t1 * t6 + t1 * t7
            + t2 * t3 + t2 * t4 + t2 * t5 + t2 * t6 + t2 * t7
            + t3 * t4 + t3 * t5 + t3 * t6 + t3 * t7
            + t4 * t5 + t4 * t6 + t4 * t7
            + t5 * t6 + t5 * t7
            + t6 * t7),
{
}

/// A sum of eight terms times a factor, term by term.
pub proof fn lemma_distribute_left(
    a0: int, a1: int, a2: int, a3: int, a4: int, a5: int, a6: int, a7: int,
    b: int,
)
    by (nonlinear_arith)
    ensures
        (a0 + a1 + a2 + a3 + a4 + a5 + a6 + a7) * b
            == a0 * b + a1 * b + a2 * b + a3 * b + a4 * b + a5 * b + a6 * b + a7 * b,
{
}

/// A factor times a sum of eight terms, term by term.
pub proof fn lemma_distribute_right(
    a: int,
    b0: int, b1: int, b2: int, b3: int, b4: int, b5: int, b6: int, b7: int,
)
    by (nonlinear_arith)
    ensures
        a * (b0 + b1 + b2 + b3 + b4 + b5 + b6 + b7)
            == a * b0 + a * b1 + a * b2 + a * b3 + a * b4 + a * b5 + a * b6 + a * b7,
{
}

/// The product of two sums of eight terms, term by term.
pub proof fn lemma_distribute8(
    a0: int, a1: int, a2: int, a3: int, a4: int, a5: int, a6: int, a7: int,
    b0: int, b1: int, b2: int, b3: int, b4: int, b5: int, b6: int, b7: int,
)
    ensures
        (a0 + a1 + a2 + a3 + a4 + a5 + a6 + a7) * (b0 + b1 + b2 + b3 + b4 + b5 + b6 + b7)
            == a0 * b0 + a0 * b1 + a0 * b2 + a0 * b3 + a0 * b4 + a0 * b5 + a0 * b6 + a0 * b7
            + a1 * b0 + a1 * b1 + a1 * b2 + a1 * b3 + a1 * b4 + a1 * b5 + a1 * b6 + a1 * b7
            + a2 * b0 + a2 * b1 + a2 * b2 + a2 * b3 + a2 * b4 + a2 * b5 + a2 * b6 + a2 * b7
            + a3 * b0 + a3 * b1 + a3 * b2 + a3 * b3 + a3 * b4 + a3 * b5 + a3 * b6 + a3 * b7
            + a4 * b0 + a4 * b1 + a4 * b2 + a4 * b3 + a4 * b4 + a4 * b5 + a4 * b6 + a4 * b7
            + a5 * b0 + a5 * b1 + a5 * b2 + a5 * b3 + a5 * b4 + a5 * b5 + a5 * b6 + a5 * b7
            + a6 * b0 + a6 * b1 + a6 * b2 + a6 * b3 + a6 * b4 + a6 * b5 + a6 * b6 + a6 * b7
            + a7 * b0 + a7 * b1 + a7 * b2 + a7 * b3 + a7 * b4 + a7 * b5 + a7 * b6 + a7 * b7,
{
    let b = b0 + b1 + b2 + b3 + b4 + b5 + b6 + b7;
    lemma_distribute_left(a0, a1, a2, a3, a4, a5, a6, a7, b);
    lemma_distribute_right(a0, b0, b1, b2, b3, b4, b5, b6, b7);
    lemma_distribute_right(a1, b0, b1, b2, b3, b4, b5, b6, b7);
    lemma_distribute_right(a2, b0, b1, b2, b3, b4, b5, b6, b7);
    lemma_distribute_right(a3, b0, b1, b2, b3, b4, b5, b6, b7);
    lemma_distribute_right(a4, b0, b1, b2, b3, b4, b5, b6, b7);
    lemma_distribute_right(a5, b0, b1, b2, b3, b4, b5, b6, b7);
    lemma_distribute_right(a6, b0, b1, b2, b3, b4, b5, b6, b7);
    lemma_distribute_right(a7, b0, b1, b2, b3, b4, b5, b6, b7);
}

/// The square of a product is the product of the squares.
pub proof fn lemma_square_of_product(a: int, b: int)
    ensures
        (a * b) * (a * b) == (a * a) * (b * b),
{
    assert((a * b) * (a * b) == (a * a) * (b * b)) by (nonlinear_arith);
}

/// A product of two products regrouped: the first factors together and the
/// second factors together, in either order.
pub proof fn lemma_cross(p: int, q: int, r: int, s: int)
    ensures
        (p * q) * (r * s) == (p * r) * (q * s),
        (p * q) * (r * s) == (r * p) * (q * s),
        (p * q) * (r * s) == (p * r) * (s * q),
        (p * q) * (r * s) == (r * p) * (s * q),
{
    assert((p * q) * (r * s) == (p * r) * (q * s)) by (nonlinear_arith);
    assert((p * r) == (r * p)) by (nonlinear_arith);
    assert((q * s) == (s * q)) by (nonlinear_arith);
}

/// The components of a product as signed sums of component products.
pub proof fn lemma_mul_components(x: Octonion<int>, y: Octonion<int>)
    ensures
        oct_mul(x, y).r == (x.r * y.r)
            + -(x.e1 * y.e1)
            + -(x.e2 * y.e2)
            + -(x.e3 * y.e3)
            + -(x.e4 * y.e4)
            + -(x.e5 * y.e5)
            + -(x.e6 * y.e6)
            + -(x.e7 * y.e7),
        oct_mul(x, y).e1 == (x.r * y.e1)
            + (x.e1 * y.r)
            + (x.e2 * y.e3)
            + -(x.e3 * y.e2)
            + -(x.e4 * y.e5)
            + (x.e5 * y.e4)
            + -(x.e6 * y.e7)
            + (x.e7 * y.e6),
        oct_mul(x, y).e2 == (x.r * y.e2)
            + -(x.e1 * y.e3)
            + (x.e2 * y.r)
            + (x.e3 * y.e1)
            + -(x.e4 * y.e6)
            + (x.e5 * y.e7)
            + (x.e6 * y.e4)
            + -(x.e7 * y.e5),
        oct_mul(x, y).e3 == (x.r * y.e3)
            + (x.e1 * y.e2)
            + -(x.e2 * y.e1)
            + (x.e3 * y.r)
            + -(x.e4 * y.e7)
            + -(x.e5 * y.e6)
            + (x.e6 * y.e5)
            + (x.e7 * y.e4),
        oct_mul(x, y).e4 == (x.r * y.e4)
            + (x.e1 * y.e5)
            + (x.e2 * y.e6)
            + (x.e3 * y.e7)
            + (x.e4 * y.r)
            + -(x.e5 * y.e1)
            + -(x.e6 * y.e2)
            + -(x.e7 * y.e3),
        oct_mul(x, y).e5 == (x.r * y.e5)
            + -(x.e1 * y.e4)
            + -(x.e2 * y.e7)
            + (x.e3 * y.e6)
            + (x.e4 * y.e1)
            + (x.e5 * y.r)
            + -(x.e6 * y.e3)
            + (x.e7 * y.e2),
        oct_mul(x, y).e6 == (x.r * y.e6)
            + (x.e1 * y.e7)
            + -(x.e2 * y.e4)
            + -(x.e3 * y.e5)
            + (x.e4 * y.e2)
            + (x.e5 * y.e3)
            + (x.e6 * y.r)
            + -(x.e7 * y.e1),
        oct_mul(x, y).e7 == (x.r * y.e7)
            + -(x.e1 * y.e6)
            + (x.e2 * y.e5)
            + -(x.e3 * y.e4)
            + (x.e4 * y.e3)
            + -(x.e5 * y.e2)
            + (x.e6 * y.e1)
            + (x.e7 * y.r),
{
    lemma_mul_signs_all();
}

/// The squared norm of a product is the product of the squared norms (the
/// octonions form a composition algebra): for `i64` octonions, where nothing
/// overflows, `(x * y).norm_sq() == x.norm_sq() * y.norm_sq()`, since `*` and
/// `norm_sq` compute `oct_mul` and `oct_norm_sq` of the components.
pub proof fn law_norm_multiplicative(x: Octonion<int>, y: Octonion<int>)
    ensures
        oct_norm_sq(oct_mul(x, y)) == oct_norm_sq(x) * oct_norm_sq(y),
{
    lemma_mul_components(x, y);
    lemma_square8(
        (x.r * y.r),
        -(x.e1 * y.e1),
        -(x.e2 * y.e2),
        -(x.e3 * y.e3),
        -(x.e4 * y.e4),
        -(x.e5 * y.e5),
        -(x.e6 * y.e6),
        -(x.e7 * y.e7),
    );
    lemma_mul_signs(x.r * y.r, x.r * y.r);
    lemma_mul_signs(x.r * y.r, x.e1 * y.e1);
    lemma_cross(x.r, y.r, x.e1, y.e1);
    lemma_mul_signs(x.r * y.r, x.e2 * y.e2);
    lemma_cross(x.r, y.r, x.e2, y.e2);
    lemma_mul_signs(x.r * y.r, x.e3 * y.e3);
    lemma_cross(x.r, y.r, x.e3, y.e3);
    lemma_mul_signs(x.r * y.r, x.e4 * y.e4);
    lemma_cross(x.r, y.r, x.e4, y.e4);
    lemma_mul_signs(x.r * y.r, x.e5 * y.e5);
    lemma_cross(x.r, y.r, x.e5, y.e5);
    lemma_mul_signs(x.r * y.r, x.e6 * y.e6);
    lemma_cross(x.r, y.r, x.e6, y.e6);
    lemma_mul_signs(x.r * y.r, x.e7 * y.e7);
    lemma_cross(x.r, y.r, x.e7, y.e7);
    lemma_mul_signs(x.e1 * y.e1, x.e1 * y.e1);
    lemma_mul_signs(x.e1 * y.e1, x.e2 * y.e2);
    lemma_cross(x.e1, y.e1, x.e2, y.e2);
    lemma_mul_signs(x.e1 * y.e1, x.e3 * y.e3);
    lemma_cross(x.e1, y.e1, x.e3, y.e3);
    lemma_mul_signs(x.e1 * y.e1, x.e4 * y.e4);
    lemma_cross(x.e1, y.e1, x.e4, y.e4);
    lemma_mul_signs(x.e1 * y.e1, x.e5 * y.e5);
    lemma_cross(x.e1, y.e1, x.e5, y.e5);
    lemma_mul_signs(x.e1 * y.e1, x.e6 * y.e6);
    lemma_cross(x.e1, y.e1, x.e6, y.e6);
    lemma_mul_signs(x.e1 * y.e1, x.e7 * y.e7);
    lemma_cross(x.e1, y.e1, x.e7, y.e7);
    lemma_mul_signs(x.e2 * y.e2, x.e2 * y.e2);
    lemma_mul_signs(x.e2 * y.e2, x.e3 * y.e3);
    lemma_cross(x.e2, y.e2, x.e3, y.e3);
    lemma_mul_signs(x.e2 * y.e2, x.e4 * y.e4);
    lemma_cross(x.e2, y.e2, x.e4, y.e4);
    lemma_mul_signs(x.e2 * y.e2, x.e5 * y.e5);
    lemma_cross(x.e2, y.e2, x.e5, y.e5);
    lemma_mul_signs(x.e2 * y.e2, x.e6 * y.e6);
    lemma_cross(x.e2, y.e2, x.e6, y.e6);
    lemma_mul_signs(x.e2 * y.e2, x.e7 * y.e7);
    lemma_cross(x.e2, y.e2, x.e7, y.e7);
    lemma_mul_signs(x.e3 * y.e3, x.e3 * y.e3);
    lemma_mul_signs(x.e3 * y.e3, x.e4 * y.e4);
    lemma_cross(x.e3, y.e3, x.e4, y.e4);
    lemma_mul_signs(x.e3 * y.e3, x.e5 * y.e5);
    lemma_cross(x.e3, y.e3, x.e5, y.e5);
    lemma_mul_signs(x.e3 * y.e3, x.e6 * y.e6);
    lemma_cross(x.e3, y.e3, x.e6, y.e6);
    lemma_mul_signs(x.e3 * y.e3, x.e7 * y.e7);
    lemma_cross(x.e3, y.e3, x.e7, y.e7);
    lemma_mul_signs(x.e4 * y.e4, x.e4 * y.e4);
    lemma_mul_signs(x.e4 * y.e4, x.e5 * y.e5);
    lemma_cross(x.e4, y.e4, x.e5, y.e5);
    lemma_mul_signs(x.e4 * y.e4, x.e6 * y.e6);
    lemma_cross(x.e4, y.e4, x.e6, y.e6);
    lemma_mul_signs(x.e4 * y.e4, x.e7 * y.e7);
    lemma_cross(x.e4, y.e4, x.e7, y.e7);
    lemma_mul_signs(x.e5 * y.e5, x.e5 * y.e5);
    lemma_mul_signs(x.e5 * y.e5, x.e6 * y.e6);
    lemma_cross(x.e5, y.e5, x.e6, y.e6);
    lemma_mul_signs(x.e5 * y.e5, x.e7 * y.e7);
    lemma_cross(x.e5, y.e5, x.e7, y.e7);
    lemma_mul_signs(x.e6 * y.e6, x.e6 * y.e6);
    lemma_mul_signs(x.e6 * y.e6, x.e7 * y.e7);
    lemma_cross(x.e6, y.e6, x.e7, y.e7);
    lemma_mul_signs(x.e7 * y.e7, x.e7 * y.e7);
    lemma_square8(
        (x.r * y.e1),
        (x.e1 * y.r),
        (x.e2 * y.e3),
        -(x.e3 * y.e2),
        -(x.e4 * y.e5),
        (x.e5 * y.e4),
        -(x.e6 * y.e7),
        (x.e7 * y.e6),
    );
    lemma_mul_signs(x.r * y.e1, x.r * y.e1);
    lemma_mul_signs(x.r * y.e1, x.e1 * y.r);
    lemma_cross(x.r, y.e1, x.e1, y.r);
    lemma_mul_signs(x.r * y.e1, x.e2 * y.e3);
    lemma_cross(x.r, y.e1, x.e2, y.e3);
    lemma_mul_signs(x.r * y.e1, x.e3 * y.e2);
    lemma_cross(x.r, y.e1, x.e3, y.e2);
    lemma_mul_signs(x.r * y.e1, x.e4 * y.e5);
    lemma_cross(x.r, y.e1, x.e4, y.e5);
    lemma_mul_signs(x.r * y.e1, x.e5 * y.e4);
    lemma_cross(x.r, y.e1, x.e5, y.e4);
    lemma_mul_signs(x.r * y.e1, x.e6 * y.e7);
    lemma_cross(x.r, y.e1, x.e6, y.e7);
    lemma_mul_signs(x.r * y.e1, x.e7 * y.e6);
    lemma_cross(x.r, y.e1, x.e7, y.e6);
    lemma_mul_signs(x.e1 * y.r, x.e1 * y.r);
    lemma_mul_signs(x.e1 * y.r, x.e2 * y.e3);
    lemma_cross(x.e1, y.r, x.e2, y.e3);
    lemma_mul_signs(x.e1 * y.r, x.e3 * y.e2);
    lemma_cross(x.e1, y.r, x.e3, y.e2);
    lemma_mul_signs(x.e1 * y.r, x.e4 * y.e5);
    lemma_cross(x.e1, y.r, x.e4, y.e5);
    lemma_mul_signs(x.e1 * y.r, x.e5 * y.e4);
    lemma_cross(x.e1, y.r, x.e5, y.e4);
    lemma_mul_signs(x.e1 * y.r, x.e6 * y.e7);
    lemma_cross(x.e1, y.r, x.e6, y.e7);
    lemma_mul_signs(x.e1 * y.r, x.e7 * y.e6);
    lemma_cross(x.e1, y.r, x.e7, y.e6);
    lemma_mul_signs(x.e2 * y.e3, x.e2 * y.e3);
    lemma_mul_signs(x.e2 * y.e3, x.e3 * y.e2);
    lemma_cross(x.e2, y.e3, x.e3, y.e2);
    lemma_mul_signs(x.e2 * y.e3, x.e4 * y.e5);
    lemma_cross(x.e2, y.e3, x.e4, y.e5);
    lemma_mul_signs(x.e2 * y.e3, x.e5 * y.e4);
    lemma_cross(x.e2, y.e3, x.e5, y.e4);
    lemma_mul_signs(x.e2 * y.e3, x.e6 * y.e7);
    lemma_cross(x.e2, y.e3, x.e6, y.e7);
    lemma_mul_signs(x.e2 * y.e3, x.e7 * y.e6);
    lemma_cross(x.e2, y.e3, x.e7, y.e6);
    lemma_mul_signs(x.e3 * y.e2, x.e3 * y.e2);
    lemma_mul_signs(x.e3 * y.e2, x.e4 * y.e5);
    lemma_cross(x.e3, y.e2, x.e4, y.e5);
    lemma_mul_signs(x.e3 * y.e2, x.e5 * y.e4);
    lemma_cross(x.e3, y.e2, x.e5, y.e4);
    lemma_mul_signs(x.e3 * y.e2, x.e6 * y.e7);
    lemma_cross(x.e3, y.e2, x.e6, y.e7);
    lemma_mul_signs(x.e3 * y.e2, x.e7 * y.e6);
    lemma_cross(x.e3, y.e2, x.e7, y.e6);
    lemma_mul_signs(x.e4 * y.e5, x.e4 * y.e5);
    lemma_mul_signs(x.e4 * y.e5, x.e5 * y.e4);
    lemma_cross(x.e4, y.e5, x.e5, y.e4);
    lemma_mul_signs(x.e4 * y.e5, x.e6 * y.e7);
    lemma_cross(x.e4, y.e5, x.e6, y.e7);
    lemma_mul_signs(x.e4 * y.e5, x.e7 * y.e6);
    lemma_cross(x.e4, y.e5, x.e7, y.e6);
    lemma_mul_signs(x.e5 * y.e4, x.e5 * y.e4);
    lemma_mul_signs(x.e5 * y.e4, x.e6 * y.e7);
    lemma_cross(x.e5, y.e4, x.e6, y.e7);
    lemma_mul_signs(x.e5 * y.e4, x.e7 * y.e6);
    lemma_cross(x.e5, y.e4, x.e7, y.e6);
    lemma_mul_signs(x.e6 * y.e7, x.e6 * y.e7);
    lemma_mul_signs(x.e6 * y.e7, x.e7 * y.e6);
    lemma_cross(x.e6, y.e7, x.e7, y.e6);
    lemma_mul_signs(x.e7 * y.e6, x.e7 * y.e6);
    lemma_square8(
        (x.r * y.e2),
        -(x.e1 * y.e3),
        (x.e2 * y.r),
        (x.e3 * y.e1),
        -(x.e4 * y.e6),
        (x.e5 * y.e7),
        (x.e6 * y.e4),
        -(x.e7 * y.e5),
    );
    lemma_mul_signs(x.r * y.e2, x.r * y.e2);
    lemma_mul_signs(x.r * y.e2, x.e1 * y.e3);
    lemma_cross(x.r, y.e2, x.e1, y.e3);
    lemma_mul_signs(x.r * y.e2, x.e2 * y.r);
    lemma_cross(x.r, y.e2, x.e2, y.r);
    lemma_mul_signs(x.r * y.e2, x.e3 * y.e1);
    lemma_cross(x.r, y.e2, x.e3, y.e1);
    lemma_mul_signs(x.r * y.e2, x.e4 * y.e6);
    lemma_cross(x.r, y.e2, x.e4, y.e6);
    lemma_mul_signs(x.r * y.e2, x.e5 * y.e7);
    lemma_cross(x.r, y.e2, x.e5, y.e7);
    lemma_mul_signs(x.r * y.e2, x.e6 * y.e4);
    lemma_cross(x.r, y.e2, x.e6, y.e4);
    lemma_mul_signs(x.r * y.e2, x.e7 * y.e5);
    lemma_cross(x.r, y.e2, x.e7, y.e5);
    lemma_mul_signs(x.e1 * y.e3, x.e1 * y.e3);
    lemma_mul_signs(x.e1 * y.e3, x.e2 * y.r);
    lemma_cross(x.e1, y.e3, x.e2, y.r);
    lemma_mul_signs(x.e1 * y.e3, x.e3 * y.e1);
    lemma_cross(x.e1, y.e3, x.e3, y.e1);
    lemma_mul_signs(x.e1 * y.e3, x.e4 * y.e6);
    lemma_cross(x.e1, y.e3, x.e4, y.e6);
    lemma_mul_signs(x.e1 * y.e3, x.e5 * y.e7);
    lemma_cross(x.e1, y.e3, x.e5, y.e7);
    lemma_mul_signs(x.e1 * y.e3, x.e6 * y.e4);
    lemma_cross(x.e1, y.e3, x.e6, y.e4);
    lemma_mul_signs(x.e1 * y.e3, x.e7 * y.e5);
    lemma_cross(x.e1, y.e3, x.e7, y.e5);
    lemma_mul_signs(x.e2 * y.r, x.e2 * y.r);
    lemma_mul_signs(x.e2 * y.r, x.e3 * y.e1);
    lemma_cross(x.e2, y.r, x.e3, y.e1);
    lemma_mul_signs(x.e2 * y.r, x.e4 * y.e6);
    lemma_cross(x.e2, y.r, x.e4, y.e6);
    lemma_mul_signs(x.e2 * y.r, x.e5 * y.e7);
    lemma_cross(x.e2, y.r, x.e5, y.e7);
    lemma_mul_signs(x.e2 * y.r, x.e6 * y.e4);
    lemma_cross(x.e2, y.r, x.e6, y.e4);
    lemma_mul_signs(x.e2 * y.r, x.e7 * y.e5);
    lemma_cross(x.e2, y.r, x.e7, y.e5);
    lemma_mul_signs(x.e3 * y.e1, x.e3 * y.e1);
    lemma_mul_signs(x.e3 * y.e1, x.e4 * y.e6);
    lemma_cross(x.e3, y.e1, x.e4, y.e6);
    lemma_mul_signs(x.e3 * y.e1, x.e5 * y.e7);
    lemma_cross(x.e3, y.e1, x.e5, y.e7);
    lemma_mul_signs(x.e3 * y.e1, x.e6 * y.e4);
    lemma_cross(x.e3, y.e1, x.e6, y.e4);
    lemma_mul_signs(x.e3 * y.e1, x.e7 * y.e5);
    lemma_cross(x.e3, y.e1, x.e7, y.e5);
    lemma_mul_signs(x.e4 * y.e6, x.e4 * y.e6);
    lemma_mul_signs(x.e4 * y.e6, x.e5 * y.e7);
    lemma_cross(x.e4, y.e6, x.e5, y.e7);
    lemma_mul_signs(x.e4 * y.e6, x.e6 * y.e4);
    lemma_cross(x.e4, y.e6, x.e6, y.e4);
    lemma_mul_signs(x.e4 * y.e6, x.e7 * y.e5);
    lemma_cross(x.e4, y.e6, x.e7, y.e5);
    lemma_mul_signs(x.e5 * y.e7, x.e5 * y.e7);
    lemma_mul_signs(x.e5 * y.e7, x.e6 * y.e4);
    lemma_cross(x.e5, y.e7, x.e6, y.e4);
    lemma_mul_signs(x.e5 * y.e7, x.e7 * y.e5);
    lemma_cross(x.e5, y.e7, x.e7, y.e5);
    lemma_mul_signs(x.e6 * y.e4, x.e6 * y.e4);
    lemma_mul_signs(x.e6 * y.e4, x.e7 * y.e5);
    lemma_cross(x.e6, y.e4, x.e7, y.e5);
    lemma_mul_signs(x.e7 * y.e5, x.e7 * y.e5);
    lemma_square8(
        (x.r * y.e3),
        (x.e1 * y.e2),
        -(x.e2 * y.e1),
        (x.e3 * y.r),
        -(x.e4 * y.e7),
        -(x.e5 * y.e6),
        (x.e6 * y.e5),
        (x.e7 * y.e4),
    );
    lemma_mul_signs(x.r * y.e3, x.r * y.e3);
    lemma_mul_signs(x.r * y.e3, x.e1 * y.e2);
    lemma_cross(x.r, y.e3, x.e1, y.e2);
    lemma_mul_signs(x.r * y.e3, x.e2 * y.e1);
    lemma_cross(x.r, y.e3, x.e2, y.e1);
    lemma_mul_signs(x.r * y.e3, x.e3 * y.r);
    lemma_cross(x.r, y.e3, x.e3, y.r);
    lemma_mul_signs(x.r * y.e3, x.e4 * y.e7);
    lemma_cross(x.r, y.e3, x.e4, y.e7);
    lemma_mul_signs(x.r * y.e3, x.e5 * y.e6);
    lemma_cross(x.r, y.e3, x.e5, y.e6);
    lemma_mul_signs(x.r * y.e3, x.e6 * y.e5);
    lemma_cross(x.r, y.e3, x.e6, y.e5);
    lemma_mul_signs(x.r * y.e3, x.e7 * y.e4);
    lemma_cross(x.r, y.e3, x.e7, y.e4);
    lemma_mul_signs(x.e1 * y.e2, x.e1 * y.e2);
    lemma_mul_signs(x.e1 * y.e2, x.e2 * y.e1);
    lemma_cross(x.e1, y.e2, x.e2, y.e1);
    lemma_mul_signs(x.e1 * y.e2, x.e3 * y.r);
    lemma_cross(x.e1, y.e2, x.e3, y.r);
    lemma_mul_signs(x.e1 * y.e2, x.e4 * y.e7);
    lemma_cross(x.e1, y.e2, x.e4, y.e7);
    lemma_mul_signs(x.e1 * y.e2, x.e5 * y.e6);
    lemma_cross(x.e1, y.e2, x.e5, y.e6);
    lemma_mul_signs(x.e1 * y.e2, x.e6 * y.e5);
    lemma_cross(x.e1, y.e2, x.e6, y.e5);
    lemma_mul_signs(x.e1 * y.e2, x.e7 * y.e4);
    lemma_cross(x.e1, y.e2, x.e7, y.e4);
    lemma_mul_signs(x.e2 * y.e1, x.e2 * y.e1);
    lemma_mul_signs(x.e2 * y.e1, x.e3 * y.r);
    lemma_cross(x.e2, y.e1, x.e3, y.r);
    lemma_mul_signs(x.e2 * y.e1, x.e4 * y.e7);
    lemma_cross(x.e2, y.e1, x.e4, y.e7);
    lemma_mul_signs(x.e2 * y.e1, x.e5 * y.e6);
    lemma_cross(x.e2, y.e1, x.e5, y.e6);
    lemma_mul_signs(x.e2 * y.e1, x.e6 * y.e5);
    lemma_cross(x.e2, y.e1, x.e6, y.e5);
    lemma_mul_signs(x.e2 * y.e1, x.e7 * y.e4);
    lemma_cross(x.e2, y.e1, x.e7, y.e4);
    lemma_mul_signs(x.e3 * y.r, x.e3 * y.r);
    lemma_mul_signs(x.e3 * y.r, x.e4 * y.e7);
    lemma_cross(x.e3, y.r, x.e4, y.e7);
    lemma_mul_signs(x.e3 * y.r, x.e5 * y.e6);
    lemma_cross(x.e3, y.r, x.e5, y.e6);
    lemma_mul_signs(x.e3 * y.r, x.e6 * y.e5);
    lemma_cross(x.e3, y.r, x.e6, y.e5);
    lemma_mul_signs(x.e3 * y.r, x.e7 * y.e4);
    lemma_cross(x.e3, y.r, x.e7, y.e4);
    lemma_mul_signs(x.e4 * y.e7, x.e4 * y.e7);
    lemma_mul_signs(x.e4 * y.e7, x.e5 * y.e6);
    lemma_cross(x.e4, y.e7, x.e5, y.e6);
    lemma_mul_signs(x.e4 * y.e7, x.e6 * y.e5);
    lemma_cross(x.e4, y.e7, x.e6, y.e5);
    lemma_mul_signs(x.e4 * y.e7, x.e7 * y.e4);
    lemma_cross(x.e4, y.e7, x.e7, y.e4);
    lemma_mul_signs(x.e5 * y.e6, x.e5 * y.e6);
    lemma_mul_signs(x.e5 * y.e6, x.e6 * y.e5);
    lemma_cross(x.e5, y.e6, x.e6, y.e5);
    lemma_mul_signs(x.e5 * y.e6, x.e7 * y.e4);
    lemma_cross(x.e5, y.e6, x.e7, y.e4);
    lemma_mul_signs(x.e6 * y.e5, x.e6 * y.e5);
    lemma_mul_signs(x.e6 * y.e5, x.e7 * y.e4);
    lemma_cross(x.e6, y.e5, x.e7, y.e4);
    lemma_mul_signs(x.e7 * y.e4, x.e7 * y.e4);
    lemma_square8(
        (x.r * y.e4),
        (x.e1 * y.e5),
        (x.e2 * y.e6),
        (x.e3 * y.e7),
        (x.e4 * y.r),
        -(x.e5 * y.e1),
        -(x.e6 * y.e2),
        -(x.e7 * y.e3),
    );
    lemma_mul_signs(x.r * y.e4, x.r * y.e4);
    lemma_mul_signs(x.r * y.e4, x.e1 * y.e5);
    lemma_cross(x.r, y.e4, x.e1, y.e5);
    lemma_mul_signs(x.r * y.e4, x.e2 * y.e6);
    lemma_cross(x.r, y.e4, x.e2, y.e6);
    lemma_mul_signs(x.r * y.e4, x.e3 * y.e7);
    lemma_cross(x.r, y.e4, x.e3, y.e7);
    lemma_mul_signs(x.r * y.e4, x.e4 * y.r);
    lemma_cross(x.r, y.e4, x.e4, y.r);
    lemma_mul_signs(x.r * y.e4, x.e5 * y.e1);
    lemma_cross(x.r, y.e4, x.e5, y.e1);
    lemma_mul_signs(x.r * y.e4, x.e6 * y.e2);
    lemma_cross(x.r, y.e4, x.e6, y.e2);
    lemma_mul_signs(x.r * y.e4, x.e7 * y.e3);
    lemma_cross(x.r, y.e4, x.e7, y.e3);
    lemma_mul_signs(x.e1 * y.e5, x.e1 * y.e5);
    lemma_mul_signs(x.e1 * y.e5, x.e2 * y.e6);
    lemma_cross(x.e1, y.e5, x.e2, y.e6);
    lemma_mul_signs(x.e1 * y.e5, x.e3 * y.e7);
    lemma_cross(x.e1, y.e5, x.e3, y.e7);
    lemma_mul_signs(x.e1 * y.e5, x.e4 * y.r);
    lemma_cross(x.e1, y.e5, x.e4, y.r);
    lemma_mul_signs(x.e1 * y.e5, x.e5 * y.e1);
    lemma_cross(x.e1, y.e5, x.e5, y.e1);
    lemma_mul_signs(x.e1 * y.e5, x.e6 * y.e2);
    lemma_cross(x.e1, y.e5, x.e6, y.e2);
    lemma_mul_signs(x.e1 * y.e5, x.e7 * y.e3);
    lemma_cross(x.e1, y.e5, x.e7, y.e3);
    lemma_mul_signs(x.e2 * y.e6, x.e2 * y.e6);
    lemma_mul_signs(x.e2 * y.e6, x.e3 * y.e7);
    lemma_cross(x.e2, y.e6, x.e3, y.e7);
    lemma_mul_signs(x.e2 * y.e6, x.e4 * y.r);
    lemma_cross(x.e2, y.e6, x.e4, y.r);
    lemma_mul_signs(x.e2 * y.e6, x.e5 * y.e1);
    lemma_cross(x.e2, y.e6, x.e5, y.e1);
    lemma_mul_signs(x.e2 * y.e6, x.e6 * y.e2);
    lemma_cross(x.e2, y.e6, x.e6, y.e2);
    lemma_mul_signs(x.e2 * y.e6, x.e7 * y.e3);
    lemma_cross(x.e2, y.e6, x.e7, y.e3);
    lemma_mul_signs(x.e3 * y.e7, x.e3 * y.e7);
    lemma_mul_signs(x.e3 * y.e7, x.e4 * y.r);
    lemma_cross(x.e3, y.e7, x.e4, y.r);
    lemma_mul_signs(x.e3 * y.e7, x.e5 * y.e1);
    lemma_cross(x.e3, y.e7, x.e5, y.e1);
    lemma_mul_signs(x.e3 * y.e7, x.e6 * y.e2);
    lemma_cross(x.e3, y.e7, x.e6, y.e2);
    lemma_mul_signs(x.e3 * y.e7, x.e7 * y.e3);
    lemma_cross(x.e3, y.e7, x.e7, y.e3);
    lemma_mul_signs(x.e4 * y.r, x.e4 * y.r);
    lemma_mul_signs(x.e4 * y.r, x.e5 * y.e1);
    lemma_cross(x.e4, y.r, x.e5, y.e1);
    lemma_mul_signs(x.e4 * y.r, x.e6 * y.e2);
    lemma_cross(x.e4, y.r, x.e6, y.e2);
    lemma_mul_signs(x.e4 * y.r, x.e7 * y.e3);
    lemma_cross(x.e4, y.r, x.e7, y.e3);
    lemma_mul_signs(x.e5 * y.e1, x.e5 * y.e1);
    lemma_mul_signs(x.e5 * y.e1, x.e6 * y.e2);
    lemma_cross(x.e5, y.e1, x.e6, y.e2);
    lemma_mul_signs(x.e5 * y.e1, x.e7 * y.e3);
    lemma_cross(x.e5, y.e1, x.e7, y.e3);
    lemma_mul_signs(x.e6 * y.e2, x.e6 * y.e2);
    lemma_mul_signs(x.e6 * y.e2, x.e7 * y.e3);
    lemma_cross(x.e6, y.e2, x.e7, y.e3);
    lemma_mul_signs(x.e7 * y.e3, x.e7 * y.e3);
    lemma_square8(
        (x.r * y.e5),
        -(x.e1 * y.e4),
        -(x.e2 * y.e7),
        (x.e3 * y.e6),
        (x.e4 * y.e1),
        (x.e5 * y.r),
        -(x.e6 * y.e3),
        (x.e7 * y.e2),
    );
    lemma_mul_signs(x.r * y.e5, x.r * y.e5);
    lemma_mul_signs(x.r * y.e5, x.e1 * y.e4);
    lemma_cross(x.r, y.e5, x.e1, y.e4);
    lemma_mul_signs(x.r * y.e5, x.e2 * y.e7);
    lemma_cross(x.r, y.e5, x.e2, y.e7);
    lemma_mul_signs(x.r * y.e5, x.e3 * y.e6);
    lemma_cross(x.r, y.e5, x.e3, y.e6);
    lemma_mul_signs(x.r * y.e5, x.e4 * y.e1);
    lemma_cross(x.r, y.e5, x.e4, y.e1);
    lemma_mul_signs(x.r * y.e5, x.e5 * y.r);
    lemma_cross(x.r, y.e5, x.e5, y.r);
    lemma_mul_signs(x.r * y.e5, x.e6 * y.e3);
    lemma_cross(x.r, y.e5, x.e6, y.e3);
    lemma_mul_signs(x.r * y.e5, x.e7 * y.e2);
    lemma_cross(x.r, y.e5, x.e7, y.e2);
    lemma_mul_signs(x.e1 * y.e4, x.e1 * y.e4);
    lemma_mul_signs(x.e1 * y.e4, x.e2 * y.e7);
    lemma_cross(x.e1, y.e4, x.e2, y.e7);
    lemma_mul_signs(x.e1 * y.e4, x.e3 * y.e6);
    lemma_cross(x.e1, y.e4, x.e3, y.e6);
    lemma_mul_signs(x.e1 * y.e4, x.e4 * y.e1);
    lemma_cross(x.e1, y.e4, x.e4, y.e1);
    lemma_mul_signs(x.e1 * y.e4, x.e5 * y.r);
    lemma_cross(x.e1, y.e4, x.e5, y.r);
    lemma_mul_signs(x.e1 * y.e4, x.e6 * y.e3);
    lemma_cross(x.e1, y.e4, x.e6, y.e3);
    lemma_mul_signs(x.e1 * y.e4, x.e7 * y.e2);
    lemma_cross(x.e1, y.e4, x.e7, y.e2);
    lemma_mul_signs(x.e2 * y.e7, x.e2 * y.e7);
    lemma_mul_signs(x.e2 * y.e7, x.e3 * y.e6);
    lemma_cross(x.e2, y.e7, x.e3, y.e6);
    lemma_mul_signs(x.e2 * y.e7, x.e4 * y.e1);
    lemma_cross(x.e2, y.e7, x.e4, y.e1);
    lemma_mul_signs(x.e2 * y.e7, x.e5 * y.r);
    lemma_cross(x.e2, y.e7, x.e5, y.r);
    lemma_mul_signs(x.e2 * y.e7, x.e6 * y.e3);
    lemma_cross(x.e2, y.e7, x.e6, y.e3);
    lemma_mul_signs(x.e2 * y.e7, x.e7 * y.e2);
    lemma_cross(x.e2, y.e7, x.e7, y.e2);
    lemma_mul_signs(x.e3 * y.e6, x.e3 * y.e6);
    lemma_mul_signs(x.e3 * y.e6, x.e4 * y.e1);
    lemma_cross(x.e3, y.e6, x.e4, y.e1);
    lemma_mul_signs(x.e3 * y.e6, x.e5 * y.r);
    lemma_cross(x.e3, y.e6, x.e5, y.r);
    lemma_mul_signs(x.e3 * y.e6, x.e6 * y.e3);
    lemma_cross(x.e3, y.e6, x.e6, y.e3);
    lemma_mul_signs(x.e3 * y.e6, x.e7 * y.e2);
    lemma_cross(x.e3, y.e6, x.e7, y.e2);
    lemma_mul_signs(x.e4 * y.e1, x.e4 * y.e1);
    lemma_mul_signs(x.e4 * y.e1, x.e5 * y.r);
    lemma_cross(x.e4, y.e1, x.e5, y.r);
    lemma_mul_signs(x.e4 * y.e1, x.e6 * y.e3);
    lemma_cross(x.e4, y.e1, x.e6, y.e3);
    lemma_mul_signs(x.e4 * y.e1, x.e7 * y.e2);
    lemma_cross(x.e4, y.e1, x.e7, y.e2);
    lemma_mul_signs(x.e5 * y.r, x.e5 * y.r);
    lemma_mul_signs(x.e5 * y.r, x.e6 * y.e3);
    lemma_cross(x.e5, y.r, x.e6, y.e3);
    lemma_mul_signs(x.e5 * y.r, x.e7 * y.e2);
    lemma_cross(x.e5, y.r, x.e7, y.e2);
    lemma_mul_signs(x.e6 * y.e3, x.e6 * y.e3);
    lemma_mul_signs(x.e6 * y.e3, x.e7 * y.e2);
    lemma_cross(x.e6, y.e3, x.e7, y.e2);
    lemma_mul_signs(x.e7 * y.e2, x.e7 * y.e2);
    lemma_square8(
        (x.r * y.e6),
        (x.e1 * y.e7),
        -(x.e2 * y.e4),
        -(x.e3 * y.e5),
        (x.e4 * y.e2),
        (x.e5 * y.e3),
        (x.e6 * y.r),
        -(x.e7 * y.e1),
    );
    lemma_mul_signs(x.r * y.e6, x.r * y.e6);
    lemma_mul_signs(x.r * y.e6, x.e1 * y.e7);
    lemma_cross(x.r, y.e6, x.e1, y.e7);
    lemma_mul_signs(x.r * y.e6, x.e2 * y.e4);
    lemma_cross(x.r, y.e6, x.e2, y.e4);
    lemma_mul_signs(x.r * y.e6, x.e3 * y.e5);
    lemma_cross(x.r, y.e6, x.e3, y.e5);
    lemma_mul_signs(x.r * y.e6, x.e4 * y.e2);
    lemma_cross(x.r, y.e6, x.e4, y.e2);
    lemma_mul_signs(x.r * y.e6, x.e5 * y.e3);
    lemma_cross(x.r, y.e6, x.e5, y.e3);
    lemma_mul_signs(x.r * y.e6, x.e6 * y.r);
    lemma_cross(x.r, y.e6, x.e6, y.r);
    lemma_mul_signs(x.r * y.e6, x.e7 * y.e1);
    lemma_cross(x.r, y.e6, x.e7, y.e1);
    lemma_mul_signs(x.e1 * y.e7, x.e1 * y.e7);
    lemma_mul_signs(x.e1 * y.e7, x.e2 * y.e4);
    lemma_cross(x.e1, y.e7, x.e2, y.e4);
    lemma_mul_signs(x.e1 * y.e7, x.e3 * y.e5);
    lemma_cross(x.e1, y.e7, x.e3, y.e5);
    lemma_mul_signs(x.e1 * y.e7, x.e4 * y.e2);
    lemma_cross(x.e1, y.e7, x.e4, y.e2);
    lemma_mul_signs(x.e1 * y.e7, x.e5 * y.e3);
    lemma_cross(x.e1, y.e7, x.e5, y.e3);
    lemma_mul_signs(x.e1 * y.e7, x.e6 * y.r);
    lemma_cross(x.e1, y.e7, x.e6, y.r);
    lemma_mul_signs(x.e1 * y.e7, x.e7 * y.e1);
    lemma_cross(x.e1, y.e7, x.e7, y.e1);
    lemma_mul_signs(x.e2 * y.e4, x.e2 * y.e4);
    lemma_mul_signs(x.e2 * y.e4, x.e3 * y.e5);
    lemma_cross(x.e2, y.e4, x.e3, y.e5);
    lemma_mul_signs(x.e2 * y.e4, x.e4 * y.e2);
    lemma_cross(x.e2, y.e4, x.e4, y.e2);
    lemma_mul_signs(x.e2 * y.e4, x.e5 * y.e3);
    lemma_cross(x.e2, y.e4, x.e5, y.e3);
    lemma_mul_signs(x.e2 * y.e4, x.e6 * y.r);
    lemma_cross(x.e2, y.e4, x.e6, y.r);
    lemma_mul_signs(x.e2 * y.e4, x.e7 * y.e1);
    lemma_cross(x.e2, y.e4, x.e7, y.e1);
    lemma_mul_signs(x.e3 * y.e5, x.e3 * y.e5);
    lemma_mul_signs(x.e3 * y.e5, x.e4 * y.e2);
    lemma_cross(x.e3, y.e5, x.e4, y.e2);
    lemma_mul_signs(x.e3 * y.e5, x.e5 * y.e3);
    lemma_cross(x.e3, y.e5, x.e5, y.e3);
    lemma_mul_signs(x.e3 * y.e5, x.e6 * y.r);
    lemma_cross(x.e3, y.e5, x.e6, y.r);
    lemma_mul_signs(x.e3 * y.e5, x.e7 * y.e1);
    lemma_cross(x.e3, y.e5, x.e7, y.e1);
    lemma_mul_signs(x.e4 * y.e2, x.e4 * y.e2);
    lemma_mul_signs(x.e4 * y.e2, x.e5 * y.e3);
    lemma_cross(x.e4, y.e2, x.e5, y.e3);
    lemma_mul_signs(x.e4 * y.e2, x.e6 * y.r);
    lemma_cross(x.e4, y.e2, x.e6, y.r);
    lemma_mul_signs(x.e4 * y.e2, x.e7 * y.e1);
    lemma_cross(x.e4, y.e2, x.e7, y.e1);
    lemma_mul_signs(x.e5 * y.e3, x.e5 * y.e3);
    lemma_mul_signs(x.e5 * y.e3, x.e6 * y.r);
    lemma_cross(x.e5, y.e3, x.e6, y.r);
    lemma_mul_signs(x.e5 * y.e3, x.e7 * y.e1);
    lemma_cross(x.e5, y.e3, x.e7, y.e1);
    lemma_mul_signs(x.e6 * y.r, x.e6 * y.r);
    lemma_mul_signs(x.e6 * y.r, x.e7 * y.e1);
    lemma_cross(x.e6, y.r, x.e7, y.e1);
    lemma_mul_signs(x.e7 * y.e1, x.e7 * y.e1);
    lemma_square8(
        (x.r * y.e7),
        -(x.e1 * y.e6),
        (x.e2 * y.e5),
        -(x.e3 * y.e4),
        (x.e4 * y.e3),
        -(x.e5 * y.e2),
        (x.e6 * y.e1),
        (x.e7 * y.r),
    );
    lemma_mul_signs(x.r * y.e7, x.r * y.e7);
    lemma_mul_signs(x.r * y.e7, x.e1 * y.e6);
    lemma_cross(x.r, y.e7, x.e1, y.e6);
    lemma_mul_signs(x.r * y.e7, x.e2 * y.e5);
    lemma_cross(x.r, y.e7, x.e2, y.e5);
    lemma_mul_signs(x.r * y.e7, x.e3 * y.e4);
    lemma_cross(x.r, y.e7, x.e3, y.e4);
    lemma_mul_signs(x.r * y.e7, x.e4 * y.e3);
    lemma_cross(x.r, y.e7, x.e4, y.e3);
    lemma_mul_signs(x.r * y.e7, x.e5 * y.e2);
    lemma_cross(x.r, y.e7, x.e5, y.e2);
    lemma_mul_signs(x.r * y.e7, x.e6 * y.e1);
    lemma_cross(x.r, y.e7, x.e6, y.e1);
    lemma_mul_signs(x.r * y.e7, x.e7 * y.r);
    lemma_cross(x.r, y.e7, x.e7, y.r);
    lemma_mul_signs(x.e1 * y.e6, x.e1 * y.e6);
    lemma_mul_signs(x.e1 * y.e6, x.e2 * y.e5);
    lemma_cross(x.e1, y.e6, x.e2, y.e5);
    lemma_mul_signs(x.e1 * y.e6, x.e3 * y.e4);
    lemma_cross(x.e1, y.e6, x.e3, y.e4);
    lemma_mul_signs(x.e1 * y.e6, x.e4 * y.e3);
    lemma_cross(x.e1, y.e6, x.e4, y.e3);
    lemma_mul_signs(x.e1 * y.e6, x.e5 * y.e2);
    lemma_cross(x.e1, y.e6, x.e5, y.e2);
    lemma_mul_signs(x.e1 * y.e6, x.e6 * y.e1);
    lemma_cross(x.e1, y.e6, x.e6, y.e1);
    lemma_mul_signs(x.e1 * y.e6, x.e7 * y.r);
    lemma_cross(x.e1, y.e6, x.e7, y.r);
    lemma_mul_signs(x.e2 * y.e5, x.e2 * y.e5);
    lemma_mul_signs(x.e2 * y.e5, x.e3 * y.e4);
    lemma_cross(x.e2, y.e5, x.e3, y.e4);
    lemma_mul_signs(x.e2 * y.e5, x.e4 * y.e3);
    lemma_cross(x.e2, y.e5, x.e4, y.e3);
    lemma_mul_signs(x.e2 * y.e5, x.e5 * y.e2);
    lemma_cross(x.e2, y.e5, x.e5, y.e2);
    lemma_mul_signs(x.e2 * y.e5, x.e6 * y.e1);
    lemma_cross(x.e2, y.e5, x.e6, y.e1);
    lemma_mul_signs(x.e2 * y.e5, x.e7 * y.r);
    lemma_cross(x.e2, y.e5, x.e7, y.r);
    lemma_mul_signs(x.e3 * y.e4, x.e3 * y.e4);
    lemma_mul_signs(x.e3 * y.e4, x.e4 * y.e3);
    lemma_cross(x.e3, y.e4, x.e4, y.e3);
    lemma_mul_signs(x.e3 * y.e4, x.e5 * y.e2);
    lemma_cross(x.e3, y.e4, x.e5, y.e2);
    lemma_mul_signs(x.e3 * y.e4, x.e6 * y.e1);
    lemma_cross(x.e3, y.e4, x.e6, y.e1);
    lemma_mul_signs(x.e3 * y.e4, x.e7 * y.r);
    lemma_cross(x.e3, y.e4, x.e7, y.r);
    lemma_mul_signs(x.e4 * y.e3, x.e4 * y.e3);
    lemma_mul_signs(x.e4 * y.e3, x.e5 * y.e2);
    lemma_cross(x.e4, y.e3, x.e5, y.e2);
    lemma_mul_signs(x.e4 * y.e3, x.e6 * y.e1);
    lemma_cross(x.e4, y.e3, x.e6, y.e1);
    lemma_mul_signs(x.e4 * y.e3, x.e7 * y.r);
    lemma_cross(x.e4, y.e3, x.e7, y.r);
    lemma_mul_signs(x.e5 * y.e2, x.e5 * y.e2);
    lemma_mul_signs(x.e5 * y.e2, x.e6 * y.e1);
    lemma_cross(x.e5, y.e2, x.e6, y.e1);
    lemma_mul_signs(x.e5 * y.e2, x.e7 * y.r);
    lemma_cross(x.e5, y.e2, x.e7, y.r);
    lemma_mul_signs(x.e6 * y.e1, x.e6 * y.e1);
    lemma_mul_signs(x.e6 * y.e1, x.e7 * y.r);
    lemma_cross(x.e6, y.e1, x.e7, y.r);
    lemma_mul_signs(x.e7 * y.r, x.e7 * y.r);
    lemma_square_of_product(x.r, y.r);
    lemma_square_of_product(x.r, y.e1);
    lemma_square_of_product(x.r, y.e2);
    lemma_square_of_product(x.r, y.e3);
    lemma_square_of_product(x.r, y.e4);
    lemma_square_of_product(x.r, y.e5);
    lemma_square_of_product(x.r, y.e6);
    lemma_square_of_product(x.r, y.e7);
    lemma_square_of_product(x.e1, y.r);
    lemma_square_of_product(x.e1, y.e1);
    lemma_square_of_product(x.e1, y.e2);
    lemma_square_of_product(x.e1, y.e3);
    lemma_square_of_product(x.e1, y.e4);
    lemma_square_of_product(x.e1, y.e5);
    lemma_square_of_product(x.e1, y.e6);
    lemma_square_of_product(x.e1, y.e7);
    lemma_square_of_product(x.e2, y.r);
    lemma_square_of_product(x.e2, y.e1);
    lemma_square_of_product(x.e2, y.e2);
    lemma_square_of_product(x.e2, y.e3);
    lemma_square_of_product(x.e2, y.e4);
    lemma_square_of_product(x.e2, y.e5);
    lemma_square_of_product(x.e2, y.e6);
    lemma_square_of_product(x.e2, y.e7);
    lemma_square_of_product(x.e3, y.r);
    lemma_square_of_product(x.e3, y.e1);
    lemma_square_of_product(x.e3, y.e2);
    lemma_square_of_product(x.e3, y.e3);
    lemma_square_of_product(x.e3, y.e4);
    lemma_square_of_product(x.e3, y.e5);
    lemma_square_of_product(x.e3, y.e6);
    lemma_square_of_product(x.e3, y.e7);
    lemma_square_of_product(x.e4, y.r);
    lemma_square_of_product(x.e4, y.e1);
    lemma_square_of_product(x.e4, y.e2);
    lemma_square_of_product(x.e4, y.e3);
    lemma_square_of_product(x.e4, y.e4);
    lemma_square_of_product(x.e4, y.e5);
    lemma_square_of_product(x.e4, y.e6);
    lemma_square_of_product(x.e4, y.e7);
    lemma_square_of_product(x.e5, y.r);
    lemma_square_of_product(x.e5, y.e1);
    lemma_square_of_product(x.e5, y.e2);
    lemma_square_of_product(x.e5, y.e3);
    lemma_square_of_product(x.e5, y.e4);
    lemma_square_of_product(x.e5, y.e5);
    lemma_square_of_product(x.e5, y.e6);
    lemma_square_of_product(x.e5, y.e7);
    lemma_square_of_product(x.e6, y.r);
    lemma_square_of_product(x.e6, y.e1);
    lemma_square_of_product(x.e6, y.e2);
    lemma_square_of_product(x.e6, y.e3);
    lemma_square_of_product(x.e6, y.e4);
    lemma_square_of_product(x.e6, y.e5);
    lemma_square_of_product(x.e6, y.e6);
    lemma_square_of_product(x.e6, y.e7);
    lemma_square_of_product(x.e7, y.r);
    lemma_square_of_product(x.e7, y.e1);
    lemma_square_of_product(x.e7, y.e2);
    lemma_square_of_product(x.e7, y.e3);
    lemma_square_of_product(x.e7, y.e4);
    lemma_square_of_product(x.e7, y.e5);
    lemma_square_of_product(x.e7, y.e6);
    lemma_square_of_product(x.e7, y.e7);
    lemma_distribute8(
        x.r * x.r,
        x.e1 * x.e1,
        x.e2 * x.e2,
        x.e3 * x.e3,
        x.e4 * x.e4,
        x.e5 * x.e5,
        x.e6 * x.e6,
        x.e7 * x.e7,
        y.r * y.r,
        y.e1 * y.e1,
        y.e2 * y.e2,
        y.e3 * y.e3,
        y.e4 * y.e4,
        y.e5 * y.e5,
        y.e6 * y.e6,
        y.e7 * y.e7,
    );
}

} // verus!
