//! Exact rational numbers: a ghost model `Q` over unbounded integers and an
//! executable counterpart `Rat` over `i64` numerator and denominator.
//!
//! Executable operations never round: each either returns the exact rational
//! (as the ghost operation on the views) or reports, with `None`, that the
//! exact numerator or denominator does not fit in an `i64`.

use vstd::prelude::*;

verus! {

/// Ghost rational number: numerator `n` over denominator `d`.
/// Well-formed values keep `d >= 1`; equality of values is `eqv`.
pub ghost struct Q {
    pub n: int,
    pub d: int,
}

impl Q {
    /// The denominator is positive.
    pub open spec fn wf(self) -> bool {
        self.d >= 1
    }

    /// Value equality: `n1/d1 == n2/d2` by cross multiplication.
    pub open spec fn eqv(self, other: Q) -> bool {
        self.n * other.d == other.n * self.d
    }

    /// Both components fit the executable representation: the numerator in
    /// `i64` and the denominator in `1 ..= i64::MAX`.
    pub open spec fn fits(self) -> bool {
        &&& -0x8000_0000_0000_0000 <= self.n <= 0x7fff_ffff_ffff_ffff
        &&& 1 <= self.d <= 0x7fff_ffff_ffff_ffff
    }

    pub open spec fn add(self, other: Q) -> Q {
        Q { n: self.n * other.d + other.n * self.d, d: self.d * other.d }
    }

    pub open spec fn sub(self, other: Q) -> Q {
        Q { n: self.n * other.d - other.n * self.d, d: self.d * other.d }
    }

    pub open spec fn mul(self, other: Q) -> Q {
        Q { n: self.n * other.n, d: self.d * other.d }
    }

    pub open spec fn neg(self) -> Q {
        Q { n: -self.n, d: self.d }
    }

    /// Division by a positive integer.
    pub open spec fn div_int(self, m: int) -> Q {
        Q { n: self.n, d: self.d * m }
    }
}

/// The ghost rational with value `i`.
pub open spec fn q_int(i: int) -> Q {
    Q { n: i, d: 1 }
}

/// Executable rational number; the view is the ghost rational `Q`.
#[derive(Clone, Copy, Debug)]
pub struct Rat {
    pub num: i64,
    pub den: i64,
}

impl View for Rat {
    type V = Q;

    open spec fn view(&self) -> Q {
        Q { n: self.num as int, d: self.den as int }
    }
}

// ---------------------------------------------------------------------------
// Bounds on products of i64-sized factors, used to justify the i128
// intermediates of the executable operations.
// ---------------------------------------------------------------------------

/// |a * b| <= 2^126 when both factors are i64-sized.
pub proof fn lemma_i64_mul_bound(a: int, b: int)
    by (nonlinear_arith)
    requires
        -0x8000_0000_0000_0000 <= a <= 0x7fff_ffff_ffff_ffff,
        -0x8000_0000_0000_0000 <= b <= 0x7fff_ffff_ffff_ffff,
    ensures
        -0x4000_0000_0000_0000_0000_0000_0000_0000 <= a * b
            <= 0x4000_0000_0000_0000_0000_0000_0000_0000,
{
}

/// With a positive i64 denominator as one factor, |a * b| <= 2^63 * (2^63 - 1).
pub proof fn lemma_num_den_mul_bound(a: int, b: int)
    by (nonlinear_arith)
    requires
        -0x8000_0000_0000_0000 <= a <= 0x7fff_ffff_ffff_ffff,
        1 <= b <= 0x7fff_ffff_ffff_ffff,
    ensures
        -0x3fff_ffff_ffff_ffff_8000_0000_0000_0000 <= a * b
            <= 0x3fff_ffff_ffff_ffff_8000_0000_0000_0000,
{
}

/// The product of two positive i64 denominators is positive and below 2^126.
pub proof fn lemma_den_mul_bound(a: int, b: int)
    by (nonlinear_arith)
    requires
        1 <= a <= 0x7fff_ffff_ffff_ffff,
        1 <= b <= 0x7fff_ffff_ffff_ffff,
    ensures
        1 <= a * b <= 0x3fff_ffff_ffff_ffff_8000_0000_0000_0000,
{
}

// ---------------------------------------------------------------------------
// Facts about the ghost operations.
// ---------------------------------------------------------------------------

/// Well-formedness is preserved by addition.
pub proof fn lemma_add_wf(x: Q, y: Q)
    requires
        x.wf(),
        y.wf(),
    ensures
        x.add(y).wf(),
{
    assert(x.d * y.d >= 1) by (nonlinear_arith)
        requires
            x.d >= 1,
            y.d >= 1,
    ;
}

/// Well-formedness is preserved by subtraction.
pub proof fn lemma_sub_wf(x: Q, y: Q)
    requires
        x.wf(),
        y.wf(),
    ensures
        x.sub(y).wf(),
{
    assert(x.d * y.d >= 1) by (nonlinear_arith)
        requires
            x.d >= 1,
            y.d >= 1,
    ;
}

/// Well-formedness is preserved by multiplication.
pub proof fn lemma_mul_wf(x: Q, y: Q)
    requires
        x.wf(),
        y.wf(),
    ensures
        x.mul(y).wf(),
{
    assert(x.d * y.d >= 1) by (nonlinear_arith)
        requires
            x.d >= 1,
            y.d >= 1,
    ;
}

/// Well-formedness is preserved by division by a positive integer.
pub proof fn lemma_div_int_wf(x: Q, m: int)
    requires
        x.wf(),
        m >= 1,
    ensures
        x.div_int(m).wf(),
{
    assert(x.d * m >= 1) by (nonlinear_arith)
        requires
            x.d >= 1,
            m >= 1,
    ;
}

/// Value equality is reflexive.
pub proof fn lemma_eqv_refl(x: Q)
    ensures
        x.eqv(x),
{
}

/// Value equality is symmetric.
pub proof fn lemma_eqv_sym(x: Q, y: Q)
    requires
        x.eqv(y),
    ensures
        y.eqv(x),
{
}

/// Value equality is transitive (the middle denominator must be nonzero).
pub proof fn lemma_eqv_trans(x: Q, y: Q, z: Q)
    requires
        x.wf(),
        y.wf(),
        z.wf(),
        x.eqv(y),
        y.eqv(z),
    ensures
        x.eqv(z),
{
    assert(x.n * z.d == z.n * x.d) by (nonlinear_arith)
        requires
            y.d >= 1,
            x.n * y.d == y.n * x.d,
            y.n * z.d == z.n * y.d,
    ;
}

/// Addition respects value equality.
pub proof fn lemma_add_congruence(x1: Q, y1: Q, x2: Q, y2: Q)
    requires
        x1.wf(),
        y1.wf(),
        x2.wf(),
        y2.wf(),
        x1.eqv(x2),
        y1.eqv(y2),
    ensures
        x1.add(y1).eqv(x2.add(y2)),
{
    assert((x1.n * y1.d) * (x2.d * y2.d) == (x2.n * y2.d) * (x1.d * y1.d)) by (nonlinear_arith)
        requires
            x1.n * x2.d == x2.n * x1.d,
    ;
    assert((y1.n * x1.d) * (x2.d * y2.d) == (y2.n * x2.d) * (x1.d * y1.d)) by (nonlinear_arith)
        requires
            y1.n * y2.d == y2.n * y1.d,
    ;
    assert((x1.n * y1.d + y1.n * x1.d) * (x2.d * y2.d) == (x2.n * y2.d + y2.n * x2.d) * (x1.d
        * y1.d)) by (nonlinear_arith)
        requires
            (x1.n * y1.d) * (x2.d * y2.d) == (x2.n * y2.d) * (x1.d * y1.d),
            (y1.n * x1.d) * (x2.d * y2.d) == (y2.n * x2.d) * (x1.d * y1.d),
    ;
}

/// Subtraction respects value equality.
pub proof fn lemma_sub_congruence(x1: Q, y1: Q, x2: Q, y2: Q)
    requires
        x1.wf(),
        y1.wf(),
        x2.wf(),
        y2.wf(),
        x1.eqv(x2),
        y1.eqv(y2),
    ensures
        x1.sub(y1).eqv(x2.sub(y2)),
{
    assert((x1.n * y1.d) * (x2.d * y2.d) == (x2.n * y2.d) * (x1.d * y1.d)) by (nonlinear_arith)
        requires
            x1.n * x2.d == x2.n * x1.d,
    ;
    assert((y1.n * x1.d) * (x2.d * y2.d) == (y2.n * x2.d) * (x1.d * y1.d)) by (nonlinear_arith)
        requires
            y1.n * y2.d == y2.n * y1.d,
    ;
    assert((x1.n * y1.d - y1.n * x1.d) * (x2.d * y2.d) == (x2.n * y2.d - y2.n * x2.d) * (x1.d
        * y1.d)) by (nonlinear_arith)
        requires
            (x1.n * y1.d) * (x2.d * y2.d) == (x2.n * y2.d) * (x1.d * y1.d),
            (y1.n * x1.d) * (x2.d * y2.d) == (y2.n * x2.d) * (x1.d * y1.d),
    ;
}

/// Multiplication respects value equality.
pub proof fn lemma_mul_congruence(x1: Q, y1: Q, x2: Q, y2: Q)
    requires
        x1.wf(),
        y1.wf(),
        x2.wf(),
        y2.wf(),
        x1.eqv(x2),
        y1.eqv(y2),
    ensures
        x1.mul(y1).eqv(x2.mul(y2)),
{
    assert((x1.n * y1.n) * (x2.d * y2.d) == (x2.n * y2.n) * (x1.d * y1.d)) by (nonlinear_arith)
        requires
            x1.n * x2.d == x2.n * x1.d,
            y1.n * y2.d == y2.n * y1.d,
    ;
}

/// Negation respects value equality.
pub proof fn lemma_neg_congruence(x1: Q, x2: Q)
    requires
        x1.eqv(x2),
    ensures
        x1.neg().eqv(x2.neg()),
{
    assert((-x1.n) * x2.d == (-x2.n) * x1.d) by (nonlinear_arith)
        requires
            x1.n * x2.d == x2.n * x1.d,
    ;
}

/// Division by a positive integer respects value equality.
pub proof fn lemma_div_int_congruence(x1: Q, x2: Q, m: int)
    requires
        x1.wf(),
        x2.wf(),
        m >= 1,
        x1.eqv(x2),
    ensures
        x1.div_int(m).eqv(x2.div_int(m)),
{
    assert(x1.n * (x2.d * m) == x2.n * (x1.d * m)) by (nonlinear_arith)
        requires
            x1.n * x2.d == x2.n * x1.d,
    ;
}

// ---------------------------------------------------------------------------
// Ring identities. The first group holds between the representations
// themselves; the second only between the values.
// ---------------------------------------------------------------------------

/// Rearranging a sum of four terms: `(p + q) + (r + s) == (p + r) + (q + s)`,
/// as representations.
#[verifier::rlimit(100)]
pub proof fn lemma_add_swap(p: Q, q: Q, r: Q, s: Q)
    ensures
        p.add(q).add(r.add(s)) == p.add(r).add(q.add(s)),
{
    broadcast use vstd::arithmetic::mul::lemma_mul_is_associative;
    broadcast use vstd::arithmetic::mul::lemma_mul_is_commutative;
    broadcast use vstd::arithmetic::mul::lemma_mul_is_distributive_add;
    broadcast use vstd::arithmetic::mul::lemma_mul_is_distributive_add_other_way;

    assert((p.n * q.d + q.n * p.d) * (r.d * s.d) == (p.n * q.d) * (r.d * s.d) + (q.n * p.d) * (r.d
        * s.d));
    assert((r.n * s.d + s.n * r.d) * (p.d * q.d) == (r.n * s.d) * (p.d * q.d) + (s.n * r.d) * (p.d
        * q.d));
    assert((p.n * r.d + r.n * p.d) * (q.d * s.d) == (p.n * r.d) * (q.d * s.d) + (r.n * p.d) * (q.d
        * s.d));
    assert((q.n * s.d + s.n * q.d) * (p.d * r.d) == (q.n * s.d) * (p.d * r.d) + (s.n * q.d) * (p.d
        * r.d));
    assert((p.n * q.d) * (r.d * s.d) == (p.n * r.d) * (q.d * s.d)) by (nonlinear_arith);
    assert((q.n * p.d) * (r.d * s.d) == (q.n * s.d) * (p.d * r.d)) by (nonlinear_arith);
    assert((r.n * s.d) * (p.d * q.d) == (r.n * p.d) * (q.d * s.d)) by (nonlinear_arith);
    assert((s.n * r.d) * (p.d * q.d) == (s.n * q.d) * (p.d * r.d)) by (nonlinear_arith);
    assert((p.d * q.d) * (r.d * s.d) == (p.d * r.d) * (q.d * s.d)) by (nonlinear_arith);
}

/// Pulling a factor to the front: `x * (y * z) == y * (x * z)`,
/// as representations.
pub proof fn lemma_mul_left_commute(x: Q, y: Q, z: Q)
    ensures
        x.mul(y.mul(z)) == y.mul(x.mul(z)),
{
    assert(x.n * (y.n * z.n) == y.n * (x.n * z.n)) by (nonlinear_arith);
    assert(x.d * (y.d * z.d) == y.d * (x.d * z.d)) by (nonlinear_arith);
}

/// Multiplication commutes, as representations.
pub proof fn lemma_mul_comm(x: Q, y: Q)
    ensures
        x.mul(y) == y.mul(x),
{
    assert(x.n * y.n == y.n * x.n) by (nonlinear_arith);
    assert(x.d * y.d == y.d * x.d) by (nonlinear_arith);
}

/// A factor passes a division by an integer: `x * (y / m) == (x * y) / m`,
/// as representations.
pub proof fn lemma_mul_div_swap(x: Q, y: Q, m: int)
    ensures
        x.mul(y.div_int(m)) == x.mul(y).div_int(m),
{
    assert(x.d * (y.d * m) == (x.d * y.d) * m) by (nonlinear_arith);
}

/// Multiplication distributes over addition, as values.
#[verifier::rlimit(100)]
pub proof fn lemma_mul_distrib(z: Q, x: Q, y: Q)
    ensures
        z.mul(x.add(y)).eqv(z.mul(x).add(z.mul(y))),
{
    broadcast use vstd::arithmetic::mul::lemma_mul_is_distributive_add;
    broadcast use vstd::arithmetic::mul::lemma_mul_is_distributive_add_other_way;

    assert((z.n * (x.n * y.d)) * ((z.d * x.d) * (z.d * y.d)) == ((z.n * x.n) * (z.d * y.d)) * (z.d
        * (x.d * y.d))) by (nonlinear_arith);
    assert((z.n * (y.n * x.d)) * ((z.d * x.d) * (z.d * y.d)) == ((z.n * y.n) * (z.d * x.d)) * (z.d
        * (x.d * y.d))) by (nonlinear_arith);
    assert(z.n * (x.n * y.d + y.n * x.d) == z.n * (x.n * y.d) + z.n * (y.n * x.d));
    assert((z.n * (x.n * y.d) + z.n * (y.n * x.d)) * ((z.d * x.d) * (z.d * y.d)) == (z.n * (x.n
        * y.d)) * ((z.d * x.d) * (z.d * y.d)) + (z.n * (y.n * x.d)) * ((z.d * x.d) * (z.d
        * y.d)));
    assert(((z.n * x.n) * (z.d * y.d) + (z.n * y.n) * (z.d * x.d)) * (z.d * (x.d * y.d)) == ((z.n
        * x.n) * (z.d * y.d)) * (z.d * (x.d * y.d)) + ((z.n * y.n) * (z.d * x.d)) * (z.d * (x.d
        * y.d)));
}

/// Division by an integer distributes over addition, as values.
#[verifier::rlimit(100)]
pub proof fn lemma_div_int_add(x: Q, y: Q, m: int)
    ensures
        x.add(y).div_int(m).eqv(x.div_int(m).add(y.div_int(m))),
{
    broadcast use vstd::arithmetic::mul::lemma_mul_is_distributive_add;
    broadcast use vstd::arithmetic::mul::lemma_mul_is_distributive_add_other_way;

    assert((x.n * y.d) * ((x.d * m) * (y.d * m)) == (x.n * (y.d * m)) * ((x.d * y.d)
        * m)) by (nonlinear_arith);
    assert((y.n * x.d) * ((x.d * m) * (y.d * m)) == (y.n * (x.d * m)) * ((x.d * y.d)
        * m)) by (nonlinear_arith);
    assert((x.n * y.d + y.n * x.d) * ((x.d * m) * (y.d * m)) == (x.n * y.d) * ((x.d * m) * (y.d
        * m)) + (y.n * x.d) * ((x.d * m) * (y.d * m)));
    assert((x.n * (y.d * m) + y.n * (x.d * m)) * ((x.d * y.d) * m) == (x.n * (y.d * m)) * ((x.d
        * y.d) * m) + (y.n * (x.d * m)) * ((x.d * y.d) * m));
}

/// Subtraction is addition of the negation, as representations.
pub proof fn lemma_sub_is_add_neg(u: Q, v: Q)
    ensures
        u.sub(v) == u.add(v.neg()),
{
    assert(u.n * v.d - v.n * u.d == u.n * v.d + (-v.n) * u.d) by (nonlinear_arith);
}

/// Negation passes out of a product, as representations.
pub proof fn lemma_mul_neg(x: Q, y: Q)
    ensures
        x.neg().mul(y) == x.mul(y).neg(),
        x.mul(y.neg()) == x.mul(y).neg(),
{
    assert((-x.n) * y.n == -(x.n * y.n)) by (nonlinear_arith);
    assert(x.n * (-y.n) == -(x.n * y.n)) by (nonlinear_arith);
}

/// Addition associates, as representations.
#[verifier::rlimit(100)]
pub proof fn lemma_add_assoc(x: Q, y: Q, z: Q)
    ensures
        x.add(y).add(z) == x.add(y.add(z)),
{
    broadcast use vstd::arithmetic::mul::lemma_mul_is_distributive_add;
    broadcast use vstd::arithmetic::mul::lemma_mul_is_distributive_add_other_way;

    assert((x.n * y.d) * z.d == x.n * (y.d * z.d)) by (nonlinear_arith);
    assert((y.n * x.d) * z.d == (y.n * z.d) * x.d) by (nonlinear_arith);
    assert(z.n * (x.d * y.d) == (z.n * y.d) * x.d) by (nonlinear_arith);
    assert((x.d * y.d) * z.d == x.d * (y.d * z.d)) by (nonlinear_arith);
}

/// The second and third summands of a nested sum may switch places,
/// as representations.
#[verifier::rlimit(100)]
pub proof fn lemma_add_right_swap(u: Q, v: Q, w: Q)
    ensures
        u.add(v).add(w) == u.add(w).add(v),
{
    broadcast use vstd::arithmetic::mul::lemma_mul_is_distributive_add;
    broadcast use vstd::arithmetic::mul::lemma_mul_is_distributive_add_other_way;

    assert((u.n * v.d) * w.d == (u.n * w.d) * v.d) by (nonlinear_arith);
    assert((v.n * u.d) * w.d == v.n * (u.d * w.d)) by (nonlinear_arith);
    assert(w.n * (u.d * v.d) == (w.n * u.d) * v.d) by (nonlinear_arith);
    assert((u.d * v.d) * w.d == (u.d * w.d) * v.d) by (nonlinear_arith);
}

/// The first and third summands of a nested sum may switch places,
/// as representations.
#[verifier::rlimit(100)]
pub proof fn lemma_add_perm13(p: Q, q: Q, r: Q)
    ensures
        p.add(q).add(r) == r.add(q).add(p),
{
    broadcast use vstd::arithmetic::mul::lemma_mul_is_distributive_add;
    broadcast use vstd::arithmetic::mul::lemma_mul_is_distributive_add_other_way;

    assert((p.n * q.d) * r.d == p.n * (r.d * q.d)) by (nonlinear_arith);
    assert((q.n * p.d) * r.d == (q.n * r.d) * p.d) by (nonlinear_arith);
    assert(r.n * (p.d * q.d) == (r.n * q.d) * p.d) by (nonlinear_arith);
    assert((p.d * q.d) * r.d == (r.d * q.d) * p.d) by (nonlinear_arith);
}

/// Adding zero on the left keeps the value.
pub proof fn lemma_zero_add(x: Q)
    ensures
        q_int(0).add(x).eqv(x),
{
    assert((0 * x.d + x.n * 1) * x.d == x.n * (1 * x.d)) by (nonlinear_arith);
}

/// Adding a term and then its negation keeps the value.
pub proof fn lemma_add_cancel(x: Q, p: Q)
    ensures
        x.add(p).add(p.neg()).eqv(x),
{
    assert(((x.n * p.d + p.n * x.d) * p.d + (-p.n) * (x.d * p.d)) * x.d == x.n * ((x.d * p.d)
        * p.d)) by (nonlinear_arith);
}

/// A sum that is zero in value makes each summand the other's negation.
pub proof fn lemma_zero_sum_negates(u: Q, v: Q)
    requires
        u.add(v).eqv(q_int(0)),
    ensures
        u.eqv(v.neg()),
{
    assert(0 * (u.d * v.d) == 0) by (nonlinear_arith);
    assert((-v.n) * u.d == -(v.n * u.d)) by (nonlinear_arith);
}

/// Two integer multiples of one rational combine, as values.
pub proof fn lemma_scalar_combine(h: Q, p: int, q: int)
    ensures
        q_int(p).mul(h).add(q_int(q).mul(h)).eqv(q_int(p + q).mul(h)),
{
    assert(((p * h.n) * (1 * h.d) + (q * h.n) * (1 * h.d)) * (1 * h.d) == ((p + q) * h.n) * ((1
        * h.d) * (1 * h.d))) by (nonlinear_arith);
}

/// Nested integer scalings collapse, as representations.
pub proof fn lemma_scalar_scalar(c1: int, c2: int, h: Q)
    ensures
        q_int(c1).mul(q_int(c2).mul(h)) == q_int(c1 * c2).mul(h),
{
    assert(c1 * (c2 * h.n) == (c1 * c2) * h.n) by (nonlinear_arith);
    assert(1 * (1 * h.d) == 1 * h.d) by (nonlinear_arith);
}

/// An integer multiple of a rational equals the doubled multiple of its
/// half, as values.
pub proof fn lemma_half_scale(h: Q, c: int)
    ensures
        q_int(c).mul(h).eqv(q_int(2 * c).mul(h.div_int(2))),
{
    assert((c * h.n) * (1 * (h.d * 2)) == ((2 * c) * h.n) * (1 * h.d)) by (nonlinear_arith);
}

/// Adding zero on the right keeps the value.
pub proof fn lemma_add_zero_right(x: Q)
    ensures
        x.add(q_int(0)).eqv(x),
{
    assert((x.n * 1 + 0 * x.d) * x.d == x.n * (x.d * 1)) by (nonlinear_arith);
}

/// Adding and then subtracting the base keeps the added term's value.
pub proof fn lemma_add_sub_cancel(a: Q, p: Q)
    ensures
        a.add(p).sub(a).eqv(p),
{
    assert(((a.n * p.d + p.n * a.d) * a.d - a.n * (a.d * p.d)) * p.d == p.n * ((a.d * p.d)
        * a.d)) by (nonlinear_arith);
}

/// Subtracting two shifts of one base compares the shifts alone.
#[verifier::rlimit(100)]
pub proof fn lemma_shift_sub(a: Q, p: Q, q: Q)
    ensures
        a.add(p).sub(a.add(q)).eqv(p.sub(q)),
{
    assert((a.n * p.d) * (a.d * q.d) == (a.n * q.d) * (a.d * p.d)) by (nonlinear_arith);
    assert((p.n * a.d) * (a.d * q.d) == (p.n * q.d) * (a.d * a.d)) by (nonlinear_arith);
    assert((q.n * a.d) * (a.d * p.d) == (q.n * p.d) * (a.d * a.d)) by (nonlinear_arith);
    assert((a.n * p.d + p.n * a.d) * (a.d * q.d) - (a.n * q.d + q.n * a.d) * (a.d * p.d) == (p.n
        * q.d - q.n * p.d) * (a.d * a.d)) by (nonlinear_arith)
        requires
            (a.n * p.d) * (a.d * q.d) == (a.n * q.d) * (a.d * p.d),
            (p.n * a.d) * (a.d * q.d) == (p.n * q.d) * (a.d * a.d),
            (q.n * a.d) * (a.d * p.d) == (q.n * p.d) * (a.d * a.d),
    ;
    assert(((p.n * q.d - q.n * p.d) * (a.d * a.d)) * (p.d * q.d) == (p.n * q.d - q.n * p.d) * ((
    a.d * p.d) * (a.d * q.d))) by (nonlinear_arith);
}

/// Scaling by an integer and dividing by it keeps the value.
pub proof fn lemma_scale_unscale(x: Q, m: int)
    ensures
        q_int(m).mul(x).div_int(m).eqv(x),
{
    assert((m * x.n) * x.d == x.n * ((1 * x.d) * m)) by (nonlinear_arith);
}

/// Two integer multiples of one rational subtract, as values.
pub proof fn lemma_scalar_sub_combine(h: Q, p: int, q: int)
    ensures
        q_int(p).mul(h).sub(q_int(q).mul(h)).eqv(q_int(p - q).mul(h)),
{
    assert(((p * h.n) * (1 * h.d) - (q * h.n) * (1 * h.d)) * (1 * h.d) == ((p - q) * h.n) * ((1
        * h.d) * (1 * h.d))) by (nonlinear_arith);
}

// ---------------------------------------------------------------------------
// Executable operations.
// ---------------------------------------------------------------------------

impl Rat {
    /// The denominator is positive.
    pub open spec fn wf(self) -> bool {
        self.den >= 1
    }

    /// Builds `num / den`; rejects a denominator below one.
    pub fn new(num: i64, den: i64) -> (r: Option<Rat>)
        ensures
            (r is Some) <==> den >= 1,
            r matches Some(v) ==> v.wf() && v@ == (Q { n: num as int, d: den as int }),
    {
        if den >= 1 {
            Some(Rat { num, den })
        } else {
            None
        }
    }

    /// The rational with integer value `i`.
    pub fn from_int(i: i64) -> (r: Rat)
        ensures
            r.wf(),
            r@ == q_int(i as int),
    {
        Rat { num: i, den: 1 }
    }

    /// Exact addition; `None` exactly when the exact result does not fit.
    pub fn add(self, other: Rat) -> (r: Option<Rat>)
        requires
            self.wf(),
            other.wf(),
        ensures
            (r is Some) <==> self@.add(other@).fits(),
            r matches Some(v) ==> v.wf() && v@ == self@.add(other@),
    {
        proof {
            lemma_num_den_mul_bound(self.num as int, other.den as int);
            lemma_num_den_mul_bound(other.num as int, self.den as int);
            lemma_den_mul_bound(self.den as int, other.den as int);
        }
        let n1: i128 = (self.num as i128) * (other.den as i128);
        let n2: i128 = (other.num as i128) * (self.den as i128);
        let n: i128 = n1 + n2;
        let d: i128 = (self.den as i128) * (other.den as i128);
        if -0x8000_0000_0000_0000i128 <= n && n <= 0x7fff_ffff_ffff_ffffi128
            && d <= 0x7fff_ffff_ffff_ffffi128 {
            Some(Rat { num: n as i64, den: d as i64 })
        } else {
            None
        }
    }

    /// Exact subtraction; `None` exactly when the exact result does not fit.
    pub fn sub(self, other: Rat) -> (r: Option<Rat>)
        requires
            self.wf(),
            other.wf(),
        ensures
            (r is Some) <==> self@.sub(other@).fits(),
            r matches Some(v) ==> v.wf() && v@ == self@.sub(other@),
    {
        proof {
            lemma_num_den_mul_bound(self.num as int, other.den as int);
            lemma_num_den_mul_bound(other.num as int, self.den as int);
            lemma_den_mul_bound(self.den as int, other.den as int);
        }
        let n1: i128 = (self.num as i128) * (other.den as i128);
        let n2: i128 = (other.num as i128) * (self.den as i128);
        let n: i128 = n1 - n2;
        let d: i128 = (self.den as i128) * (other.den as i128);
        if -0x8000_0000_0000_0000i128 <= n && n <= 0x7fff_ffff_ffff_ffffi128
            && d <= 0x7fff_ffff_ffff_ffffi128 {
            Some(Rat { num: n as i64, den: d as i64 })
        } else {
            None
        }
    }

    /// Exact multiplication; `None` exactly when the exact result does not fit.
    pub fn mul(self, other: Rat) -> (r: Option<Rat>)
        requires
            self.wf(),
            other.wf(),
        ensures
            (r is Some) <==> self@.mul(other@).fits(),
            r matches Some(v) ==> v.wf() && v@ == self@.mul(other@),
    {
        proof {
            lemma_i64_mul_bound(self.num as int, other.num as int);
            lemma_den_mul_bound(self.den as int, other.den as int);
        }
        let n: i128 = (self.num as i128) * (other.num as i128);
        let d: i128 = (self.den as i128) * (other.den as i128);
        if -0x8000_0000_0000_0000i128 <= n && n <= 0x7fff_ffff_ffff_ffffi128
            && d <= 0x7fff_ffff_ffff_ffffi128 {
            Some(Rat { num: n as i64, den: d as i64 })
        } else {
            None
        }
    }

    /// Exact negation; `None` only for the one numerator whose negation
    /// does not fit.
    pub fn neg(self) -> (r: Option<Rat>)
        requires
            self.wf(),
        ensures
            (r is Some) <==> self@.neg().fits(),
            r matches Some(v) ==> v.wf() && v@ == self@.neg(),
    {
        if self.num == i64::MIN {
            None
        } else {
            Some(Rat { num: -self.num, den: self.den })
        }
    }

    /// Exact division by a positive integer; `None` exactly when the scaled
    /// denominator does not fit.
    pub fn div_int(self, m: i64) -> (r: Option<Rat>)
        requires
            self.wf(),
            m >= 1,
        ensures
            (r is Some) <==> self@.div_int(m as int).fits(),
            r matches Some(v) ==> v.wf() && v@ == self@.div_int(m as int),
    {
        proof {
            lemma_den_mul_bound(self.den as int, m as int);
        }
        let d: i128 = (self.den as i128) * (m as i128);
        if d <= 0x7fff_ffff_ffff_ffffi128 {
            Some(Rat { num: self.num, den: d as i64 })
        } else {
            None
        }
    }

    /// Decides value equality of two rationals.
    pub fn eqv(self, other: Rat) -> (r: bool)
        requires
            self.wf(),
            other.wf(),
        ensures
            r == self@.eqv(other@),
    {
        proof {
            lemma_num_den_mul_bound(self.num as int, other.den as int);
            lemma_num_den_mul_bound(other.num as int, self.den as int);
        }
        (self.num as i128) * (other.den as i128) == (other.num as i128) * (self.den as i128)
    }
}

} // verus!
