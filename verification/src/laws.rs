//! The quadrature laws: statements over the ghost Simpson sum that hold of
//! every admissible input, each proved once and for all.

use vstd::prelude::*;

use crate::integrand::ConstFn;
use crate::integrand::Integrand;
use crate::integrand::LinComb;
use crate::rational::Q;
use crate::rational::lemma_add_wf;
use crate::rational::lemma_div_int_wf;
use crate::rational::lemma_mul_wf;
use crate::rational::lemma_sub_wf;
use crate::rational::lemma_add_congruence;
use crate::rational::lemma_div_int_congruence;
use crate::rational::lemma_mul_congruence;
use crate::rational::lemma_eqv_sym;
use crate::rational::lemma_eqv_trans;
use crate::rational::lemma_add_assoc;
use crate::rational::lemma_add_perm13;
use crate::rational::lemma_add_swap;
use crate::rational::lemma_div_int_add;
use crate::rational::lemma_half_scale;
use crate::rational::lemma_mul_neg;
use crate::rational::lemma_neg_congruence;
use crate::rational::lemma_add_cancel;
use crate::rational::lemma_add_sub_cancel;
use crate::rational::lemma_add_zero_right;
use crate::rational::lemma_scale_unscale;
use crate::rational::lemma_scalar_sub_combine;
use crate::rational::lemma_shift_sub;
use crate::rational::lemma_sub_congruence;
use crate::rational::lemma_add_right_swap;
use crate::rational::lemma_scalar_combine;
use crate::rational::lemma_zero_add;
use crate::rational::lemma_zero_sum_negates;
use crate::rational::lemma_sub_is_add_neg;
use crate::rational::lemma_mul_distrib;
use crate::rational::lemma_mul_div_swap;
use crate::rational::lemma_mul_left_commute;
use crate::rational::q_int;
use crate::simpson::lemma_panel_points_wf;
use crate::simpson::lemma_panel_wf;
use crate::simpson::lemma_sum_wf;
use crate::simpson::panel_val;
use crate::simpson::simpson_val;
use crate::simpson::sum_val;

verus! {

/// A product with a zero factor is zero.
proof fn lemma_mul_zero(x: int, y: int)
    by (nonlinear_arith)
    requires
        x == 0,
    ensures
        x * y == 0,
{
}

// ---------------------------------------------------------------------------
// Zero-width interval.
// ---------------------------------------------------------------------------

/// With a zero-width panel every numerator of the running sum is zero.
proof fn lemma_sum_num_zero<F: Integrand>(f: &F, a: Q, dx: Q, k: int)
    requires
        dx.n == 0,
    ensures
        sum_val(f, a, dx, k).n == 0,
    decreases k,
{
    if k <= 0 {
    } else {
        lemma_sum_num_zero(f, a, dx, k - 1);
        let s = f.model(a.add(q_int(k - 1).mul(dx))).add(
            q_int(4).mul(f.model(a.sub(dx.div_int(2)).add(q_int(k).mul(dx)))),
        ).add(f.model(a.add(q_int(k).mul(dx))));
        lemma_mul_zero(dx.n, s.n);
        assert(panel_val(f, a, dx, k).n == 0);
        lemma_mul_zero(sum_val(f, a, dx, k - 1).n, panel_val(f, a, dx, k).d);
        lemma_mul_zero(panel_val(f, a, dx, k).n, sum_val(f, a, dx, k - 1).d);
    }
}

/// Zero-width interval: over an interval whose endpoints are equal in
/// value, the Simpson sum is zero, whatever the integrand and the panel
/// count.
pub proof fn law_zero_width<F: Integrand>(f: &F, a: Q, b: Q, n: int)
    requires
        a.wf(),
        b.wf(),
        n >= 1,
        a.eqv(b),
    ensures
        simpson_val(f, a, b, n).eqv(q_int(0)),
{
    let dx = b.sub(a).div_int(n);
    assert(dx.n == 0);
    lemma_sum_num_zero(f, a, dx, n);
    lemma_mul_zero(simpson_val(f, a, b, n).n, 1);
    lemma_mul_zero(0, simpson_val(f, a, b, n).d);
}

// ---------------------------------------------------------------------------
// Constant integrand.
// ---------------------------------------------------------------------------

/// For a constant integrand each panel contributes exactly `k * dx`.
proof fn lemma_const_panel(c: &ConstFn, a: Q, dx: Q, i: int)
    requires
        c.inv(),
        a.wf(),
        dx.wf(),
    ensures
        panel_val(c, a, dx, i).eqv(c.k@.mul(dx)),
{
    let k = c.k@;
    let s = k.add(q_int(4).mul(k)).add(k);
    assert(s.n == (k.n * (1 * k.d) + (4 * k.n) * k.d) * k.d + k.n * (k.d * (1 * k.d)));
    assert(s.d == (k.d * (1 * k.d)) * k.d);
    assert(panel_val(c, a, dx, i) == dx.mul(s).div_int(6));
    assert((dx.n * s.n) * (k.d * dx.d) == (k.n * dx.n) * ((dx.d * s.d) * 6)) by (nonlinear_arith)
        requires
            s.n == (k.n * (1 * k.d) + (4 * k.n) * k.d) * k.d + k.n * (k.d * (1 * k.d)),
            s.d == (k.d * (1 * k.d)) * k.d,
    ;
}

/// The running sum of `m` constant panels is `m * (k * dx)` in value.
proof fn lemma_const_sum(c: &ConstFn, a: Q, dx: Q, m: int)
    requires
        c.inv(),
        a.wf(),
        dx.wf(),
        m >= 0,
    ensures
        sum_val(c, a, dx, m).eqv(q_int(m).mul(c.k@.mul(dx))),
    decreases m,
{
    let k = c.k@;
    lemma_mul_wf(k, dx);
    let p = k.mul(dx);
    if m <= 0 {
        lemma_mul_zero(0, p.n);
        lemma_mul_zero(0, 1 * p.d);
        assert(sum_val(c, a, dx, 0).eqv(q_int(0).mul(p)));
    } else {
        lemma_const_sum(c, a, dx, m - 1);
        lemma_const_panel(c, a, dx, m);
        lemma_sum_wf(c, a, dx, m - 1);
        lemma_panel_wf(c, a, dx, m);
        lemma_mul_wf(q_int(m - 1), p);
        lemma_mul_wf(q_int(m), p);
        lemma_add_congruence(
            sum_val(c, a, dx, m - 1),
            panel_val(c, a, dx, m),
            q_int(m - 1).mul(p),
            p,
        );
        lemma_add_wf(sum_val(c, a, dx, m - 1), panel_val(c, a, dx, m));
        lemma_add_wf(q_int(m - 1).mul(p), p);
        assert(q_int(m - 1).mul(p).add(p).eqv(q_int(m).mul(p))) by {
            assert((((m - 1) * p.n) * p.d + p.n * ((1 * p.d))) * p.d == (m * p.n) * ((1 * p.d)
                * p.d)) by (nonlinear_arith);
        }
        lemma_eqv_trans(
            sum_val(c, a, dx, m),
            q_int(m - 1).mul(p).add(p),
            q_int(m).mul(p),
        );
    }
}

/// Constant integrand: integrating `x |-> k` from `a` to `b` yields exactly
/// `k * (b - a)`, whatever the panel count.
pub proof fn law_constant(c: &ConstFn, a: Q, b: Q, n: int)
    requires
        c.inv(),
        a.wf(),
        b.wf(),
        n >= 1,
    ensures
        simpson_val(c, a, b, n).eqv(c.k@.mul(b.sub(a))),
{
    let k = c.k@;
    let diff = b.sub(a);
    let dx = diff.div_int(n);
    lemma_sub_wf(b, a);
    lemma_div_int_wf(diff, n);
    lemma_mul_wf(k, dx);
    lemma_const_sum(c, a, dx, n);
    lemma_mul_left_commute(q_int(n), k, dx);
    assert(q_int(n).mul(dx).eqv(diff)) by {
        assert((n * diff.n) * diff.d == diff.n * (1 * (diff.d * n))) by (nonlinear_arith);
    }
    lemma_mul_wf(q_int(n), dx);
    lemma_mul_congruence(k, q_int(n).mul(dx), k, diff);
    lemma_mul_wf(k, q_int(n).mul(dx));
    lemma_mul_wf(k, diff);
    lemma_sum_wf(c, a, dx, n);
    lemma_mul_wf(q_int(n), k.mul(dx));
    lemma_eqv_trans(
        sum_val(c, a, dx, n),
        k.mul(q_int(n).mul(dx)),
        k.mul(diff),
    );
}

// ---------------------------------------------------------------------------
// Linearity.
// ---------------------------------------------------------------------------

/// Regrouping two scaled pairs:
/// `(A*x + B*y) + (A*u + B*v)` equals `A*(x + u) + B*(y + v)` in value.
proof fn lemma_scaled_regroup(aa: Q, bb: Q, x: Q, y: Q, u: Q, v: Q)
    requires
        aa.wf(),
        bb.wf(),
        x.wf(),
        y.wf(),
        u.wf(),
        v.wf(),
    ensures
        aa.mul(x).add(bb.mul(y)).add(aa.mul(u).add(bb.mul(v))).eqv(
            aa.mul(x.add(u)).add(bb.mul(y.add(v))),
        ),
{
    lemma_add_swap(aa.mul(x), bb.mul(y), aa.mul(u), bb.mul(v));
    lemma_mul_distrib(aa, x, u);
    lemma_mul_distrib(bb, y, v);
    lemma_mul_wf(aa, x);
    lemma_mul_wf(bb, y);
    lemma_mul_wf(aa, u);
    lemma_mul_wf(bb, v);
    lemma_add_wf(aa.mul(x), aa.mul(u));
    lemma_add_wf(bb.mul(y), bb.mul(v));
    lemma_add_wf(x, u);
    lemma_add_wf(y, v);
    lemma_mul_wf(aa, x.add(u));
    lemma_mul_wf(bb, y.add(v));
    lemma_eqv_sym(aa.mul(x.add(u)), aa.mul(x).add(aa.mul(u)));
    lemma_eqv_sym(bb.mul(y.add(v)), bb.mul(y).add(bb.mul(v)));
    lemma_add_congruence(
        aa.mul(x).add(aa.mul(u)),
        bb.mul(y).add(bb.mul(v)),
        aa.mul(x.add(u)),
        bb.mul(y.add(v)),
    );
}

/// A common factor passes through a scaled pair:
/// `z * (A*p + B*q)` equals `A*(z*p) + B*(z*q)` in value.
proof fn lemma_scale_through(z: Q, aa: Q, bb: Q, p: Q, q: Q)
    requires
        z.wf(),
        aa.wf(),
        bb.wf(),
        p.wf(),
        q.wf(),
    ensures
        z.mul(aa.mul(p).add(bb.mul(q))).eqv(aa.mul(z.mul(p)).add(bb.mul(z.mul(q)))),
{
    lemma_mul_distrib(z, aa.mul(p), bb.mul(q));
    lemma_mul_left_commute(z, aa, p);
    lemma_mul_left_commute(z, bb, q);
}

/// An integer division passes through a scaled pair:
/// `(A*p + B*q) / m` equals `A*(p/m) + B*(q/m)` in value.
proof fn lemma_div_through(aa: Q, bb: Q, p: Q, q: Q, m: int)
    ensures
        aa.mul(p).add(bb.mul(q)).div_int(m).eqv(
            aa.mul(p.div_int(m)).add(bb.mul(q.div_int(m))),
        ),
{
    lemma_div_int_add(aa.mul(p), bb.mul(q), m);
    lemma_mul_div_swap(aa, p, m);
    lemma_mul_div_swap(bb, q, m);
}

/// A panel of a linear combination is the combination of the panels.
proof fn lemma_lin_panel<F: Integrand, G: Integrand>(lc: &LinComb<F, G>, a: Q, dx: Q, i: int)
    requires
        lc.inv(),
        a.wf(),
        dx.wf(),
    ensures
        panel_val(lc, a, dx, i).eqv(
            lc.alpha@.mul(panel_val(&lc.f, a, dx, i)).add(
                lc.beta@.mul(panel_val(&lc.g, a, dx, i)),
            ),
        ),
{
    let aa = lc.alpha@;
    let bb = lc.beta@;
    let q4 = q_int(4);
    let xl = a.add(q_int(i - 1).mul(dx));
    let xm = a.sub(dx.div_int(2)).add(q_int(i).mul(dx));
    let xr = a.add(q_int(i).mul(dx));
    lemma_panel_points_wf(a, dx, i);
    let f1 = lc.f.model(xl);
    let f2 = lc.f.model(xm);
    let f3 = lc.f.model(xr);
    let g1 = lc.g.model(xl);
    let g2 = lc.g.model(xm);
    let g3 = lc.g.model(xr);
    lc.f.model_wf(xl);
    lc.f.model_wf(xm);
    lc.f.model_wf(xr);
    lc.g.model_wf(xl);
    lc.g.model_wf(xm);
    lc.g.model_wf(xr);
    let h1 = aa.mul(f1).add(bb.mul(g1));
    let h2 = aa.mul(f2).add(bb.mul(g2));
    let h3 = aa.mul(f3).add(bb.mul(g3));
    lemma_mul_wf(aa, f1);
    lemma_mul_wf(aa, f2);
    lemma_mul_wf(aa, f3);
    lemma_mul_wf(bb, g1);
    lemma_mul_wf(bb, g2);
    lemma_mul_wf(bb, g3);
    lemma_add_wf(aa.mul(f1), bb.mul(g1));
    lemma_add_wf(aa.mul(f2), bb.mul(g2));
    lemma_add_wf(aa.mul(f3), bb.mul(g3));
    let f2s = q4.mul(f2);
    let g2s = q4.mul(g2);
    lemma_mul_wf(q4, f2);
    lemma_mul_wf(q4, g2);
    lemma_mul_wf(aa, f2s);
    lemma_mul_wf(bb, g2s);
    // Step 1: 4 * h2 equals aa * (4 * f2) + bb * (4 * g2) in value.
    let t = q4.mul(h2);
    let tt = aa.mul(f2s).add(bb.mul(g2s));
    lemma_scale_through(q4, aa, bb, f2, g2);
    assert(t.eqv(tt));
    lemma_mul_wf(q4, h2);
    lemma_add_wf(aa.mul(f2s), bb.mul(g2s));
    // Step 2: h1 + t equals aa * uf + bb * ug in value.
    let uf = f1.add(f2s);
    let ug = g1.add(g2s);
    lemma_add_wf(f1, f2s);
    lemma_add_wf(g1, g2s);
    lemma_mul_wf(aa, uf);
    lemma_mul_wf(bb, ug);
    let u = h1.add(t);
    let ut = aa.mul(uf).add(bb.mul(ug));
    lemma_add_congruence(h1, t, h1, tt);
    lemma_scaled_regroup(aa, bb, f1, g1, f2s, g2s);
    lemma_add_wf(h1, t);
    lemma_add_wf(h1, tt);
    lemma_add_wf(aa.mul(uf), bb.mul(ug));
    lemma_eqv_trans(u, h1.add(tt), ut);
    // Step 3: u + h3 equals aa * sf + bb * sg in value.
    let sf = uf.add(f3);
    let sg = ug.add(g3);
    lemma_add_wf(uf, f3);
    lemma_add_wf(ug, g3);
    lemma_mul_wf(aa, sf);
    lemma_mul_wf(bb, sg);
    let s = u.add(h3);
    let st = aa.mul(sf).add(bb.mul(sg));
    lemma_add_congruence(u, h3, ut, h3);
    lemma_scaled_regroup(aa, bb, uf, ug, f3, g3);
    lemma_add_wf(u, h3);
    lemma_add_wf(ut, h3);
    lemma_add_wf(aa.mul(sf), bb.mul(sg));
    lemma_eqv_trans(s, ut.add(h3), st);
    // Step 4: dx * s equals aa * (dx * sf) + bb * (dx * sg) in value.
    let w = dx.mul(s);
    let wt = aa.mul(dx.mul(sf)).add(bb.mul(dx.mul(sg)));
    lemma_mul_congruence(dx, s, dx, st);
    lemma_scale_through(dx, aa, bb, sf, sg);
    lemma_mul_wf(dx, s);
    lemma_mul_wf(dx, st);
    lemma_mul_wf(dx, sf);
    lemma_mul_wf(dx, sg);
    lemma_mul_wf(aa, dx.mul(sf));
    lemma_mul_wf(bb, dx.mul(sg));
    lemma_add_wf(aa.mul(dx.mul(sf)), bb.mul(dx.mul(sg)));
    lemma_eqv_trans(w, dx.mul(st), wt);
    // Step 5: dividing by 6 yields the combination of the panels.
    lemma_div_int_congruence(w, wt, 6);
    lemma_div_through(aa, bb, dx.mul(sf), dx.mul(sg), 6);
    lemma_div_int_wf(w, 6);
    lemma_div_int_wf(wt, 6);
    lemma_div_int_wf(dx.mul(sf), 6);
    lemma_div_int_wf(dx.mul(sg), 6);
    lemma_mul_wf(aa, dx.mul(sf).div_int(6));
    lemma_mul_wf(bb, dx.mul(sg).div_int(6));
    lemma_add_wf(aa.mul(dx.mul(sf).div_int(6)), bb.mul(dx.mul(sg).div_int(6)));
    lemma_eqv_trans(
        w.div_int(6),
        wt.div_int(6),
        aa.mul(dx.mul(sf).div_int(6)).add(bb.mul(dx.mul(sg).div_int(6))),
    );
}

/// A running sum of a linear combination is the combination of the
/// running sums.
proof fn lemma_lin_sum<F: Integrand, G: Integrand>(lc: &LinComb<F, G>, a: Q, dx: Q, m: int)
    requires
        lc.inv(),
        a.wf(),
        dx.wf(),
        m >= 0,
    ensures
        sum_val(lc, a, dx, m).eqv(
            lc.alpha@.mul(sum_val(&lc.f, a, dx, m)).add(lc.beta@.mul(sum_val(&lc.g, a, dx, m))),
        ),
    decreases m,
{
    let aa = lc.alpha@;
    let bb = lc.beta@;
    if m <= 0 {
        assert(0 * ((aa.d * 1) * (bb.d * 1)) == (aa.n * 0 * (bb.d * 1) + bb.n * 0 * (aa.d * 1))
            * 1) by (nonlinear_arith);
        assert(sum_val(lc, a, dx, m).eqv(
            aa.mul(sum_val(&lc.f, a, dx, m)).add(bb.mul(sum_val(&lc.g, a, dx, m))),
        ));
    } else {
        lemma_lin_sum(lc, a, dx, m - 1);
        lemma_lin_panel(lc, a, dx, m);
        let sfp = sum_val(&lc.f, a, dx, m - 1);
        let sgp = sum_val(&lc.g, a, dx, m - 1);
        let pf = panel_val(&lc.f, a, dx, m);
        let pg = panel_val(&lc.g, a, dx, m);
        lemma_sum_wf(&lc.f, a, dx, m - 1);
        lemma_sum_wf(&lc.g, a, dx, m - 1);
        lemma_panel_wf(&lc.f, a, dx, m);
        lemma_panel_wf(&lc.g, a, dx, m);
        lemma_sum_wf(lc, a, dx, m - 1);
        lemma_panel_wf(lc, a, dx, m);
        lemma_mul_wf(aa, sfp);
        lemma_mul_wf(bb, sgp);
        lemma_mul_wf(aa, pf);
        lemma_mul_wf(bb, pg);
        lemma_add_wf(aa.mul(sfp), bb.mul(sgp));
        lemma_add_wf(aa.mul(pf), bb.mul(pg));
        lemma_add_congruence(
            sum_val(lc, a, dx, m - 1),
            panel_val(lc, a, dx, m),
            aa.mul(sfp).add(bb.mul(sgp)),
            aa.mul(pf).add(bb.mul(pg)),
        );
        lemma_scaled_regroup(aa, bb, sfp, sgp, pf, pg);
        lemma_add_wf(sum_val(lc, a, dx, m - 1), panel_val(lc, a, dx, m));
        lemma_add_wf(aa.mul(sfp).add(bb.mul(sgp)), aa.mul(pf).add(bb.mul(pg)));
        lemma_add_wf(sfp, pf);
        lemma_add_wf(sgp, pg);
        lemma_mul_wf(aa, sfp.add(pf));
        lemma_mul_wf(bb, sgp.add(pg));
        lemma_add_wf(aa.mul(sfp.add(pf)), bb.mul(sgp.add(pg)));
        lemma_eqv_trans(
            sum_val(lc, a, dx, m),
            aa.mul(sfp).add(bb.mul(sgp)).add(aa.mul(pf).add(bb.mul(pg))),
            aa.mul(sfp.add(pf)).add(bb.mul(sgp.add(pg))),
        );
    }
}

/// Linearity: integrating `alpha * f + beta * g` yields exactly
/// `alpha * integral(f) + beta * integral(g)` in value, for the same
/// interval and panel count.
pub proof fn law_linearity<F: Integrand, G: Integrand>(lc: &LinComb<F, G>, a: Q, b: Q, n: int)
    requires
        lc.inv(),
        a.wf(),
        b.wf(),
        n >= 1,
    ensures
        simpson_val(lc, a, b, n).eqv(
            lc.alpha@.mul(simpson_val(&lc.f, a, b, n)).add(
                lc.beta@.mul(simpson_val(&lc.g, a, b, n)),
            ),
        ),
{
    lemma_sub_wf(b, a);
    lemma_div_int_wf(b.sub(a), n);
    lemma_lin_sum(lc, a, b.sub(a).div_int(n), n);
}

// ---------------------------------------------------------------------------
// Sign reversal.
// ---------------------------------------------------------------------------

/// The backward panel width is the negated forward width in value.
proof fn lemma_back_width(a: Q, b: Q, n: int)
    requires
        a.wf(),
        b.wf(),
        n >= 1,
    ensures
        a.sub(b).div_int(n).eqv(b.sub(a).div_int(n).neg()),
{
    assert((a.d * b.d) * n == (b.d * a.d) * n) by (nonlinear_arith);
}

/// The far endpoint is the base plus `n` panel widths in value.
proof fn lemma_base_reach(a: Q, b: Q, n: int)
    requires
        a.wf(),
        b.wf(),
        n >= 1,
    ensures
        b.eqv(a.add(q_int(n).mul(b.sub(a).div_int(n)))),
{
    let diff = b.sub(a);
    let dx = diff.div_int(n);
    lemma_sub_wf(b, a);
    lemma_div_int_wf(diff, n);
    lemma_mul_wf(q_int(n), dx);
    lemma_add_wf(a, q_int(n).mul(dx));
    lemma_add_wf(a, diff);
    assert(q_int(n).mul(dx).eqv(diff)) by {
        assert((n * diff.n) * diff.d == diff.n * (1 * (diff.d * n))) by (nonlinear_arith);
    }
    lemma_add_congruence(a, q_int(n).mul(dx), a, diff);
    assert(a.add(diff).eqv(b)) by {
        assert((a.n * (b.d * a.d) + (b.n * a.d - a.n * b.d) * a.d) * b.d == b.n * (a.d * (b.d
            * a.d))) by (nonlinear_arith);
    }
    lemma_eqv_trans(a.add(q_int(n).mul(dx)), a.add(diff), b);
    lemma_eqv_sym(a.add(q_int(n).mul(dx)), b);
}

/// Appending two integer multiples of one step to a base combines them.
proof fn lemma_shift_combine(a: Q, h: Q, c1: int, c2: int)
    requires
        a.wf(),
        h.wf(),
    ensures
        a.add(q_int(c1).mul(h)).add(q_int(c2).mul(h)).eqv(a.add(q_int(c1 + c2).mul(h))),
{
    lemma_add_assoc(a, q_int(c1).mul(h), q_int(c2).mul(h));
    lemma_scalar_combine(h, c1, c2);
    lemma_mul_wf(q_int(c1), h);
    lemma_mul_wf(q_int(c2), h);
    lemma_mul_wf(q_int(c1 + c2), h);
    lemma_add_wf(q_int(c1).mul(h), q_int(c2).mul(h));
    lemma_add_congruence(a, q_int(c1).mul(h).add(q_int(c2).mul(h)), a, q_int(c1 + c2).mul(h));
}

/// A multiple of the backward width is the negated doubled multiple of the
/// forward half width in value.
proof fn lemma_dy_scale(dx: Q, dy: Q, c: int)
    requires
        dx.wf(),
        dy.wf(),
        dy.eqv(dx.neg()),
    ensures
        q_int(c).mul(dy).eqv(q_int(-2 * c).mul(dx.div_int(2))),
{
    let h = dx.div_int(2);
    lemma_div_int_wf(dx, 2);
    lemma_mul_congruence(q_int(c), dy, q_int(c), dx.neg());
    lemma_mul_neg(dx, q_int(c));
    lemma_mul_neg(q_int(c), dx);
    assert(q_int(c).mul(dx.neg()) == q_int(c).mul(dx).neg());
    lemma_half_scale(dx, c);
    lemma_neg_congruence(q_int(c).mul(dx), q_int(2 * c).mul(h));
    lemma_mul_neg(q_int(2 * c), h);
    assert(q_int(2 * c).neg() == q_int(-2 * c));
    assert(q_int(2 * c).mul(h).neg() == q_int(-2 * c).mul(h));
    lemma_mul_wf(q_int(c), dy);
    lemma_mul_wf(q_int(-2 * c), h);
    assert(q_int(c).mul(dx).neg().wf());
    lemma_eqv_trans(q_int(c).mul(dy), q_int(c).mul(dx).neg(), q_int(-2 * c).mul(h));
}

/// Backward panel `i` is the negated forward panel `n + 1 - i` in value.
proof fn lemma_rev_panel<F: Integrand>(f: &F, a: Q, dx: Q, b: Q, dy: Q, n: int, i: int)
    requires
        f.inv(),
        a.wf(),
        b.wf(),
        dx.wf(),
        dy.wf(),
        1 <= i <= n,
        dy.eqv(dx.neg()),
        b.eqv(a.add(q_int(n).mul(dx))),
    ensures
        panel_val(f, b, dy, i).eqv(panel_val(f, a, dx, n + 1 - i).neg()),
{
    let j = n + 1 - i;
    let h = dx.div_int(2);
    let hy = dy.div_int(2);
    lemma_div_int_wf(dx, 2);
    lemma_div_int_wf(dy, 2);
    lemma_mul_wf(q_int(n), dx);
    lemma_add_wf(a, q_int(n).mul(dx));
    // The base endpoint over the half width: b is a plus 2n halves.
    lemma_half_scale(dx, n);
    lemma_mul_wf(q_int(2 * n), h);
    lemma_add_wf(a, q_int(2 * n).mul(h));
    lemma_add_congruence(a, q_int(n).mul(dx), a, q_int(2 * n).mul(h));
    lemma_eqv_trans(b, a.add(q_int(n).mul(dx)), a.add(q_int(2 * n).mul(h)));
    // yl equals xr of the mirrored panel.
    let yl = b.add(q_int(i - 1).mul(dy));
    let xr = a.add(q_int(j).mul(dx));
    lemma_mul_wf(q_int(i - 1), dy);
    lemma_mul_wf(q_int(-2 * (i - 1)), h);
    lemma_mul_wf(q_int(j), dx);
    lemma_mul_wf(q_int(2 * j), h);
    lemma_add_wf(b, q_int(i - 1).mul(dy));
    lemma_add_wf(a, q_int(-2 * (i - 1)).mul(h));
    lemma_add_wf(a, q_int(j).mul(dx));
    lemma_add_wf(a, q_int(2 * j).mul(h));
    lemma_dy_scale(dx, dy, i - 1);
    lemma_add_congruence(
        b,
        q_int(i - 1).mul(dy),
        a.add(q_int(2 * n).mul(h)),
        q_int(-2 * (i - 1)).mul(h),
    );
    lemma_shift_combine(a, h, 2 * n, -2 * (i - 1));
    lemma_add_wf(a.add(q_int(2 * n).mul(h)), q_int(-2 * (i - 1)).mul(h));
    lemma_mul_wf(q_int(2 * n + -2 * (i - 1)), h);
    lemma_add_wf(a, q_int(2 * n + -2 * (i - 1)).mul(h));
    lemma_eqv_trans(
        yl,
        a.add(q_int(2 * n).mul(h)).add(q_int(-2 * (i - 1)).mul(h)),
        a.add(q_int(2 * n + -2 * (i - 1)).mul(h)),
    );
    lemma_half_scale(dx, j);
    lemma_add_congruence(a, q_int(j).mul(dx), a, q_int(2 * j).mul(h));
    assert(q_int(2 * j) == q_int(2 * n + -2 * (i - 1)));
    lemma_eqv_sym(xr, a.add(q_int(2 * j).mul(h)));
    lemma_eqv_trans(yl, a.add(q_int(2 * j).mul(h)), xr);
    // yr equals xl of the mirrored panel.
    let yr = b.add(q_int(i).mul(dy));
    let xl = a.add(q_int(j - 1).mul(dx));
    lemma_mul_wf(q_int(i), dy);
    lemma_mul_wf(q_int(-2 * i), h);
    lemma_mul_wf(q_int(j - 1), dx);
    lemma_mul_wf(q_int(2 * (j - 1)), h);
    lemma_add_wf(b, q_int(i).mul(dy));
    lemma_add_wf(a, q_int(-2 * i).mul(h));
    lemma_add_wf(a, q_int(j - 1).mul(dx));
    lemma_add_wf(a, q_int(2 * (j - 1)).mul(h));
    lemma_dy_scale(dx, dy, i);
    lemma_add_congruence(
        b,
        q_int(i).mul(dy),
        a.add(q_int(2 * n).mul(h)),
        q_int(-2 * i).mul(h),
    );
    lemma_shift_combine(a, h, 2 * n, -2 * i);
    lemma_add_wf(a.add(q_int(2 * n).mul(h)), q_int(-2 * i).mul(h));
    lemma_mul_wf(q_int(2 * n + -2 * i), h);
    lemma_add_wf(a, q_int(2 * n + -2 * i).mul(h));
    lemma_eqv_trans(
        yr,
        a.add(q_int(2 * n).mul(h)).add(q_int(-2 * i).mul(h)),
        a.add(q_int(2 * n + -2 * i).mul(h)),
    );
    lemma_half_scale(dx, j - 1);
    lemma_add_congruence(a, q_int(j - 1).mul(dx), a, q_int(2 * (j - 1)).mul(h));
    assert(q_int(2 * (j - 1)) == q_int(2 * n + -2 * i));
    lemma_eqv_sym(xl, a.add(q_int(2 * (j - 1)).mul(h)));
    lemma_eqv_trans(yr, a.add(q_int(2 * (j - 1)).mul(h)), xl);
    // ym equals xm of the mirrored panel.
    let ym = b.sub(hy).add(q_int(i).mul(dy));
    let xm = a.sub(h).add(q_int(j).mul(dx));
    lemma_sub_is_add_neg(b, hy);
    lemma_sub_is_add_neg(a, h);
    assert(hy.eqv(h.neg())) by {
        lemma_div_int_congruence(dy, dx.neg(), 2);
        assert(dx.neg().div_int(2) == dx.div_int(2).neg());
    }
    lemma_neg_congruence(hy, h.neg());
    assert(h.neg().neg() == h);
    assert(q_int(1).mul(h) == h);
    lemma_add_congruence(b, hy.neg(), a.add(q_int(2 * n).mul(h)), q_int(1).mul(h));
    lemma_shift_combine(a, h, 2 * n, 1);
    lemma_mul_wf(q_int(1), h);
    lemma_add_wf(b, hy.neg());
    lemma_add_wf(a.add(q_int(2 * n).mul(h)), q_int(1).mul(h));
    lemma_mul_wf(q_int(2 * n + 1), h);
    lemma_add_wf(a, q_int(2 * n + 1).mul(h));
    lemma_eqv_trans(
        b.add(hy.neg()),
        a.add(q_int(2 * n).mul(h)).add(q_int(1).mul(h)),
        a.add(q_int(2 * n + 1).mul(h)),
    );
    lemma_add_congruence(
        b.add(hy.neg()),
        q_int(i).mul(dy),
        a.add(q_int(2 * n + 1).mul(h)),
        q_int(-2 * i).mul(h),
    );
    lemma_shift_combine(a, h, 2 * n + 1, -2 * i);
    lemma_add_wf(b.add(hy.neg()), q_int(i).mul(dy));
    lemma_add_wf(a.add(q_int(2 * n + 1).mul(h)), q_int(-2 * i).mul(h));
    lemma_mul_wf(q_int(2 * n + 1 + -2 * i), h);
    lemma_add_wf(a, q_int(2 * n + 1 + -2 * i).mul(h));
    lemma_eqv_trans(
        ym,
        a.add(q_int(2 * n + 1).mul(h)).add(q_int(-2 * i).mul(h)),
        a.add(q_int(2 * n + 1 + -2 * i).mul(h)),
    );
    // xm over the half width: a minus one half plus 2j halves.
    assert(h.neg() == q_int(-1).mul(h));
    lemma_half_scale(dx, j);
    lemma_mul_wf(q_int(-1), h);
    lemma_add_wf(a, q_int(-1).mul(h));
    lemma_add_congruence(a.add(q_int(-1).mul(h)), q_int(j).mul(dx), a.add(q_int(-1).mul(h)),
        q_int(2 * j).mul(h));
    lemma_shift_combine(a, h, -1, 2 * j);
    lemma_add_wf(a.add(q_int(-1).mul(h)), q_int(j).mul(dx));
    lemma_add_wf(a.add(q_int(-1).mul(h)), q_int(2 * j).mul(h));
    lemma_mul_wf(q_int(-1 + 2 * j), h);
    lemma_add_wf(a, q_int(-1 + 2 * j).mul(h));
    lemma_eqv_trans(
        xm,
        a.add(q_int(-1).mul(h)).add(q_int(2 * j).mul(h)),
        a.add(q_int(-1 + 2 * j).mul(h)),
    );
    assert(q_int(-1 + 2 * j) == q_int(2 * n + 1 + -2 * i));
    lemma_eqv_sym(xm, a.add(q_int(2 * n + 1 + -2 * i).mul(h)));
    lemma_eqv_trans(ym, a.add(q_int(2 * n + 1 + -2 * i).mul(h)), xm);
    // The sampled values agree across the mirror, so the summed term does.
    lemma_panel_points_wf(b, dy, i);
    lemma_panel_points_wf(a, dx, j);
    f.model_wf(yl);
    f.model_wf(ym);
    f.model_wf(yr);
    f.model_wf(xl);
    f.model_wf(xm);
    f.model_wf(xr);
    f.model_respects_eqv(yl, xr);
    f.model_respects_eqv(ym, xm);
    f.model_respects_eqv(yr, xl);
    let q4 = q_int(4);
    lemma_mul_wf(q4, f.model(ym));
    lemma_mul_wf(q4, f.model(xm));
    lemma_mul_congruence(q4, f.model(ym), q4, f.model(xm));
    lemma_add_congruence(f.model(yl), q4.mul(f.model(ym)), f.model(xr), q4.mul(f.model(xm)));
    lemma_add_wf(f.model(yl), q4.mul(f.model(ym)));
    lemma_add_wf(f.model(xr), q4.mul(f.model(xm)));
    lemma_add_congruence(
        f.model(yl).add(q4.mul(f.model(ym))),
        f.model(yr),
        f.model(xr).add(q4.mul(f.model(xm))),
        f.model(xl),
    );
    let sb = f.model(yl).add(q4.mul(f.model(ym))).add(f.model(yr));
    let sf = f.model(xl).add(q4.mul(f.model(xm))).add(f.model(xr));
    lemma_add_perm13(f.model(xr), q4.mul(f.model(xm)), f.model(xl));
    assert(sb.eqv(sf));
    // The width flips sign, so the whole panel does.
    lemma_add_wf(f.model(yl).add(q4.mul(f.model(ym))), f.model(yr));
    lemma_add_wf(f.model(xl), q4.mul(f.model(xm)));
    lemma_add_wf(f.model(xl).add(q4.mul(f.model(xm))), f.model(xr));
    assert(dx.neg().wf());
    lemma_mul_congruence(dy, sb, dx.neg(), sf);
    lemma_mul_neg(dx, sf);
    lemma_mul_wf(dy, sb);
    lemma_mul_wf(dx, sf);
    assert(dx.mul(sf).neg().wf());
    lemma_div_int_congruence(dy.mul(sb), dx.mul(sf).neg(), 6);
    assert(dx.mul(sf).neg().div_int(6) == dx.mul(sf).div_int(6).neg());
    assert(panel_val(f, b, dy, i) == dy.mul(sb).div_int(6));
    assert(panel_val(f, a, dx, j) == dx.mul(sf).div_int(6));
}

/// The backward running sum plus the full forward sum is the forward sum
/// of the panels not yet mirrored.
proof fn lemma_rev_sum<F: Integrand>(f: &F, a: Q, dx: Q, b: Q, dy: Q, n: int, k: int)
    requires
        f.inv(),
        a.wf(),
        b.wf(),
        dx.wf(),
        dy.wf(),
        0 <= k <= n,
        dy.eqv(dx.neg()),
        b.eqv(a.add(q_int(n).mul(dx))),
    ensures
        sum_val(f, b, dy, k).add(sum_val(f, a, dx, n)).eqv(sum_val(f, a, dx, n - k)),
    decreases k,
{
    let sn = sum_val(f, a, dx, n);
    lemma_sum_wf(f, a, dx, n);
    if k <= 0 {
        lemma_zero_add(sn);
    } else {
        lemma_rev_sum(f, a, dx, b, dy, n, k - 1);
        lemma_rev_panel(f, a, dx, b, dy, n, k);
        let u = sum_val(f, b, dy, k - 1);
        let pb = panel_val(f, b, dy, k);
        let pf = panel_val(f, a, dx, n - k + 1);
        lemma_sum_wf(f, b, dy, k - 1);
        lemma_panel_wf(f, b, dy, k);
        lemma_panel_wf(f, a, dx, n - k + 1);
        lemma_sum_wf(f, a, dx, n - k);
        lemma_sum_wf(f, a, dx, n - k + 1);
        lemma_add_right_swap(u, pb, sn);
        lemma_add_wf(u, sn);
        assert(pf.neg().wf());
        lemma_add_congruence(u.add(sn), pb, sum_val(f, a, dx, n - k + 1), pf.neg());
        lemma_add_wf(u.add(sn), pb);
        lemma_add_wf(sum_val(f, a, dx, n - k + 1), pf.neg());
        assert(sum_val(f, a, dx, n - k + 1) == sum_val(f, a, dx, n - k).add(pf));
        lemma_add_cancel(sum_val(f, a, dx, n - k), pf);
        lemma_eqv_trans(
            u.add(pb).add(sn),
            sum_val(f, a, dx, n - k + 1).add(pf.neg()),
            sum_val(f, a, dx, n - k),
        );
        assert(sum_val(f, b, dy, k).add(sn) == u.add(pb).add(sn)) by {
            lemma_add_assoc(u, pb, sn);
            assert(sum_val(f, b, dy, k) == u.add(pb));
        }
    }
}

// ---------------------------------------------------------------------------
// Additivity on subintervals.
// ---------------------------------------------------------------------------

/// A multiple of an equal width is the doubled multiple of the half
/// width in value.
proof fn lemma_w_scale(dx: Q, w: Q, k: int)
    requires
        dx.wf(),
        w.wf(),
        w.eqv(dx),
    ensures
        q_int(k).mul(w).eqv(q_int(2 * k).mul(dx.div_int(2))),
{
    lemma_mul_congruence(q_int(k), w, q_int(k), dx);
    lemma_half_scale(dx, k);
    lemma_mul_wf(q_int(k), w);
    lemma_mul_wf(q_int(k), dx);
    lemma_div_int_wf(dx, 2);
    lemma_mul_wf(q_int(2 * k), dx.div_int(2));
    lemma_eqv_trans(q_int(k).mul(w), q_int(k).mul(dx), q_int(2 * k).mul(dx.div_int(2)));
}

/// A panel taken `off` panels into the interval, with an equal width and
/// the shifted base, is the panel of the whole interval.
proof fn lemma_shift_panel<F: Integrand>(f: &F, a: Q, dx: Q, c: Q, w: Q, off: int, i: int)
    requires
        f.inv(),
        a.wf(),
        c.wf(),
        dx.wf(),
        w.wf(),
        i >= 1,
        w.eqv(dx),
        c.eqv(a.add(q_int(off).mul(dx))),
    ensures
        panel_val(f, c, w, i).eqv(panel_val(f, a, dx, off + i)),
{
    let h = dx.div_int(2);
    lemma_div_int_wf(dx, 2);
    lemma_mul_wf(q_int(off), dx);
    lemma_add_wf(a, q_int(off).mul(dx));
    // The shifted base over the half width.
    lemma_half_scale(dx, off);
    lemma_mul_wf(q_int(2 * off), h);
    lemma_add_wf(a, q_int(2 * off).mul(h));
    lemma_add_congruence(a, q_int(off).mul(dx), a, q_int(2 * off).mul(h));
    lemma_eqv_trans(c, a.add(q_int(off).mul(dx)), a.add(q_int(2 * off).mul(h)));
    // The left sample point.
    let yl = c.add(q_int(i - 1).mul(w));
    let xl = a.add(q_int(off + i - 1).mul(dx));
    lemma_mul_wf(q_int(i - 1), w);
    lemma_mul_wf(q_int(2 * (i - 1)), h);
    lemma_mul_wf(q_int(off + i - 1), dx);
    lemma_mul_wf(q_int(2 * (off + i - 1)), h);
    lemma_add_wf(c, q_int(i - 1).mul(w));
    lemma_add_wf(a, q_int(off + i - 1).mul(dx));
    lemma_add_wf(a, q_int(2 * (off + i - 1)).mul(h));
    lemma_w_scale(dx, w, i - 1);
    lemma_add_congruence(
        c,
        q_int(i - 1).mul(w),
        a.add(q_int(2 * off).mul(h)),
        q_int(2 * (i - 1)).mul(h),
    );
    lemma_shift_combine(a, h, 2 * off, 2 * (i - 1));
    lemma_add_wf(a.add(q_int(2 * off).mul(h)), q_int(2 * (i - 1)).mul(h));
    lemma_mul_wf(q_int(2 * off + 2 * (i - 1)), h);
    lemma_add_wf(a, q_int(2 * off + 2 * (i - 1)).mul(h));
    lemma_eqv_trans(
        yl,
        a.add(q_int(2 * off).mul(h)).add(q_int(2 * (i - 1)).mul(h)),
        a.add(q_int(2 * off + 2 * (i - 1)).mul(h)),
    );
    lemma_half_scale(dx, off + i - 1);
    lemma_add_congruence(a, q_int(off + i - 1).mul(dx), a, q_int(2 * (off + i - 1)).mul(h));
    assert(q_int(2 * (off + i - 1)) == q_int(2 * off + 2 * (i - 1)));
    lemma_eqv_sym(xl, a.add(q_int(2 * (off + i - 1)).mul(h)));
    lemma_eqv_trans(yl, a.add(q_int(2 * (off + i - 1)).mul(h)), xl);
    // The right sample point.
    let yr = c.add(q_int(i).mul(w));
    let xr = a.add(q_int(off + i).mul(dx));
    lemma_mul_wf(q_int(i), w);
    lemma_mul_wf(q_int(2 * i), h);
    lemma_mul_wf(q_int(off + i), dx);
    lemma_mul_wf(q_int(2 * (off + i)), h);
    lemma_add_wf(c, q_int(i).mul(w));
    lemma_add_wf(a, q_int(off + i).mul(dx));
    lemma_add_wf(a, q_int(2 * (off + i)).mul(h));
    lemma_w_scale(dx, w, i);
    lemma_add_congruence(
        c,
        q_int(i).mul(w),
        a.add(q_int(2 * off).mul(h)),
        q_int(2 * i).mul(h),
    );
    lemma_shift_combine(a, h, 2 * off, 2 * i);
    lemma_add_wf(a.add(q_int(2 * off).mul(h)), q_int(2 * i).mul(h));
    lemma_mul_wf(q_int(2 * off + 2 * i), h);
    lemma_add_wf(a, q_int(2 * off + 2 * i).mul(h));
    lemma_eqv_trans(
        yr,
        a.add(q_int(2 * off).mul(h)).add(q_int(2 * i).mul(h)),
        a.add(q_int(2 * off + 2 * i).mul(h)),
    );
    lemma_half_scale(dx, off + i);
    lemma_add_congruence(a, q_int(off + i).mul(dx), a, q_int(2 * (off + i)).mul(h));
    assert(q_int(2 * (off + i)) == q_int(2 * off + 2 * i));
    lemma_eqv_sym(xr, a.add(q_int(2 * (off + i)).mul(h)));
    lemma_eqv_trans(yr, a.add(q_int(2 * (off + i)).mul(h)), xr);
    // The midpoint.
    let wh = w.div_int(2);
    let ym = c.sub(wh).add(q_int(i).mul(w));
    let xm = a.sub(h).add(q_int(off + i).mul(dx));
    lemma_div_int_wf(w, 2);
    lemma_div_int_congruence(w, dx, 2);
    lemma_sub_is_add_neg(c, wh);
    lemma_sub_is_add_neg(a, h);
    lemma_neg_congruence(wh, h);
    assert(h.neg() == q_int(-1).mul(h));
    assert(wh.neg().wf());
    lemma_mul_wf(q_int(-1), h);
    lemma_add_wf(c, wh.neg());
    lemma_add_wf(a.add(q_int(2 * off).mul(h)), q_int(-1).mul(h));
    lemma_add_congruence(c, wh.neg(), a.add(q_int(2 * off).mul(h)), q_int(-1).mul(h));
    lemma_shift_combine(a, h, 2 * off, -1);
    lemma_mul_wf(q_int(2 * off + -1), h);
    lemma_add_wf(a, q_int(2 * off + -1).mul(h));
    lemma_eqv_trans(
        c.add(wh.neg()),
        a.add(q_int(2 * off).mul(h)).add(q_int(-1).mul(h)),
        a.add(q_int(2 * off + -1).mul(h)),
    );
    lemma_add_wf(c.add(wh.neg()), q_int(i).mul(w));
    lemma_add_wf(a.add(q_int(2 * off + -1).mul(h)), q_int(2 * i).mul(h));
    lemma_add_congruence(
        c.add(wh.neg()),
        q_int(i).mul(w),
        a.add(q_int(2 * off + -1).mul(h)),
        q_int(2 * i).mul(h),
    );
    lemma_shift_combine(a, h, 2 * off + -1, 2 * i);
    lemma_mul_wf(q_int(2 * off + -1 + 2 * i), h);
    lemma_add_wf(a, q_int(2 * off + -1 + 2 * i).mul(h));
    lemma_eqv_trans(
        ym,
        a.add(q_int(2 * off + -1).mul(h)).add(q_int(2 * i).mul(h)),
        a.add(q_int(2 * off + -1 + 2 * i).mul(h)),
    );
    lemma_half_scale(dx, off + i);
    lemma_add_wf(a, q_int(-1).mul(h));
    lemma_add_congruence(
        a.add(q_int(-1).mul(h)),
        q_int(off + i).mul(dx),
        a.add(q_int(-1).mul(h)),
        q_int(2 * (off + i)).mul(h),
    );
    lemma_shift_combine(a, h, -1, 2 * (off + i));
    lemma_add_wf(a.add(q_int(-1).mul(h)), q_int(off + i).mul(dx));
    lemma_add_wf(a.add(q_int(-1).mul(h)), q_int(2 * (off + i)).mul(h));
    lemma_mul_wf(q_int(-1 + 2 * (off + i)), h);
    lemma_add_wf(a, q_int(-1 + 2 * (off + i)).mul(h));
    lemma_eqv_trans(
        xm,
        a.add(q_int(-1).mul(h)).add(q_int(2 * (off + i)).mul(h)),
        a.add(q_int(-1 + 2 * (off + i)).mul(h)),
    );
    assert(q_int(-1 + 2 * (off + i)) == q_int(2 * off + -1 + 2 * i));
    lemma_eqv_sym(xm, a.add(q_int(2 * off + -1 + 2 * i).mul(h)));
    lemma_eqv_trans(ym, a.add(q_int(2 * off + -1 + 2 * i).mul(h)), xm);
    // The sampled values agree, so the panels do.
    lemma_panel_points_wf(c, w, i);
    lemma_panel_points_wf(a, dx, off + i);
    f.model_wf(yl);
    f.model_wf(ym);
    f.model_wf(yr);
    f.model_wf(xl);
    f.model_wf(xm);
    f.model_wf(xr);
    f.model_respects_eqv(yl, xl);
    f.model_respects_eqv(ym, xm);
    f.model_respects_eqv(yr, xr);
    let q4 = q_int(4);
    lemma_mul_wf(q4, f.model(ym));
    lemma_mul_wf(q4, f.model(xm));
    lemma_mul_congruence(q4, f.model(ym), q4, f.model(xm));
    lemma_add_congruence(f.model(yl), q4.mul(f.model(ym)), f.model(xl), q4.mul(f.model(xm)));
    lemma_add_wf(f.model(yl), q4.mul(f.model(ym)));
    lemma_add_wf(f.model(xl), q4.mul(f.model(xm)));
    lemma_add_congruence(
        f.model(yl).add(q4.mul(f.model(ym))),
        f.model(yr),
        f.model(xl).add(q4.mul(f.model(xm))),
        f.model(xr),
    );
    let sc = f.model(yl).add(q4.mul(f.model(ym))).add(f.model(yr));
    let sa = f.model(xl).add(q4.mul(f.model(xm))).add(f.model(xr));
    lemma_add_wf(f.model(yl).add(q4.mul(f.model(ym))), f.model(yr));
    lemma_add_wf(f.model(xl).add(q4.mul(f.model(xm))), f.model(xr));
    lemma_mul_congruence(w, sc, dx, sa);
    lemma_mul_wf(w, sc);
    lemma_mul_wf(dx, sa);
    lemma_div_int_congruence(w.mul(sc), dx.mul(sa), 6);
    assert(panel_val(f, c, w, i) == w.mul(sc).div_int(6));
    assert(panel_val(f, a, dx, off + i) == dx.mul(sa).div_int(6));
}

/// The sum of the first `off` whole-interval panels plus `k` shifted
/// panels is the sum of the first `off + k` whole-interval panels.
proof fn lemma_shift_sum<F: Integrand>(f: &F, a: Q, dx: Q, c: Q, w: Q, off: int, k: int)
    requires
        f.inv(),
        a.wf(),
        c.wf(),
        dx.wf(),
        w.wf(),
        off >= 0,
        k >= 0,
        w.eqv(dx),
        c.eqv(a.add(q_int(off).mul(dx))),
    ensures
        sum_val(f, a, dx, off).add(sum_val(f, c, w, k)).eqv(sum_val(f, a, dx, off + k)),
    decreases k,
{
    let soff = sum_val(f, a, dx, off);
    lemma_sum_wf(f, a, dx, off);
    if k <= 0 {
        lemma_add_zero_right(soff);
    } else {
        lemma_shift_sum(f, a, dx, c, w, off, k - 1);
        lemma_shift_panel(f, a, dx, c, w, off, k);
        let u = sum_val(f, c, w, k - 1);
        let pc = panel_val(f, c, w, k);
        let pa = panel_val(f, a, dx, off + k);
        lemma_sum_wf(f, c, w, k - 1);
        lemma_panel_wf(f, c, w, k);
        lemma_panel_wf(f, a, dx, off + k);
        lemma_sum_wf(f, a, dx, off + k - 1);
        lemma_sum_wf(f, a, dx, off + k);
        lemma_add_assoc(soff, u, pc);
        lemma_add_wf(soff, u);
        lemma_add_congruence(soff.add(u), pc, sum_val(f, a, dx, off + k - 1), pa);
        assert(sum_val(f, a, dx, off + k) == sum_val(f, a, dx, off + k - 1).add(pa));
        lemma_sum_wf(f, c, w, k);
        lemma_add_wf(soff, sum_val(f, c, w, k));
        lemma_add_wf(sum_val(f, a, dx, off + k - 1), pa);
        assert(soff.add(sum_val(f, c, w, k)) == soff.add(u).add(pc)) by {
            assert(sum_val(f, c, w, k) == u.add(pc));
        }
    }
}

/// Additivity on subintervals: when the cut point sits `n1` panels into
/// the interval, the integral over the whole interval is the sum of the
/// integrals over the two parts, in value.
pub proof fn law_additivity<F: Integrand>(f: &F, a: Q, b: Q, c: Q, n1: int, n2: int)
    requires
        f.inv(),
        a.wf(),
        b.wf(),
        c.wf(),
        n1 >= 1,
        n2 >= 1,
        c.eqv(a.add(q_int(n1).mul(b.sub(a).div_int(n1 + n2)))),
    ensures
        simpson_val(f, a, b, n1 + n2).eqv(
            simpson_val(f, a, c, n1).add(simpson_val(f, c, b, n2)),
        ),
{
    let n = n1 + n2;
    let diff = b.sub(a);
    let dx = diff.div_int(n);
    let dx1 = c.sub(a).div_int(n1);
    let dx2 = b.sub(c).div_int(n2);
    let p1 = q_int(n1).mul(dx);
    let pn = q_int(n).mul(dx);
    lemma_sub_wf(b, a);
    lemma_div_int_wf(diff, n);
    lemma_sub_wf(c, a);
    lemma_div_int_wf(c.sub(a), n1);
    lemma_sub_wf(b, c);
    lemma_div_int_wf(b.sub(c), n2);
    lemma_mul_wf(q_int(n1), dx);
    lemma_mul_wf(q_int(n), dx);
    lemma_add_wf(a, p1);
    lemma_add_wf(a, pn);
    // The first width equals the whole-interval width in value.
    lemma_sub_congruence(c, a, a.add(p1), a);
    lemma_add_sub_cancel(a, p1);
    lemma_sub_wf(a.add(p1), a);
    lemma_eqv_trans(c.sub(a), a.add(p1).sub(a), p1);
    lemma_div_int_congruence(c.sub(a), p1, n1);
    lemma_scale_unscale(dx, n1);
    lemma_div_int_wf(p1, n1);
    lemma_eqv_trans(dx1, p1.div_int(n1), dx);
    // The second width equals it too.
    lemma_base_reach(a, b, n);
    lemma_sub_congruence(b, c, a.add(pn), a.add(p1));
    lemma_shift_sub(a, pn, p1);
    lemma_sub_wf(a.add(pn), a.add(p1));
    lemma_sub_wf(pn, p1);
    lemma_eqv_trans(b.sub(c), a.add(pn).sub(a.add(p1)), pn.sub(p1));
    lemma_scalar_sub_combine(dx, n, n1);
    assert(q_int(n - n1) == q_int(n2));
    lemma_mul_wf(q_int(n2), dx);
    lemma_eqv_trans(b.sub(c), pn.sub(p1), q_int(n2).mul(dx));
    lemma_div_int_congruence(b.sub(c), q_int(n2).mul(dx), n2);
    lemma_scale_unscale(dx, n2);
    lemma_div_int_wf(q_int(n2).mul(dx), n2);
    lemma_eqv_trans(dx2, q_int(n2).mul(dx).div_int(n2), dx);
    // The first part, read with the whole-interval width.
    assert(a.eqv(a.add(q_int(0).mul(dx)))) by {
        assert(a.n * (a.d * (1 * dx.d)) == (a.n * (1 * dx.d) + (0 * dx.n) * a.d)
            * a.d) by (nonlinear_arith);
    }
    lemma_shift_sum(f, a, dx, a, dx1, 0, n1);
    let x1 = sum_val(f, a, dx1, n1);
    let x2 = sum_val(f, c, dx2, n2);
    let s1 = sum_val(f, a, dx, n1);
    lemma_sum_wf(f, a, dx1, n1);
    lemma_sum_wf(f, c, dx2, n2);
    lemma_sum_wf(f, a, dx, n1);
    lemma_sum_wf(f, a, dx, n);
    crate::rational::lemma_zero_add(x1);
    assert(sum_val(f, a, dx, 0).add(x1) == q_int(0).add(x1));
    lemma_add_wf(q_int(0), x1);
    lemma_eqv_sym(q_int(0).add(x1), x1);
    lemma_eqv_trans(x1, q_int(0).add(x1), s1);
    // The second part continues it.
    lemma_shift_sum(f, a, dx, c, dx2, n1, n2);
    // Assemble both parts.
    lemma_eqv_sym(x1, s1);
    lemma_add_congruence(s1, x2, x1, x2);
    lemma_add_wf(s1, x2);
    lemma_add_wf(x1, x2);
    lemma_eqv_sym(s1.add(x2), sum_val(f, a, dx, n));
    lemma_eqv_trans(sum_val(f, a, dx, n), s1.add(x2), x1.add(x2));
}

/// Sign reversal: integrating from `b` back to `a` yields exactly the
/// negated integral from `a` to `b`, for the same panel count.
pub proof fn law_sign_reversal<F: Integrand>(f: &F, a: Q, b: Q, n: int)
    requires
        f.inv(),
        a.wf(),
        b.wf(),
        n >= 1,
    ensures
        simpson_val(f, b, a, n).eqv(simpson_val(f, a, b, n).neg()),
{
    let dx = b.sub(a).div_int(n);
    let dy = a.sub(b).div_int(n);
    lemma_sub_wf(b, a);
    lemma_sub_wf(a, b);
    lemma_div_int_wf(b.sub(a), n);
    lemma_div_int_wf(a.sub(b), n);
    lemma_back_width(a, b, n);
    lemma_base_reach(a, b, n);
    lemma_rev_sum(f, a, dx, b, dy, n, n);
    lemma_zero_sum_negates(sum_val(f, b, dy, n), sum_val(f, a, dx, n));
}

} // verus!
