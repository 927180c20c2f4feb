//! Composite Simpson quadrature, exact over rationals.
//!
//! The interval from `a` to `b` is split into `n` equal panels of width
//! `dx = (b - a) / n`. Panel `i` (for `i = 1 ..= n`) contributes
//! `(dx / 6) * (f(xl) + 4 * f(xm) + f(xr))` with `xl = a + (i - 1) * dx`,
//! `xm = a - dx / 2 + i * dx` and `xr = a + i * dx`; the result is the sum
//! of the contributions in panel order. Every executable step is exact, so
//! the integrator either returns precisely the ghost Simpson sum or reports
//! which failure occurred.

use vstd::prelude::*;

use crate::integrand::Integrand;
use crate::rational::Q;
use crate::rational::Rat;
use crate::rational::q_int;

verus! {

/// Failure of `int_simpson`.
#[derive(Clone, Copy, Debug, PartialEq, Eq, Structural)]
pub enum IntError {
    /// The subdivision count was below one.
    InvalidSubdivisions,
    /// Some exact intermediate left the representable range.
    Overflow,
}

/// The exact Simpson contribution of panel `i`, for panels based at `a`
/// with width `dx`.
pub open spec fn panel_val<F: Integrand>(f: &F, a: Q, dx: Q, i: int) -> Q {
    let t2 = q_int(i).mul(dx);
    let xl = a.add(q_int(i - 1).mul(dx));
    let xm = a.sub(dx.div_int(2)).add(t2);
    let xr = a.add(t2);
    let s = f.model(xl).add(q_int(4).mul(f.model(xm))).add(f.model(xr));
    dx.mul(s).div_int(6)
}

/// Whether every exact intermediate of panel `i` stays representable.
pub open spec fn panel_fits<F: Integrand>(f: &F, a: Q, dx: Q, i: int) -> bool {
    let t1 = q_int(i - 1).mul(dx);
    let xl = a.add(t1);
    let t2 = q_int(i).mul(dx);
    let xr = a.add(t2);
    let h = dx.div_int(2);
    let t3 = a.sub(h);
    let xm = t3.add(t2);
    &&& t1.fits()
    &&& xl.fits()
    &&& t2.fits()
    &&& xr.fits()
    &&& h.fits()
    &&& t3.fits()
    &&& xm.fits()
    &&& f.fits_at(xl)
    &&& f.fits_at(xm)
    &&& f.fits_at(xr)
    &&& ({
        let t4 = q_int(4).mul(f.model(xm));
        let t5 = f.model(xl).add(t4);
        let s = t5.add(f.model(xr));
        let t7 = dx.mul(s);
        &&& t4.fits()
        &&& t5.fits()
        &&& s.fits()
        &&& t7.fits()
        &&& t7.div_int(6).fits()
    })
}

/// The exact sum of the first `k` panel contributions, in panel order.
pub open spec fn sum_val<F: Integrand>(f: &F, a: Q, dx: Q, k: int) -> Q
    decreases k,
{
    if k <= 0 {
        q_int(0)
    } else {
        sum_val(f, a, dx, k - 1).add(panel_val(f, a, dx, k))
    }
}

/// Whether the first `k` panels and their running sums stay representable.
pub open spec fn sum_fits<F: Integrand>(f: &F, a: Q, dx: Q, k: int) -> bool
    decreases k,
{
    k <= 0 || {
        &&& sum_fits(f, a, dx, k - 1)
        &&& panel_fits(f, a, dx, k)
        &&& sum_val(f, a, dx, k - 1).add(panel_val(f, a, dx, k)).fits()
    }
}

/// The three sample points of panel `i` are well-formed.
pub proof fn lemma_panel_points_wf(a: Q, dx: Q, i: int)
    requires
        a.wf(),
        dx.wf(),
    ensures
        a.add(q_int(i - 1).mul(dx)).wf(),
        a.sub(dx.div_int(2)).add(q_int(i).mul(dx)).wf(),
        a.add(q_int(i).mul(dx)).wf(),
{
    crate::rational::lemma_mul_wf(q_int(i - 1), dx);
    crate::rational::lemma_mul_wf(q_int(i), dx);
    crate::rational::lemma_add_wf(a, q_int(i - 1).mul(dx));
    crate::rational::lemma_add_wf(a, q_int(i).mul(dx));
    crate::rational::lemma_div_int_wf(dx, 2);
    crate::rational::lemma_sub_wf(a, dx.div_int(2));
    crate::rational::lemma_add_wf(a.sub(dx.div_int(2)), q_int(i).mul(dx));
}

/// A panel contribution is well-formed.
pub proof fn lemma_panel_wf<F: Integrand>(f: &F, a: Q, dx: Q, i: int)
    requires
        f.inv(),
        a.wf(),
        dx.wf(),
    ensures
        panel_val(f, a, dx, i).wf(),
{
    let xl = a.add(q_int(i - 1).mul(dx));
    let xm = a.sub(dx.div_int(2)).add(q_int(i).mul(dx));
    let xr = a.add(q_int(i).mul(dx));
    lemma_panel_points_wf(a, dx, i);
    f.model_wf(xl);
    f.model_wf(xm);
    f.model_wf(xr);
    crate::rational::lemma_mul_wf(q_int(4), f.model(xm));
    crate::rational::lemma_add_wf(f.model(xl), q_int(4).mul(f.model(xm)));
    crate::rational::lemma_add_wf(f.model(xl).add(q_int(4).mul(f.model(xm))), f.model(xr));
    let s = f.model(xl).add(q_int(4).mul(f.model(xm))).add(f.model(xr));
    crate::rational::lemma_mul_wf(dx, s);
    crate::rational::lemma_div_int_wf(dx.mul(s), 6);
}

/// A partial Simpson sum is well-formed.
pub proof fn lemma_sum_wf<F: Integrand>(f: &F, a: Q, dx: Q, k: int)
    requires
        f.inv(),
        a.wf(),
        dx.wf(),
    ensures
        sum_val(f, a, dx, k).wf(),
    decreases k,
{
    if k <= 0 {
    } else {
        lemma_sum_wf(f, a, dx, k - 1);
        lemma_panel_wf(f, a, dx, k);
        crate::rational::lemma_add_wf(sum_val(f, a, dx, k - 1), panel_val(f, a, dx, k));
    }
}

/// A representable prefix stays representable when shortened.
pub proof fn lemma_sum_fits_prefix<F: Integrand>(f: &F, a: Q, dx: Q, j: int, k: int)
    requires
        0 <= j <= k,
        sum_fits(f, a, dx, k),
    ensures
        sum_fits(f, a, dx, j),
    decreases k,
{
    if j < k {
        lemma_sum_fits_prefix(f, a, dx, j, k - 1);
    }
}

/// The exact composite Simpson approximation of the integral of `f` from
/// `a` to `b` with `n` panels.
pub open spec fn simpson_val<F: Integrand>(f: &F, a: Q, b: Q, n: int) -> Q {
    sum_val(f, a, b.sub(a).div_int(n), n)
}

/// Whether the whole exact Simpson computation stays representable.
pub open spec fn simpson_fits<F: Integrand>(f: &F, a: Q, b: Q, n: int) -> bool {
    &&& b.sub(a).fits()
    &&& b.sub(a).div_int(n).fits()
    &&& sum_fits(f, a, b.sub(a).div_int(n), n)
}

/// The exact Simpson contribution of panel `i`.
fn panel<F: Integrand>(f: &F, a: Rat, dx: Rat, i: i64) -> (r: Option<Rat>)
    requires
        f.inv(),
        a.wf(),
        dx.wf(),
        i >= 1,
    ensures
        (r is Some) <==> panel_fits(f, a@, dx@, i as int),
        r matches Some(v) ==> v.wf() && v@ == panel_val(f, a@, dx@, i as int),
{
    let t1 = match Rat::from_int(i - 1).mul(dx) {
        Some(v) => v,
        None => {
            return None;
        },
    };
    let xl = match a.add(t1) {
        Some(v) => v,
        None => {
            return None;
        },
    };
    let t2 = match Rat::from_int(i).mul(dx) {
        Some(v) => v,
        None => {
            return None;
        },
    };
    let xr = match a.add(t2) {
        Some(v) => v,
        None => {
            return None;
        },
    };
    let h = match dx.div_int(2) {
        Some(v) => v,
        None => {
            return None;
        },
    };
    let t3 = match a.sub(h) {
        Some(v) => v,
        None => {
            return None;
        },
    };
    let xm = match t3.add(t2) {
        Some(v) => v,
        None => {
            return None;
        },
    };
    let fl = match f.eval(xl) {
        Some(v) => v,
        None => {
            return None;
        },
    };
    let fm = match f.eval(xm) {
        Some(v) => v,
        None => {
            return None;
        },
    };
    let fr = match f.eval(xr) {
        Some(v) => v,
        None => {
            return None;
        },
    };
    let t4 = match Rat::from_int(4).mul(fm) {
        Some(v) => v,
        None => {
            return None;
        },
    };
    let t5 = match fl.add(t4) {
        Some(v) => v,
        None => {
            return None;
        },
    };
    let s = match t5.add(fr) {
        Some(v) => v,
        None => {
            return None;
        },
    };
    let t7 = match dx.mul(s) {
        Some(v) => v,
        None => {
            return None;
        },
    };
    t7.div_int(6)
}

/// Integrates `f` from `a` to `b` by the composite Simpson rule on `n`
/// equal panels, exactly.
///
/// Returns the exact ghost Simpson sum; fails with `InvalidSubdivisions`
/// exactly when `n < 1`, and with `Overflow` exactly when some exact
/// intermediate of the computation leaves the representable range.
pub fn int_simpson<F: Integrand>(a: Rat, b: Rat, n: i32, f: &F) -> (r: Result<Rat, IntError>)
    requires
        a.wf(),
        b.wf(),
        f.inv(),
    ensures
        (r is Ok) <==> (n >= 1 && simpson_fits(f, a@, b@, n as int)),
        r matches Ok(v) ==> v.wf() && v@ == simpson_val(f, a@, b@, n as int),
        n < 1 ==> r == Err::<Rat, IntError>(IntError::InvalidSubdivisions),
        n >= 1 && !simpson_fits(f, a@, b@, n as int) ==> r == Err::<Rat, IntError>(
            IntError::Overflow,
        ),
{
    if n < 1 {
        return Err(IntError::InvalidSubdivisions);
    }
    let diff = match b.sub(a) {
        Some(v) => v,
        None => {
            return Err(IntError::Overflow);
        },
    };
    let dx = match diff.div_int(n as i64) {
        Some(v) => v,
        None => {
            return Err(IntError::Overflow);
        },
    };
    let mut acc = Rat::from_int(0);
    let mut i: i64 = 1;
    while i <= n as i64
        invariant
            n >= 1,
            1 <= i <= n as i64 + 1,
            a.wf(),
            b.wf(),
            f.inv(),
            dx.wf(),
            b@.sub(a@).fits(),
            dx@ == b@.sub(a@).div_int(n as int),
            dx@.fits(),
            acc.wf(),
            acc@ == sum_val(f, a@, dx@, i - 1),
            sum_fits(f, a@, dx@, i - 1),
        decreases n as int + 1 - i as int,
    {
        let piece = match panel(f, a, dx, i) {
            Some(c) => c,
            None => {
                proof {
                    assert(!sum_fits(f, a@, dx@, i as int));
                    if sum_fits(f, a@, dx@, n as int) {
                        lemma_sum_fits_prefix(f, a@, dx@, i as int, n as int);
                    }
                }
                return Err(IntError::Overflow);
            },
        };
        let next = match acc.add(piece) {
            Some(v) => v,
            None => {
                proof {
                    assert(!sum_fits(f, a@, dx@, i as int));
                    if sum_fits(f, a@, dx@, n as int) {
                        lemma_sum_fits_prefix(f, a@, dx@, i as int, n as int);
                    }
                }
                return Err(IntError::Overflow);
            },
        };
        proof {
            assert(sum_fits(f, a@, dx@, i as int));
        }
        acc = next;
        i = i + 1;
    }
    Ok(acc)
}

} // verus!
