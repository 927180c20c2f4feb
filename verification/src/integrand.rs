//! The integrand abstraction: a deterministic rational-to-rational mapping,
//! evaluated exactly, together with ready-made instances (a constant, a
//! cubic polynomial, a linear combination of two integrands).

use vstd::prelude::*;

use crate::rational::Q;
use crate::rational::Rat;
use crate::rational::lemma_add_congruence;
use crate::rational::lemma_add_wf;
use crate::rational::lemma_mul_congruence;
use crate::rational::lemma_mul_wf;

verus! {

/// A deterministic, side-effect-free mapping from rationals to rationals.
///
/// `model` is the ghost value of the mapping on a representation; the proof
/// obligations pin it to be a function of the rational *value*, not of the
/// chosen numerator/denominator pair. `eval` computes it exactly, reporting
/// `None` exactly where some exact intermediate leaves the `i64` range
/// (the ghost predicate `fits_at`).
pub trait Integrand: Sized {
    /// Validity of the integrand's own data.
    spec fn inv(&self) -> bool;

    /// The exact value of the mapping at `x`.
    spec fn model(&self, x: Q) -> Q;

    /// Whether exact evaluation at `x` stays within the executable range.
    spec fn fits_at(&self, x: Q) -> bool;

    /// The model of a well-formed point is well-formed.
    proof fn model_wf(&self, x: Q)
        requires
            self.inv(),
            x.wf(),
        ensures
            self.model(x).wf(),
    ;

    /// The model depends on the rational value alone: equal values are
    /// mapped to equal values.
    proof fn model_respects_eqv(&self, x: Q, y: Q)
        requires
            self.inv(),
            x.wf(),
            y.wf(),
            x.eqv(y),
        ensures
            self.model(x).eqv(self.model(y)),
    ;

    /// Evaluates the mapping at `x`, exactly.
    fn eval(&self, x: Rat) -> (r: Option<Rat>)
        requires
            self.inv(),
            x.wf(),
        ensures
            (r is Some) <==> self.fits_at(x@),
            r matches Some(v) ==> v.wf() && v@ == self.model(x@),
    ;
}

/// The constant mapping `x |-> k`.
pub struct ConstFn {
    pub k: Rat,
}

impl Integrand for ConstFn {
    open spec fn inv(&self) -> bool {
        self.k.wf()
    }

    open spec fn model(&self, x: Q) -> Q {
        self.k@
    }

    open spec fn fits_at(&self, x: Q) -> bool {
        true
    }

    proof fn model_wf(&self, x: Q) {
    }

    proof fn model_respects_eqv(&self, x: Q, y: Q) {
    }

    fn eval(&self, x: Rat) -> (r: Option<Rat>) {
        Some(self.k)
    }
}

/// The cubic polynomial `x |-> ((c3 * x + c2) * x + c1) * x + c0`,
/// evaluated in Horner form.
pub struct Cubic {
    pub c0: Rat,
    pub c1: Rat,
    pub c2: Rat,
    pub c3: Rat,
}

impl Cubic {
    /// The exact Horner chain at `x`, one ghost step per executable step.
    pub open spec fn horner(&self, x: Q) -> Q {
        self.c3@.mul(x).add(self.c2@).mul(x).add(self.c1@).mul(x).add(self.c0@)
    }
}

impl Integrand for Cubic {
    open spec fn inv(&self) -> bool {
        &&& self.c0.wf()
        &&& self.c1.wf()
        &&& self.c2.wf()
        &&& self.c3.wf()
    }

    open spec fn model(&self, x: Q) -> Q {
        self.horner(x)
    }

    open spec fn fits_at(&self, x: Q) -> bool {
        let t1 = self.c3@.mul(x);
        let t2 = t1.add(self.c2@);
        let t3 = t2.mul(x);
        let t4 = t3.add(self.c1@);
        let t5 = t4.mul(x);
        let t6 = t5.add(self.c0@);
        &&& t1.fits()
        &&& t2.fits()
        &&& t3.fits()
        &&& t4.fits()
        &&& t5.fits()
        &&& t6.fits()
    }

    proof fn model_wf(&self, x: Q) {
        lemma_mul_wf(self.c3@, x);
        lemma_add_wf(self.c3@.mul(x), self.c2@);
        lemma_mul_wf(self.c3@.mul(x).add(self.c2@), x);
        lemma_add_wf(self.c3@.mul(x).add(self.c2@).mul(x), self.c1@);
        lemma_mul_wf(self.c3@.mul(x).add(self.c2@).mul(x).add(self.c1@), x);
        lemma_add_wf(self.c3@.mul(x).add(self.c2@).mul(x).add(self.c1@).mul(x), self.c0@);
    }

    proof fn model_respects_eqv(&self, x: Q, y: Q) {
        self.model_wf(x);
        self.model_wf(y);
        lemma_mul_wf(self.c3@, x);
        lemma_mul_wf(self.c3@, y);
        lemma_add_wf(self.c3@.mul(x), self.c2@);
        lemma_add_wf(self.c3@.mul(y), self.c2@);
        lemma_mul_wf(self.c3@.mul(x).add(self.c2@), x);
        lemma_mul_wf(self.c3@.mul(y).add(self.c2@), y);
        lemma_add_wf(self.c3@.mul(x).add(self.c2@).mul(x), self.c1@);
        lemma_add_wf(self.c3@.mul(y).add(self.c2@).mul(y), self.c1@);
        lemma_mul_wf(self.c3@.mul(x).add(self.c2@).mul(x).add(self.c1@), x);
        lemma_mul_wf(self.c3@.mul(y).add(self.c2@).mul(y).add(self.c1@), y);
        lemma_mul_congruence(self.c3@, x, self.c3@, y);
        lemma_add_congruence(self.c3@.mul(x), self.c2@, self.c3@.mul(y), self.c2@);
        lemma_mul_congruence(self.c3@.mul(x).add(self.c2@), x, self.c3@.mul(y).add(self.c2@), y);
        lemma_add_congruence(
            self.c3@.mul(x).add(self.c2@).mul(x),
            self.c1@,
            self.c3@.mul(y).add(self.c2@).mul(y),
            self.c1@,
        );
        lemma_mul_congruence(
            self.c3@.mul(x).add(self.c2@).mul(x).add(self.c1@),
            x,
            self.c3@.mul(y).add(self.c2@).mul(y).add(self.c1@),
            y,
        );
        lemma_add_congruence(
            self.c3@.mul(x).add(self.c2@).mul(x).add(self.c1@).mul(x),
            self.c0@,
            self.c3@.mul(y).add(self.c2@).mul(y).add(self.c1@).mul(y),
            self.c0@,
        );
    }

    fn eval(&self, x: Rat) -> (r: Option<Rat>) {
        let t1 = match self.c3.mul(x) {
            Some(v) => v,
            None => {
                return None;
            },
        };
        let t2 = match t1.add(self.c2) {
            Some(v) => v,
            None => {
                return None;
            },
        };
        let t3 = match t2.mul(x) {
            Some(v) => v,
            None => {
                return None;
            },
        };
        let t4 = match t3.add(self.c1) {
            Some(v) => v,
            None => {
                return None;
            },
        };
        let t5 = match t4.mul(x) {
            Some(v) => v,
            None => {
                return None;
            },
        };
        t5.add(self.c0)
    }
}

/// The linear combination `x |-> alpha * f(x) + beta * g(x)`.
pub struct LinComb<F, G> {
    pub alpha: Rat,
    pub f: F,
    pub beta: Rat,
    pub g: G,
}

impl<F: Integrand, G: Integrand> Integrand for LinComb<F, G> {
    open spec fn inv(&self) -> bool {
        &&& self.alpha.wf()
        &&& self.beta.wf()
        &&& self.f.inv()
        &&& self.g.inv()
    }

    open spec fn model(&self, x: Q) -> Q {
        self.alpha@.mul(self.f.model(x)).add(self.beta@.mul(self.g.model(x)))
    }

    open spec fn fits_at(&self, x: Q) -> bool {
        let tf = self.alpha@.mul(self.f.model(x));
        let tg = self.beta@.mul(self.g.model(x));
        &&& self.f.fits_at(x)
        &&& self.g.fits_at(x)
        &&& tf.fits()
        &&& tg.fits()
        &&& tf.add(tg).fits()
    }

    proof fn model_wf(&self, x: Q) {
        self.f.model_wf(x);
        self.g.model_wf(x);
        lemma_mul_wf(self.alpha@, self.f.model(x));
        lemma_mul_wf(self.beta@, self.g.model(x));
        lemma_add_wf(self.alpha@.mul(self.f.model(x)), self.beta@.mul(self.g.model(x)));
    }

    proof fn model_respects_eqv(&self, x: Q, y: Q) {
        self.f.model_wf(x);
        self.f.model_wf(y);
        self.g.model_wf(x);
        self.g.model_wf(y);
        self.f.model_respects_eqv(x, y);
        self.g.model_respects_eqv(x, y);
        lemma_mul_wf(self.alpha@, self.f.model(x));
        lemma_mul_wf(self.alpha@, self.f.model(y));
        lemma_mul_wf(self.beta@, self.g.model(x));
        lemma_mul_wf(self.beta@, self.g.model(y));
        lemma_mul_congruence(self.alpha@, self.f.model(x), self.alpha@, self.f.model(y));
        lemma_mul_congruence(self.beta@, self.g.model(x), self.beta@, self.g.model(y));
        lemma_add_congruence(
            self.alpha@.mul(self.f.model(x)),
            self.beta@.mul(self.g.model(x)),
            self.alpha@.mul(self.f.model(y)),
            self.beta@.mul(self.g.model(y)),
        );
    }

    fn eval(&self, x: Rat) -> (r: Option<Rat>) {
        let vf = match self.f.eval(x) {
            Some(v) => v,
            None => {
                return None;
            },
        };
        let vg = match self.g.eval(x) {
            Some(v) => v,
            None => {
                return None;
            },
        };
        let tf = match self.alpha.mul(vf) {
            Some(v) => v,
            None => {
                return None;
            },
        };
        let tg = match self.beta.mul(vg) {
            Some(v) => v,
            None => {
                return None;
            },
        };
        tf.add(tg)
    }
}

} // verus!
