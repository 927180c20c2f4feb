use simpson::integrand::ConstFn;
use simpson::integrand::Cubic;
use simpson::integrand::LinComb;
use simpson::rational::Rat;
use simpson::simpson::IntError;
use simpson::simpson::int_simpson;

fn rat(num: i64, den: i64) -> Rat {
    Rat::new(num, den).unwrap()
}

fn cubic(c0: Rat, c1: Rat, c2: Rat, c3: Rat) -> Cubic {
    Cubic { c0, c1, c2, c3 }
}

/// x^3 + x^2 + x + 1.
fn unit_cubic() -> Cubic {
    cubic(Rat::from_int(1), Rat::from_int(1), Rat::from_int(1), Rat::from_int(1))
}

#[test]
fn cubic_exact_single_panel() {
    // Simpson is exact on cubics: the integral of x^3 + x^2 + x + 1 over
    // [-1, 1] is exactly 8/3, already with one panel.
    let f = unit_cubic();
    let r = int_simpson(Rat::from_int(-1), Rat::from_int(1), 1, &f).unwrap();
    assert!(r.eqv(rat(8, 3)));
}

#[test]
fn cubic_exact_many_panels() {
    // Exact arithmetic compounds denominators, so the representable range
    // shrinks as panels are added; two panels still fit for this cubic.
    let f = unit_cubic();
    for n in 1..3 {
        let r = int_simpson(Rat::from_int(-1), Rat::from_int(1), n, &f).unwrap();
        assert!(r.eqv(rat(8, 3)));
    }
}

#[test]
fn constant_integrand() {
    // integrate(a, b, n, x -> k) == k * (b - a) exactly.
    let f = ConstFn { k: rat(7, 3) };
    let r = int_simpson(Rat::from_int(-2), Rat::from_int(5), 4, &f).unwrap();
    assert!(r.eqv(rat(49, 3)));
}

#[test]
fn linear_integrand() {
    // integrate of x over [0, 2] is exactly 2.
    let zero = Rat::from_int(0);
    let f = cubic(zero, Rat::from_int(1), zero, zero);
    let r = int_simpson(Rat::from_int(0), Rat::from_int(2), 2, &f).unwrap();
    assert!(r.eqv(Rat::from_int(2)));
}

#[test]
fn zero_width_interval() {
    // integrate(a, a, n, f) is zero for any panel count.
    let f = unit_cubic();
    let a = rat(5, 2);
    let r = int_simpson(a, a, 1, &f).unwrap();
    assert!(r.eqv(Rat::from_int(0)));
    assert_eq!(r.num, 0);
}

#[test]
fn sign_reversal() {
    // Swapping the endpoints negates the result exactly.
    let f = unit_cubic();
    let a = Rat::from_int(0);
    let b = Rat::from_int(2);
    let fwd = int_simpson(a, b, 2, &f).unwrap();
    let bwd = int_simpson(b, a, 2, &f).unwrap();
    assert!(bwd.eqv(fwd.neg().unwrap()));
}

#[test]
fn linear_combination() {
    // integrate(alpha * f + beta * g) == alpha * integrate(f) + beta * integrate(g).
    let zero = Rat::from_int(0);
    let f = cubic(Rat::from_int(1), Rat::from_int(2), zero, zero);
    let g = cubic(zero, zero, Rat::from_int(3), Rat::from_int(1));
    let alpha = Rat::from_int(2);
    let beta = Rat::from_int(-3);
    let lc = LinComb { alpha, f, beta, g };
    let a = Rat::from_int(0);
    let b = Rat::from_int(2);
    let whole = int_simpson(a, b, 1, &lc).unwrap();
    let f2 = cubic(Rat::from_int(1), Rat::from_int(2), zero, zero);
    let g2 = cubic(zero, zero, Rat::from_int(3), Rat::from_int(1));
    let rf = int_simpson(a, b, 1, &f2).unwrap();
    let rg = int_simpson(a, b, 1, &g2).unwrap();
    let combined = alpha.mul(rf).unwrap().add(beta.mul(rg).unwrap()).unwrap();
    assert!(whole.eqv(combined));
}

#[test]
fn additivity_on_subintervals() {
    // integrate(a, b, n1 + n2) == integrate(a, c, n1) + integrate(c, b, n2)
    // when c sits n1 panels into the interval.
    let f = unit_cubic();
    let a = Rat::from_int(0);
    let c = Rat::from_int(1);
    let b = Rat::from_int(2);
    let whole = int_simpson(a, b, 2, &f).unwrap();
    let left = int_simpson(a, c, 1, &f).unwrap();
    let right = int_simpson(c, b, 1, &f).unwrap();
    assert!(whole.eqv(left.add(right).unwrap()));
}

#[test]
fn invalid_subdivision_count() {
    // n below one must fail observably, never return a number.
    let f = unit_cubic();
    let r = int_simpson(Rat::from_int(0), Rat::from_int(1), 0, &f);
    assert!(matches!(r, Err(IntError::InvalidSubdivisions)));
    let r = int_simpson(Rat::from_int(0), Rat::from_int(1), -3, &f);
    assert!(matches!(r, Err(IntError::InvalidSubdivisions)));
}

#[test]
fn overflow_is_reported() {
    // A constant near the representation limit overflows inside a panel.
    let f = ConstFn { k: rat(i64::MAX, 1) };
    let r = int_simpson(Rat::from_int(0), rat(i64::MAX, 1), 1, &f);
    assert!(matches!(r, Err(IntError::Overflow)));
}

#[test]
fn single_panel_matches_simpson_formula() {
    // One panel of x^2 over [0, 1]: (1/6) * (0 + 4*(1/4) + 1) = 1/3.
    let zero = Rat::from_int(0);
    let f = cubic(zero, zero, Rat::from_int(1), zero);
    let r = int_simpson(Rat::from_int(0), Rat::from_int(1), 1, &f).unwrap();
    assert!(r.eqv(rat(1, 3)));
}
