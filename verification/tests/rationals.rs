use simpson::rational::Rat;

#[test]
fn addition_is_exact() {
    let a = Rat::new(1, 2).unwrap();
    let b = Rat::new(1, 3).unwrap();
    let r = a.add(b).unwrap();
    assert_eq!(r.num, 5);
    assert_eq!(r.den, 6);
}

#[test]
fn subtraction_and_negation() {
    let a = Rat::new(1, 4).unwrap();
    let b = Rat::new(3, 4).unwrap();
    let r = a.sub(b).unwrap();
    assert!(r.eqv(Rat::new(-1, 2).unwrap()));
    let n = r.neg().unwrap();
    assert!(n.eqv(Rat::new(1, 2).unwrap()));
}

#[test]
fn multiplication_and_division() {
    let a = Rat::new(2, 3).unwrap();
    let b = Rat::new(9, 4).unwrap();
    let r = a.mul(b).unwrap();
    assert!(r.eqv(Rat::new(3, 2).unwrap()));
    let d = r.div_int(3).unwrap();
    assert!(d.eqv(Rat::new(1, 2).unwrap()));
}

#[test]
fn value_equality_ignores_representation() {
    let a = Rat::new(2, 4).unwrap();
    let b = Rat::new(1, 2).unwrap();
    assert!(a.eqv(b));
    assert!(!a.eqv(Rat::new(2, 3).unwrap()));
}

#[test]
fn construction_rejects_bad_denominator() {
    assert!(Rat::new(1, 0).is_none());
    assert!(Rat::new(1, -2).is_none());
    assert!(Rat::new(-7, 3).is_some());
}

#[test]
fn overflow_is_detected() {
    let big = Rat::new(i64::MAX, 1).unwrap();
    assert!(big.add(big).is_none());
    assert!(big.mul(big).is_none());
    let tiny = Rat::new(1, i64::MAX).unwrap();
    assert!(tiny.div_int(2).is_none());
    assert!(Rat::new(i64::MIN, 1).unwrap().neg().is_none());
}
