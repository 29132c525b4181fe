use pid_controller::rat::Rat;

#[test]
fn exact_sum() {
    let a = Rat::new(1, 2);
    let b = Rat::new(1, 3);
    let s = a.checked_add(&b).unwrap();
    assert!(s.rat_eq(&Rat::new(5, 6)));
    assert_eq!(s.num(), 5);
    assert_eq!(s.den(), 6);
}

#[test]
fn exact_difference() {
    let a = Rat::new(1, 4);
    let b = Rat::new(2, 3);
    let s = a.checked_sub(&b).unwrap();
    assert!(s.rat_eq(&Rat::new(-5, 12)));
}

#[test]
fn exact_product() {
    let a = Rat::new(2, 3);
    let b = Rat::new(3, 4);
    let s = a.checked_mul(&b).unwrap();
    assert!(s.rat_eq(&Rat::new(1, 2)));
}

#[test]
fn exact_quotient() {
    let a = Rat::new(1, 2);
    let b = Rat::new(3, 4);
    let s = a.checked_div(&b).unwrap();
    assert!(s.rat_eq(&Rat::new(2, 3)));
    // a negative divisor keeps the denominator positive
    let t = a.checked_div(&Rat::new(-3, 4)).unwrap();
    assert!(t.rat_eq(&Rat::new(-2, 3)));
    assert!(t.den() > 0);
}

#[test]
fn value_comparisons() {
    let third = Rat::new(1, 3);
    let half = Rat::new(1, 2);
    assert!(third.lt(&half));
    assert!(!half.lt(&third));
    assert!(third.le(&half));
    assert!(half.le(&half));
    assert!(Rat::new(2, 4).rat_eq(&half));
    assert!(!third.rat_eq(&half));
    assert!(Rat::new(-1, 2).lt(&Rat::from_int(0)));
}

#[test]
fn out_of_range_operations_return_none() {
    let big = Rat::new(i64::MAX, 1);
    assert!(big.checked_add(&big).is_none());
    assert!(big.checked_mul(&big).is_none());
    let tiny = Rat::new(1, i64::MAX);
    assert!(tiny.checked_mul(&Rat::new(1, 2)).is_none());
    assert!(tiny.checked_div(&Rat::new(2, 1)).is_none());
    // the same values stay representable under operations that fit
    assert!(big.checked_sub(&big).unwrap().rat_eq(&Rat::from_int(0)));
}
