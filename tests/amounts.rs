use payments::Amount;

fn amt(mantissa: i128, scale: u32) -> Amount {
    Amount::new(mantissa, scale).unwrap()
}

const LIMIT: i128 = 1 << 96;

#[test]
fn new_checks_range() {
    assert!(Amount::new(LIMIT - 1, 28).is_some());
    assert!(Amount::new(-(LIMIT - 1), 0).is_some());
    assert!(Amount::new(LIMIT, 0).is_none());
    assert!(Amount::new(-LIMIT, 0).is_none());
    assert!(Amount::new(1, 29).is_none());
    let a = amt(-12345, 3);
    assert_eq!(a.mantissa(), -12345);
    assert_eq!(a.scale(), 3);
}

#[test]
fn sum_is_exact_at_larger_scale() {
    let r = amt(15, 1).checked_add(amt(225, 2)).unwrap();
    assert_eq!(r.mantissa(), 375);
    assert_eq!(r.scale(), 2);
    assert_eq!(r, amt(375, 2));
}

#[test]
fn difference_is_exact_at_larger_scale() {
    let r = amt(10, 0).checked_sub(amt(25, 1)).unwrap();
    assert_eq!(r.mantissa(), 75);
    assert_eq!(r.scale(), 1);
    let r = amt(1, 2).checked_sub(amt(3, 0)).unwrap();
    assert_eq!(r.mantissa(), -299);
    assert_eq!(r.scale(), 2);
}

#[test]
fn zero_operand_gives_other_back() {
    let r = Amount::zero().checked_add(amt(7, 3)).unwrap();
    assert_eq!((r.mantissa(), r.scale()), (7, 3));
    let r = amt(0, 5).checked_sub(amt(7, 3)).unwrap();
    assert_eq!((r.mantissa(), r.scale()), (-7, 3));
    let r = amt(7, 3).checked_sub(amt(0, 9)).unwrap();
    assert_eq!((r.mantissa(), r.scale()), (7, 3));
}

#[test]
fn sum_out_of_range_is_refused() {
    assert!(amt(LIMIT - 1, 0).checked_add(amt(1, 0)).is_none());
    assert!(amt(-(LIMIT - 1), 0).checked_sub(amt(1, 0)).is_none());
}

#[test]
fn sum_that_would_round_is_refused() {
    // The exact sum needs 29 significant digits at scale 1.
    assert!(amt(LIMIT - 1, 0).checked_add(amt(5, 1)).is_none());
    assert!(amt(LIMIT / 2, 0).checked_sub(amt(1, 28)).is_none());
}

#[test]
fn largest_values_that_fit_are_kept() {
    let r = amt(LIMIT - 2, 0).checked_add(amt(1, 0)).unwrap();
    assert_eq!(r.mantissa(), LIMIT - 1);
    let r = amt(LIMIT - 1, 0).checked_sub(amt(LIMIT - 1, 0)).unwrap();
    assert_eq!(r.mantissa(), 0);
}

#[test]
fn comparison_is_by_value() {
    assert!(amt(10, 1).at_least(&amt(1, 0)));
    assert!(amt(1, 0).at_least(&amt(10, 1)));
    assert!(!amt(99, 2).at_least(&amt(1, 0)));
    assert!(amt(-1, 0).at_least(&amt(-15, 1)));
    assert_eq!(amt(100, 2), amt(1, 0));
    assert_ne!(amt(101, 2), amt(1, 0));
    assert!(amt(1, 28).is_positive());
    assert!(!amt(0, 3).is_positive());
    assert!(!amt(-1, 0).is_positive());
}
