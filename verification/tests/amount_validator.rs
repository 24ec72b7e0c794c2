use clnaddress::amount::{AmountBounds, AmountError, validate_invoice_amount};

#[test]
fn below_minimum_rejects_with_bound() {
    let r = validate_invoice_amount(5, 10, 100);
    assert_eq!(
        r,
        Err(AmountError::BelowMinimum { requested_msat: 5, min_sendable_msat: 10 })
    );
    assert_eq!(r.unwrap_err().reason(), "`amount` below minimum: 5<10");
}

#[test]
fn above_maximum_rejects_with_bound() {
    let r = validate_invoice_amount(200, 10, 100);
    assert_eq!(
        r,
        Err(AmountError::AboveMaximum { requested_msat: 200, max_sendable_msat: 100 })
    );
    assert_eq!(r.unwrap_err().reason(), "`amount` above maximum: 200>100");
}

#[test]
fn bounds_are_inclusive() {
    assert_eq!(validate_invoice_amount(10, 10, 100), Ok(()));
    assert_eq!(validate_invoice_amount(100, 10, 100), Ok(()));
    assert_eq!(validate_invoice_amount(50, 10, 100), Ok(()));
}

#[test]
fn zero_accepted_with_zero_minimum() {
    assert_eq!(validate_invoice_amount(0, 0, 100_000_000_000), Ok(()));
}

#[test]
fn below_min_checked_before_above_max() {
    // With a large requested value only the maximum can be violated.
    let r = validate_invoice_amount(u64::MAX, 10, 100);
    assert!(matches!(r, Err(AmountError::AboveMaximum { .. })));
}

#[test]
fn bounds_constructor_requires_order() {
    assert!(AmountBounds::new(5, 3).is_none());
    let b = AmountBounds::new(3, 5).unwrap();
    assert_eq!(b.min_sendable_msat, 3);
    assert_eq!(b.max_sendable_msat, 5);
}
