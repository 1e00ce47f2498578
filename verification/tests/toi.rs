use swept_collision::toi::Toi;

#[test]
fn times_compare_as_exact_rationals() {
    let third = Toi::new(1, 3);
    let two_sixths = Toi::new(2, 6);
    let half = Toi::new(1, 2);
    assert!(third.lt(&half));
    assert!(!half.lt(&third));
    // Equal values in different representations are neither earlier nor
    // later than each other.
    assert!(!third.lt(&two_sixths));
    assert!(!two_sixths.lt(&third));
    assert!(third.le(&two_sixths));
    assert!(two_sixths.le(&half));
    assert!(!half.le(&third));
}

#[test]
fn integer_valued_times_are_recognised() {
    let five = Toi::new(10, 2);
    assert!(five.eq_int(5));
    assert!(!five.eq_int(4));
    let third = Toi::new(1, 3);
    assert!(!third.eq_int(0));
    assert!(!third.eq_int(1));
}

#[test]
fn within_step_means_at_most_one() {
    assert!(Toi::new(3, 10).le_one());
    assert!(Toi::new(10, 10).le_one());
    assert!(!Toi::new(11, 10).le_one());
}
