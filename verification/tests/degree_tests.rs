use arithmetic::degree::{BuildError, Degree};

#[test]
fn degree_zero_is_refused() {
    assert_eq!(Degree::new(0), Err(BuildError::InvalidDegree));
}

#[test]
fn degree_one_is_accepted_and_needs_no_recurrence_step() {
    let degree = Degree::new(1).expect("one coefficient makes a polynomial");
    assert_eq!(degree.terms(), 1);
    assert_eq!(degree.recurrence_steps(), 0);
}

#[test]
fn degree_twenty() {
    let degree = Degree::new(20).expect("twenty coefficients make a polynomial");
    assert_eq!(degree.terms(), 20);
    assert_eq!(degree.recurrence_steps(), 19);
}

#[test]
fn largest_degree() {
    let degree = Degree::new(usize::MAX).expect("any positive number is a degree");
    assert_eq!(degree.terms(), usize::MAX);
    assert_eq!(degree.recurrence_steps(), usize::MAX - 1);
}
