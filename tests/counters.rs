use quorum_auth::{ContractA, IncrementContract};

#[test]
fn add_sums() {
    assert_eq!(ContractA::add(2, 3), 5);
    assert_eq!(ContractA::add(u32::MAX - 1, 1), u32::MAX);
}

#[test]
fn increment_counts_calls() {
    let mut c = IncrementContract::new();
    assert_eq!(c.count(), 0);
    assert_eq!(c.increment(), 1);
    assert_eq!(c.increment(), 2);
    assert_eq!(c.increment(), 3);
    assert_eq!(c.count(), 3);
}
