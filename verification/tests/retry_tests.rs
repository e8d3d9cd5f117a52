use remind_bot::retry::RetryPolicy;

#[test]
fn reference_defaults() {
    let p = RetryPolicy::reference_default();
    assert_eq!(p.base_delay_ms, 1000);
    assert_eq!(p.max_attempts, 3);
}

#[test]
fn delays_grow_exponentially_with_the_reference_base() {
    let p = RetryPolicy::reference_default();
    assert_eq!(p.next_delay(0), Some(1_000));
    assert_eq!(p.next_delay(1), Some(1_000_000));
    assert_eq!(p.next_delay(2), Some(1_000_000_000));
}

#[test]
fn attempts_are_capped() {
    let p = RetryPolicy::reference_default();
    assert_eq!(p.next_delay(3), None);
    assert_eq!(p.next_delay(100), None);
}

#[test]
fn small_base_gives_powers_of_the_base() {
    let p = RetryPolicy { base_delay_ms: 2, max_attempts: 5 };
    assert_eq!(p.next_delay(0), Some(2));
    assert_eq!(p.next_delay(1), Some(4));
    assert_eq!(p.next_delay(2), Some(8));
    assert_eq!(p.next_delay(3), Some(16));
    assert_eq!(p.next_delay(4), Some(32));
    assert_eq!(p.next_delay(5), None);
}

#[test]
fn delays_saturate_instead_of_overflowing() {
    let p = RetryPolicy { base_delay_ms: u64::MAX - 1, max_attempts: 3 };
    assert_eq!(p.next_delay(0), Some(u64::MAX - 1));
    assert_eq!(p.next_delay(1), Some(u64::MAX));
    assert_eq!(p.next_delay(2), Some(u64::MAX));
}
