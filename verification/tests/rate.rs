use bbs_tui::rate::TokenBucket;

#[test]
fn bucket_serves_its_capacity_then_refuses() {
    let mut b = TokenBucket::new(6, 1_000);
    assert_eq!(b.capacity(), 6);
    for _ in 0..6 {
        assert!(b.try_consume(1, 1_000));
    }
    assert!(!b.try_consume(1, 1_000));
    assert_eq!(b.peek_tokens(1_000), 0);
}

#[test]
fn bucket_holds_a_token_again_after_sixty_over_rate_seconds() {
    // 6 per minute: one token every 10 seconds
    let mut b = TokenBucket::new(6, 0);
    for _ in 0..6 {
        assert!(b.try_consume(1, 0));
    }
    assert!(!b.try_consume(1, 9_999_999));
    // the failed attempt took nothing: one microsecond later the token is whole
    assert!(b.try_consume(1, 10_000_000));
    assert!(!b.try_consume(1, 10_000_000));
}

#[test]
fn bucket_refill_is_capped_and_continuous() {
    let mut b = TokenBucket::new(10, 0);
    assert!(b.try_consume(4, 0));
    assert_eq!(b.peek_tokens(0), 6);
    // 3 seconds at 10 per minute: half a token
    assert_eq!(b.peek_tokens(3_000_000), 6);
    assert_eq!(b.peek_tokens(6_000_000), 7);
    // an hour later it is full, not more
    assert_eq!(b.peek_tokens(3_600_000_000), 10);
    assert!(!b.try_consume(11, 3_600_000_000));
    assert!(b.try_consume(10, 3_600_000_000));
}

#[test]
fn bucket_ignores_a_clock_that_goes_backwards() {
    let mut b = TokenBucket::new(60, 5_000_000);
    assert!(b.try_consume(60, 5_000_000));
    assert!(!b.try_consume(1, 1_000_000));
    // one second after the earlier time, one token (60 per minute)
    assert!(b.try_consume(1, 2_000_000));
}

#[test]
fn a_bucket_of_rate_zero_never_serves() {
    let mut b = TokenBucket::new(0, 0);
    assert!(!b.try_consume(1, 0));
    assert!(!b.try_consume(1, u64::MAX));
    assert!(b.try_consume(0, 0));
}
