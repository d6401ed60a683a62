use grant_escrow::rate_limit::{assess, assessable, Denial, RateLimitConfig, UserStats};

const CONFIG: RateLimitConfig = RateLimitConfig {
    window_seconds: 3600,
    max_ops_per_window: 10,
    cooldown_seconds: 60,
};

fn stats(last: u64, start: u64, count: u32) -> UserStats {
    UserStats {
        last_operation_time: last,
        window_start_time: start,
        op_count: count,
    }
}

#[test]
fn first_operation_opens_a_window() {
    assert_eq!(assess(&CONFIG, None, 1000), Ok(stats(1000, 1000, 1)));
}

#[test]
fn cooldown_holds_until_its_last_second() {
    let stored = Some(stats(1000, 1000, 1));
    assert_eq!(assess(&CONFIG, stored, 1000), Err(Denial::Cooldown));
    assert_eq!(assess(&CONFIG, stored, 1059), Err(Denial::Cooldown));
    assert_eq!(assess(&CONFIG, stored, 1060), Ok(stats(1060, 1000, 2)));
}

#[test]
fn operation_at_time_zero_starts_no_cooldown() {
    let stored = assess(&CONFIG, None, 0).unwrap();
    assert_eq!(stored, stats(0, 0, 1));
    assert_eq!(assess(&CONFIG, Some(stored), 1), Ok(stats(1, 0, 2)));
}

#[test]
fn full_window_turns_operations_away() {
    let stored = Some(stats(2000, 1000, 10));
    assert_eq!(assess(&CONFIG, stored, 3000), Err(Denial::MaxOps));
    assert_eq!(assess(&CONFIG, stored, 4599), Err(Denial::MaxOps));
}

#[test]
fn cooldown_is_looked_at_before_the_maximum() {
    assert_eq!(
        assess(&CONFIG, Some(stats(2000, 1000, 10)), 2001),
        Err(Denial::Cooldown)
    );
}

#[test]
fn new_window_starts_afresh() {
    assert_eq!(
        assess(&CONFIG, Some(stats(2000, 1000, 10)), 4600),
        Ok(stats(4600, 4600, 1))
    );
}

#[test]
fn window_holds_at_most_the_maximum() {
    let mut stored = None;
    let mut now = 1000;
    let mut passed = 0;
    while now < 1000 + 3600 {
        if let Ok(kept) = assess(&CONFIG, stored, now) {
            stored = Some(kept);
            passed += 1;
        }
        now += 60;
    }
    assert_eq!(passed, 10);
    assert_eq!(stored, Some(stats(1540, 1000, 10)));
}

#[test]
fn maximum_of_zero_stops_the_first_operation() {
    let closed = RateLimitConfig {
        max_ops_per_window: 0,
        ..CONFIG
    };
    assert_eq!(assess(&closed, None, 1000), Err(Denial::MaxOps));
}

#[test]
fn operation_that_opens_a_window_passes_even_with_a_maximum_of_zero() {
    let closed = RateLimitConfig {
        max_ops_per_window: 0,
        ..CONFIG
    };
    assert_eq!(
        assess(&closed, Some(stats(1000, 1000, 1)), 4600),
        Ok(stats(4600, 4600, 1))
    );
}

#[test]
fn window_of_no_length_is_always_over() {
    let open = RateLimitConfig {
        window_seconds: 0,
        max_ops_per_window: 0,
        cooldown_seconds: 0,
    };
    assert_eq!(assess(&open, None, 7), Ok(stats(7, 7, 1)));
    assert_eq!(assess(&open, Some(stats(7, 7, 1)), 7), Ok(stats(7, 7, 1)));
}

#[test]
fn times_beyond_the_clock_are_noticed() {
    let long_cooldown = RateLimitConfig {
        cooldown_seconds: u64::MAX,
        ..CONFIG
    };
    assert!(assessable(&long_cooldown, None, 1000));
    assert!(!assessable(&long_cooldown, Some(stats(1000, 1000, 1)), 1000));
    assert!(assessable(&long_cooldown, Some(stats(0, 1000, 1)), 1000));
    let long_window = RateLimitConfig {
        window_seconds: u64::MAX,
        ..CONFIG
    };
    assert!(!assessable(&long_window, None, 1));
    assert!(assessable(&long_window, None, 0));
    // The end of the window does not matter while the cooldown is running.
    assert!(assessable(&long_window, Some(stats(1000, 1000, 1)), 1001));
    assert!(!assessable(&long_window, Some(stats(1000, 1000, 1)), 1060));
}

#[test]
fn reasons_have_labels() {
    assert_eq!(Denial::Cooldown.label(), "cooldown");
    assert_eq!(Denial::MaxOps.label(), "max_ops");
}
