use grant_escrow::rejection::Rejection;

#[test]
fn rejections_say_why() {
    let cases = vec![
        (Rejection::AlreadyInitialized, "Program already initialized"),
        (Rejection::NotInitialized, "Program not initialized"),
        (
            Rejection::AmountNotPositive,
            "Amount must be greater than zero",
        ),
        (Rejection::CooldownActive, "Rate limit: cooldown active"),
        (Rejection::RateLimitExceeded, "Rate limit exceeded"),
        (
            Rejection::LengthMismatch,
            "Recipients and amounts vectors must have the same length",
        ),
        (Rejection::EmptyBatch, "Cannot process empty batch"),
        (
            Rejection::BatchAmountNotPositive,
            "All amounts must be greater than zero",
        ),
        (Rejection::PayoutOverflow, "Payout amount overflow"),
        (
            Rejection::ArithmeticOverflow,
            "attempt to add with overflow",
        ),
        (Rejection::MalformedArgument, "Malformed argument"),
    ];
    for (rejection, text) in cases {
        assert_eq!(rejection.message(), text);
    }
}

#[test]
fn insufficient_balance_names_both_amounts() {
    for (requested, available) in [
        (1001, 1000),
        (1, 0),
        (10, 9),
        (5, -3),
        (i128::MAX, i128::MIN),
    ] {
        assert_eq!(
            Rejection::InsufficientBalance {
                requested,
                available
            }
            .message(),
            format!(
                "Insufficient balance: requested {}, available {}",
                requested, available
            )
        );
    }
}
