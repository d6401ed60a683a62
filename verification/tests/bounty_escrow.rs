use grant_escrow::account::Account;
use grant_escrow::bounty_escrow::{
    BalanceQuery, BountyCall, BountyEntry, BountyEnv, BountyEscrowContract, BountyEvent, DataKey,
    Error, Escrow, EscrowStatus,
};
use grant_escrow::host::{Durability, HostCall};
use grant_escrow::rate_limit::{Denial, RateLimitConfig, UserStats};

fn account(n: u8) -> Account {
    let mut strkey = [b'A'; 56];
    strkey[0] = b'G';
    strkey[55] = n;
    Account::new(strkey)
}

fn contract() -> Account {
    account(0)
}

fn admin() -> Account {
    account(1)
}

fn token() -> Account {
    account(2)
}

fn depositor() -> Account {
    account(3)
}

fn contributor() -> Account {
    account(4)
}

/// A ledger at a time other than zero, with the contract initialized.
fn setup() -> BountyEnv {
    let mut env = BountyEnv::new(contract(), 1000);
    assert_eq!(
        BountyEscrowContract::init(&mut env, admin(), token()),
        Ok(())
    );
    env.calls.clear();
    env
}

fn lock(env: &mut BountyEnv, bounty_id: u64, amount: i128, deadline: u64) -> Result<(), Error> {
    assert!(env.rate_limit_computable(&depositor()));
    BountyEscrowContract::lock_funds(env, depositor(), bounty_id, amount, deadline)
}

/// What has come into the contract, net of what has gone out.
fn received(env: &BountyEnv) -> i128 {
    let mut sum = 0;
    for call in env.calls.iter() {
        if let HostCall::Transfer {
            token: moved,
            from,
            to,
            amount,
        } = call
        {
            assert_eq!(*moved, token());
            if *to == contract() {
                sum += *amount;
            }
            if *from == contract() {
                sum -= *amount;
            }
        }
    }
    sum
}

fn demands_auth(calls: &[BountyCall], party: Account) -> bool {
    calls
        .iter()
        .any(|call| matches!(call, HostCall::RequireAuth(who) if *who == party))
}

#[test]
fn test_rate_limit() {
    let mut env = setup();
    let minted: i128 = 1000;

    // Default: 10 ops per hour, 60s cooldown

    // First op at T=1000
    assert_eq!(lock(&mut env, 1, 100, 2000), Ok(()));

    // Second op immediately (still T=1000) -> CooldownActive
    let res = lock(&mut env, 2, 100, 2000);
    assert_eq!(res, Err(Error::CooldownActive));

    // Wait 61s -> T=1061
    env.timestamp = 1061;
    assert_eq!(lock(&mut env, 2, 100, 2000), Ok(()));
    assert!(received(&env) <= minted);
}

#[test]
fn test_whitelist() {
    let mut env = setup();
    let minted: i128 = 1000;

    assert_eq!(
        BountyEscrowContract::set_whitelist_status(&mut env, depositor(), true),
        Ok(())
    );

    // Whitelisted addresses bypass cooldown
    assert_eq!(lock(&mut env, 1, 100, 2000), Ok(()));
    assert_eq!(lock(&mut env, 2, 100, 2000), Ok(()));
    assert!(received(&env) <= minted);
}

#[test]
fn test_config_update() {
    let mut env = setup();
    let minted: i128 = 1000;

    // Update config to 1 op max
    assert_eq!(
        BountyEscrowContract::set_rate_limit_config(&mut env, 3600, 1, 0),
        Ok(())
    );

    assert_eq!(lock(&mut env, 1, 100, 2000), Ok(()));

    // Second op should fail with RateLimitExceeded (cooldown is 0)
    let res = lock(&mut env, 2, 100, 2000);
    assert_eq!(res, Err(Error::RateLimitExceeded));
    assert!(received(&env) <= minted);
}

#[test]
fn initialization_writes_three_entries() {
    let mut env = BountyEnv::new(contract(), 1000);
    assert_eq!(
        BountyEscrowContract::init(&mut env, admin(), token()),
        Ok(())
    );
    assert_eq!(env.storage.admin, Some(admin()));
    assert_eq!(env.storage.token, Some(token()));
    let limits = RateLimitConfig {
        window_seconds: 3600,
        max_ops_per_window: 10,
        cooldown_seconds: 60,
    };
    assert_eq!(env.storage.rate_limit_cfg, Some(limits));
    assert_eq!(env.calls.len(), 3);
    assert!(
        matches!(&env.calls[0], HostCall::Write(BountyEntry::Admin(who)) if *who == admin())
    );
    assert!(
        matches!(&env.calls[1], HostCall::Write(BountyEntry::Token(what)) if *what == token())
    );
    assert!(
        matches!(&env.calls[2], HostCall::Write(BountyEntry::RateLimitCfg(c)) if *c == limits)
    );
}

#[test]
fn initialization_happens_once() {
    let mut env = setup();
    assert_eq!(
        BountyEscrowContract::init(&mut env, depositor(), contributor()),
        Err(Error::AlreadyInitialized)
    );
    assert_eq!(env.storage.admin, Some(admin()));
    assert_eq!(env.storage.token, Some(token()));
    assert!(env.calls.is_empty());
}

#[test]
fn nothing_works_before_initialization() {
    let mut env = BountyEnv::new(contract(), 1000);
    assert_eq!(
        BountyEscrowContract::set_rate_limit_config(&mut env, 1, 1, 1),
        Err(Error::NotInitialized)
    );
    assert_eq!(
        BountyEscrowContract::set_whitelist_status(&mut env, depositor(), true),
        Err(Error::NotInitialized)
    );
    assert_eq!(
        BountyEscrowContract::release_funds(&mut env, 1, contributor()),
        Err(Error::NotInitialized)
    );
    assert_eq!(
        BountyEscrowContract::balance_query(&env),
        Err(Error::NotInitialized)
    );
    assert_eq!(
        BountyEscrowContract::get_balance(&env, 5),
        Err(Error::NotInitialized)
    );
    assert_eq!(
        BountyEscrowContract::refund(&mut env, 1),
        Err(Error::BountyNotFound)
    );
    assert!(env.calls.is_empty());
    // The rate limit of a depositor cannot be worked out without limits.
    assert!(!env.rate_limit_computable(&depositor()));
}

#[test]
fn exempt_depositor_without_initialization_is_refused() {
    let mut env = BountyEnv::new(contract(), 1000);
    env.storage.whitelist.set(depositor(), true);
    assert!(env.consistent());
    assert_eq!(lock(&mut env, 1, 100, 2000), Err(Error::NotInitialized));
    assert!(env.storage.escrows.is_empty());
}

#[test]
fn lock_asks_for_consent_counts_moves_and_records() {
    let mut env = setup();
    assert_eq!(lock(&mut env, 7, 100, 2000), Ok(()));
    let escrow = Escrow {
        depositor: depositor(),
        amount: 100,
        status: EscrowStatus::Locked,
        deadline: 2000,
    };
    let stats = UserStats {
        last_operation_time: 1000,
        window_start_time: 1000,
        op_count: 1,
    };
    assert_eq!(BountyEscrowContract::get_escrow_info(&env, 7), Ok(escrow));
    assert_eq!(env.storage.stats.get(&depositor()), Some(stats));
    assert_eq!(env.calls.len(), 6);
    assert!(matches!(&env.calls[0], HostCall::RequireAuth(who) if *who == depositor()));
    assert!(matches!(
        &env.calls[1],
        HostCall::Write(BountyEntry::UserStats(who, s)) if *who == depositor() && *s == stats
    ));
    assert!(matches!(
        &env.calls[2],
        HostCall::ExtendTtl { key: DataKey::UserStats(who), threshold: 17280, extend_to: 17280 }
            if *who == depositor()
    ));
    assert!(matches!(
        &env.calls[3],
        HostCall::Transfer { token: t, from, to, amount: 100 }
            if *t == token() && *from == depositor() && *to == contract()
    ));
    assert!(matches!(
        &env.calls[4],
        HostCall::Write(BountyEntry::Escrow(7, e)) if *e == escrow
    ));
    assert!(matches!(
        &env.calls[5],
        HostCall::Publish(BountyEvent::FundsLocked {
            bounty_id: 7,
            depositor: who,
            amount: 100,
            deadline: 2000,
        }) if *who == depositor()
    ));
}

#[test]
fn cooldown_violation_is_published() {
    let mut env = setup();
    assert_eq!(lock(&mut env, 1, 100, 2000), Ok(()));
    env.calls.clear();
    env.timestamp = 1059;
    assert_eq!(lock(&mut env, 2, 100, 2000), Err(Error::CooldownActive));
    assert_eq!(env.calls.len(), 2);
    assert!(matches!(&env.calls[0], HostCall::RequireAuth(who) if *who == depositor()));
    assert!(matches!(
        &env.calls[1],
        HostCall::Publish(BountyEvent::RateLimitViolation {
            user,
            reason: Denial::Cooldown,
            timestamp: 1059,
        }) if *user == depositor()
    ));
}

#[test]
fn ten_deposits_an_hour() {
    let mut env = setup();
    for n in 0..10u64 {
        env.timestamp = 1000 + 60 * n;
        assert_eq!(lock(&mut env, n, 1, 0), Ok(()));
    }
    env.timestamp = 4599;
    env.calls.clear();
    assert_eq!(lock(&mut env, 10, 1, 0), Err(Error::RateLimitExceeded));
    assert!(matches!(
        &env.calls[1],
        HostCall::Publish(BountyEvent::RateLimitViolation {
            reason: Denial::MaxOps,
            timestamp: 4599,
            ..
        })
    ));
    env.timestamp = 4600;
    assert_eq!(lock(&mut env, 10, 1, 0), Ok(()));
    assert_eq!(env.storage.stats.get(&depositor()).unwrap().op_count, 1);
}

#[test]
fn bounty_takes_one_deposit_and_a_refused_one_is_not_counted() {
    let mut env = setup();
    assert_eq!(lock(&mut env, 1, 100, 2000), Ok(()));
    let stats = env.storage.stats.get(&depositor());
    env.timestamp = 1100;
    assert_eq!(lock(&mut env, 1, 55, 3000), Err(Error::BountyExists));
    assert_eq!(env.storage.stats.get(&depositor()), stats);
    assert_eq!(
        BountyEscrowContract::get_escrow_info(&env, 1).unwrap().amount,
        100
    );
    // The refused deposit started no cooldown.
    assert_eq!(lock(&mut env, 2, 55, 3000), Ok(()));
    assert_eq!(received(&env), 155);
}

#[test]
fn refused_first_deposit_leaves_no_statistics() {
    let mut env = setup();
    assert_eq!(lock(&mut env, 1, 100, 2000), Ok(()));
    let other = account(9);
    assert_eq!(
        BountyEscrowContract::lock_funds(&mut env, other, 1, 5, 5),
        Err(Error::BountyExists)
    );
    assert!(!env.storage.stats.has(&other));
}

#[test]
fn depositors_are_limited_separately() {
    let mut env = setup();
    assert_eq!(lock(&mut env, 1, 100, 2000), Ok(()));
    assert_eq!(
        BountyEscrowContract::lock_funds(&mut env, account(9), 2, 5, 5),
        Ok(())
    );
}

#[test]
fn whitelisted_depositor_is_not_counted() {
    let mut env = setup();
    assert_eq!(
        BountyEscrowContract::set_whitelist_status(&mut env, depositor(), true),
        Ok(())
    );
    assert_eq!(lock(&mut env, 1, 100, 2000), Ok(()));
    assert!(!env.storage.stats.has(&depositor()));
    assert_eq!(
        BountyEscrowContract::check_rate_limit(&mut env, &depositor()),
        Ok(())
    );
    assert_eq!(
        BountyEscrowContract::set_whitelist_status(&mut env, depositor(), false),
        Ok(())
    );
    assert_eq!(lock(&mut env, 2, 100, 2000), Ok(()));
    assert_eq!(lock(&mut env, 3, 100, 2000), Err(Error::CooldownActive));
}

#[test]
fn whitelist_is_the_admins() {
    let mut env = setup();
    assert_eq!(
        BountyEscrowContract::set_whitelist_status(&mut env, depositor(), true),
        Ok(())
    );
    assert!(env.storage.whitelist.has(&depositor()));
    assert!(!env.storage.whitelist.has(&contributor()));
    assert!(matches!(&env.calls[0], HostCall::RequireAuth(who) if *who == admin()));
    assert!(matches!(
        &env.calls[1],
        HostCall::Write(BountyEntry::Whitelist(who, true)) if *who == depositor()
    ));
    assert_eq!(
        BountyEscrowContract::set_whitelist_status(&mut env, depositor(), false),
        Ok(())
    );
    assert!(!env.storage.whitelist.has(&depositor()));
    assert!(matches!(
        &env.calls[3],
        HostCall::Remove(DataKey::Whitelist(who)) if *who == depositor()
    ));
}

#[test]
fn limits_are_the_admins() {
    let mut env = setup();
    assert_eq!(
        BountyEscrowContract::set_rate_limit_config(&mut env, 7, 8, 9),
        Ok(())
    );
    let limits = RateLimitConfig {
        window_seconds: 7,
        max_ops_per_window: 8,
        cooldown_seconds: 9,
    };
    assert_eq!(env.storage.rate_limit_cfg, Some(limits));
    assert_eq!(env.calls.len(), 2);
    assert!(matches!(&env.calls[0], HostCall::RequireAuth(who) if *who == admin()));
    assert!(
        matches!(&env.calls[1], HostCall::Write(BountyEntry::RateLimitCfg(c)) if *c == limits)
    );
}

#[test]
fn release_pays_the_contributor_once() {
    let mut env = setup();
    assert_eq!(lock(&mut env, 1, 100, 2000), Ok(()));
    env.calls.clear();
    assert_eq!(
        BountyEscrowContract::release_funds(&mut env, 1, contributor()),
        Ok(())
    );
    let released = Escrow {
        depositor: depositor(),
        amount: 100,
        status: EscrowStatus::Released,
        deadline: 2000,
    };
    assert_eq!(BountyEscrowContract::get_escrow_info(&env, 1), Ok(released));
    assert_eq!(env.calls.len(), 4);
    assert!(matches!(&env.calls[0], HostCall::RequireAuth(who) if *who == admin()));
    assert!(matches!(
        &env.calls[1],
        HostCall::Transfer { token: t, from, to, amount: 100 }
            if *t == token() && *from == contract() && *to == contributor()
    ));
    assert!(matches!(
        &env.calls[2],
        HostCall::Write(BountyEntry::Escrow(1, e)) if *e == released
    ));
    assert!(matches!(
        &env.calls[3],
        HostCall::Publish(BountyEvent::FundsReleased { bounty_id: 1, contributor: who, amount: 100 })
            if *who == contributor()
    ));

    env.calls.clear();
    assert_eq!(
        BountyEscrowContract::release_funds(&mut env, 1, contributor()),
        Err(Error::FundsNotLocked)
    );
    env.timestamp = 5000;
    assert_eq!(
        BountyEscrowContract::refund(&mut env, 1),
        Err(Error::FundsNotLocked)
    );
    assert_eq!(received(&env), 0);
    assert_eq!(env.calls.len(), 1);
    assert!(demands_auth(&env.calls, admin()));
}

#[test]
fn unknown_bounty_is_not_released() {
    let mut env = setup();
    assert_eq!(
        BountyEscrowContract::release_funds(&mut env, 1, contributor()),
        Err(Error::BountyNotFound)
    );
    assert_eq!(env.calls.len(), 1);
    assert!(demands_auth(&env.calls, admin()));
    assert_eq!(
        BountyEscrowContract::get_escrow_info(&env, 1),
        Err(Error::BountyNotFound)
    );
}

#[test]
fn refund_waits_for_the_deadline_and_needs_no_consent() {
    let mut env = setup();
    assert_eq!(lock(&mut env, 1, 100, 2000), Ok(()));
    env.calls.clear();
    env.timestamp = 1999;
    assert_eq!(
        BountyEscrowContract::refund(&mut env, 1),
        Err(Error::DeadlineNotPassed)
    );
    assert!(env.calls.is_empty());
    env.timestamp = 2000;
    assert_eq!(BountyEscrowContract::refund(&mut env, 1), Ok(()));
    let refunded = Escrow {
        depositor: depositor(),
        amount: 100,
        status: EscrowStatus::Refunded,
        deadline: 2000,
    };
    assert_eq!(BountyEscrowContract::get_escrow_info(&env, 1), Ok(refunded));
    assert_eq!(env.calls.len(), 3);
    assert!(matches!(
        &env.calls[0],
        HostCall::Transfer { token: t, from, to, amount: 100 }
            if *t == token() && *from == contract() && *to == depositor()
    ));
    assert!(matches!(
        &env.calls[1],
        HostCall::Write(BountyEntry::Escrow(1, e)) if *e == refunded
    ));
    assert!(matches!(
        &env.calls[2],
        HostCall::Publish(BountyEvent::FundsRefunded { bounty_id: 1, depositor: who, amount: 100 })
            if *who == depositor()
    ));
    assert_eq!(
        BountyEscrowContract::refund(&mut env, 1),
        Err(Error::FundsNotLocked)
    );
    assert_eq!(
        BountyEscrowContract::release_funds(&mut env, 1, contributor()),
        Err(Error::FundsNotLocked)
    );
    assert_eq!(lock(&mut env, 1, 100, 9000), Err(Error::BountyExists));
}

#[test]
fn contract_holds_what_is_locked() {
    let mut env = setup();
    assert_eq!(lock(&mut env, 1, 100, 2000), Ok(()));
    env.timestamp = 1100;
    assert_eq!(lock(&mut env, 2, 40, 3000), Ok(()));
    env.timestamp = 1200;
    assert_eq!(lock(&mut env, 3, 7, 4000), Ok(()));
    assert_eq!(received(&env), 147);
    assert_eq!(
        BountyEscrowContract::release_funds(&mut env, 2, contributor()),
        Ok(())
    );
    assert_eq!(received(&env), 107);
    env.timestamp = 2500;
    assert_eq!(BountyEscrowContract::refund(&mut env, 1), Ok(()));
    assert_eq!(
        BountyEscrowContract::refund(&mut env, 3),
        Err(Error::DeadlineNotPassed)
    );
    assert_eq!(received(&env), 7);
}

#[test]
fn balance_is_asked_of_the_token_contract() {
    let env = setup();
    assert_eq!(
        BountyEscrowContract::balance_query(&env),
        Ok(BalanceQuery {
            token: token(),
            holder: contract()
        })
    );
    assert_eq!(BountyEscrowContract::get_balance(&env, 250), Ok(250));
    assert_eq!(BountyEscrowContract::get_balance(&env, -1), Ok(-1));
}

#[test]
fn ledgers_that_the_contract_cannot_have_left_are_noticed() {
    let mut env = setup();
    assert!(env.consistent());
    env.storage.token = None;
    assert!(!env.consistent());
    let mut env = setup();
    env.storage.rate_limit_cfg = None;
    assert!(!env.consistent());
    let mut env = BountyEnv::new(contract(), 1000);
    assert!(env.consistent());
    env.storage.escrows.set(
        1,
        Escrow {
            depositor: depositor(),
            amount: 1,
            status: EscrowStatus::Locked,
            deadline: 1,
        },
    );
    assert!(!env.consistent());
}

#[test]
fn times_beyond_the_clock_cannot_be_worked_out() {
    let mut env = setup();
    assert_eq!(
        BountyEscrowContract::set_rate_limit_config(&mut env, u64::MAX, 1, 0),
        Ok(())
    );
    assert!(!env.rate_limit_computable(&depositor()));
    assert_eq!(
        BountyEscrowContract::set_whitelist_status(&mut env, depositor(), true),
        Ok(())
    );
    assert!(env.rate_limit_computable(&depositor()));
}

#[test]
fn errors_have_codes() {
    let codes: Vec<u32> = [
        Error::AlreadyInitialized,
        Error::NotInitialized,
        Error::BountyExists,
        Error::BountyNotFound,
        Error::FundsNotLocked,
        Error::DeadlineNotPassed,
        Error::Unauthorized,
        Error::RateLimitExceeded,
        Error::CooldownActive,
    ]
    .iter()
    .map(|error| error.code())
    .collect();
    assert_eq!(codes, vec![1, 2, 3, 4, 5, 6, 7, 8, 9]);
    assert!(Error::AlreadyInitialized < Error::CooldownActive);
}

#[test]
fn entries_know_their_keys_and_places() {
    let stats = UserStats {
        last_operation_time: 1,
        window_start_time: 2,
        op_count: 3,
    };
    assert_eq!(BountyEntry::Admin(admin()).key(), DataKey::Admin);
    assert_eq!(BountyEntry::Token(token()).key(), DataKey::Token);
    let entry = BountyEntry::UserStats(depositor(), stats);
    assert_eq!(entry.key(), DataKey::UserStats(depositor()));
    assert_eq!(entry.key().durability(), Durability::Temporary);
    assert_eq!(DataKey::Escrow(3).durability(), Durability::Persistent);
    assert_eq!(DataKey::Admin.durability(), Durability::Instance);
    assert_eq!(DataKey::Token.durability(), Durability::Instance);
    assert_eq!(DataKey::RateLimitCfg.durability(), Durability::Instance);
    assert_eq!(
        DataKey::Whitelist(depositor()).durability(),
        Durability::Instance
    );
}

#[test]
fn events_have_topics() {
    let user = depositor();
    let topics: Vec<&str> = [
        BountyEvent::RateLimitViolation {
            user,
            reason: Denial::Cooldown,
            timestamp: 1,
        },
        BountyEvent::FundsLocked {
            bounty_id: 1,
            depositor: user,
            amount: 1,
            deadline: 1,
        },
        BountyEvent::FundsReleased {
            bounty_id: 1,
            contributor: user,
            amount: 1,
        },
        BountyEvent::FundsRefunded {
            bounty_id: 1,
            depositor: user,
            amount: 1,
        },
    ]
    .iter()
    .map(|event| event.topic())
    .collect();
    assert_eq!(
        topics,
        vec![
            "rate_limit_violation",
            "funds_locked",
            "funds_released",
            "funds_refunded"
        ]
    );
}

#[test]
fn deposits_stay_the_cooldown_apart_whatever_happens_between() {
    let mut env = setup();
    assert_eq!(lock(&mut env, 1, 100, 1001), Ok(()));
    let release = BountyEscrowContract::release_funds(&mut env, 1, contributor());
    assert_eq!(release, Ok(()));
    let off = BountyEscrowContract::set_whitelist_status(&mut env, depositor(), false);
    assert_eq!(off, Ok(()));
    env.timestamp = 1030;
    let again = BountyEscrowContract::init(&mut env, depositor(), token());
    assert_eq!(again, Err(Error::AlreadyInitialized));
    let other = BountyEscrowContract::lock_funds(&mut env, contributor(), 2, 5, 1001);
    assert_eq!(other, Ok(()));
    assert_eq!(lock(&mut env, 3, 100, 2000), Err(Error::CooldownActive));
    assert_eq!(BountyEscrowContract::refund(&mut env, 2), Ok(()));
    env.timestamp = 1059;
    assert_eq!(lock(&mut env, 3, 100, 2000), Err(Error::CooldownActive));
    env.timestamp = 1060;
    assert_eq!(lock(&mut env, 3, 100, 2000), Ok(()));
    // The clock can also have gone back.
    env.timestamp = 1000;
    assert_eq!(lock(&mut env, 4, 100, 2000), Err(Error::CooldownActive));
}

#[test]
fn escrow_info_needs_no_initialized_contract() {
    let env = BountyEnv::new(contract(), 1000);
    assert_eq!(
        BountyEscrowContract::get_escrow_info(&env, 1),
        Err(Error::BountyNotFound)
    );
}
