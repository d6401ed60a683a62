use grant_escrow::account::Account;
use grant_escrow::host::{Durability, HostCall};
use grant_escrow::program_escrow::{
    total_payout, PayoutRecord, ProgramData, ProgramEntry, ProgramEnv, ProgramEscrowContract,
    ProgramEvent, ProgramKey,
};
use grant_escrow::rate_limit::{Denial, RateLimitConfig, UserStats};
use grant_escrow::rejection::Rejection;

fn account(n: u8) -> Account {
    let mut strkey = [b'A'; 56];
    strkey[0] = b'G';
    strkey[55] = n;
    Account::new(strkey)
}

fn contract() -> Account {
    account(0)
}

fn payout_key() -> Account {
    account(1)
}

fn token() -> Account {
    account(2)
}

fn name() -> Vec<u8> {
    b"Hackathon2024".to_vec()
}

fn unfunded() -> ProgramData {
    ProgramData {
        program_id: name(),
        total_funds: 0,
        remaining_balance: 0,
        authorized_payout_key: payout_key(),
        payout_history: vec![],
        token_address: token(),
    }
}

fn setup() -> ProgramEnv {
    let mut env = ProgramEnv::new(contract(), 1000);
    assert_eq!(
        ProgramEscrowContract::init_program(&mut env, name(), payout_key(), token()),
        Ok(unfunded())
    );
    env.calls.clear();
    env
}

fn funded(amount: i128) -> ProgramEnv {
    let mut env = setup();
    assert!(ProgramEscrowContract::lock_program_funds(&mut env, amount).is_ok());
    env.calls.clear();
    env
}

fn record(n: u8, amount: i128, timestamp: u64) -> PayoutRecord {
    PayoutRecord {
        recipient: account(n),
        amount,
        timestamp,
    }
}

fn paid_out(env: &ProgramEnv) -> i128 {
    let mut sum = 0;
    for call in env.calls.iter() {
        if let HostCall::Transfer {
            token: moved,
            from,
            amount,
            ..
        } = call
        {
            assert_eq!(*moved, token());
            assert_eq!(*from, contract());
            sum += *amount;
        }
    }
    sum
}

fn assert_balanced(env: &ProgramEnv) {
    let program = ProgramEscrowContract::get_program_info(env).unwrap();
    let paid: i128 = program.payout_history.iter().map(|r| r.amount).sum();
    assert_eq!(program.remaining_balance + paid, program.total_funds);
    assert!(program.remaining_balance >= 0);
}

#[test]
fn program_is_set_up_with_an_empty_pool() {
    let mut env = ProgramEnv::new(contract(), 1000);
    assert_eq!(
        ProgramEscrowContract::init_program(&mut env, name(), payout_key(), token()),
        Ok(unfunded())
    );
    let limits = RateLimitConfig {
        window_seconds: 3600,
        max_ops_per_window: 20,
        cooldown_seconds: 30,
    };
    assert_eq!(env.storage.rate_limit_config, Some(limits));
    assert_eq!(ProgramEscrowContract::get_program_info(&env), Ok(unfunded()));
    assert_eq!(ProgramEscrowContract::get_remaining_balance(&env), Ok(0));
    assert_eq!(env.calls.len(), 3);
    assert!(matches!(
        &env.calls[0],
        HostCall::Write(ProgramEntry::ProgramData(p)) if *p == unfunded()
    ));
    assert!(matches!(
        &env.calls[1],
        HostCall::Write(ProgramEntry::RateLimitConfig(c)) if *c == limits
    ));
    assert!(matches!(
        &env.calls[2],
        HostCall::Publish(ProgramEvent::ProgramInitialized {
            program_id,
            authorized_payout_key,
            token_address,
            total_funds: 0,
        }) if *program_id == name()
            && *authorized_payout_key == payout_key()
            && *token_address == token()
    ));
}

#[test]
fn program_is_set_up_once() {
    let mut env = funded(100);
    assert_eq!(
        ProgramEscrowContract::init_program(&mut env, b"other".to_vec(), account(8), account(9)),
        Err(Rejection::AlreadyInitialized)
    );
    assert!(env.calls.is_empty());
    let program = ProgramEscrowContract::get_program_info(&env).unwrap();
    assert_eq!(program.program_id, name());
    assert_eq!(program.authorized_payout_key, payout_key());
    assert_eq!(program.token_address, token());
}

#[test]
fn nothing_works_without_a_program() {
    let mut env = ProgramEnv::new(contract(), 1000);
    let missing = Rejection::NotInitialized;
    assert_eq!(
        ProgramEscrowContract::lock_program_funds(&mut env, 1),
        Err(missing)
    );
    assert_eq!(
        ProgramEscrowContract::batch_payout(&mut env, &vec![account(5)], &vec![1]),
        Err(missing)
    );
    assert_eq!(
        ProgramEscrowContract::single_payout(&mut env, account(5), 1),
        Err(missing)
    );
    assert_eq!(
        ProgramEscrowContract::set_rate_limit_config(&mut env, 1, 1, 1),
        Err(missing)
    );
    assert_eq!(
        ProgramEscrowContract::set_whitelist_status(&mut env, account(5), true),
        Err(missing)
    );
    assert_eq!(ProgramEscrowContract::get_program_info(&env), Err(missing));
    assert_eq!(
        ProgramEscrowContract::get_remaining_balance(&env),
        Err(missing)
    );
    assert!(env.calls.is_empty());
}

#[test]
fn locked_funds_add_up() {
    let mut env = setup();
    let program = ProgramEscrowContract::lock_program_funds(&mut env, 500).unwrap();
    assert_eq!(program.total_funds, 500);
    assert_eq!(program.remaining_balance, 500);
    assert_eq!(env.calls.len(), 2);
    assert!(matches!(
        &env.calls[0],
        HostCall::Write(ProgramEntry::ProgramData(p)) if *p == program
    ));
    assert!(matches!(
        &env.calls[1],
        HostCall::Publish(ProgramEvent::FundsLocked {
            program_id,
            amount: 500,
            remaining_balance: 500,
        }) if *program_id == name()
    ));
    let program = ProgramEscrowContract::lock_program_funds(&mut env, 250).unwrap();
    assert_eq!(program.total_funds, 750);
    assert_eq!(program.remaining_balance, 750);
    assert_balanced(&env);
}

#[test]
fn only_positive_amounts_are_locked() {
    let mut env = setup();
    assert_eq!(
        ProgramEscrowContract::lock_program_funds(&mut env, 0),
        Err(Rejection::AmountNotPositive)
    );
    assert_eq!(
        ProgramEscrowContract::lock_program_funds(&mut env, -5),
        Err(Rejection::AmountNotPositive)
    );
    assert!(env.calls.is_empty());
    // The amount is looked at before the program.
    let mut empty = ProgramEnv::new(contract(), 1000);
    assert_eq!(
        ProgramEscrowContract::lock_program_funds(&mut empty, 0),
        Err(Rejection::AmountNotPositive)
    );
}

#[test]
fn pool_cannot_overflow() {
    let mut env = funded(i128::MAX);
    assert_eq!(
        ProgramEscrowContract::lock_program_funds(&mut env, 1),
        Err(Rejection::ArithmeticOverflow)
    );
    assert_eq!(
        ProgramEscrowContract::get_remaining_balance(&env),
        Ok(i128::MAX)
    );
    // Paying out makes no room: what was ever locked is still counted.
    assert!(ProgramEscrowContract::single_payout(&mut env, account(5), 10).is_ok());
    assert_eq!(
        ProgramEscrowContract::lock_program_funds(&mut env, 1),
        Err(Rejection::ArithmeticOverflow)
    );
}

#[test]
fn single_payment_is_made_and_recorded() {
    let mut env = funded(1000);
    let program = ProgramEscrowContract::single_payout(&mut env, account(5), 300).unwrap();
    assert_eq!(program.remaining_balance, 700);
    assert_eq!(program.total_funds, 1000);
    assert_eq!(program.payout_history, vec![record(5, 300, 1000)]);
    let stats = UserStats {
        last_operation_time: 1000,
        window_start_time: 1000,
        op_count: 1,
    };
    assert_eq!(env.calls.len(), 6);
    assert!(matches!(&env.calls[0], HostCall::RequireAuth(who) if *who == payout_key()));
    assert!(matches!(
        &env.calls[1],
        HostCall::Write(ProgramEntry::UserStats(who, s)) if *who == payout_key() && *s == stats
    ));
    assert!(matches!(
        &env.calls[2],
        HostCall::ExtendTtl { key: ProgramKey::UserStats(who), threshold: 17280, extend_to: 17280 }
            if *who == payout_key()
    ));
    assert!(matches!(
        &env.calls[3],
        HostCall::Transfer { token: t, from, to, amount: 300 }
            if *t == token() && *from == contract() && *to == account(5)
    ));
    assert!(matches!(
        &env.calls[4],
        HostCall::Write(ProgramEntry::ProgramData(p)) if *p == program
    ));
    assert!(matches!(
        &env.calls[5],
        HostCall::Publish(ProgramEvent::Payout {
            program_id,
            recipient,
            amount: 300,
            remaining_balance: 700,
        }) if *program_id == name() && *recipient == account(5)
    ));
    assert_eq!(ProgramEscrowContract::get_program_info(&env), Ok(program));
    assert_balanced(&env);
}

#[test]
fn single_payment_is_refused() {
    let mut env = funded(1000);
    assert_eq!(
        ProgramEscrowContract::single_payout(&mut env, account(5), 0),
        Err(Rejection::AmountNotPositive)
    );
    assert_eq!(
        ProgramEscrowContract::single_payout(&mut env, account(5), 1001),
        Err(Rejection::InsufficientBalance {
            requested: 1001,
            available: 1000
        })
    );
    assert_eq!(paid_out(&env), 0);
    // Refused payments are not counted, so they start no cooldown.
    assert!(!env.storage.stats.has(&payout_key()));
    assert!(ProgramEscrowContract::single_payout(&mut env, account(5), 1000).is_ok());
    assert_eq!(ProgramEscrowContract::get_remaining_balance(&env), Ok(0));
}

#[test]
fn batch_is_paid_and_recorded_in_order() {
    let mut env = funded(1000);
    let program = ProgramEscrowContract::batch_payout(
        &mut env,
        &vec![account(5), account(6), account(5)],
        &vec![100, 200, 50],
    )
    .unwrap();
    assert_eq!(program.remaining_balance, 650);
    assert_eq!(program.total_funds, 1000);
    assert_eq!(
        program.payout_history,
        vec![
            record(5, 100, 1000),
            record(6, 200, 1000),
            record(5, 50, 1000)
        ]
    );
    assert_eq!(env.calls.len(), 8);
    assert!(matches!(&env.calls[0], HostCall::RequireAuth(who) if *who == payout_key()));
    assert!(matches!(
        &env.calls[3],
        HostCall::Transfer { to, amount: 100, .. } if *to == account(5)
    ));
    assert!(matches!(
        &env.calls[4],
        HostCall::Transfer { to, amount: 200, .. } if *to == account(6)
    ));
    assert!(matches!(
        &env.calls[5],
        HostCall::Transfer { to, amount: 50, .. } if *to == account(5)
    ));
    assert!(matches!(
        &env.calls[6],
        HostCall::Write(ProgramEntry::ProgramData(p)) if *p == program
    ));
    assert!(matches!(
        &env.calls[7],
        HostCall::Publish(ProgramEvent::BatchPayout {
            program_id,
            recipients: 3,
            total: 350,
            remaining_balance: 650,
        }) if *program_id == name()
    ));
    assert_eq!(paid_out(&env), 350);
    assert_balanced(&env);
}

#[test]
fn batch_is_refused() {
    let mut env = funded(1000);
    let two = vec![account(5), account(6)];
    let before = ProgramEscrowContract::get_program_info(&env);
    assert_eq!(
        ProgramEscrowContract::batch_payout(&mut env, &two, &vec![1]),
        Err(Rejection::LengthMismatch)
    );
    assert_eq!(
        ProgramEscrowContract::batch_payout(&mut env, &vec![], &vec![]),
        Err(Rejection::EmptyBatch)
    );
    assert_eq!(
        ProgramEscrowContract::batch_payout(&mut env, &two, &vec![10, 0]),
        Err(Rejection::BatchAmountNotPositive)
    );
    assert_eq!(
        ProgramEscrowContract::batch_payout(&mut env, &two, &vec![i128::MAX, 1]),
        Err(Rejection::PayoutOverflow)
    );
    assert_eq!(
        ProgramEscrowContract::batch_payout(&mut env, &two, &vec![999, 2]),
        Err(Rejection::InsufficientBalance {
            requested: 1001,
            available: 1000
        })
    );
    assert_eq!(paid_out(&env), 0);
    assert_eq!(ProgramEscrowContract::get_program_info(&env), before);
    assert!(!env.storage.stats.has(&payout_key()));
    assert!(ProgramEscrowContract::batch_payout(&mut env, &two, &vec![998, 2]).is_ok());
    assert_eq!(ProgramEscrowContract::get_remaining_balance(&env), Ok(0));
}

#[test]
fn first_amount_in_the_way_decides() {
    assert_eq!(total_payout(&vec![]), Ok(0));
    assert_eq!(total_payout(&vec![1, 2, 3]), Ok(6));
    assert_eq!(
        total_payout(&vec![i128::MAX, 1, 0]),
        Err(Rejection::PayoutOverflow)
    );
    assert_eq!(
        total_payout(&vec![-1, i128::MAX, 1]),
        Err(Rejection::BatchAmountNotPositive)
    );
    assert_eq!(total_payout(&vec![i128::MAX]), Ok(i128::MAX));
}

#[test]
fn payments_are_rate_limited() {
    let mut env = funded(1000);
    assert!(ProgramEscrowContract::single_payout(&mut env, account(5), 1).is_ok());
    env.calls.clear();
    env.timestamp = 1029;
    assert_eq!(
        ProgramEscrowContract::batch_payout(&mut env, &vec![account(5)], &vec![1]),
        Err(Rejection::CooldownActive)
    );
    assert_eq!(env.calls.len(), 2);
    assert!(matches!(
        &env.calls[1],
        HostCall::Publish(ProgramEvent::RateLimitViolation {
            user,
            reason: Denial::Cooldown,
            timestamp: 1029,
        }) if *user == payout_key()
    ));
    env.timestamp = 1030;
    assert!(
        ProgramEscrowContract::batch_payout(&mut env, &vec![account(5)], &vec![1]).is_ok()
    );
}

#[test]
fn twenty_payments_an_hour() {
    let mut env = funded(1000);
    for n in 0..20u64 {
        env.timestamp = 1000 + 30 * n;
        assert!(ProgramEscrowContract::single_payout(&mut env, account(5), 1).is_ok());
    }
    env.timestamp = 4599;
    assert_eq!(
        ProgramEscrowContract::single_payout(&mut env, account(5), 1),
        Err(Rejection::RateLimitExceeded)
    );
    env.timestamp = 4600;
    assert!(ProgramEscrowContract::single_payout(&mut env, account(5), 1).is_ok());
    assert_eq!(ProgramEscrowContract::get_remaining_balance(&env), Ok(979));
    assert_balanced(&env);
}

#[test]
fn locking_funds_is_not_limited() {
    let mut env = setup();
    for _ in 0..50 {
        assert!(ProgramEscrowContract::lock_program_funds(&mut env, 2).is_ok());
    }
    assert_eq!(ProgramEscrowContract::get_remaining_balance(&env), Ok(100));
}

#[test]
fn limits_without_configuration_are_the_initial_ones() {
    let mut env = funded(1000);
    env.storage.rate_limit_config = None;
    assert!(ProgramEscrowContract::single_payout(&mut env, account(5), 1).is_ok());
    env.timestamp = 1029;
    assert_eq!(
        ProgramEscrowContract::single_payout(&mut env, account(5), 1),
        Err(Rejection::CooldownActive)
    );
    env.timestamp = 1030;
    assert!(ProgramEscrowContract::single_payout(&mut env, account(5), 1).is_ok());
}

#[test]
fn times_beyond_the_clock_stop_a_payment() {
    let mut env = funded(1000);
    assert_eq!(
        ProgramEscrowContract::set_rate_limit_config(&mut env, u64::MAX, 5, 0),
        Ok(())
    );
    env.calls.clear();
    assert_eq!(
        ProgramEscrowContract::single_payout(&mut env, account(5), 1),
        Err(Rejection::ArithmeticOverflow)
    );
    assert_eq!(env.calls.len(), 1);
    assert_eq!(
        ProgramEscrowContract::check_rate_limit(&mut env, &payout_key()),
        Err(Rejection::ArithmeticOverflow)
    );
}

#[test]
fn settings_are_the_payout_keys() {
    let mut env = setup();
    assert_eq!(
        ProgramEscrowContract::set_rate_limit_config(&mut env, 7, 8, 9),
        Ok(())
    );
    let limits = RateLimitConfig {
        window_seconds: 7,
        max_ops_per_window: 8,
        cooldown_seconds: 9,
    };
    assert_eq!(env.storage.rate_limit_config, Some(limits));
    assert!(matches!(&env.calls[0], HostCall::RequireAuth(who) if *who == payout_key()));
    assert!(matches!(
        &env.calls[1],
        HostCall::Write(ProgramEntry::RateLimitConfig(c)) if *c == limits
    ));
    env.calls.clear();
    assert_eq!(
        ProgramEscrowContract::set_whitelist_status(&mut env, account(5), true),
        Ok(())
    );
    assert!(env.storage.whitelist.has(&account(5)));
    assert!(!env.storage.whitelist.has(&account(6)));
    assert!(matches!(&env.calls[0], HostCall::RequireAuth(who) if *who == payout_key()));
    assert!(matches!(
        &env.calls[1],
        HostCall::Write(ProgramEntry::Whitelist(who, true)) if *who == account(5)
    ));
    assert_eq!(
        ProgramEscrowContract::set_whitelist_status(&mut env, account(5), false),
        Ok(())
    );
    assert!(!env.storage.whitelist.has(&account(5)));
    assert!(matches!(
        &env.calls[3],
        HostCall::Remove(ProgramKey::Whitelist(who)) if *who == account(5)
    ));
}

#[test]
fn exempt_batch_is_worth_its_single_payments() {
    let mut whole = funded(1000);
    assert!(
        ProgramEscrowContract::set_whitelist_status(&mut whole, payout_key(), true).is_ok()
    );
    let mut parts = whole.clone();
    let recipients = vec![account(5), account(6), account(7)];
    let amounts = vec![10, 20, 30];
    assert!(ProgramEscrowContract::batch_payout(&mut whole, &recipients, &amounts).is_ok());
    for i in 0..3 {
        assert!(
            ProgramEscrowContract::single_payout(&mut parts, recipients[i], amounts[i]).is_ok()
        );
    }
    assert_eq!(
        ProgramEscrowContract::get_program_info(&whole),
        ProgramEscrowContract::get_program_info(&parts)
    );
    assert!(!whole.storage.stats.has(&payout_key()));
    assert!(!parts.storage.stats.has(&payout_key()));
    assert_eq!(paid_out(&whole), 60);
    assert_eq!(paid_out(&parts), 60);
}

#[test]
fn batch_of_one_is_a_single_payment() {
    let mut batch = funded(1000);
    let mut single = batch.clone();
    assert_eq!(
        ProgramEscrowContract::batch_payout(&mut batch, &vec![account(5)], &vec![77]),
        ProgramEscrowContract::single_payout(&mut single, account(5), 77)
    );
    assert_eq!(
        batch.storage.stats.get(&payout_key()),
        single.storage.stats.get(&payout_key())
    );
}

#[test]
fn history_only_grows() {
    let mut env = funded(1000);
    let first = ProgramEscrowContract::single_payout(&mut env, account(5), 1).unwrap();
    env.timestamp = 2000;
    let second =
        ProgramEscrowContract::batch_payout(&mut env, &vec![account(6)], &vec![2]).unwrap();
    assert!(ProgramEscrowContract::lock_program_funds(&mut env, 5).is_ok());
    env.timestamp = 3000;
    let third = ProgramEscrowContract::single_payout(&mut env, account(7), 3).unwrap();
    assert_eq!(first.payout_history, vec![record(5, 1, 1000)]);
    assert_eq!(
        second.payout_history,
        vec![record(5, 1, 1000), record(6, 2, 2000)]
    );
    assert_eq!(
        third.payout_history,
        vec![
            record(5, 1, 1000),
            record(6, 2, 2000),
            record(7, 3, 3000)
        ]
    );
    assert_eq!(third.total_funds, 1005);
    assert_balanced(&env);
}

#[test]
fn keys_and_events_have_symbols() {
    assert_eq!(ProgramKey::ProgramData.symbol(), "ProgData");
    assert_eq!(ProgramKey::RateLimitConfig.symbol(), "RL_CFG");
    assert_eq!(ProgramKey::UserStats(account(1)).symbol(), "U_STATS");
    assert_eq!(ProgramKey::Whitelist(account(1)).symbol(), "W_LIST");
    assert_eq!(
        ProgramKey::UserStats(account(1)).durability(),
        Durability::Temporary
    );
    assert_eq!(ProgramKey::ProgramData.durability(), Durability::Instance);
    assert_eq!(
        ProgramKey::Whitelist(account(1)).durability(),
        Durability::Instance
    );
    let entry: ProgramEntry<ProgramData> = ProgramEntry::Whitelist(account(1), true);
    assert_eq!(entry.key(), ProgramKey::Whitelist(account(1)));
    assert_eq!(
        ProgramEntry::ProgramData(unfunded()).key(),
        ProgramKey::ProgramData
    );
    let topics: Vec<&str> = [
        ProgramEvent::ProgramInitialized {
            program_id: name(),
            authorized_payout_key: account(1),
            token_address: account(2),
            total_funds: 0,
        },
        ProgramEvent::FundsLocked {
            program_id: name(),
            amount: 1,
            remaining_balance: 1,
        },
        ProgramEvent::BatchPayout {
            program_id: name(),
            recipients: 1,
            total: 1,
            remaining_balance: 1,
        },
        ProgramEvent::Payout {
            program_id: name(),
            recipient: account(1),
            amount: 1,
            remaining_balance: 1,
        },
        ProgramEvent::RateLimitViolation {
            user: account(1),
            reason: Denial::MaxOps,
            timestamp: 1,
        },
    ]
    .iter()
    .map(|event| event.topic())
    .collect();
    assert_eq!(
        topics,
        vec!["ProgInit", "FundLock", "BatPay", "Payout", "RL_Vio"]
    );
}

#[test]
fn payments_after_a_payment_wait_for_the_cooldown() {
    let mut env = funded(1000);
    let recipients = vec![account(3)];
    assert!(ProgramEscrowContract::batch_payout(&mut env, &recipients, &vec![10]).is_ok());
    env.timestamp = 1029;
    assert_eq!(
        ProgramEscrowContract::batch_payout(&mut env, &recipients, &vec![10]),
        Err(Rejection::CooldownActive)
    );
    assert_eq!(
        ProgramEscrowContract::single_payout(&mut env, account(3), 10),
        Err(Rejection::CooldownActive)
    );
    env.timestamp = 1030;
    assert!(ProgramEscrowContract::single_payout(&mut env, account(3), 10).is_ok());
    assert_eq!(ProgramEscrowContract::get_remaining_balance(&env), Ok(980));
}

#[test]
fn stopped_batch_counts_nothing() {
    let mut env = funded(100);
    assert_eq!(
        ProgramEscrowContract::stop_batch(&mut env, 0, 0, &vec![]),
        Rejection::EmptyBatch
    );
    assert_eq!(
        ProgramEscrowContract::stop_batch(&mut env, 2, 2, &vec![i128::MAX, 1]),
        Rejection::PayoutOverflow
    );
    assert_eq!(
        ProgramEscrowContract::stop_batch(&mut env, 2, 2, &vec![60, 41]),
        Rejection::InsufficientBalance { requested: 101, available: 100 }
    );
    assert_eq!(
        ProgramEscrowContract::stop_batch(&mut env, 3, 3, &vec![60, 41]),
        Rejection::MalformedArgument
    );
    assert!(ProgramEscrowContract::single_payout(&mut env, account(3), 10).is_ok());
    assert_eq!(
        ProgramEscrowContract::stop_batch(&mut env, 3, 2, &vec![60, 40]),
        Rejection::CooldownActive
    );
}

#[test]
fn payments_stay_the_cooldown_apart_whatever_happens_between() {
    let mut env = funded(1000);
    assert!(ProgramEscrowContract::single_payout(&mut env, account(3), 10).is_ok());
    assert!(ProgramEscrowContract::lock_program_funds(&mut env, 5).is_ok());
    let listed = ProgramEscrowContract::set_whitelist_status(&mut env, account(3), true);
    assert_eq!(listed, Ok(()));
    let off = ProgramEscrowContract::set_whitelist_status(&mut env, payout_key(), false);
    assert_eq!(off, Ok(()));
    env.timestamp = 1010;
    let recipients = vec![account(3)];
    assert_eq!(
        ProgramEscrowContract::batch_payout(&mut env, &recipients, &vec![10]),
        Err(Rejection::CooldownActive)
    );
    env.timestamp = 1029;
    assert_eq!(
        ProgramEscrowContract::single_payout(&mut env, account(3), 10),
        Err(Rejection::CooldownActive)
    );
    env.timestamp = 1030;
    assert!(ProgramEscrowContract::batch_payout(&mut env, &recipients, &vec![10]).is_ok());
    env.timestamp = 1059;
    assert_eq!(
        ProgramEscrowContract::single_payout(&mut env, account(3), 10),
        Err(Rejection::CooldownActive)
    );
}

#[test]
fn batch_of_one_asks_what_a_single_payment_asks() {
    for amount in [400i128, 1000, 1001] {
        let mut batch = funded(1000);
        let mut single = funded(1000);
        let of_batch =
            ProgramEscrowContract::batch_payout(&mut batch, &vec![account(3)], &vec![amount]);
        let of_single = ProgramEscrowContract::single_payout(&mut single, account(3), amount);
        assert_eq!(of_batch, of_single);
        let alike = if of_single.is_ok() { 5 } else { 3 };
        assert_eq!(
            format!("{:?}", &batch.calls[..alike]),
            format!("{:?}", &single.calls[..alike])
        );
        assert_eq!(batch.calls.len(), single.calls.len());
        assert_eq!(of_single.is_ok(), single.calls.len() == 6);
    }
    let mut env = funded(1000);
    assert_eq!(
        ProgramEscrowContract::batch_payout(&mut env, &vec![account(3)], &vec![0]),
        Err(Rejection::BatchAmountNotPositive)
    );
    assert_eq!(
        ProgramEscrowContract::single_payout(&mut env, account(3), 0),
        Err(Rejection::AmountNotPositive)
    );
}
