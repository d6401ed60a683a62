use grant_escrow::account::Account;
use grant_escrow::host::HostCall;
use grant_escrow::host_vec::{read_amounts, read_recipients};
use grant_escrow::program_escrow::{PayoutRecord, ProgramEnv, ProgramEscrowContract};
use grant_escrow::rejection::Rejection;
use soroban_sdk::testutils::Address as _;
use soroban_sdk::{Address, Env, IntoVal, TryFromVal, Val};

fn text_of(address: &Address) -> Account {
    let mut strkey = [0u8; 56];
    address.to_string().copy_into_slice(&mut strkey);
    Account::new(strkey)
}

fn funded(payout_key: Account, token: Account, contract: Account) -> ProgramEnv {
    let mut env = ProgramEnv::new(contract, 1000);
    assert!(
        ProgramEscrowContract::init_program(&mut env, b"p".to_vec(), payout_key, token).is_ok()
    );
    assert!(ProgramEscrowContract::lock_program_funds(&mut env, 1000).is_ok());
    env.calls.clear();
    env
}

#[test]
fn amounts_are_read_in_order() {
    let host = Env::default();
    let list = soroban_sdk::Vec::from_array(&host, [3i128, -7, i128::MAX, i128::MIN, 0]);
    assert_eq!(
        read_amounts(&list),
        vec![3, -7, i128::MAX, i128::MIN, 0]
    );
    let empty: soroban_sdk::Vec<i128> = soroban_sdk::Vec::new(&host);
    assert!(read_amounts(&empty).is_empty());
}

#[test]
fn recipients_are_read_by_their_text() {
    let host = Env::default();
    let first = Address::generate(&host);
    let second = Address::generate(&host);
    let list = soroban_sdk::Vec::from_array(
        &host,
        [first.clone(), second.clone(), first.clone()],
    );
    let read = read_recipients(&list);
    assert_eq!(
        read,
        vec![text_of(&first), text_of(&second), text_of(&first)]
    );
    assert_eq!(read[0].strkey[0], b'C');
    assert!(!read[0].same(&read[1]));
    assert!(read[0].same(&read[2]));
}

#[test]
fn account_has_a_text_of_its_own_kind() {
    let host = Env::default();
    let text = "GAAAAAAAAAAAAAAAAAAAAAAAAAAAAAAAAAAAAAAAAAAAAAAAAAAAAWHF";
    let account = Address::from_string(&soroban_sdk::String::from_str(&host, text));
    let list = soroban_sdk::Vec::from_array(&host, [account]);
    assert_eq!(read_recipients(&list)[0].strkey, text.as_bytes());
}

fn mixed(host: &Env, items: &[Val]) -> soroban_sdk::Vec<Val> {
    soroban_sdk::Vec::from_slice(host, items)
}

fn as_amounts(host: &Env, list: &soroban_sdk::Vec<Val>) -> soroban_sdk::Vec<i128> {
    soroban_sdk::Vec::<i128>::try_from_val(host, &list.to_val()).unwrap()
}

fn as_recipients(host: &Env, list: &soroban_sdk::Vec<Val>) -> soroban_sdk::Vec<Address> {
    soroban_sdk::Vec::<Address>::try_from_val(host, &list.to_val()).unwrap()
}

#[test]
fn reading_stops_at_an_item_of_another_type() {
    let host = Env::default();
    let one: Val = 1i128.into_val(&host);
    let two: Val = 2i128.into_val(&host);
    let flag: Val = true.into_val(&host);
    let someone = Address::generate(&host);
    let party: Val = someone.into_val(&host);
    let amounts = mixed(&host, &[one, two, flag, one]);
    assert_eq!(read_amounts(&as_amounts(&host, &amounts)), vec![1, 2]);
    let recipients = mixed(&host, &[party, one, party]);
    assert_eq!(
        read_recipients(&as_recipients(&host, &recipients)),
        vec![text_of(&someone)]
    );
    assert!(read_recipients(&as_recipients(&host, &amounts)).is_empty());
}

#[test]
fn batch_of_host_lists_is_paid() {
    let host = Env::default();
    let first = Address::generate(&host);
    let second = Address::generate(&host);
    let key = text_of(&Address::generate(&host));
    let token = text_of(&Address::generate(&host));
    let contract = text_of(&Address::generate(&host));
    let mut env = funded(key, token, contract);
    let recipients = soroban_sdk::Vec::from_array(&host, [first.clone(), second.clone()]);
    let amounts = soroban_sdk::Vec::from_array(&host, [100i128, 25]);
    let program =
        ProgramEscrowContract::batch_payout_host(&mut env, &recipients, &amounts).unwrap();
    assert_eq!(program.remaining_balance, 875);
    assert_eq!(
        program.payout_history,
        vec![
            PayoutRecord {
                recipient: text_of(&first),
                amount: 100,
                timestamp: 1000
            },
            PayoutRecord {
                recipient: text_of(&second),
                amount: 25,
                timestamp: 1000
            }
        ]
    );
    assert!(matches!(
        &env.calls[4],
        HostCall::Transfer { token: t, from, to, amount: 25 }
            if *t == token && *from == contract && *to == text_of(&second)
    ));
}

#[test]
fn batch_of_host_lists_is_refused() {
    let host = Env::default();
    let first = Address::generate(&host);
    let key = text_of(&Address::generate(&host));
    let mut env = funded(key, key, key);
    let recipients = soroban_sdk::Vec::from_array(&host, [first]);
    let too_many = soroban_sdk::Vec::from_array(&host, [1i128, 2]);
    assert_eq!(
        ProgramEscrowContract::batch_payout_host(&mut env, &recipients, &too_many),
        Err(Rejection::LengthMismatch)
    );
    assert_eq!(ProgramEscrowContract::get_remaining_balance(&env), Ok(1000));
}

#[test]
fn malformed_batch_is_refused_for_the_first_reason() {
    let host = Env::default();
    let one: Val = 1i128.into_val(&host);
    let much: Val = 5000i128.into_val(&host);
    let none: Val = 0i128.into_val(&host);
    let flag: Val = true.into_val(&host);
    let party: Val = Address::generate(&host).into_val(&host);
    let key = text_of(&Address::generate(&host));
    let parties = as_recipients(&host, &mixed(&host, &[party, party]));
    let broken_parties = as_recipients(&host, &mixed(&host, &[party, flag]));
    let broken_amounts = as_amounts(&host, &mixed(&host, &[one, flag]));

    let mut fresh = ProgramEnv::new(key, 1000);
    assert_eq!(
        ProgramEscrowContract::batch_payout_host(&mut fresh, &parties, &broken_amounts),
        Err(Rejection::NotInitialized)
    );
    assert!(fresh.calls.is_empty());

    let mut env = funded(key, key, key);
    let mut refusal = |recipients, amounts| {
        let refused = ProgramEscrowContract::batch_payout_host(&mut env, recipients, amounts);
        assert_eq!(ProgramEscrowContract::get_remaining_balance(&env), Ok(1000));
        assert_eq!(env.calls.len(), 3);
        assert!(matches!(&env.calls[0], HostCall::RequireAuth(party) if *party == key));
        assert!(env.storage.stats.get(&key).is_none());
        env.calls.clear();
        refused.unwrap_err()
    };
    let longer = as_amounts(&host, &mixed(&host, &[one, flag, one]));
    assert_eq!(refusal(&parties, &longer), Rejection::LengthMismatch);
    let zero_first = as_amounts(&host, &mixed(&host, &[none, flag]));
    assert_eq!(refusal(&parties, &zero_first), Rejection::BatchAmountNotPositive);
    let zero_last = as_amounts(&host, &mixed(&host, &[flag, none]));
    assert_eq!(refusal(&parties, &zero_last), Rejection::MalformedArgument);
    let too_much = as_amounts(&host, &mixed(&host, &[one, much]));
    assert_eq!(
        refusal(&broken_parties, &too_much),
        Rejection::InsufficientBalance { requested: 5001, available: 1000 }
    );
    assert_eq!(refusal(&parties, &broken_amounts), Rejection::MalformedArgument);
    let small = as_amounts(&host, &mixed(&host, &[one, one]));
    assert_eq!(refusal(&broken_parties, &small), Rejection::MalformedArgument);
}
