//! What each call of the program escrow does, read off its arguments and the ledger entries alone.
use vstd::prelude::*;

use crate::account::Account;
use crate::host::{lemma_net_inflow_concat, lemma_no_transfer, net_inflow, HostCall};
use crate::program_escrow::{
    amounts_sum, answer_view, batch_total, batch_transfers, call_view, entry_view,
    event_view, lemma_batch_total, lemma_batch_total_prefix, PayoutRecord, ProgramAsk, ProgramCall,
    ProgramData, ProgramEntry, ProgramEnv, ProgramEvent, ProgramInfo, ProgramKey, ProgramState,
    ProgramView,
};
use crate::program_laws::ProgramOp;
use crate::rate_limit::{
    counts_one_more, has_room, law_decision_needs_representable_times,
    law_operation_passes_just_where_rested_with_room, rested, times_representable, Denial,
    RateLimitConfig, UserStats,
};
use crate::rejection::Rejection;

verus! {

/// The user is exempt from the limits.
pub open spec fn exempt(view: ProgramView, user: Account) -> bool {
    view.state.whitelist.contains_key(user)
}

/// The limits that were set, or, where none were, twenty operations an hour, half a minute apart.
pub open spec fn limits_in_force(state: ProgramState) -> RateLimitConfig {
    match state.rate_limit_config {
        Some(config) => config,
        None => RateLimitConfig {
            window_seconds: 3600,
            max_ops_per_window: 20,
            cooldown_seconds: 30,
        },
    }
}

/// What the limits have against an operation of the user, if anything. Against an exempt user they
/// have nothing.
pub open spec fn objection(view: ProgramView, user: Account) -> Option<Rejection> {
    let config = limits_in_force(view.state);
    let stored = view.state.stats.get(user);
    if exempt(view, user) {
        None
    } else if !times_representable(config, stored, view.timestamp) {
        Some(Rejection::ArithmeticOverflow)
    } else if !rested(config, stored, view.timestamp) {
        Some(Rejection::CooldownActive)
    } else if !has_room(config, stored, view.timestamp) {
        Some(Rejection::RateLimitExceeded)
    } else {
        None
    }
}

/// The statistics `after` count one more operation of the user, and are otherwise those of the
/// ledger. Of an exempt user nothing is counted.
pub open spec fn counted(view: ProgramView, user: Account, after: Map<Account, UserStats>) -> bool {
    if exempt(view, user) {
        after == view.state.stats
    } else {
        &&& after == view.state.stats.insert(user, after[user])
        &&& counts_one_more(
            limits_in_force(view.state),
            view.state.stats.get(user),
            view.timestamp,
            after[user],
        )
    }
}

/// What the limits ask of the host: nothing for an exempt user, or where they cannot be worked out;
/// for one who is let through, to keep the statistics that count the operation, for a day; for any
/// other, to publish the reason.
pub open spec fn limits_ask(view: ProgramView, user: Account, asked: Seq<ProgramAsk>) -> bool {
    match objection(view, user) {
        None => if exempt(view, user) {
            asked.len() == 0
        } else {
            &&& asked.len() == 2
            &&& asked[0] matches HostCall::Write(ProgramEntry::UserStats(named, kept))
            &&& named == user
            &&& counts_one_more(
                limits_in_force(view.state),
                view.state.stats.get(user),
                view.timestamp,
                kept,
            )
            &&& asked[1] == (ProgramAsk::ExtendTtl {
                key: ProgramKey::UserStats(user),
                threshold: 17280,
                extend_to: 17280,
            })
        },
        Some(Rejection::CooldownActive) => asked.len() == 1 && asked[0] == ProgramAsk::Publish(
            ProgramEvent::RateLimitViolation {
                user,
                reason: Denial::Cooldown,
                timestamp: view.timestamp,
            },
        ),
        Some(Rejection::RateLimitExceeded) => asked.len() == 1 && asked[0] == ProgramAsk::Publish(
            ProgramEvent::RateLimitViolation {
                user,
                reason: Denial::MaxOps,
                timestamp: view.timestamp,
            },
        ),
        Some(_) => asked.len() == 0,
    }
}

/// What stands in the way of every payment, whatever its amounts, if anything does.
pub open spec fn payer_objection(view: ProgramView) -> Option<Rejection> {
    match view.state.program {
        None => Some(Rejection::NotInitialized),
        Some(program) => objection(view, program.authorized_payout_key),
    }
}

/// What every payment asks of the host to begin with: the consent of the holder of the payout key,
/// and what the limits need.
pub open spec fn payer_asks(view: ProgramView, asked: Seq<ProgramAsk>) -> bool {
    match view.state.program {
        None => asked.len() == 0,
        Some(program) => {
            &&& 1 <= asked.len()
            &&& asked[0] == ProgramAsk::RequireAuth(program.authorized_payout_key)
            &&& limits_ask(
                view,
                program.authorized_payout_key,
                asked.subrange(1, asked.len() as int),
            )
        },
    }
}

/// Nothing has changed but the ledger entries given, and requests were added at the end.
pub open spec fn only_adds(
    before: ProgramView,
    after: ProgramView,
    asked: Seq<ProgramAsk>,
) -> bool {
    &&& after.contract == before.contract
    &&& after.timestamp == before.timestamp
    &&& after.calls == before.calls + asked
}

/// Some amounts added up.
pub open spec fn total(amounts: Seq<i128>) -> int {
    amounts.fold_left(0int, |sum: int, amount: i128| sum + amount)
}

/// All of the amounts are more than nothing.
pub open spec fn all_positive(amounts: Seq<i128>) -> bool {
    forall|i: int| 0 <= i < amounts.len() ==> 0 < #[trigger] amounts[i]
}

proof fn lemma_total(amounts: Seq<i128>)
    ensures
        total(amounts) == amounts_sum(amounts),
    decreases amounts.len(),
{
    if amounts.len() != 0 {
        lemma_total(amounts.drop_last());
    }
}

/// The mathematical picture of a ledger shows every part of it as it is. A ledger is in order where
/// its tables are, and one on which the contract was not used holds nothing.
pub proof fn law_ledger_is_seen_as_it_is(env: &ProgramEnv, i: int)
    ensures
        env@.contract == env.contract,
        env@.timestamp == env.timestamp,
        env@.calls.len() == env.calls@.len(),
        0 <= i < env.calls@.len() ==> env@.calls[i] == call_view(env.calls@[i]),
        env@.state.program is Some <==> env.storage.program is Some,
        env.storage.program matches Some(program) ==> env@.state.program == Some(program@),
        env@.state.rate_limit_config == env.storage.rate_limit_config,
        env@.state.whitelist == env.storage.whitelist@,
        env@.state.stats == env.storage.stats@,
        env.wf() <==> env.storage.whitelist.wf() && env.storage.stats.wf(),
        ProgramState::empty().program is None,
        ProgramState::empty().rate_limit_config is None,
        ProgramState::empty().whitelist == Map::<Account, bool>::empty(),
        ProgramState::empty().stats == Map::<Account, UserStats>::empty(),
{
}

/// The mathematical picture of a program shows every part of it as it is, and so do those of an
/// answer and of an entry.
pub proof fn law_program_is_seen_as_it_is(program: ProgramData, entry: ProgramEntry<ProgramData>)
    ensures
        program@.program_id == program.program_id@,
        program@.total_funds == program.total_funds,
        program@.remaining_balance == program.remaining_balance,
        program@.authorized_payout_key == program.authorized_payout_key,
        program@.payout_history == program.payout_history@,
        program@.token_address == program.token_address,
        answer_view(Ok(program)) == Ok::<ProgramInfo, Rejection>(program@),
        forall|rejection: Rejection| #[trigger]
            answer_view(Err(rejection)) == Err::<ProgramInfo, Rejection>(rejection),
        entry matches ProgramEntry::ProgramData(written) ==> entry_view(entry)
            == ProgramEntry::ProgramData(written@),
        entry matches ProgramEntry::RateLimitConfig(config) ==> entry_view(entry)
            == ProgramEntry::<ProgramInfo>::RateLimitConfig(config),
        entry matches ProgramEntry::UserStats(user, stats) ==> entry_view(entry)
            == ProgramEntry::<ProgramInfo>::UserStats(user, stats),
        entry matches ProgramEntry::Whitelist(address, listed) ==> entry_view(entry)
            == ProgramEntry::<ProgramInfo>::Whitelist(address, listed),
{
}

/// The mathematical picture of a request shows every part of it as it is.
pub proof fn law_request_is_seen_as_it_is(call: ProgramCall)
    ensures
        call matches HostCall::RequireAuth(party) ==> call_view(call) == ProgramAsk::RequireAuth(
            party,
        ),
        call matches HostCall::Write(entry) ==> call_view(call) == ProgramAsk::Write(
            entry_view(entry),
        ),
        call matches HostCall::Remove(key) ==> call_view(call) == ProgramAsk::Remove(key),
        call matches HostCall::ExtendTtl { key, threshold, extend_to } ==> call_view(call)
            == (ProgramAsk::ExtendTtl { key, threshold, extend_to }),
        call matches HostCall::Transfer { token, from, to, amount } ==> call_view(call) == (
        ProgramAsk::Transfer { token, from, to, amount }),
        call matches HostCall::Publish(event) ==> call_view(call) == ProgramAsk::Publish(
            event_view(event),
        ),
{
}

/// The mathematical picture of an event shows every part of it as it is.
pub proof fn law_event_is_seen_as_it_is(event: ProgramEvent<Vec<u8>>)
    ensures
        event matches ProgramEvent::ProgramInitialized {
            program_id,
            authorized_payout_key,
            token_address,
            total_funds,
        } ==> event_view(event) == (ProgramEvent::<Seq<u8>>::ProgramInitialized {
            program_id: program_id@,
            authorized_payout_key,
            token_address,
            total_funds,
        }),
        event matches ProgramEvent::FundsLocked { program_id, amount, remaining_balance }
            ==> event_view(event) == (ProgramEvent::<Seq<u8>>::FundsLocked {
            program_id: program_id@,
            amount,
            remaining_balance,
        }),
        event matches ProgramEvent::BatchPayout { program_id, recipients, total, remaining_balance }
            ==> event_view(event) == (ProgramEvent::<Seq<u8>>::BatchPayout {
            program_id: program_id@,
            recipients,
            total,
            remaining_balance,
        }),
        event matches ProgramEvent::Payout { program_id, recipient, amount, remaining_balance }
            ==> event_view(event) == (ProgramEvent::<Seq<u8>>::Payout {
            program_id: program_id@,
            recipient,
            amount,
            remaining_balance,
        }),
        event matches ProgramEvent::RateLimitViolation { user, reason, timestamp } ==> event_view(
            event,
        ) == (ProgramEvent::<Seq<u8>>::RateLimitViolation { user, reason, timestamp }),
{
}

/// A program can be set up just once. It starts without funds or payments, under the name, payout
/// key and token that were given, with limits of twenty operations an hour, half a minute apart;
/// and nothing else changes.
pub proof fn law_program_is_set_up_once(
    view: ProgramView,
    program_id: Seq<u8>,
    payout_key: Account,
    token: Account,
)
    ensures
        ({
            let answer = view.init_program_result(program_id, payout_key, token);
            let after = view.init_program(program_id, payout_key, token);
            let asked = view.asked_by(ProgramOp::InitProgram { program_id, payout_key, token });
            let limits = RateLimitConfig {
                window_seconds: 3600,
                max_ops_per_window: 20,
                cooldown_seconds: 30,
            };
            &&& only_adds(view, after, asked)
            &&& if view.state.program is None {
                &&& answer matches Ok(program)
                &&& program.program_id == program_id
                &&& program.total_funds == 0
                &&& program.remaining_balance == 0
                &&& program.authorized_payout_key == payout_key
                &&& program.payout_history.len() == 0
                &&& program.token_address == token
                &&& after.state.program == Some(program)
                &&& after.state.rate_limit_config == Some(limits)
                &&& after.state.whitelist == view.state.whitelist
                &&& after.state.stats == view.state.stats
                &&& asked.len() == 3
                &&& asked[0] == ProgramAsk::Write(ProgramEntry::ProgramData(program))
                &&& asked[1] == ProgramAsk::Write(ProgramEntry::RateLimitConfig(limits))
                &&& asked[2] == ProgramAsk::Publish(
                    ProgramEvent::ProgramInitialized {
                        program_id,
                        authorized_payout_key: payout_key,
                        token_address: token,
                        total_funds: 0,
                    },
                )
            } else {
                &&& answer == Err::<ProgramInfo, Rejection>(Rejection::AlreadyInitialized)
                &&& after.state == view.state
                &&& asked.len() == 0
            }
        }),
{
    let asked = view.asked_by(ProgramOp::InitProgram { program_id, payout_key, token });
    assert(view.init_program(program_id, payout_key, token).calls =~= view.calls + asked);
}

/// Once there is a program, the limits become what was asked for, with the consent of the holder of
/// the payout key, and nothing else changes; before that, setting them is refused.
pub proof fn law_limits_become_what_was_asked(view: ProgramView, config: RateLimitConfig)
    ensures
        view.payout_key_result() is Ok <==> view.state.program is Some,
        view.payout_key_result() matches Err(rejection) ==> rejection == Rejection::NotInitialized,
        ({
            let after = view.set_rate_limit_config(config);
            let asked = view.asked_by(ProgramOp::SetRateLimitConfig { config });
            &&& only_adds(view, after, asked)
            &&& match view.state.program {
                Some(program) => {
                    &&& after.state.rate_limit_config == Some(config)
                    &&& after.state.program == view.state.program
                    &&& after.state.whitelist == view.state.whitelist
                    &&& after.state.stats == view.state.stats
                    &&& asked.len() == 2
                    &&& asked[0] == ProgramAsk::RequireAuth(program.authorized_payout_key)
                    &&& asked[1] == ProgramAsk::Write(ProgramEntry::RateLimitConfig(config))
                },
                None => after.state == view.state && asked.len() == 0,
            }
        }),
{
    let asked = view.asked_by(ProgramOp::SetRateLimitConfig { config });
    assert(view.set_rate_limit_config(config).calls =~= view.calls + asked);
}

/// Once there is a program, a party is put on the whitelist or taken off it, with the consent of the
/// holder of the payout key, and nothing else changes; before that, it is refused.
pub proof fn law_whitelist_changes_for_one_party(
    view: ProgramView,
    address: Account,
    whitelisted: bool,
)
    ensures
        ({
            let after = view.set_whitelist_status(address, whitelisted);
            let asked = view.asked_by(ProgramOp::SetWhitelistStatus { address, whitelisted });
            &&& only_adds(view, after, asked)
            &&& match view.state.program {
                Some(program) => {
                    &&& after.state.whitelist == (if whitelisted {
                        view.state.whitelist.insert(address, true)
                    } else {
                        view.state.whitelist.remove(address)
                    })
                    &&& after.state.program == view.state.program
                    &&& after.state.rate_limit_config == view.state.rate_limit_config
                    &&& after.state.stats == view.state.stats
                    &&& asked.len() == 2
                    &&& asked[0] == ProgramAsk::RequireAuth(program.authorized_payout_key)
                    &&& asked[1] == (if whitelisted {
                        ProgramAsk::Write(ProgramEntry::Whitelist(address, true))
                    } else {
                        ProgramAsk::Remove(ProgramKey::Whitelist(address))
                    })
                },
                None => after.state == view.state && asked.len() == 0,
            }
        }),
{
    let asked = view.asked_by(ProgramOp::SetWhitelistStatus { address, whitelisted });
    assert(view.set_whitelist_status(address, whitelisted).calls =~= view.calls + asked);
}

/// A user is let through just where the limits have nothing against it, and the operation is then
/// counted; otherwise the objection is the answer, a violation is published, and nothing is counted.
pub proof fn law_limits_hold_up_just_the_hasty_and_the_many(view: ProgramView, user: Account)
    ensures
        view.check_rate_limit_result(user) == (match objection(view, user) {
            None => Ok(()),
            Some(rejection) => Err(rejection),
        }),
        ({
            let after = view.check_rate_limit(user);
            let asked = after.calls.subrange(view.calls.len() as int, after.calls.len() as int);
            &&& only_adds(view, after, asked)
            &&& limits_ask(view, user, asked)
            &&& after.state.program == view.state.program
            &&& after.state.rate_limit_config == view.state.rate_limit_config
            &&& after.state.whitelist == view.state.whitelist
            &&& if objection(view, user) is None {
                counted(view, user, after.state.stats)
            } else {
                after.state.stats == view.state.stats
            }
        }),
{
    let config = limits_in_force(view.state);
    let stored = view.state.stats.get(user);
    law_decision_needs_representable_times(config, stored, view.timestamp);
    law_operation_passes_just_where_rested_with_room(config, stored, view.timestamp);
    let after = view.check_rate_limit(user);
    let asked = after.calls.subrange(view.calls.len() as int, after.calls.len() as int);
    assert(view.stats_of(user) == stored);
    assert(view.limits() == config);
    assert(asked =~= view.rate_limit_calls(user));
    assert(after.calls =~= view.calls + asked);
    if objection(view, user) is None && !exempt(view, user) {
        assert(after.state.stats =~= view.state.stats.insert(user, after.state.stats[user]));
    }
}

/// Funds are added to a pool just where there is a program and the amount is positive, as long as
/// the sums can be represented; nothing else is looked at. The total and what is left both grow by
/// the amount, and nothing else changes; no tokens are moved and nobody is asked for consent.
pub proof fn law_funds_can_always_be_added(view: ProgramView, amount: i128)
    ensures
        ({
            let answer = view.lock_program_funds_result(amount);
            let after = view.lock_program_funds(amount);
            let asked = view.asked_by(ProgramOp::LockProgramFunds { amount });
            let fits = view.state.program matches Some(program) && program.total_funds + amount
                <= i128::MAX && program.remaining_balance + amount <= i128::MAX;
            &&& only_adds(view, after, asked)
            &&& answer is Ok <==> 0 < amount && fits
            &&& answer == Err::<ProgramInfo, Rejection>(Rejection::AmountNotPositive) <==> amount
                <= 0
            &&& answer == Err::<ProgramInfo, Rejection>(Rejection::NotInitialized) <==> 0 < amount
                && view.state.program is None
            &&& answer == Err::<ProgramInfo, Rejection>(Rejection::ArithmeticOverflow) <==> 0
                < amount && view.state.program is Some && !fits
            &&& match answer {
                Ok(program) => {
                    let before = view.state.program->0;
                    &&& program.total_funds == before.total_funds + amount
                    &&& program.remaining_balance == before.remaining_balance + amount
                    &&& program.program_id == before.program_id
                    &&& program.authorized_payout_key == before.authorized_payout_key
                    &&& program.payout_history == before.payout_history
                    &&& program.token_address == before.token_address
                    &&& after.state.program == Some(program)
                    &&& after.state.rate_limit_config == view.state.rate_limit_config
                    &&& after.state.whitelist == view.state.whitelist
                    &&& after.state.stats == view.state.stats
                    &&& asked.len() == 2
                    &&& asked[0] == ProgramAsk::Write(ProgramEntry::ProgramData(program))
                    &&& asked[1] == ProgramAsk::Publish(
                        ProgramEvent::FundsLocked {
                            program_id: before.program_id,
                            amount,
                            remaining_balance: program.remaining_balance,
                        },
                    )
                },
                Err(_) => after.state == view.state && asked.len() == 0,
            }
        }),
{
    let asked = view.asked_by(ProgramOp::LockProgramFunds { amount });
    assert(view.lock_program_funds(amount).calls =~= view.calls + asked);
}

/// Funding in parts comes to the same as funding at once.
pub proof fn law_funding_adds_up(view: ProgramView, first: i128, second: i128)
    requires
        0 < first,
        0 < second,
        first + second <= i128::MAX,
        view.state.program matches Some(program) && program.total_funds + first + second
            <= i128::MAX && program.remaining_balance + first + second <= i128::MAX,
    ensures
        view.lock_program_funds(first).lock_program_funds_result(second) is Ok,
        view.lock_program_funds(first).lock_program_funds(second).state == view.lock_program_funds(
            (first + second) as i128,
        ).state,
{
    law_funds_can_always_be_added(view, first);
    law_funds_can_always_be_added(view.lock_program_funds(first), second);
    law_funds_can_always_be_added(view, (first + second) as i128);
}

/// The program after some payments: what is left shrinks by what they come to, they stand at the end
/// of the record, one for each place of the two lists, at the time of the ledger, and nothing else
/// about the program changes.
pub open spec fn records_payments(
    before: ProgramInfo,
    after: ProgramInfo,
    recipients: Seq<Account>,
    amounts: Seq<i128>,
    timestamp: u64,
) -> bool {
    let n = before.payout_history.len();
    &&& after.remaining_balance == before.remaining_balance - total(amounts)
    &&& after.payout_history.len() == n + recipients.len()
    &&& forall|i: int|
        0 <= i < n ==> #[trigger] after.payout_history[i] == before.payout_history[i]
    &&& forall|i: int|
        0 <= i < recipients.len() ==> {
            &&& (#[trigger] after.payout_history[n + i]).recipient == recipients[i]
            &&& after.payout_history[n + i].amount == amounts[i]
            &&& after.payout_history[n + i].timestamp == timestamp
        }
    &&& after.program_id == before.program_id
    &&& after.total_funds == before.total_funds
    &&& after.authorized_payout_key == before.authorized_payout_key
    &&& after.token_address == before.token_address
}

/// The requests of payments that are made: first what every payment asks for, and from place `p` on
/// one transfer for each place of the two lists, out of the contract and in the token of the
/// program, to the recipient there and of the amount there; after that the program is written.
pub open spec fn asks_for_payments(
    view: ProgramView,
    asked: Seq<ProgramAsk>,
    p: int,
    recipients: Seq<Account>,
    amounts: Seq<i128>,
    after: ProgramInfo,
) -> bool {
    let n = recipients.len() as int;
    &&& 1 <= p
    &&& asked.len() == p + n + 2
    &&& payer_asks(view, asked.subrange(0, p))
    &&& forall|i: int|
        0 <= i < n ==> #[trigger] asked[p + i] == (ProgramAsk::Transfer {
            token: view.state.program->0.token_address,
            from: view.contract,
            to: recipients[i],
            amount: amounts[i],
        })
    &&& asked[p + n] == ProgramAsk::Write(ProgramEntry::ProgramData(after))
}

/// What stands in the way of a batch before its amounts are looked at: what stands in the way of
/// every payment, lists of different length, or nobody to pay.
pub open spec fn batch_objection(view: ProgramView, recipients: nat, amounts: nat) -> Option<
    Rejection,
> {
    if payer_objection(view) is Some {
        payer_objection(view)
    } else if recipients != amounts {
        Some(Rejection::LengthMismatch)
    } else if recipients == 0 {
        Some(Rejection::EmptyBatch)
    } else {
        None
    }
}

/// The amounts before place `k` are fine, and the one at `k` is the first that is not: it is not
/// positive, or with it the sum cannot be represented any more.
pub open spec fn first_bad_amount(amounts: Seq<i128>, k: int) -> bool {
    &&& 0 <= k < amounts.len()
    &&& all_positive(amounts.take(k))
    &&& total(amounts.take(k)) <= i128::MAX
    &&& amounts[k] <= 0 || i128::MAX < total(amounts.take(k)) + amounts[k]
}

/// Amounts come to a total just where all are positive and their sum can be represented, and the
/// total is that sum. Otherwise the first bad amount is what counts: one that is not positive is
/// named as such, and one with which the sum grows too large as an overflow.
pub proof fn law_amounts_add_up(amounts: Seq<i128>, k: int)
    ensures
        batch_total(amounts) is Ok <==> all_positive(amounts) && total(amounts) <= i128::MAX,
        batch_total(amounts) matches Ok(sum) ==> sum == total(amounts),
        first_bad_amount(amounts, k) ==> batch_total(amounts) == Err::<int, Rejection>(
            if amounts[k] <= 0 {
                Rejection::BatchAmountNotPositive
            } else {
                Rejection::PayoutOverflow
            },
        ),
{
    lemma_total(amounts);
    lemma_batch_total(amounts);
    if first_bad_amount(amounts, k) {
        let before = amounts.take(k);
        let upto = amounts.take(k + 1);
        lemma_total(before);
        lemma_batch_total(before);
        assert(upto.drop_last() =~= before);
        assert(upto.last() == amounts[k]);
        lemma_batch_total_prefix(amounts, k + 1);
    }
}

/// A batch is paid just where nothing stands in its way: the limits let the holder of the payout key
/// through, the lists are of one length and not empty, every amount is positive and the pool covers
/// their sum. Otherwise the first of these that fails is the answer.
pub proof fn law_batch_is_paid_just_where_it_should_be(
    view: ProgramView,
    recipients: Seq<Account>,
    amounts: Seq<i128>,
    k: int,
)
    ensures
        ({
            let answer = view.batch_payout_result(recipients, amounts);
            let objection = batch_objection(view, recipients.len(), amounts.len());
            let available = view.state.program->0.remaining_balance;
            &&& objection matches Some(rejection) ==> answer == Err::<ProgramInfo, Rejection>(
                rejection,
            )
            &&& objection is None && first_bad_amount(amounts, k) ==> answer == Err::<
                ProgramInfo,
                Rejection,
            >(
                if amounts[k] <= 0 {
                    Rejection::BatchAmountNotPositive
                } else {
                    Rejection::PayoutOverflow
                },
            )
            &&& objection is None && all_positive(amounts) && available < total(amounts)
                <= i128::MAX ==> answer == Err::<ProgramInfo, Rejection>(
                Rejection::InsufficientBalance { requested: total(amounts) as i128, available },
            )
            &&& answer is Ok <==> objection is None && all_positive(amounts) && total(amounts)
                <= available
        }),
{
    law_amounts_add_up(amounts, k);
    if view.state.program is Some {
        law_limits_hold_up_just_the_hasty_and_the_many(
            view,
            view.state.program->0.authorized_payout_key,
        );
    }
}

proof fn lemma_payer(view: ProgramView)
    ensures
        payer_asks(view, view.payer_calls()),
        view.payer_result() is Ok <==> payer_objection(view) is None,
        payer_objection(view) matches Some(rejection) ==> view.payer_result() == Err::<
            ProgramInfo,
            Rejection,
        >(rejection),
        view.payer_result() is Ok ==> counted(
            view,
            view.state.program->0.authorized_payout_key,
            view.stats_kept(view.state.program->0.authorized_payout_key),
        ),
{
    if view.state.program is Some {
        let payout_key = view.state.program->0.authorized_payout_key;
        law_limits_hold_up_just_the_hasty_and_the_many(view, payout_key);
        let after = view.check_rate_limit(payout_key);
        let limits = after.calls.subrange(view.calls.len() as int, after.calls.len() as int);
        let first = view.payer_calls();
        assert(limits =~= view.rate_limit_calls(payout_key));
        assert(first.subrange(1, first.len() as int) =~= limits);
    }
}

/// A batch that is paid pays every recipient the amount at the same place, by one transfer each, out
/// of the contract and in the token of the program, after the holder of the payout key was asked for
/// consent; it records just these payments; and nothing else changes but that one operation is
/// counted.
#[verifier::spinoff_prover]
pub proof fn law_batch_pays_and_records_each_recipient(
    view: ProgramView,
    recipients: Seq<Account>,
    amounts: Seq<i128>,
)
    requires
        batch_objection(view, recipients.len(), amounts.len()) is None,
        all_positive(amounts),
        total(amounts) <= view.state.program->0.remaining_balance,
    ensures
        ({
            let after = view.batch_payout(recipients, amounts);
            let asked = view.asked_by(ProgramOp::BatchPayout { recipients, amounts });
            let before = view.state.program->0;
            let p = asked.len() - recipients.len() - 2;
            &&& view.batch_payout_result(recipients, amounts) matches Ok(program)
            &&& records_payments(before, program, recipients, amounts, view.timestamp)
            &&& after.state.program == Some(program)
            &&& counted(view, before.authorized_payout_key, after.state.stats)
            &&& after.state.rate_limit_config == view.state.rate_limit_config
            &&& after.state.whitelist == view.state.whitelist
            &&& only_adds(view, after, asked)
            &&& asks_for_payments(view, asked, p, recipients, amounts, program)
            &&& asked.last() == ProgramAsk::Publish(
                ProgramEvent::BatchPayout {
                    program_id: before.program_id,
                    recipients: recipients.len() as u32,
                    total: total(amounts) as i128,
                    remaining_balance: program.remaining_balance,
                },
            )
        }),
{
    law_batch_is_paid_just_where_it_should_be(view, recipients, amounts, 0);
    law_amounts_add_up(amounts, 0);
    lemma_batch_total(amounts);
    lemma_total(amounts);
    lemma_payer(view);
    let before = view.state.program->0;
    let after = view.batch_payout(recipients, amounts);
    let asked = view.asked_by(ProgramOp::BatchPayout { recipients, amounts });
    let first = view.payer_calls();
    let transfers = batch_transfers(before.token_address, view.contract, recipients, amounts);
    let p = asked.len() - recipients.len() - 2;
    assert(after.calls =~= view.calls + asked);
    assert(p == first.len());
    assert(asked.subrange(0, p) =~= first);
    assert forall|i: int| 0 <= i < recipients.len() implies #[trigger] asked[p + i] == (
    ProgramAsk::Transfer {
        token: before.token_address,
        from: view.contract,
        to: recipients[i],
        amount: amounts[i],
    }) by {
        assert(asked[p + i] == transfers[i]);
    }
}

/// A batch that is refused leaves every ledger entry as it was, and asks for no more than every
/// payment asks for to begin with.
pub proof fn law_refused_batch_leaves_all_as_it_was(
    view: ProgramView,
    recipients: Seq<Account>,
    amounts: Seq<i128>,
)
    requires
        view.batch_payout_result(recipients, amounts) is Err,
    ensures
        ({
            let after = view.batch_payout(recipients, amounts);
            let asked = view.asked_by(ProgramOp::BatchPayout { recipients, amounts });
            &&& after.state == view.state
            &&& only_adds(view, after, asked)
            &&& payer_asks(view, asked)
        }),
{
    lemma_payer(view);
    let asked = view.asked_by(ProgramOp::BatchPayout { recipients, amounts });
    assert(asked =~= view.payer_calls());
    assert(view.batch_payout(recipients, amounts).calls =~= view.calls + asked);
}

/// Why a batch with an unreadable item is stopped, and what it asks for: the reasons are those of
/// any batch, as far as the amounts can be read, and only where none of them holds it is the
/// unreadable item.
pub proof fn law_unreadable_batch_is_stopped_for_the_first_reason(
    view: ProgramView,
    recipients: nat,
    amounts: nat,
    leading: Seq<i128>,
    k: int,
)
    ensures
        ({
            let rejection = view.stopped_batch_rejection(recipients, amounts, leading);
            let objection = batch_objection(view, recipients, amounts);
            let available = view.state.program->0.remaining_balance;
            let overdrawn = leading.len() == amounts && available < total(leading);
            &&& objection is Some ==> rejection == objection->0
            &&& objection is None && first_bad_amount(leading, k) ==> rejection == (if leading[k]
                <= 0 {
                Rejection::BatchAmountNotPositive
            } else {
                Rejection::PayoutOverflow
            })
            &&& objection is None && all_positive(leading) && total(leading) <= i128::MAX
                ==> rejection == (if overdrawn {
                Rejection::InsufficientBalance { requested: total(leading) as i128, available }
            } else {
                Rejection::MalformedArgument
            })
        }),
        payer_asks(view, view.payer_calls()),
        view.refused(view.payer_calls()).state == view.state,
        only_adds(view, view.refused(view.payer_calls()), view.payer_calls()),
{
    lemma_payer(view);
    law_amounts_add_up(leading, k);
}

/// A single payment is made just where nothing stands in its way: the limits let the holder of the
/// payout key through, the amount is positive and the pool covers it. Otherwise the first of these
/// that fails is the answer, every ledger entry stays as it was, and no more is asked for than every
/// payment asks for to begin with.
pub proof fn law_payment_is_made_just_where_it_should_be(
    view: ProgramView,
    recipient: Account,
    amount: i128,
)
    ensures
        ({
            let answer = view.single_payout_result(recipient, amount);
            let after = view.single_payout(recipient, amount);
            let asked = view.asked_by(ProgramOp::SinglePayout { recipient, amount });
            let available = view.state.program->0.remaining_balance;
            &&& payer_objection(view) matches Some(rejection) ==> answer == Err::<
                ProgramInfo,
                Rejection,
            >(rejection)
            &&& payer_objection(view) is None && amount <= 0 ==> answer == Err::<
                ProgramInfo,
                Rejection,
            >(Rejection::AmountNotPositive)
            &&& payer_objection(view) is None && 0 < amount && available < amount ==> answer
                == Err::<ProgramInfo, Rejection>(
                Rejection::InsufficientBalance { requested: amount, available },
            )
            &&& answer is Ok <==> payer_objection(view) is None && 0 < amount <= available
            &&& answer is Err ==> after.state == view.state && only_adds(view, after, asked)
                && payer_asks(view, asked)
        }),
{
    lemma_payer(view);
    let asked = view.asked_by(ProgramOp::SinglePayout { recipient, amount });
    if view.single_payout_result(recipient, amount) is Err {
        assert(asked =~= view.payer_calls());
        assert(view.single_payout(recipient, amount).calls =~= view.calls + asked);
    }
}

/// A single payment that is made pays the recipient the amount, by one transfer, out of the contract
/// and in the token of the program, after the holder of the payout key was asked for consent; it
/// records just this payment; and nothing else changes but that one operation is counted.
pub proof fn law_payment_pays_and_records_the_recipient(
    view: ProgramView,
    recipient: Account,
    amount: i128,
)
    requires
        payer_objection(view) is None,
        0 < amount <= view.state.program->0.remaining_balance,
    ensures
        ({
            let after = view.single_payout(recipient, amount);
            let asked = view.asked_by(ProgramOp::SinglePayout { recipient, amount });
            let before = view.state.program->0;
            let p = asked.len() - 3;
            &&& view.single_payout_result(recipient, amount) matches Ok(program)
            &&& records_payments(
                before,
                program,
                seq![recipient],
                seq![amount],
                view.timestamp,
            )
            &&& after.state.program == Some(program)
            &&& counted(view, before.authorized_payout_key, after.state.stats)
            &&& after.state.rate_limit_config == view.state.rate_limit_config
            &&& after.state.whitelist == view.state.whitelist
            &&& only_adds(view, after, asked)
            &&& asks_for_payments(view, asked, p, seq![recipient], seq![amount], program)
            &&& asked.last() == ProgramAsk::Publish(
                ProgramEvent::Payout {
                    program_id: before.program_id,
                    recipient,
                    amount,
                    remaining_balance: program.remaining_balance,
                },
            )
        }),
{
    law_payment_is_made_just_where_it_should_be(view, recipient, amount);
    lemma_payer(view);
    lemma_total(seq![amount]);
    assert(amounts_sum(seq![amount]) == amount) by {
        reveal_with_fuel(amounts_sum, 2);
    }
    let after = view.single_payout(recipient, amount);
    let asked = view.asked_by(ProgramOp::SinglePayout { recipient, amount });
    let p = asked.len() - 3;
    assert(after.calls =~= view.calls + asked);
    assert(asked.subrange(0, p) =~= view.payer_calls());
}

/// What can be asked about a program is answered just where there is one, with what is recorded.
pub proof fn law_program_is_told_as_recorded(view: ProgramView)
    ensures
        view.get_program_info_result() is Ok <==> view.state.program is Some,
        view.get_program_info_result() matches Ok(program) ==> view.state.program == Some(program),
        view.get_program_info_result() matches Err(rejection) ==> rejection
            == Rejection::NotInitialized,
{
}

/// What the record says was paid to a party.
pub open spec fn recorded_for(records: Seq<PayoutRecord>, party: Account) -> int
    decreases records.len(),
{
    if records.len() == 0 {
        0
    } else {
        recorded_for(records.drop_last(), party) + if records.last().recipient == party {
            records.last().amount as int
        } else {
            0
        }
    }
}

proof fn lemma_recorded_for_concat(
    first: Seq<PayoutRecord>,
    second: Seq<PayoutRecord>,
    party: Account,
)
    ensures
        recorded_for(first + second, party) == recorded_for(first, party) + recorded_for(
            second,
            party,
        ),
    decreases second.len(),
{
    if second.len() == 0 {
        assert(first + second =~= first);
    } else {
        assert((first + second).drop_last() =~= first + second.drop_last());
        lemma_recorded_for_concat(first, second.drop_last(), party);
    }
}

/// What transfers one after the other give to a party who is not the payer.
proof fn lemma_transfers_give_what_is_recorded(
    transfers: Seq<ProgramAsk>,
    records: Seq<PayoutRecord>,
    token: Account,
    from: Account,
    counted_token: Account,
    party: Account,
)
    requires
        party != from,
        transfers.len() == records.len(),
        forall|i: int|
            0 <= i < transfers.len() ==> #[trigger] transfers[i] == (ProgramAsk::Transfer {
                token,
                from,
                to: records[i].recipient,
                amount: records[i].amount,
            }),
    ensures
        net_inflow(transfers, counted_token, party) == (if counted_token == token {
            recorded_for(records, party)
        } else {
            0
        }),
    decreases transfers.len(),
{
    if transfers.len() != 0 {
        let earlier = transfers.drop_last();
        assert forall|i: int| 0 <= i < earlier.len() implies #[trigger] earlier[i] == (
        ProgramAsk::Transfer {
            token,
            from,
            to: records.drop_last()[i].recipient,
            amount: records.drop_last()[i].amount,
        }) by {
            assert(earlier[i] == transfers[i]);
        }
        lemma_transfers_give_what_is_recorded(
            earlier,
            records.drop_last(),
            token,
            from,
            counted_token,
            party,
        );
        assert(transfers[transfers.len() - 1] == transfers.last());
    }
}

/// The payments that the operation adds to the record.
pub open spec fn newly_recorded(view: ProgramView, op: ProgramOp) -> Seq<PayoutRecord> {
    match (view.state.program, view.step(op).state.program) {
        (Some(before), Some(after)) => after.payout_history.subrange(
            before.payout_history.len() as int,
            after.payout_history.len() as int,
        ),
        _ => seq![],
    }
}

/// The requests of payments that are made give each party other than the contract what is recorded
/// for it.
proof fn lemma_payments_give_what_is_recorded(
    view: ProgramView,
    asked: Seq<ProgramAsk>,
    p: int,
    recipients: Seq<Account>,
    amounts: Seq<i128>,
    after: ProgramInfo,
    token: Account,
    party: Account,
)
    requires
        party != view.contract,
        view.state.program is Some,
        asks_for_payments(view, asked, p, recipients, amounts, after),
        asked.last() is Publish,
        records_payments(
            view.state.program->0,
            after,
            recipients,
            amounts,
            view.timestamp,
        ),
    ensures
        net_inflow(asked, token, party) == (if view.state.program->0.token_address == token {
            recorded_for(
                after.payout_history.subrange(
                    view.state.program->0.payout_history.len() as int,
                    after.payout_history.len() as int,
                ),
                party,
            )
        } else {
            0
        }),
{
    let before = view.state.program->0;
    let n = recipients.len() as int;
    let m = before.payout_history.len() as int;
    let records = after.payout_history.subrange(m, after.payout_history.len() as int);
    let first = asked.subrange(0, p);
    let transfers = asked.subrange(p, p + n);
    let rest = asked.subrange(p + n, asked.len() as int);
    assert(asked =~= first + transfers + rest);
    lemma_net_inflow_concat(first + transfers, rest, token, party);
    lemma_net_inflow_concat(first, transfers, token, party);
    lemma_payer_asks_for_no_transfer(view, first);
    lemma_no_transfer(first, token, party);
    assert(rest[1] == asked.last());
    lemma_no_transfer(rest, token, party);
    assert forall|i: int| 0 <= i < transfers.len() implies #[trigger] transfers[i] == (
    ProgramAsk::Transfer {
        token: before.token_address,
        from: view.contract,
        to: records[i].recipient,
        amount: records[i].amount,
    }) by {
        assert(transfers[i] == asked[p + i]);
        assert(records[i] == after.payout_history[m + i]);
    }
    lemma_transfers_give_what_is_recorded(
        transfers,
        records,
        before.token_address,
        view.contract,
        token,
        party,
    );
}

proof fn lemma_limits_ask_for_no_transfer(
    view: ProgramView,
    user: Account,
    asked: Seq<ProgramAsk>,
    i: int,
)
    requires
        limits_ask(view, user, asked),
        0 <= i < asked.len(),
    ensures
        !(asked[i] is Transfer),
{
    assert(i == 0 || i == 1);
}

proof fn lemma_payer_asks_for_no_transfer(view: ProgramView, asked: Seq<ProgramAsk>)
    requires
        payer_asks(view, asked),
    ensures
        forall|i: int| 0 <= i < asked.len() ==> !(#[trigger] asked[i] is Transfer),
{
    assert forall|i: int| 0 <= i < asked.len() implies !(#[trigger] asked[i] is Transfer) by {
        if 0 < i {
            let payout_key = view.state.program->0.authorized_payout_key;
            let limits = asked.subrange(1, asked.len() as int);
            assert(asked[i] == limits[i - 1]);
            lemma_limits_ask_for_no_transfer(view, payout_key, limits, i - 1);
        }
    }
}

/// With every call each party other than the contract receives, in the token of the program, just
/// what the payments newly recorded for it come to, and nothing in any other token.
#[verifier::spinoff_prover]
pub proof fn law_each_recipient_gets_what_is_recorded(
    view: ProgramView,
    op: ProgramOp,
    token: Account,
    party: Account,
)
    requires
        party != view.contract,
    ensures
        net_inflow(view.asked_by(op), token, party) == (if view.state.program matches Some(program)
            && program.token_address == token {
            recorded_for(newly_recorded(view, op), party)
        } else {
            0
        }),
{
    let asked = view.asked_by(op);
    if view.refuses(op) || !(op is BatchPayout || op is SinglePayout) {
        lemma_no_transfer(asked, token, party);
        assert(newly_recorded(view, op) =~= seq![]);
    } else {
        let after = view.step(op).state.program->0;
        match op {
            ProgramOp::BatchPayout { recipients, amounts } => {
                law_batch_is_paid_just_where_it_should_be(view, recipients, amounts, 0);
                law_batch_pays_and_records_each_recipient(view, recipients, amounts);
                let p = asked.len() - recipients.len() - 2;
                lemma_payments_give_what_is_recorded(
                    view,
                    asked,
                    p,
                    recipients,
                    amounts,
                    after,
                    token,
                    party,
                );
            },
            ProgramOp::SinglePayout { recipient, amount } => {
                law_payment_is_made_just_where_it_should_be(view, recipient, amount);
                law_payment_pays_and_records_the_recipient(view, recipient, amount);
                lemma_payments_give_what_is_recorded(
                    view,
                    asked,
                    asked.len() - 3,
                    seq![recipient],
                    seq![amount],
                    after,
                    token,
                    party,
                );
            },
            _ => {},
        }
    }
}

/// Every operation adds its requests and its payments at the end, and keeps the contract and, once
/// there is a program, its token.
#[verifier::spinoff_prover]
proof fn lemma_step_adds(view: ProgramView, op: ProgramOp)
    ensures
        view.step(op).contract == view.contract,
        view.step(op).calls == view.calls + view.asked_by(op),
        match (view.state.program, view.step(op).state.program) {
            (Some(before), Some(after)) => {
                &&& after.token_address == before.token_address
                &&& after.payout_history == before.payout_history + newly_recorded(view, op)
            },
            (Some(_), None) => false,
            (None, Some(after)) => after.payout_history.len() == 0,
            (None, None) => true,
        },
{
    assert(view.step(op).calls =~= view.calls + view.asked_by(op));
    if view.state.program is Some {
        let old_history = view.state.program->0.payout_history;
        let new_history = view.step(op).state.program->0.payout_history;
        assert(old_history.is_prefix_of(new_history));
        assert(new_history =~= old_history + newly_recorded(view, op));
    }
}

/// In the token of the program, what the record says was paid to a party; nothing in any other.
pub open spec fn due_to(view: ProgramView, token: Account, party: Account) -> int {
    match view.state.program {
        Some(program) if program.token_address == token => recorded_for(
            program.payout_history,
            party,
        ),
        _ => 0,
    }
}

#[verifier::spinoff_prover]
proof fn lemma_step_gives_what_is_due(
    view: ProgramView,
    op: ProgramOp,
    token: Account,
    party: Account,
)
    requires
        party != view.contract,
        net_inflow(view.calls, token, party) == due_to(view, token, party),
    ensures
        net_inflow(view.step(op).calls, token, party) == due_to(view.step(op), token, party),
{
    lemma_step_adds(view, op);
    law_each_recipient_gets_what_is_recorded(view, op, token, party);
    lemma_net_inflow_concat(view.calls, view.asked_by(op), token, party);
    if view.state.program is Some {
        lemma_recorded_for_concat(
            view.state.program->0.payout_history,
            newly_recorded(view, op),
            party,
        );
    }
}

/// From the first call on, whatever is called in whatever order, each party other than the contract
/// has received, in the token of the program, just what the record says was paid to it, and nothing
/// in any other token.
#[verifier::spinoff_prover]
pub proof fn law_each_recipient_has_got_what_is_recorded(
    start: ProgramView,
    ops: Seq<ProgramOp>,
    token: Account,
    party: Account,
)
    requires
        start.state.program is None,
        start.calls.len() == 0,
        party != start.contract,
    ensures
        start.run(ops).contract == start.contract,
        net_inflow(start.run(ops).calls, token, party) == due_to(start.run(ops), token, party),
    decreases ops.len(),
{
    if ops.len() != 0 {
        let before = start.run(ops.drop_last());
        law_each_recipient_has_got_what_is_recorded(start, ops.drop_last(), token, party);
        lemma_step_adds(before, ops.last());
        lemma_step_gives_what_is_due(before, ops.last(), token, party);
    }
}

/// Statistics are kept for a time, and all else with the contract.
pub proof fn law_durabilities(key: ProgramKey)
    ensures
        key.spec_durability() is Temporary <==> key is UserStats,
        key.spec_durability() is Instance <==> !(key is UserStats),
{
}

/// Each kind of entry is kept under a symbol of its own.
pub proof fn law_symbols(key: ProgramKey)
    ensures
        key is ProgramData ==> key.spec_symbol() == "ProgData"@,
        key is RateLimitConfig ==> key.spec_symbol() == "RL_CFG"@,
        key is UserStats ==> key.spec_symbol() == "U_STATS"@,
        key is Whitelist ==> key.spec_symbol() == "W_LIST"@,
{
}

/// An entry is written under the name that it is read by.
pub proof fn law_entries_have_their_names<P>(entry: ProgramEntry<P>)
    ensures
        entry is ProgramData <==> entry.spec_key() is ProgramData,
        entry is RateLimitConfig <==> entry.spec_key() is RateLimitConfig,
        entry is UserStats <==> entry.spec_key() is UserStats,
        entry is Whitelist <==> entry.spec_key() is Whitelist,
        entry matches ProgramEntry::UserStats(user, _) ==> entry.spec_key()
            == ProgramKey::UserStats(user),
        entry matches ProgramEntry::Whitelist(address, _) ==> entry.spec_key()
            == ProgramKey::Whitelist(address),
{
}

/// Each kind of event has a topic of its own.
pub proof fn law_topics<I>(event: ProgramEvent<I>)
    ensures
        event is ProgramInitialized ==> event.spec_topic() == "ProgInit"@,
        event is FundsLocked ==> event.spec_topic() == "FundLock"@,
        event is BatchPayout ==> event.spec_topic() == "BatPay"@,
        event is Payout ==> event.spec_topic() == "Payout"@,
        event is RateLimitViolation ==> event.spec_topic() == "RL_Vio"@,
{
}

} // verus!
