//! What each call of the bounty escrow does, read off its arguments and the ledger entries alone.
use vstd::prelude::*;

use crate::account::Account;
use crate::bounty_escrow::{
    BountyCall, BountyEntry, BountyEnv, BountyEvent, BountyState, BountyView, DataKey, Error, Escrow,
    EscrowStatus,
};
use crate::bounty_laws::{
    law_admin_and_token_are_set_once, law_deposits_develop_one_way_throughout, BountyOp,
};
use crate::host::{lemma_no_transfer, lemma_single_transfer, net_inflow, HostCall};
use crate::rate_limit::{
    counts_one_more, has_room, law_decision_needs_representable_times,
    law_operation_passes_just_where_rested_with_room, rested, times_representable, Denial,
    RateLimitConfig, UserStats,
};

verus! {

/// The user is exempt from the limits.
pub open spec fn exempt(view: BountyView, user: Account) -> bool {
    view.state.whitelist.contains_key(user)
}

/// There is something to decide by: the user is exempt, or limits are set.
pub open spec fn decidable(view: BountyView, user: Account) -> bool {
    exempt(view, user) || view.state.rate_limit_cfg is Some
}

/// The cooldown of the user, who is not exempt, is over.
pub open spec fn user_rested(view: BountyView, user: Account) -> bool {
    rested(view.state.rate_limit_cfg->0, view.state.stats.get(user), view.timestamp)
}

/// The window of the user, who is not exempt, has room, or a new one can be opened.
pub open spec fn user_has_room(view: BountyView, user: Account) -> bool {
    has_room(view.state.rate_limit_cfg->0, view.state.stats.get(user), view.timestamp)
}

/// The limits do not stand in the way of the user.
pub open spec fn lets_through(view: BountyView, user: Account) -> bool {
    exempt(view, user) || (user_rested(view, user) && user_has_room(view, user))
}

/// The statistics `after` count one more operation of the user, and are otherwise those of the
/// ledger. Of an exempt user nothing is counted.
pub open spec fn counted(view: BountyView, user: Account, after: Map<Account, UserStats>) -> bool {
    if exempt(view, user) {
        after == view.state.stats
    } else {
        &&& after == view.state.stats.insert(user, after[user])
        &&& counts_one_more(
            view.state.rate_limit_cfg->0,
            view.state.stats.get(user),
            view.timestamp,
            after[user],
        )
    }
}

/// What the limits ask of the host: nothing for an exempt user; for one who is let through, to keep
/// the statistics that count the operation, for a day; for any other, to publish the reason.
pub open spec fn limits_ask(view: BountyView, user: Account, asked: Seq<BountyCall>) -> bool {
    if exempt(view, user) {
        asked.len() == 0
    } else if user_rested(view, user) && user_has_room(view, user) {
        &&& asked.len() == 2
        &&& asked[0] matches HostCall::Write(BountyEntry::UserStats(named, kept))
        &&& named == user
        &&& counts_one_more(
            view.state.rate_limit_cfg->0,
            view.state.stats.get(user),
            view.timestamp,
            kept,
        )
        &&& asked[1] == (BountyCall::ExtendTtl {
            key: DataKey::UserStats(user),
            threshold: 17280,
            extend_to: 17280,
        })
    } else {
        &&& asked.len() == 1
        &&& asked[0] == BountyCall::Publish(
            BountyEvent::RateLimitViolation {
                user,
                reason: if user_rested(view, user) {
                    Denial::MaxOps
                } else {
                    Denial::Cooldown
                },
                timestamp: view.timestamp,
            },
        )
    }
}

/// Nothing has changed but the ledger entries given, and requests were added at the end.
pub open spec fn only_adds(before: BountyView, after: BountyView, asked: Seq<BountyCall>) -> bool {
    &&& after.contract == before.contract
    &&& after.timestamp == before.timestamp
    &&& after.calls == before.calls + asked
}

/// A ledger on which the contract was not used holds nothing, and is valid; and a valid ledger is
/// just one with all of admin, token and limits or none of them, and no deposits before they are
/// set.
pub proof fn law_valid_ledgers(state: BountyState)
    ensures
        BountyState::empty().valid(),
        BountyState::empty().admin is None,
        BountyState::empty().token is None,
        BountyState::empty().rate_limit_cfg is None,
        BountyState::empty().whitelist == Map::<Account, bool>::empty(),
        BountyState::empty().stats == Map::<Account, UserStats>::empty(),
        BountyState::empty().escrows == Map::<u64, Escrow>::empty(),
        state.escrows.dom().finite() ==> (state.valid() <==> {
            ||| state.admin is Some && state.token is Some && state.rate_limit_cfg is Some
            ||| state.admin is None && state.token is None && state.rate_limit_cfg is None
                && state.escrows.dom() == Set::<u64>::empty()
        }),
{
    if state.admin is None && state.valid() {
        assert(state.escrows.dom() =~= Set::<u64>::empty());
    }
    if state.escrows.dom() == Set::<u64>::empty() {
        assert forall|bounty_id: u64| !state.escrows.contains_key(bounty_id) by {
            assert(!state.escrows.dom().contains(bounty_id));
        }
    }
}

/// The mathematical picture of a ledger shows every part of it as it is. A ledger is in order where
/// its tables are and its entries are valid.
pub proof fn law_ledger_is_seen_as_it_is(env: &BountyEnv)
    ensures
        env@.contract == env.contract,
        env@.timestamp == env.timestamp,
        env@.calls == env.calls@,
        env@.state.admin == env.storage.admin,
        env@.state.token == env.storage.token,
        env@.state.rate_limit_cfg == env.storage.rate_limit_cfg,
        env@.state.whitelist == env.storage.whitelist@,
        env@.state.stats == env.storage.stats@,
        env@.state.escrows == env.storage.escrows@,
        env.wf() <==> env.storage.whitelist.wf() && env.storage.stats.wf()
            && env.storage.escrows.wf() && env@.state.valid(),
{
}

/// The rate limit of a user can be worked out just where the user is exempt or limits are set whose
/// times can be represented.
pub proof fn law_rate_limit_can_be_worked_out(view: BountyView, user: Account)
    ensures
        view.rate_limit_defined(user) <==> exempt(view, user) || (view.state.rate_limit_cfg
            is Some && times_representable(
            view.state.rate_limit_cfg->0,
            view.state.stats.get(user),
            view.timestamp,
        )),
{
    law_decision_needs_representable_times(
        view.state.rate_limit_cfg->0,
        view.state.stats.get(user),
        view.timestamp,
    );
}

/// A contract can be initialized just once. That sets the admin, the token and limits of ten
/// operations an hour, a minute apart, and nothing else.
pub proof fn law_init_sets_up_once(view: BountyView, admin: Account, token: Account)
    ensures
        view.init_result() is Ok <==> view.state.admin is None,
        view.init_result() matches Err(error) ==> error == Error::AlreadyInitialized,
        ({
            let after = view.init(admin, token);
            let asked = view.asked_by(BountyOp::Init { admin, token });
            let limits = RateLimitConfig {
                window_seconds: 3600,
                max_ops_per_window: 10,
                cooldown_seconds: 60,
            };
            &&& only_adds(view, after, asked)
            &&& if view.state.admin is None {
                &&& after.state.admin == Some(admin)
                &&& after.state.token == Some(token)
                &&& after.state.rate_limit_cfg == Some(limits)
                &&& after.state.whitelist == view.state.whitelist
                &&& after.state.stats == view.state.stats
                &&& after.state.escrows == view.state.escrows
                &&& asked.len() == 3
                &&& asked[0] == BountyCall::Write(BountyEntry::Admin(admin))
                &&& asked[1] == BountyCall::Write(BountyEntry::Token(token))
                &&& asked[2] == BountyCall::Write(BountyEntry::RateLimitCfg(limits))
            } else {
                after.state == view.state && asked.len() == 0
            }
        }),
{
    let asked = view.asked_by(BountyOp::Init { admin, token });
    assert(view.init(admin, token).calls =~= view.calls + asked);
}

/// On an initialized contract the limits become what was asked for, with the consent of the admin,
/// and nothing else changes; before that, setting them is refused.
pub proof fn law_limits_become_what_was_asked(view: BountyView, config: RateLimitConfig)
    ensures
        view.admin_result() is Ok <==> view.state.admin is Some,
        view.admin_result() matches Err(error) ==> error == Error::NotInitialized,
        ({
            let after = view.set_rate_limit_config(config);
            let asked = view.asked_by(BountyOp::SetRateLimitConfig { config });
            &&& only_adds(view, after, asked)
            &&& if view.state.admin is Some {
                &&& after.state.rate_limit_cfg == Some(config)
                &&& after.state.admin == view.state.admin
                &&& after.state.token == view.state.token
                &&& after.state.whitelist == view.state.whitelist
                &&& after.state.stats == view.state.stats
                &&& after.state.escrows == view.state.escrows
                &&& asked.len() == 2
                &&& asked[0] == BountyCall::RequireAuth(view.state.admin->0)
                &&& asked[1] == BountyCall::Write(BountyEntry::RateLimitCfg(config))
            } else {
                after.state == view.state && asked.len() == 0
            }
        }),
{
    let asked = view.asked_by(BountyOp::SetRateLimitConfig { config });
    assert(view.set_rate_limit_config(config).calls =~= view.calls + asked);
}

/// On an initialized contract a party is put on the whitelist or taken off it, with the consent of
/// the admin, and nothing else changes; before that, it is refused.
pub proof fn law_whitelist_changes_for_one_party(
    view: BountyView,
    address: Account,
    whitelisted: bool,
)
    ensures
        ({
            let after = view.set_whitelist_status(address, whitelisted);
            let asked = view.asked_by(BountyOp::SetWhitelistStatus { address, whitelisted });
            &&& only_adds(view, after, asked)
            &&& if view.state.admin is Some {
                &&& after.state.whitelist == (if whitelisted {
                    view.state.whitelist.insert(address, true)
                } else {
                    view.state.whitelist.remove(address)
                })
                &&& after.state.admin == view.state.admin
                &&& after.state.token == view.state.token
                &&& after.state.rate_limit_cfg == view.state.rate_limit_cfg
                &&& after.state.stats == view.state.stats
                &&& after.state.escrows == view.state.escrows
                &&& asked.len() == 2
                &&& asked[0] == BountyCall::RequireAuth(view.state.admin->0)
                &&& asked[1] == (if whitelisted {
                    BountyCall::Write(BountyEntry::Whitelist(address, true))
                } else {
                    BountyCall::Remove(DataKey::Whitelist(address))
                })
            } else {
                after.state == view.state && asked.len() == 0
            }
        }),
{
    let asked = view.asked_by(BountyOp::SetWhitelistStatus { address, whitelisted });
    assert(view.set_whitelist_status(address, whitelisted).calls =~= view.calls + asked);
}

/// A user is let through just where exempt, or where the cooldown is over and there is room, and the
/// operation is then counted; a user who is not let through is told the reason, which is published,
/// and nothing is counted.
pub proof fn law_limits_hold_up_just_the_hasty_and_the_many(view: BountyView, user: Account)
    requires
        decidable(view, user),
    ensures
        view.check_rate_limit_result(user) is Ok <==> lets_through(view, user),
        view.check_rate_limit_result(user) == Err::<(), Error>(Error::CooldownActive) <==> !exempt(
            view,
            user,
        ) && !user_rested(view, user),
        view.check_rate_limit_result(user) == Err::<(), Error>(Error::RateLimitExceeded)
            <==> !exempt(view, user) && user_rested(view, user) && !user_has_room(view, user),
        ({
            let after = view.check_rate_limit(user);
            let asked = after.calls.subrange(view.calls.len() as int, after.calls.len() as int);
            &&& only_adds(view, after, asked)
            &&& limits_ask(view, user, asked)
            &&& after.state.admin == view.state.admin
            &&& after.state.token == view.state.token
            &&& after.state.rate_limit_cfg == view.state.rate_limit_cfg
            &&& after.state.whitelist == view.state.whitelist
            &&& after.state.escrows == view.state.escrows
            &&& if lets_through(view, user) {
                counted(view, user, after.state.stats)
            } else {
                after.state.stats == view.state.stats
            }
        }),
{
    law_operation_passes_just_where_rested_with_room(
        view.state.rate_limit_cfg->0,
        view.state.stats.get(user),
        view.timestamp,
    );
    let after = view.check_rate_limit(user);
    let asked = after.calls.subrange(view.calls.len() as int, after.calls.len() as int);
    assert(view.stats_of(user) == view.state.stats.get(user));
    assert(asked =~= view.rate_limit_calls(user));
    assert(after.calls =~= view.calls + asked);
    if lets_through(view, user) && !exempt(view, user) {
        assert(after.state.stats =~= view.state.stats.insert(user, after.state.stats[user]));
    }
}

/// A deposit is accepted just where it should be: by an initialized contract, for a bounty without
/// a deposit, from a depositor whom the limits let through, and an exempt depositor is always one.
/// Otherwise the first of these that fails is the reason.
pub proof fn law_deposit_is_accepted_just_where_it_should_be(
    view: BountyView,
    depositor: Account,
    bounty_id: u64,
)
    requires
        decidable(view, depositor),
    ensures
        ({
            let answer = view.lock_funds_result(depositor, bounty_id);
            let passes = lets_through(view, depositor);
            let taken = view.state.escrows.contains_key(bounty_id);
            &&& answer is Ok <==> passes && view.state.admin is Some && !taken
            &&& answer == Err::<(), Error>(Error::BountyExists) <==> passes && view.state.admin
                is Some && taken
            &&& answer == Err::<(), Error>(Error::NotInitialized) <==> passes && view.state.admin
                is None
            &&& answer == Err::<(), Error>(Error::CooldownActive) <==> !exempt(view, depositor)
                && !user_rested(view, depositor)
            &&& answer == Err::<(), Error>(Error::RateLimitExceeded) <==> !exempt(view, depositor)
                && user_rested(view, depositor) && !user_has_room(view, depositor)
        }),
{
    law_limits_hold_up_just_the_hasty_and_the_many(view, depositor);
}

/// An accepted deposit takes the whole amount from the depositor, with the depositor's consent,
/// into the contract, in the token of the contract, by one transfer; it is recorded as locked, with
/// all that was said of it; and nothing else changes but that the operation is counted.
pub proof fn law_accepted_deposit_locks_the_amount(
    view: BountyView,
    depositor: Account,
    bounty_id: u64,
    amount: i128,
    deadline: u64,
)
    requires
        decidable(view, depositor),
        lets_through(view, depositor),
        view.state.admin is Some,
        view.state.token is Some,
        !view.state.escrows.contains_key(bounty_id),
    ensures
        ({
            let after = view.lock_funds(depositor, bounty_id, amount, deadline);
            let asked = after.calls.subrange(view.calls.len() as int, after.calls.len() as int);
            let escrow = Escrow { depositor, amount, status: EscrowStatus::Locked, deadline };
            let n = asked.len() - 3;
            &&& view.lock_funds_result(depositor, bounty_id) is Ok
            &&& only_adds(view, after, asked)
            &&& after.state.escrows == view.state.escrows.insert(bounty_id, escrow)
            &&& counted(view, depositor, after.state.stats)
            &&& after.state.admin == view.state.admin
            &&& after.state.token == view.state.token
            &&& after.state.rate_limit_cfg == view.state.rate_limit_cfg
            &&& after.state.whitelist == view.state.whitelist
            &&& 1 <= n
            &&& asked[0] == BountyCall::RequireAuth(depositor)
            &&& limits_ask(view, depositor, asked.subrange(1, n))
            &&& asked[n] == (BountyCall::Transfer {
                token: view.state.token->0,
                from: depositor,
                to: view.contract,
                amount,
            })
            &&& asked[n + 1] == BountyCall::Write(BountyEntry::Escrow(bounty_id, escrow))
            &&& asked[n + 2] == BountyCall::Publish(
                BountyEvent::FundsLocked { bounty_id, depositor, amount, deadline },
            )
        }),
{
    law_deposit_is_accepted_just_where_it_should_be(view, depositor, bounty_id);
    law_limits_hold_up_just_the_hasty_and_the_many(view, depositor);
    let after = view.lock_funds(depositor, bounty_id, amount, deadline);
    let asked = after.calls.subrange(view.calls.len() as int, after.calls.len() as int);
    let checked = view.check_rate_limit(depositor);
    let limits = checked.calls.subrange(view.calls.len() as int, checked.calls.len() as int);
    assert(limits =~= view.rate_limit_calls(depositor));
    assert(asked.subrange(1, asked.len() - 3) =~= limits);
    assert(after.calls =~= view.calls + asked);
    assert(after.state.stats == checked.state.stats);
}

/// A refused deposit asks for the consent of the depositor and for what the limits need, and leaves
/// every ledger entry as it was.
pub proof fn law_refused_deposit_leaves_all_as_it_was(
    view: BountyView,
    depositor: Account,
    bounty_id: u64,
    amount: i128,
    deadline: u64,
)
    requires
        decidable(view, depositor),
        !lets_through(view, depositor) || view.state.admin is None
            || view.state.escrows.contains_key(bounty_id),
    ensures
        ({
            let after = view.lock_funds(depositor, bounty_id, amount, deadline);
            let asked = after.calls.subrange(view.calls.len() as int, after.calls.len() as int);
            &&& view.lock_funds_result(depositor, bounty_id) is Err
            &&& only_adds(view, after, asked)
            &&& after.state == view.state
            &&& 1 <= asked.len()
            &&& asked[0] == BountyCall::RequireAuth(depositor)
            &&& limits_ask(view, depositor, asked.subrange(1, asked.len() as int))
        }),
{
    law_deposit_is_accepted_just_where_it_should_be(view, depositor, bounty_id);
    law_limits_hold_up_just_the_hasty_and_the_many(view, depositor);
    let after = view.lock_funds(depositor, bounty_id, amount, deadline);
    let asked = after.calls.subrange(view.calls.len() as int, after.calls.len() as int);
    let checked = view.check_rate_limit(depositor);
    let limits = checked.calls.subrange(view.calls.len() as int, checked.calls.len() as int);
    assert(limits =~= view.rate_limit_calls(depositor));
    assert(asked.subrange(1, asked.len() as int) =~= limits);
    assert(after.calls =~= view.calls + asked);
}

/// Whoever is put on the whitelist can deposit at once, for any bounty without a deposit, whatever
/// the party did before.
pub proof fn law_whitelisting_opens_the_way(view: BountyView, depositor: Account, bounty_id: u64)
    requires
        view.state.admin is Some,
        !view.state.escrows.contains_key(bounty_id),
    ensures
        view.set_whitelist_status(depositor, true).rate_limit_defined(depositor),
        view.set_whitelist_status(depositor, true).lock_funds_result(depositor, bounty_id) is Ok,
{
    let listed = view.set_whitelist_status(depositor, true);
    law_whitelist_changes_for_one_party(view, depositor, true);
    law_rate_limit_can_be_worked_out(listed, depositor);
    law_deposit_is_accepted_just_where_it_should_be(listed, depositor, bounty_id);
}

/// The deposit for the bounty is recorded and still locked.
pub open spec fn holds_locked(view: BountyView, bounty_id: u64) -> bool {
    view.state.escrows.contains_key(bounty_id) && view.state.escrows[bounty_id].status
        == EscrowStatus::Locked
}

/// The deposit is marked with a status, and nothing else in the ledger entries changes.
pub open spec fn only_marks(
    before: BountyState,
    after: BountyState,
    bounty_id: u64,
    status: EscrowStatus,
) -> bool {
    let held = before.escrows[bounty_id];
    &&& after.escrows == before.escrows.insert(
        bounty_id,
        Escrow { depositor: held.depositor, amount: held.amount, status, deadline: held.deadline },
    )
    &&& after.admin == before.admin
    &&& after.token == before.token
    &&& after.rate_limit_cfg == before.rate_limit_cfg
    &&& after.whitelist == before.whitelist
    &&& after.stats == before.stats
}

/// A locked deposit can be released at any time, whatever happened since it was locked: with the
/// consent of the admin, and by one transfer, of the whole deposit, in the token of the contract,
/// from the contract to the contributor. The deposit is then marked as released, and nothing else
/// changes.
pub proof fn law_locked_deposit_can_always_be_released(
    view: BountyView,
    bounty_id: u64,
    contributor: Account,
)
    requires
        view.state.admin is Some,
        view.state.token is Some,
        holds_locked(view, bounty_id),
    ensures
        ({
            let after = view.release_funds(bounty_id, contributor);
            let asked = view.asked_by(BountyOp::ReleaseFunds { bounty_id, contributor });
            let amount = view.state.escrows[bounty_id].amount;
            &&& view.release_funds_result(bounty_id) is Ok
            &&& only_adds(view, after, asked)
            &&& only_marks(view.state, after.state, bounty_id, EscrowStatus::Released)
            &&& asked.len() == 4
            &&& asked[0] == BountyCall::RequireAuth(view.state.admin->0)
            &&& asked[1] == (BountyCall::Transfer {
                token: view.state.token->0,
                from: view.contract,
                to: contributor,
                amount,
            })
            &&& asked[2] == BountyCall::Write(
                BountyEntry::Escrow(bounty_id, after.state.escrows[bounty_id]),
            )
            &&& asked[3] == BountyCall::Publish(
                BountyEvent::FundsReleased { bounty_id, contributor, amount },
            )
        }),
{
    let asked = view.asked_by(BountyOp::ReleaseFunds { bounty_id, contributor });
    assert(view.release_funds(bounty_id, contributor).calls =~= view.calls + asked);
}

/// A release is refused just where the contract is not initialized, there is no deposit, or the
/// deposit is not locked any more, in this order; the ledger entries stay as they were, and no more
/// is asked for than the consent of the admin, if there is one.
pub proof fn law_release_is_refused_just_without_a_locked_deposit(
    view: BountyView,
    bounty_id: u64,
    contributor: Account,
)
    ensures
        ({
            let answer = view.release_funds_result(bounty_id);
            let after = view.release_funds(bounty_id, contributor);
            let asked = view.asked_by(BountyOp::ReleaseFunds { bounty_id, contributor });
            let recorded = view.state.escrows.contains_key(bounty_id);
            &&& answer is Ok <==> view.state.admin is Some && holds_locked(view, bounty_id)
            &&& answer == Err::<(), Error>(Error::NotInitialized) <==> view.state.admin is None
            &&& answer == Err::<(), Error>(Error::BountyNotFound) <==> view.state.admin is Some
                && !recorded
            &&& answer == Err::<(), Error>(Error::FundsNotLocked) <==> view.state.admin is Some
                && recorded && !holds_locked(view, bounty_id)
            &&& answer is Err ==> {
                &&& only_adds(view, after, asked)
                &&& after.state == view.state
                &&& match view.state.admin {
                    None => asked.len() == 0,
                    Some(admin) => asked.len() == 1 && asked[0] == BountyCall::RequireAuth(admin),
                }
            }
        }),
{
    let asked = view.asked_by(BountyOp::ReleaseFunds { bounty_id, contributor });
    assert(view.release_funds(bounty_id, contributor).calls =~= view.calls + asked);
}

/// A locked deposit can be refunded from its deadline on, whatever happened since it was locked:
/// without the consent of anyone, and by one transfer, of the whole deposit, in the token of the
/// contract, from the contract to the depositor. The deposit is then marked as refunded, and
/// nothing else changes.
pub proof fn law_expired_deposit_can_always_be_refunded(view: BountyView, bounty_id: u64)
    requires
        view.state.token is Some,
        holds_locked(view, bounty_id),
        view.state.escrows[bounty_id].deadline <= view.timestamp,
    ensures
        ({
            let after = view.refund(bounty_id);
            let asked = view.asked_by(BountyOp::Refund { bounty_id });
            let held = view.state.escrows[bounty_id];
            &&& view.refund_result(bounty_id) is Ok
            &&& only_adds(view, after, asked)
            &&& only_marks(view.state, after.state, bounty_id, EscrowStatus::Refunded)
            &&& asked.len() == 3
            &&& asked[0] == (BountyCall::Transfer {
                token: view.state.token->0,
                from: view.contract,
                to: held.depositor,
                amount: held.amount,
            })
            &&& asked[1] == BountyCall::Write(
                BountyEntry::Escrow(bounty_id, after.state.escrows[bounty_id]),
            )
            &&& asked[2] == BountyCall::Publish(
                BountyEvent::FundsRefunded {
                    bounty_id,
                    depositor: held.depositor,
                    amount: held.amount,
                },
            )
        }),
{
    let asked = view.asked_by(BountyOp::Refund { bounty_id });
    assert(view.refund(bounty_id).calls =~= view.calls + asked);
}

/// A refund is refused just where there is no deposit, it is not locked any more, or the deadline
/// has not passed, in this order; nothing is then asked for, and nothing changes.
pub proof fn law_refund_is_refused_just_without_an_expired_deposit(
    view: BountyView,
    bounty_id: u64,
)
    ensures
        ({
            let answer = view.refund_result(bounty_id);
            let recorded = view.state.escrows.contains_key(bounty_id);
            let expired = view.state.escrows[bounty_id].deadline <= view.timestamp;
            &&& answer is Ok <==> holds_locked(view, bounty_id) && expired
            &&& answer == Err::<(), Error>(Error::BountyNotFound) <==> !recorded
            &&& answer == Err::<(), Error>(Error::FundsNotLocked) <==> recorded && !holds_locked(
                view,
                bounty_id,
            )
            &&& answer == Err::<(), Error>(Error::DeadlineNotPassed) <==> holds_locked(
                view,
                bounty_id,
            ) && !expired
            &&& answer is Err ==> view.refund(bounty_id) == view
        }),
{
    if view.refund_result(bounty_id) is Err {
        assert(view.refund(bounty_id) =~= view);
    }
}

/// A locked deposit stays locked until it is released or refunded by a call for that very bounty.
pub proof fn law_only_release_and_refund_settle(view: BountyView, op: BountyOp, bounty_id: u64)
    requires
        holds_locked(view, bounty_id),
        match op {
            BountyOp::ReleaseFunds { bounty_id: id, .. } => id != bounty_id,
            BountyOp::Refund { bounty_id: id } => id != bounty_id,
            _ => true,
        },
    ensures
        holds_locked(view.step(op), bounty_id),
        view.step(op).state.escrows[bounty_id] == view.state.escrows[bounty_id],
{
}

/// From a deposit that was accepted to a later state in which it is still locked, whatever lies in
/// between: a release pays the whole amount to the contributor, and a refund from the deadline on
/// pays it to the depositor.
pub proof fn law_deposit_can_be_settled_whatever_lies_between(
    view: BountyView,
    depositor: Account,
    bounty_id: u64,
    amount: i128,
    deadline: u64,
    between: Seq<BountyOp>,
    contributor: Account,
)
    requires
        decidable(view, depositor),
        lets_through(view, depositor),
        view.state.admin is Some,
        view.state.token is Some,
        !view.state.escrows.contains_key(bounty_id),
        holds_locked(
            view.lock_funds(depositor, bounty_id, amount, deadline).run(between),
            bounty_id,
        ),
    ensures
        ({
            let later = view.lock_funds(depositor, bounty_id, amount, deadline).run(between);
            let released = later.asked_by(BountyOp::ReleaseFunds { bounty_id, contributor });
            let refunded = later.asked_by(BountyOp::Refund { bounty_id });
            let token = view.state.token->0;
            &&& later.release_funds_result(bounty_id) is Ok
            &&& released[1] == (BountyCall::Transfer {
                token,
                from: view.contract,
                to: contributor,
                amount,
            })
            &&& later.refund_result(bounty_id) is Ok <==> deadline <= later.timestamp
            &&& deadline <= later.timestamp ==> refunded[0] == (BountyCall::Transfer {
                token,
                from: view.contract,
                to: depositor,
                amount,
            })
        }),
{
    let locked = view.lock_funds(depositor, bounty_id, amount, deadline);
    let later = locked.run(between);
    law_accepted_deposit_locks_the_amount(view, depositor, bounty_id, amount, deadline);
    law_deposits_develop_one_way_throughout(locked, between, bounty_id);
    law_admin_and_token_are_set_once(locked, between);
    lemma_contract_stays(locked, between);
    law_locked_deposit_can_always_be_released(later, bounty_id, contributor);
    law_refund_is_refused_just_without_an_expired_deposit(later, bounty_id);
    if deadline <= later.timestamp {
        law_expired_deposit_can_always_be_refunded(later, bounty_id);
    }
}

proof fn lemma_contract_stays(view: BountyView, ops: Seq<BountyOp>)
    ensures
        view.run(ops).contract == view.contract,
    decreases ops.len(),
{
    if ops.len() != 0 {
        lemma_contract_stays(view, ops.drop_last());
    }
}

/// What a party other than the contract gets with a call, net, in the token of the contract: the
/// contributor gets a deposit that is released, the depositor gives a deposit that is locked and
/// gets one that is refunded, and nobody else gets or gives anything.
pub proof fn law_each_party_gets_what_is_due(view: BountyView, op: BountyOp, party: Account)
    requires
        view.state.token is Some,
        view.state.rate_limit_cfg is Some,
        party != view.contract,
    ensures
        net_inflow(view.asked_by(op), view.state.token->0, party) == match op {
            BountyOp::LockFunds { depositor, bounty_id, amount, .. } if depositor == party
                && view.rate_limit_defined(depositor) && lets_through(view, depositor)
                && view.state.admin is Some && !view.state.escrows.contains_key(
                bounty_id,
            ) => -amount,
            BountyOp::ReleaseFunds { bounty_id, contributor } if contributor == party
                && view.state.admin is Some && holds_locked(
                view,
                bounty_id,
            ) => view.state.escrows[bounty_id].amount as int,
            BountyOp::Refund { bounty_id } if holds_locked(view, bounty_id)
                && view.state.escrows[bounty_id].deadline <= view.timestamp
                && view.state.escrows[bounty_id].depositor == party => {
                view.state.escrows[bounty_id].amount as int
            },
            _ => 0int,
        },
{
    let asked = view.asked_by(op);
    let token = view.state.token->0;
    match op {
        BountyOp::LockFunds { depositor, bounty_id, amount, deadline } => {
            if view.rate_limit_defined(depositor) {
                law_deposit_is_accepted_just_where_it_should_be(view, depositor, bounty_id);
                if view.lock_funds_result(depositor, bounty_id) is Ok {
                    law_accepted_deposit_locks_the_amount(
                        view,
                        depositor,
                        bounty_id,
                        amount,
                        deadline,
                    );
                    lemma_single_transfer(asked, asked.len() - 3, token, party);
                } else {
                    lemma_no_transfer(asked, token, party);
                }
            } else {
                lemma_no_transfer(asked, token, party);
            }
        },
        BountyOp::ReleaseFunds { bounty_id, contributor } => {
            if view.state.admin is Some && holds_locked(view, bounty_id) {
                law_locked_deposit_can_always_be_released(view, bounty_id, contributor);
                lemma_single_transfer(asked, 1, token, party);
            } else {
                lemma_no_transfer(asked, token, party);
            }
        },
        BountyOp::Refund { bounty_id } => {
            law_refund_is_refused_just_without_an_expired_deposit(view, bounty_id);
            if view.refund_result(bounty_id) is Ok {
                law_expired_deposit_can_always_be_refunded(view, bounty_id);
                lemma_single_transfer(asked, 0, token, party);
            } else {
                lemma_no_transfer(asked, token, party);
            }
        },
        _ => {
            lemma_no_transfer(asked, token, party);
        },
    }
}

/// Every error has a number of its own, from one to nine, in the order in which they are declared.
pub proof fn law_error_codes(error: Error)
    ensures
        error.spec_code() == 1 <==> error is AlreadyInitialized,
        error.spec_code() == 2 <==> error is NotInitialized,
        error.spec_code() == 3 <==> error is BountyExists,
        error.spec_code() == 4 <==> error is BountyNotFound,
        error.spec_code() == 5 <==> error is FundsNotLocked,
        error.spec_code() == 6 <==> error is DeadlineNotPassed,
        error.spec_code() == 7 <==> error is Unauthorized,
        error.spec_code() == 8 <==> error is RateLimitExceeded,
        error.spec_code() == 9 <==> error is CooldownActive,
{
}

/// Deposits are kept for good, statistics for a time, and all else with the contract.
pub proof fn law_durabilities(key: DataKey)
    ensures
        key.spec_durability() is Persistent <==> key is Escrow,
        key.spec_durability() is Temporary <==> key is UserStats,
        key.spec_durability() is Instance <==> !(key is Escrow) && !(key is UserStats),
{
}

/// An entry is written under the name that it is read by.
pub proof fn law_entries_have_their_names(entry: BountyEntry)
    ensures
        entry is Admin <==> entry.spec_key() is Admin,
        entry is Token <==> entry.spec_key() is Token,
        entry is RateLimitCfg <==> entry.spec_key() is RateLimitCfg,
        entry is Escrow <==> entry.spec_key() is Escrow,
        entry is UserStats <==> entry.spec_key() is UserStats,
        entry is Whitelist <==> entry.spec_key() is Whitelist,
        entry matches BountyEntry::Escrow(bounty_id, _) ==> entry.spec_key() == DataKey::Escrow(
            bounty_id,
        ),
        entry matches BountyEntry::UserStats(user, _) ==> entry.spec_key() == DataKey::UserStats(
            user,
        ),
        entry matches BountyEntry::Whitelist(address, _) ==> entry.spec_key()
            == DataKey::Whitelist(address),
{
}

/// Each kind of event has a topic of its own.
pub proof fn law_topics(event: BountyEvent)
    ensures
        event is RateLimitViolation ==> event.spec_topic() == "rate_limit_violation"@,
        event is FundsLocked ==> event.spec_topic() == "funds_locked"@,
        event is FundsReleased ==> event.spec_topic() == "funds_released"@,
        event is FundsRefunded ==> event.spec_topic() == "funds_refunded"@,
{
}

} // verus!
