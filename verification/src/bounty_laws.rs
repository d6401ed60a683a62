//! What holds of the bounty escrow as a whole.
use vstd::prelude::*;

use crate::account::Account;
use crate::bounty_escrow::{
    BountyCall, BountyEntry, BountyEvent, BountyState, BountyView, DataKey, Error, Escrow,
    EscrowStatus,
};
use crate::host::{
    lemma_net_inflow_concat, lemma_no_transfer, lemma_single_transfer, net_inflow, HostCall,
};
use crate::rate_limit::RateLimitConfig;

verus! {

/// Something that happens to the contract: one of its functions is called, or the ledger moves on.
pub enum BountyOp {
    Init { admin: Account, token: Account },
    SetRateLimitConfig { config: RateLimitConfig },
    SetWhitelistStatus { address: Account, whitelisted: bool },
    LockFunds { depositor: Account, bounty_id: u64, amount: i128, deadline: u64 },
    ReleaseFunds { bounty_id: u64, contributor: Account },
    Refund { bounty_id: u64 },
    /// The time of the ledger is set.
    SetTime { timestamp: u64 },
    /// The time to live of the statistics of a user runs out.
    LapseStats { user: Account },
}

impl BountyView {
    /// The ledger after the operation. A deposit whose rate limit cannot be worked out is stopped
    /// before it has any effect.
    pub open spec fn step(self, op: BountyOp) -> Self {
        match op {
            BountyOp::Init { admin, token } => self.init(admin, token),
            BountyOp::SetRateLimitConfig { config } => self.set_rate_limit_config(config),
            BountyOp::SetWhitelistStatus { address, whitelisted } => self.set_whitelist_status(
                address,
                whitelisted,
            ),
            BountyOp::LockFunds { depositor, bounty_id, amount, deadline } => {
                if self.rate_limit_defined(depositor) {
                    self.lock_funds(depositor, bounty_id, amount, deadline)
                } else {
                    self
                }
            },
            BountyOp::ReleaseFunds { bounty_id, contributor } => self.release_funds(
                bounty_id,
                contributor,
            ),
            BountyOp::Refund { bounty_id } => self.refund(bounty_id),
            BountyOp::SetTime { timestamp } => BountyView { timestamp, ..self },
            BountyOp::LapseStats { user } => BountyView {
                state: BountyState { stats: self.state.stats.remove(user), ..self.state },
                ..self
            },
        }
    }

    /// The ledger after the operations, one after the other.
    pub open spec fn run(self, ops: Seq<BountyOp>) -> Self
        decreases ops.len(),
    {
        if ops.len() == 0 {
            self
        } else {
            self.run(ops.drop_last()).step(ops.last())
        }
    }

    /// How a call of the contract is answered.
    pub open spec fn answer(self, op: BountyOp) -> Result<(), Error> {
        match op {
            BountyOp::Init { .. } => self.init_result(),
            BountyOp::SetRateLimitConfig { .. } => self.admin_result(),
            BountyOp::SetWhitelistStatus { .. } => self.admin_result(),
            BountyOp::LockFunds { depositor, bounty_id, .. } => self.lock_funds_result(
                depositor,
                bounty_id,
            ),
            BountyOp::ReleaseFunds { bounty_id, .. } => self.release_funds_result(bounty_id),
            BountyOp::Refund { bounty_id } => self.refund_result(bounty_id),
            _ => Ok(()),
        }
    }

    /// What the operation asks of the host.
    pub open spec fn asked_by(self, op: BountyOp) -> Seq<BountyCall> {
        let calls = self.step(op).calls;
        calls.subrange(self.calls.len() as int, calls.len() as int)
    }

    /// The deposit for a bounty, if there is one.
    pub open spec fn escrow(self, bounty_id: u64) -> Option<Escrow> {
        if self.state.escrows.contains_key(bounty_id) {
            Some(self.state.escrows[bounty_id])
        } else {
            None
        }
    }
}

/// How a deposit can develop: it can come into being, locked; a locked one can be released or
/// refunded; and nothing else about it ever changes.
pub open spec fn develops(before: Option<Escrow>, after: Option<Escrow>) -> bool {
    match (before, after) {
        (None, None) => true,
        (None, Some(_)) => true,
        (Some(_), None) => false,
        (Some(b), Some(a)) => {
            &&& a.depositor == b.depositor
            &&& a.amount == b.amount
            &&& a.deadline == b.deadline
            &&& a.status == b.status || b.status == EscrowStatus::Locked
        },
    }
}

/// What a deposit contributes to the funds that the contract holds.
pub open spec fn locked_amount(escrow: Escrow) -> int {
    if escrow.status == EscrowStatus::Locked {
        escrow.amount as int
    } else {
        0
    }
}

/// The sum of the locked deposits for the given bounties.
pub open spec fn locked_sum(ids: Set<u64>, escrows: Map<u64, Escrow>) -> int
    decreases ids.len(),
    when ids.finite()
{
    if ids.len() == 0 {
        0
    } else {
        let id = ids.choose();
        locked_amount(escrows[id]) + locked_sum(ids.remove(id), escrows)
    }
}

/// The sum of all locked deposits.
pub open spec fn locked_total(escrows: Map<u64, Escrow>) -> int {
    locked_sum(escrows.dom(), escrows)
}

/// Any member can be taken out of the sum first.
proof fn lemma_locked_sum_remove(ids: Set<u64>, escrows: Map<u64, Escrow>, id: u64)
    requires
        ids.finite(),
        ids.contains(id),
    ensures
        locked_sum(ids, escrows) == locked_amount(escrows[id]) + locked_sum(
            ids.remove(id),
            escrows,
        ),
    decreases ids.len(),
{
    let first = ids.choose();
    if first != id {
        lemma_locked_sum_remove(ids.remove(first), escrows, id);
        lemma_locked_sum_remove(ids.remove(id), escrows, first);
        assert(ids.remove(first).remove(id) =~= ids.remove(id).remove(first));
    }
}

/// The sum depends on the deposits for the given bounties alone.
proof fn lemma_locked_sum_agree(ids: Set<u64>, first: Map<u64, Escrow>, second: Map<u64, Escrow>)
    requires
        ids.finite(),
        forall|id: u64| #[trigger] ids.contains(id) ==> first[id] == second[id],
    ensures
        locked_sum(ids, first) == locked_sum(ids, second),
    decreases ids.len(),
{
    if ids.len() != 0 {
        let id = ids.choose();
        assert(ids.contains(id));
        lemma_locked_sum_agree(ids.remove(id), first, second);
    }
}

/// Writing a deposit replaces what stood there before in the total.
proof fn lemma_locked_total_insert(escrows: Map<u64, Escrow>, id: u64, escrow: Escrow)
    requires
        escrows.dom().finite(),
    ensures
        locked_total(escrows.insert(id, escrow)) == locked_total(escrows) + locked_amount(escrow) - (
        if escrows.contains_key(id) {
            locked_amount(escrows[id])
        } else {
            0
        }),
{
    let after = escrows.insert(id, escrow);
    let others = escrows.dom().remove(id);
    assert(after.dom().remove(id) =~= others);
    lemma_locked_sum_remove(after.dom(), after, id);
    lemma_locked_sum_agree(others, after, escrows);
    if escrows.contains_key(id) {
        lemma_locked_sum_remove(escrows.dom(), escrows, id);
    } else {
        assert(others =~= escrows.dom());
    }
}

/// Every operation leaves a valid ledger valid.
pub proof fn law_validity_is_kept(view: BountyView, op: BountyOp)
    requires
        view.valid(),
    ensures
        view.step(op).valid(),
{
}

/// Any number of operations leaves a valid ledger valid.
pub proof fn law_validity_is_kept_throughout(view: BountyView, ops: Seq<BountyOp>)
    requires
        view.valid(),
    ensures
        view.run(ops).valid(),
    decreases ops.len(),
{
    if ops.len() != 0 {
        law_validity_is_kept_throughout(view, ops.drop_last());
        law_validity_is_kept(view.run(ops.drop_last()), ops.last());
    }
}

/// A deposit comes into being locked, and all that ever happens to it is that a locked deposit is
/// released or refunded, once. Depositor, amount and deadline stay as they were.
pub proof fn law_deposits_develop_one_way(view: BountyView, op: BountyOp, bounty_id: u64)
    ensures
        develops(view.escrow(bounty_id), view.step(op).escrow(bounty_id)),
        view.escrow(bounty_id) is None ==> (view.step(op).escrow(bounty_id) matches Some(e)
            ==> e.status == EscrowStatus::Locked),
{
}

/// Over any number of operations a deposit stays the deposit that it was: it never disappears, its
/// depositor, amount and deadline never change, and once released or refunded it stays so.
pub proof fn law_deposits_develop_one_way_throughout(
    view: BountyView,
    ops: Seq<BountyOp>,
    bounty_id: u64,
)
    ensures
        develops(view.escrow(bounty_id), view.run(ops).escrow(bounty_id)),
    decreases ops.len(),
{
    if ops.len() != 0 {
        law_deposits_develop_one_way_throughout(view, ops.drop_last(), bounty_id);
        law_deposits_develop_one_way(view.run(ops.drop_last()), ops.last(), bounty_id);
    }
}

/// A bounty that was released or refunded is settled for good: whatever is done afterwards, its
/// funds can be neither released nor refunded again, nor can new funds be locked for it.
pub proof fn law_settled_bounty_stays_settled(
    view: BountyView,
    ops: Seq<BountyOp>,
    bounty_id: u64,
    depositor: Account,
)
    requires
        view.valid(),
        view.escrow(bounty_id) matches Some(e) && e.status != EscrowStatus::Locked,
    ensures
        view.run(ops).escrow(bounty_id) == view.escrow(bounty_id),
        view.run(ops).release_funds_result(bounty_id) == Err::<(), Error>(Error::FundsNotLocked),
        view.run(ops).refund_result(bounty_id) == Err::<(), Error>(Error::FundsNotLocked),
        view.run(ops).lock_funds_result(depositor, bounty_id) is Err,
{
    law_deposits_develop_one_way_throughout(view, ops, bounty_id);
    law_validity_is_kept_throughout(view, ops);
    let before = view.escrow(bounty_id)->0;
    let after = view.run(ops).escrow(bounty_id)->0;
    assert(before == after);
}

/// The admin and the token, once set, are never changed again.
pub proof fn law_admin_and_token_are_set_once(view: BountyView, ops: Seq<BountyOp>)
    requires
        view.state.admin is Some,
    ensures
        view.run(ops).state.admin == view.state.admin,
        view.run(ops).state.token == view.state.token,
        view.run(ops).init_result() == Err::<(), Error>(Error::AlreadyInitialized),
    decreases ops.len(),
{
    if ops.len() != 0 {
        law_admin_and_token_are_set_once(view, ops.drop_last());
    }
}

/// No deposit was made by the contract itself.
pub open spec fn no_own_deposit(view: BountyView) -> bool {
    forall|bounty_id: u64| #[trigger]
        view.state.escrows.contains_key(bounty_id) ==> view.state.escrows[bounty_id].depositor
            != view.contract
}

/// The operation does not make the contract deposit with itself or pay itself.
pub open spec fn between_parties(view: BountyView, op: BountyOp) -> bool {
    match op {
        BountyOp::LockFunds { depositor, .. } => depositor != view.contract,
        BountyOp::ReleaseFunds { contributor, .. } => contributor != view.contract,
        _ => true,
    }
}

/// With every operation the contract receives, net, just as many tokens as the locked deposits
/// grow by, and no other tokens move.
pub proof fn law_operation_moves_what_it_locks(view: BountyView, op: BountyOp, token: Account)
    requires
        view.valid(),
        no_own_deposit(view),
        between_parties(view, op),
    ensures
        no_own_deposit(view.step(op)),
        net_inflow(view.step(op).calls, token, view.contract) == net_inflow(
            view.calls,
            token,
            view.contract,
        ) + (if view.state.token == Some(token) {
            locked_total(view.step(op).state.escrows) - locked_total(view.state.escrows)
        } else {
            0
        }),
{
    let after = view.step(op);
    let asked = view.asked_by(op);
    assert(after.calls =~= view.calls + asked);
    lemma_net_inflow_concat(view.calls, asked, token, view.contract);
    match op {
        BountyOp::LockFunds { depositor, bounty_id, amount, deadline } => {
            if view.rate_limit_defined(depositor) && view.lock_funds_result(
                depositor,
                bounty_id,
            ) is Ok {
                let escrow = Escrow { depositor, amount, status: EscrowStatus::Locked, deadline };
                let at = asked.len() - 3;
                lemma_locked_total_insert(view.state.escrows, bounty_id, escrow);
                assert(asked[at] == HostCall::<BountyEntry, DataKey, BountyEvent>::Transfer {
                    token: view.state.token.unwrap(),
                    from: depositor,
                    to: view.contract,
                    amount,
                });
                lemma_single_transfer(asked, at, token, view.contract);
            } else {
                lemma_no_transfer(asked, token, view.contract);
            }
        },
        BountyOp::ReleaseFunds { bounty_id, contributor } => {
            if view.release_funds_result(bounty_id) is Ok {
                let held = view.state.escrows[bounty_id];
                let released = Escrow { status: EscrowStatus::Released, ..held };
                lemma_locked_total_insert(view.state.escrows, bounty_id, released);
                assert(asked[1] == HostCall::<BountyEntry, DataKey, BountyEvent>::Transfer {
                    token: view.state.token.unwrap(),
                    from: view.contract,
                    to: contributor,
                    amount: held.amount,
                });
                lemma_single_transfer(asked, 1, token, view.contract);
            } else {
                lemma_no_transfer(asked, token, view.contract);
            }
        },
        BountyOp::Refund { bounty_id } => {
            if view.refund_result(bounty_id) is Ok {
                let held = view.state.escrows[bounty_id];
                let refunded = Escrow { status: EscrowStatus::Refunded, ..held };
                lemma_locked_total_insert(view.state.escrows, bounty_id, refunded);
                assert(asked[0] == HostCall::<BountyEntry, DataKey, BountyEvent>::Transfer {
                    token: view.state.token.unwrap(),
                    from: view.contract,
                    to: held.depositor,
                    amount: held.amount,
                });
                lemma_single_transfer(asked, 0, token, view.contract);
            } else {
                lemma_no_transfer(asked, token, view.contract);
            }
        },
        _ => {
            lemma_no_transfer(asked, token, view.contract);
        },
    }
}

/// From the first call on, whatever is called in whatever order, the contract has received, net,
/// exactly the sum of the deposits that are still locked, and no other token than its own.
pub proof fn law_contract_holds_what_is_locked(
    start: BountyView,
    ops: Seq<BountyOp>,
    token: Account,
)
    requires
        start.state == BountyState::empty(),
        start.calls.len() == 0,
        forall|i: int| 0 <= i < ops.len() ==> between_parties(start, #[trigger] ops[i]),
    ensures
        net_inflow(start.run(ops).calls, token, start.contract) == (if start.run(ops).state.token
            == Some(token) {
            locked_total(start.run(ops).state.escrows)
        } else {
            0
        }),
        start.run(ops).contract == start.contract,
        start.run(ops).valid(),
        no_own_deposit(start.run(ops)),
    decreases ops.len(),
{
    if ops.len() == 0 {
        assert(start.state.escrows.dom() =~= Set::<u64>::empty());
    } else {
        let earlier = ops.drop_last();
        assert forall|i: int| 0 <= i < earlier.len() implies between_parties(
            start,
            #[trigger] earlier[i],
        ) by {
            assert(earlier[i] == ops[i]);
        }
        law_contract_holds_what_is_locked(start, earlier, token);
        let before = start.run(earlier);
        assert(between_parties(start, ops[ops.len() - 1]));
        law_operation_moves_what_it_locks(before, ops.last(), token);
        law_validity_is_kept(before, ops.last());
        if before.state.token is None {
            let after = before.step(ops.last());
            assert(after.state.escrows.dom() =~= Set::<u64>::empty());
        }
    }
}

/// The request publishes that the funds of the bounty were paid out.
pub open spec fn announces_payout(call: BountyCall, bounty_id: u64) -> bool {
    match call {
        HostCall::Publish(BountyEvent::FundsReleased { bounty_id: id, .. }) => id == bounty_id,
        HostCall::Publish(BountyEvent::FundsRefunded { bounty_id: id, .. }) => id == bounty_id,
        _ => false,
    }
}

/// How often the requests publish that the funds of the bounty were paid out.
pub open spec fn payouts(calls: Seq<BountyCall>, bounty_id: u64) -> nat
    decreases calls.len(),
{
    if calls.len() == 0 {
        0
    } else {
        payouts(calls.drop_last(), bounty_id) + if announces_payout(calls.last(), bounty_id) {
            1nat
        } else {
            0nat
        }
    }
}

proof fn lemma_payouts_concat(first: Seq<BountyCall>, second: Seq<BountyCall>, bounty_id: u64)
    ensures
        payouts(first + second, bounty_id) == payouts(first, bounty_id) + payouts(second, bounty_id),
    decreases second.len(),
{
    if second.len() == 0 {
        assert(first + second =~= first);
    } else {
        assert((first + second).drop_last() =~= first + second.drop_last());
        lemma_payouts_concat(first, second.drop_last(), bounty_id);
    }
}

/// Only the last request can announce a payout.
proof fn lemma_payouts_last(calls: Seq<BountyCall>, bounty_id: u64)
    requires
        forall|i: int|
            0 <= i < calls.len() - 1 ==> !announces_payout(#[trigger] calls[i], bounty_id),
    ensures
        payouts(calls, bounty_id) == (if calls.len() != 0 && announces_payout(
            calls.last(),
            bounty_id,
        ) {
            1nat
        } else {
            0nat
        }),
    decreases calls.len(),
{
    if calls.len() != 0 {
        let earlier = calls.drop_last();
        assert forall|i: int| 0 <= i < earlier.len() - 1 implies !announces_payout(
            #[trigger] earlier[i],
            bounty_id,
        ) by {
            assert(earlier[i] == calls[i]);
        }
        lemma_payouts_last(earlier, bounty_id);
        if earlier.len() != 0 {
            assert(!announces_payout(calls[calls.len() - 2], bounty_id));
        }
    }
}

/// The funds of a bounty are paid out at most once: from the first call on, a payout has been
/// announced once if the bounty is released or refunded, and never otherwise.
pub proof fn law_bounty_pays_out_at_most_once(
    start: BountyView,
    ops: Seq<BountyOp>,
    bounty_id: u64,
)
    requires
        start.state == BountyState::empty(),
        start.calls.len() == 0,
    ensures
        payouts(start.run(ops).calls, bounty_id) == (match start.run(ops).escrow(bounty_id) {
            Some(escrow) => if escrow.status == EscrowStatus::Locked {
                0nat
            } else {
                1nat
            },
            None => 0nat,
        }),
    decreases ops.len(),
{
    if ops.len() != 0 {
        let before = start.run(ops.drop_last());
        let op = ops.last();
        let asked = before.asked_by(op);
        law_bounty_pays_out_at_most_once(start, ops.drop_last(), bounty_id);
        law_validity_is_kept_throughout(start, ops.drop_last());
        assert(before.step(op).calls =~= before.calls + asked);
        lemma_payouts_concat(before.calls, asked, bounty_id);
        lemma_payouts_last(asked, bounty_id);
    }
}

/// The state of the ledger after the host has performed one request.
pub open spec fn perform(state: BountyState, call: BountyCall) -> BountyState {
    match call {
        HostCall::Write(BountyEntry::Admin(admin)) => BountyState { admin: Some(admin), ..state },
        HostCall::Write(BountyEntry::Token(token)) => BountyState { token: Some(token), ..state },
        HostCall::Write(BountyEntry::Escrow(bounty_id, escrow)) => BountyState {
            escrows: state.escrows.insert(bounty_id, escrow),
            ..state
        },
        HostCall::Write(BountyEntry::RateLimitCfg(config)) => BountyState {
            rate_limit_cfg: Some(config),
            ..state
        },
        HostCall::Write(BountyEntry::UserStats(user, stats)) => BountyState {
            stats: state.stats.insert(user, stats),
            ..state
        },
        HostCall::Write(BountyEntry::Whitelist(address, listed)) => BountyState {
            whitelist: state.whitelist.insert(address, listed),
            ..state
        },
        HostCall::Remove(DataKey::Admin) => BountyState { admin: None, ..state },
        HostCall::Remove(DataKey::Token) => BountyState { token: None, ..state },
        HostCall::Remove(DataKey::Escrow(bounty_id)) => BountyState {
            escrows: state.escrows.remove(bounty_id),
            ..state
        },
        HostCall::Remove(DataKey::RateLimitCfg) => BountyState { rate_limit_cfg: None, ..state },
        HostCall::Remove(DataKey::UserStats(user)) => BountyState {
            stats: state.stats.remove(user),
            ..state
        },
        HostCall::Remove(DataKey::Whitelist(address)) => BountyState {
            whitelist: state.whitelist.remove(address),
            ..state
        },
        _ => state,
    }
}

/// The state of the ledger after the host has performed the requests in order.
pub open spec fn perform_all(state: BountyState, calls: Seq<BountyCall>) -> BountyState
    decreases calls.len(),
{
    if calls.len() == 0 {
        state
    } else {
        perform(perform_all(state, calls.drop_last()), calls.last())
    }
}

proof fn lemma_perform_concat(state: BountyState, first: Seq<BountyCall>, second: Seq<BountyCall>)
    ensures
        perform_all(state, first + second) == perform_all(perform_all(state, first), second),
    decreases second.len(),
{
    if second.len() == 0 {
        assert(first + second =~= first);
    } else {
        assert((first + second).drop_last() =~= first + second.drop_last());
        lemma_perform_concat(state, first, second.drop_last());
    }
}

proof fn lemma_perform_one_more(state: BountyState, calls: Seq<BountyCall>, call: BountyCall)
    ensures
        perform_all(state, calls.push(call)) == perform(perform_all(state, calls), call),
{
    assert(calls.push(call).drop_last() =~= calls);
}

#[verifier::spinoff_prover]
proof fn lemma_perform_four(
    state: BountyState,
    a: BountyCall,
    b: BountyCall,
    c: BountyCall,
    d: BountyCall,
)
    ensures
        perform_all(state, seq![]) == state,
        perform_all(state, seq![a]) == perform(state, a),
        perform_all(state, seq![a, b]) == perform(perform(state, a), b),
        perform_all(state, seq![a, b, c]) == perform(perform(perform(state, a), b), c),
        perform_all(state, seq![a, b, c, d]) == perform(
            perform(perform(perform(state, a), b), c),
            d,
        ),
{
    let none: Seq<BountyCall> = seq![];
    assert(seq![a] =~= none.push(a));
    assert(seq![a, b] =~= seq![a].push(b));
    assert(seq![a, b, c] =~= seq![a, b].push(c));
    assert(seq![a, b, c, d] =~= seq![a, b, c].push(d));
    lemma_perform_one_more(state, none, a);
    lemma_perform_one_more(state, seq![a], b);
    lemma_perform_one_more(state, seq![a, b], c);
    lemma_perform_one_more(state, seq![a, b, c], d);
}

/// A refused call leaves all ledger entries as they were, and moves no tokens.
pub proof fn law_refused_call_changes_nothing(view: BountyView, op: BountyOp)
    requires
        view.answer(op) is Err,
    ensures
        view.step(op).state == view.state,
        forall|i: int|
            0 <= i < view.asked_by(op).len() ==> !(#[trigger] view.asked_by(op)[i] is Transfer),
{
}

/// The requests of a call that succeeds say all that changes: a host that performs them in order
/// arrives at the state that the call leaves behind.
pub proof fn law_requests_describe_the_change(view: BountyView, op: BountyOp)
    requires
        view.answer(op) is Ok,
        !(op is SetTime),
        !(op is LapseStats),
        op matches BountyOp::LockFunds { depositor, .. } ==> view.rate_limit_defined(depositor),
    ensures
        view.step(op).state == perform_all(view.state, view.asked_by(op)),
{
    let asked = view.asked_by(op);
    let start = view.state;
    match op {
        BountyOp::LockFunds { depositor, bounty_id, amount, deadline } => {
            let limits = view.rate_limit_calls(depositor);
            let auth = seq![HostCall::<BountyEntry, DataKey, BountyEvent>::RequireAuth(depositor)];
            let rest = asked.subrange(asked.len() - 3, asked.len() as int);
            assert(asked =~= auth + limits + rest);
            lemma_perform_concat(start, auth + limits, rest);
            lemma_perform_concat(start, auth, limits);
            let counted = perform_all(start, auth + limits);
            assert(rest =~= seq![rest[0], rest[1], rest[2]]);
            lemma_perform_four(start, auth[0], auth[0], auth[0], auth[0]);
            lemma_perform_four(start, limits[0], limits[1], limits[0], limits[0]);
            assert(view.rate_limit(depositor) is Ok);
            match view.rate_limit(depositor)->Ok_0 {
                Some(_) => {
                    assert(limits =~= seq![limits[0], limits[1]]);
                },
                None => {
                    assert(limits =~= seq![]);
                },
            }
            lemma_perform_four(counted, rest[0], rest[1], rest[2], rest[2]);
        },
        BountyOp::ReleaseFunds { .. } => {
            assert(asked =~= seq![asked[0], asked[1], asked[2], asked[3]]);
            lemma_perform_four(start, asked[0], asked[1], asked[2], asked[3]);
        },
        BountyOp::Init { .. } | BountyOp::Refund { .. } => {
            assert(asked =~= seq![asked[0], asked[1], asked[2]]);
            lemma_perform_four(start, asked[0], asked[1], asked[2], asked[2]);
        },
        _ => {
            assert(asked =~= seq![asked[0], asked[1]]);
            lemma_perform_four(start, asked[0], asked[1], asked[1], asked[1]);
        },
    }
    assert(view.step(op).state =~= perform_all(start, asked));
}

/// Tokens move only with authority. A transfer out of a depositor's account follows the demand
/// that the depositor authorizes the call; a transfer out of the contract follows the demand that
/// the admin authorizes the call, or goes back to the depositor of an expired deposit.
pub proof fn law_transfers_have_authority(view: BountyView, op: BountyOp, i: int)
    requires
        0 <= i < view.asked_by(op).len(),
        view.asked_by(op)[i] is Transfer,
    ensures
        ({
            let asked = view.asked_by(op);
            let from = asked[i]->from;
            let to = asked[i]->to;
            let amount = asked[i]->amount;
            ||| to == view.contract && exists|j: int|
                0 <= j < i && #[trigger] asked[j] == (BountyCall::RequireAuth(from))
            ||| from == view.contract && view.state.admin is Some && exists|j: int|
                0 <= j < i && #[trigger] asked[j] == (BountyCall::RequireAuth(
                    view.state.admin.unwrap(),
                ))
            ||| from == view.contract && exists|bounty_id: u64| #[trigger]
                view.state.escrows.contains_key(bounty_id) && {
                    let held = view.state.escrows[bounty_id];
                    &&& held.status == EscrowStatus::Locked
                    &&& held.deadline <= view.timestamp
                    &&& to == held.depositor
                    &&& amount == held.amount
                }
        }),
{
    let asked = view.asked_by(op);
    match op {
        BountyOp::LockFunds { depositor, .. } => {
            assert(asked[0] == BountyCall::RequireAuth(depositor));
        },
        BountyOp::ReleaseFunds { .. } => {
            assert(asked[0] == BountyCall::RequireAuth(view.state.admin.unwrap()));
        },
        BountyOp::Refund { bounty_id } => {
            assert(view.state.escrows.contains_key(bounty_id));
        },
        _ => {},
    }
}

/// Locked funds can be had back: a deposit that was accepted is refunded in full to its depositor
/// as soon as the deadline has passed, without the consent of anyone, unless it was released
/// before; and until the deadline a refund is refused.
pub proof fn law_locked_funds_come_back_after_the_deadline(
    view: BountyView,
    depositor: Account,
    bounty_id: u64,
    amount: i128,
    deadline: u64,
    timestamp: u64,
)
    requires
        view.valid(),
        view.rate_limit_defined(depositor),
        view.lock_funds_result(depositor, bounty_id) is Ok,
    ensures
        ({
            let locked = view.lock_funds(depositor, bounty_id, amount, deadline);
            let later = locked.step(BountyOp::SetTime { timestamp });
            let asked = later.asked_by(BountyOp::Refund { bounty_id });
            if timestamp < deadline {
                later.refund_result(bounty_id) == Err::<(), Error>(Error::DeadlineNotPassed)
            } else {
                &&& later.refund_result(bounty_id) is Ok
                &&& asked[0] == (BountyCall::Transfer {
                    token: view.state.token.unwrap(),
                    from: view.contract,
                    to: depositor,
                    amount,
                })
                &&& forall|i: int|
                    0 <= i < asked.len() ==> !(#[trigger] asked[i] is RequireAuth)
                &&& later.refund(bounty_id).escrow(bounty_id) == Some(
                    Escrow { depositor, amount, status: EscrowStatus::Refunded, deadline },
                )
            }
        }),
{
}

/// Locked funds can be paid out: right after a deposit was accepted the admin can release it, and
/// the contributor gets all of it, whatever the deadline is.
pub proof fn law_locked_funds_can_be_released(
    view: BountyView,
    depositor: Account,
    bounty_id: u64,
    amount: i128,
    deadline: u64,
    contributor: Account,
)
    requires
        view.valid(),
        view.rate_limit_defined(depositor),
        view.lock_funds_result(depositor, bounty_id) is Ok,
    ensures
        ({
            let locked = view.lock_funds(depositor, bounty_id, amount, deadline);
            let asked = locked.asked_by(BountyOp::ReleaseFunds { bounty_id, contributor });
            &&& locked.escrow(bounty_id) == Some(
                Escrow { depositor, amount, status: EscrowStatus::Locked, deadline },
            )
            &&& locked.release_funds_result(bounty_id) is Ok
            &&& asked[1] == (BountyCall::Transfer {
                token: view.state.token.unwrap(),
                from: view.contract,
                to: contributor,
                amount,
            })
            &&& locked.release_funds(bounty_id, contributor).escrow(bounty_id) == Some(
                Escrow { depositor, amount, status: EscrowStatus::Released, deadline },
            )
        }),
{
}

/// A depositor on the whitelist is never held up by the rate limit, and nothing is counted.
pub proof fn law_whitelist_exempts(view: BountyView, depositor: Account, bounty_id: u64)
    requires
        view.whitelisted(depositor),
    ensures
        view.rate_limit_defined(depositor),
        view.check_rate_limit_result(depositor) is Ok,
        view.check_rate_limit(depositor).state == view.state,
        view.check_rate_limit(depositor).calls == view.calls,
        view.lock_funds_result(depositor, bounty_id) != Err::<(), Error>(Error::CooldownActive),
        view.lock_funds_result(depositor, bounty_id) != Err::<(), Error>(Error::RateLimitExceeded),
{
    assert(view.check_rate_limit(depositor).calls =~= view.calls);
}

/// Setting the whitelist status of a party decides whether it is on the whitelist, whatever it was
/// before, and concerns that party alone.
pub proof fn law_whitelist_status_is_what_was_set(
    view: BountyView,
    address: Account,
    whitelisted: bool,
    other: Account,
)
    requires
        view.state.admin is Some,
    ensures
        view.set_whitelist_status(address, whitelisted).whitelisted(address) == whitelisted,
        other != address ==> view.set_whitelist_status(address, whitelisted).whitelisted(other)
            == view.whitelisted(other),
{
}

/// Users are limited each on their own: what one depositor does changes nothing about whether
/// another is let through.
pub proof fn law_users_are_limited_separately(
    view: BountyView,
    depositor: Account,
    bounty_id: u64,
    amount: i128,
    deadline: u64,
    other: Account,
)
    requires
        other != depositor,
    ensures
        view.lock_funds(depositor, bounty_id, amount, deadline).rate_limit(other)
            == view.rate_limit(other),
        view.lock_funds(depositor, bounty_id, amount, deadline).rate_limit_defined(other)
            == view.rate_limit_defined(other),
{
    let after = view.lock_funds(depositor, bounty_id, amount, deadline);
    assert(after.stats_of(other) == view.stats_of(other));
}

/// A depositor off the whitelist has to wait: the deposit after an accepted one is refused with
/// `CooldownActive` until the cooldown has passed, unless the clock stood at zero. The end of the
/// cooldown has to be a time that can be represented.
pub proof fn law_second_deposit_waits_for_the_cooldown(
    view: BountyView,
    depositor: Account,
    bounty_id: u64,
    amount: i128,
    deadline: u64,
    next_bounty_id: u64,
    timestamp: u64,
)
    requires
        view.valid(),
        view.rate_limit_defined(depositor),
        !view.whitelisted(depositor),
        view.lock_funds_result(depositor, bounty_id) is Ok,
        0 < view.timestamp,
        view.timestamp + view.state.rate_limit_cfg.unwrap().cooldown_seconds <= u64::MAX,
        timestamp < view.timestamp + view.state.rate_limit_cfg.unwrap().cooldown_seconds,
    ensures
        ({
            let later = view.lock_funds(depositor, bounty_id, amount, deadline).step(
                BountyOp::SetTime { timestamp },
            );
            &&& later.rate_limit_defined(depositor)
            &&& later.lock_funds_result(depositor, next_bounty_id) == Err::<(), Error>(
                Error::CooldownActive,
            )
        }),
{
}

/// The operation leaves the limits and the standing of the user alone: it sets no limits, and does
/// not put the user on the whitelist or make the statistics of the user lapse.
pub open spec fn leaves_limits_alone(op: BountyOp, user: Account) -> bool {
    match op {
        BountyOp::SetRateLimitConfig { .. } => false,
        BountyOp::SetWhitelistStatus { address, whitelisted } => address != user || !whitelisted,
        BountyOp::LapseStats { user: lapsed } => lapsed != user,
        _ => true,
    }
}

/// Where the last operation of the user is known to be no earlier than some time above zero, it
/// stays so.
proof fn lemma_last_operation_moves_on(
    view: BountyView,
    ops: Seq<BountyOp>,
    user: Account,
    first: u64,
)
    requires
        view.state.admin is Some,
        view.state.rate_limit_cfg is Some,
        !view.whitelisted(user),
        0 < first,
        view.stats_of(user) matches Some(stats) && first <= stats.last_operation_time,
        forall|i: int| 0 <= i < ops.len() ==> leaves_limits_alone(#[trigger] ops[i], user),
    ensures
        view.run(ops).state.admin is Some,
        view.run(ops).state.rate_limit_cfg == view.state.rate_limit_cfg,
        !view.run(ops).whitelisted(user),
        view.run(ops).stats_of(user) matches Some(stats) && first <= stats.last_operation_time,
    decreases ops.len(),
{
    if ops.len() != 0 {
        let earlier = ops.drop_last();
        assert forall|i: int| 0 <= i < earlier.len() implies leaves_limits_alone(
            #[trigger] earlier[i],
            user,
        ) by {
            assert(earlier[i] == ops[i]);
        }
        lemma_last_operation_moves_on(view, earlier, user, first);
        assert(leaves_limits_alone(ops[ops.len() - 1], user));
    }
}

/// Any two accepted deposits of a depositor off the whitelist lie at least the cooldown apart,
/// whatever happens in between, as long as the limits and the standing of the depositor are left
/// alone: until the cooldown after the first has passed, every further one whose rate limit can be
/// worked out is refused with `CooldownActive`. A deposit at time zero starts no cooldown.
pub proof fn law_accepted_deposits_lie_the_cooldown_apart(
    view: BountyView,
    depositor: Account,
    bounty_id: u64,
    amount: i128,
    deadline: u64,
    between: Seq<BountyOp>,
    next_bounty_id: u64,
)
    requires
        view.valid(),
        view.rate_limit_defined(depositor),
        !view.whitelisted(depositor),
        view.lock_funds_result(depositor, bounty_id) is Ok,
        0 < view.timestamp,
        forall|i: int|
            0 <= i < between.len() ==> leaves_limits_alone(#[trigger] between[i], depositor),
    ensures
        ({
            let later = view.lock_funds(depositor, bounty_id, amount, deadline).run(between);
            let cooldown_end = view.timestamp + view.state.rate_limit_cfg->0.cooldown_seconds;
            &&& later.lock_funds_result(depositor, next_bounty_id) is Ok ==> cooldown_end
                <= later.timestamp
            &&& later.timestamp < cooldown_end && later.rate_limit_defined(depositor)
                ==> later.lock_funds_result(depositor, next_bounty_id) == Err::<(), Error>(
                Error::CooldownActive,
            )
        }),
{
    let locked = view.lock_funds(depositor, bounty_id, amount, deadline);
    lemma_last_operation_moves_on(locked, between, depositor, view.timestamp);
}

/// The operation leaves the limits, the standing of the user and the window alone: it sets no
/// limits, does not put the user on the whitelist or make the statistics of the user lapse, and
/// does not take the clock to the end of the window.
pub open spec fn within_window(op: BountyOp, user: Account, window_end: int) -> bool {
    match op {
        BountyOp::SetTime { timestamp } => timestamp < window_end,
        _ => leaves_limits_alone(op, user),
    }
}

/// How many deposits of the user are accepted among the operations.
pub open spec fn accepted_deposits(view: BountyView, ops: Seq<BountyOp>, user: Account) -> nat
    decreases ops.len(),
{
    if ops.len() == 0 {
        0
    } else {
        let before = view.run(ops.drop_last());
        accepted_deposits(view, ops.drop_last(), user) + match ops.last() {
            BountyOp::LockFunds { depositor, bounty_id, .. } => if depositor == user
                && before.rate_limit_defined(user) && before.lock_funds_result(
                user,
                bounty_id,
            ) is Ok {
                1nat
            } else {
                0nat
            },
            _ => 0nat,
        }
    }
}

/// Within one window a depositor off the whitelist gets no more deposits accepted than the limits
/// allow, whatever else is called in between, and refused ones do not count.
pub proof fn law_deposits_in_a_window_are_limited(
    view: BountyView,
    ops: Seq<BountyOp>,
    user: Account,
)
    requires
        view.valid(),
        view.state.admin is Some,
        !view.whitelisted(user),
        view.stats_of(user) is Some,
        view.timestamp < view.stats_of(user)->0.window_start_time
            + view.state.rate_limit_cfg->0.window_seconds,
        forall|i: int|
            0 <= i < ops.len() ==> within_window(
                #[trigger] ops[i],
                user,
                view.stats_of(user)->0.window_start_time
                    + view.state.rate_limit_cfg->0.window_seconds,
            ),
    ensures
        ({
            let counted = view.stats_of(user)->0.op_count;
            let accepted = accepted_deposits(view, ops, user);
            &&& accepted == 0 || counted + accepted
                <= view.state.rate_limit_cfg->0.max_ops_per_window
            &&& view.run(ops).stats_of(user) matches Some(stats)
            &&& stats.op_count == counted + accepted
            &&& stats.window_start_time == view.stats_of(user)->0.window_start_time
        }),
        view.run(ops).state.admin is Some,
        view.run(ops).state.rate_limit_cfg == view.state.rate_limit_cfg,
        !view.run(ops).whitelisted(user),
        view.run(ops).timestamp < view.stats_of(user)->0.window_start_time
            + view.state.rate_limit_cfg->0.window_seconds,
    decreases ops.len(),
{
    if ops.len() != 0 {
        let earlier = ops.drop_last();
        let window_end = view.stats_of(user)->0.window_start_time
            + view.state.rate_limit_cfg->0.window_seconds;
        assert forall|i: int| 0 <= i < earlier.len() implies within_window(
            #[trigger] earlier[i],
            user,
            window_end,
        ) by {
            assert(earlier[i] == ops[i]);
        }
        law_deposits_in_a_window_are_limited(view, earlier, user);
        law_validity_is_kept_throughout(view, earlier);
        assert(within_window(ops[ops.len() - 1], user, window_end));
    }
}

} // verus!
