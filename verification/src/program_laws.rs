//! What holds of the program escrow as a whole.
use vstd::prelude::*;

use crate::account::Account;
use crate::host::{
    lemma_net_inflow_concat, lemma_no_transfer, lemma_single_transfer, net_inflow, HostCall,
};
use crate::program_escrow::{
    amounts_sum, batch_records, batch_total, batch_transfers, lemma_batch_total, PayoutRecord,
    ProgramAsk, ProgramEntry, ProgramInfo, ProgramKey, ProgramState, ProgramView,
};
use crate::rate_limit::RateLimitConfig;
use crate::rejection::Rejection;

verus! {

/// Something that happens to the contract: one of its functions is called, or the ledger moves on.
pub enum ProgramOp {
    InitProgram { program_id: Seq<u8>, payout_key: Account, token: Account },
    SetRateLimitConfig { config: RateLimitConfig },
    SetWhitelistStatus { address: Account, whitelisted: bool },
    LockProgramFunds { amount: i128 },
    BatchPayout { recipients: Seq<Account>, amounts: Seq<i128> },
    SinglePayout { recipient: Account, amount: i128 },
    /// The time of the ledger is set.
    SetTime { timestamp: u64 },
    /// The time to live of the statistics of a user runs out.
    LapseStats { user: Account },
}

impl ProgramView {
    /// The ledger after the operation.
    pub open spec fn step(self, op: ProgramOp) -> Self {
        match op {
            ProgramOp::InitProgram { program_id, payout_key, token } => self.init_program(
                program_id,
                payout_key,
                token,
            ),
            ProgramOp::SetRateLimitConfig { config } => self.set_rate_limit_config(config),
            ProgramOp::SetWhitelistStatus { address, whitelisted } => self.set_whitelist_status(
                address,
                whitelisted,
            ),
            ProgramOp::LockProgramFunds { amount } => self.lock_program_funds(amount),
            ProgramOp::BatchPayout { recipients, amounts } => self.batch_payout(
                recipients,
                amounts,
            ),
            ProgramOp::SinglePayout { recipient, amount } => self.single_payout(recipient, amount),
            ProgramOp::SetTime { timestamp } => ProgramView { timestamp, ..self },
            ProgramOp::LapseStats { user } => ProgramView {
                state: ProgramState { stats: self.state.stats.remove(user), ..self.state },
                ..self
            },
        }
    }

    /// The ledger after the operations, one after the other.
    pub open spec fn run(self, ops: Seq<ProgramOp>) -> Self
        decreases ops.len(),
    {
        if ops.len() == 0 {
            self
        } else {
            self.run(ops.drop_last()).step(ops.last())
        }
    }

    /// Whether a call of the contract is refused.
    pub open spec fn refuses(self, op: ProgramOp) -> bool {
        match op {
            ProgramOp::InitProgram { program_id, payout_key, token } => self.init_program_result(
                program_id,
                payout_key,
                token,
            ) is Err,
            ProgramOp::SetRateLimitConfig { .. } => self.payout_key_result() is Err,
            ProgramOp::SetWhitelistStatus { .. } => self.payout_key_result() is Err,
            ProgramOp::LockProgramFunds { amount } => self.lock_program_funds_result(
                amount,
            ) is Err,
            ProgramOp::BatchPayout { recipients, amounts } => self.batch_payout_result(
                recipients,
                amounts,
            ) is Err,
            ProgramOp::SinglePayout { recipient, amount } => self.single_payout_result(
                recipient,
                amount,
            ) is Err,
            _ => false,
        }
    }

    /// What the operation asks of the host.
    pub open spec fn asked_by(self, op: ProgramOp) -> Seq<ProgramAsk> {
        let calls = self.step(op).calls;
        calls.subrange(self.calls.len() as int, calls.len() as int)
    }
}

/// What some payments come to.
pub open spec fn records_sum(records: Seq<PayoutRecord>) -> int
    decreases records.len(),
{
    if records.len() == 0 {
        0
    } else {
        records_sum(records.drop_last()) + records.last().amount
    }
}

proof fn lemma_records_sum_concat(first: Seq<PayoutRecord>, second: Seq<PayoutRecord>)
    ensures
        records_sum(first + second) == records_sum(first) + records_sum(second),
    decreases second.len(),
{
    if second.len() == 0 {
        assert(first + second =~= first);
    } else {
        assert((first + second).drop_last() =~= first + second.drop_last());
        lemma_records_sum_concat(first, second.drop_last());
    }
}

/// The records of a batch come to the sum of its amounts.
proof fn lemma_batch_records_sum(recipients: Seq<Account>, amounts: Seq<i128>, timestamp: u64)
    requires
        recipients.len() == amounts.len(),
    ensures
        records_sum(batch_records(recipients, amounts, timestamp)) == amounts_sum(amounts),
    decreases recipients.len(),
{
    let records = batch_records(recipients, amounts, timestamp);
    if recipients.len() != 0 {
        assert(records.drop_last() =~= batch_records(
            recipients.drop_last(),
            amounts.drop_last(),
            timestamp,
        ));
        lemma_batch_records_sum(recipients.drop_last(), amounts.drop_last(), timestamp);
    }
}

/// The books of a program balance: what was locked and not paid out is what is left, the pool is
/// not overdrawn, and only positive amounts were paid.
pub open spec fn balanced(program: ProgramInfo) -> bool {
    &&& program.remaining_balance + records_sum(program.payout_history) == program.total_funds
    &&& 0 <= program.remaining_balance
    &&& forall|i: int|
        0 <= i < program.payout_history.len() ==> 0 < #[trigger] program.payout_history[i].amount
}

/// If there is a program, its books balance.
pub open spec fn books_balance(view: ProgramView) -> bool {
    view.state.program matches Some(program) ==> balanced(program)
}

/// Every operation leaves balanced books balanced.
pub proof fn law_books_stay_balanced(view: ProgramView, op: ProgramOp)
    requires
        books_balance(view),
    ensures
        books_balance(view.step(op)),
{
    if view.state.program is None {
        assert(records_sum(seq![]) == 0);
    } else {
        let program = view.state.program.unwrap();
        match op {
            ProgramOp::BatchPayout { recipients, amounts } => {
                if !view.refuses(op) {
                    let records = batch_records(recipients, amounts, view.timestamp);
                    lemma_batch_total(amounts);
                    lemma_batch_records_sum(recipients, amounts, view.timestamp);
                    lemma_records_sum_concat(program.payout_history, records);
                    let after = view.step(op).state.program.unwrap();
                    assert forall|i: int| 0 <= i < after.payout_history.len() implies 0
                        < #[trigger] after.payout_history[i].amount by {
                        if i < program.payout_history.len() {
                            assert(0 < program.payout_history[i].amount);
                        } else {
                            assert(0 < amounts[i - program.payout_history.len()]);
                        }
                    }
                }
            },
            ProgramOp::SinglePayout { recipient, amount } => {
                if !view.refuses(op) {
                    let record = PayoutRecord { recipient, amount, timestamp: view.timestamp };
                    assert(records_sum(seq![record]) == amount) by {
                        reveal_with_fuel(records_sum, 2);
                    }
                    lemma_records_sum_concat(program.payout_history, seq![record]);
                }
            },
            _ => {},
        }
    }
}

/// From the first call on, whatever is called in whatever order, the books balance: no more is
/// ever paid out than was locked.
pub proof fn law_books_always_balance(start: ProgramView, ops: Seq<ProgramOp>)
    requires
        start.state == ProgramState::empty(),
    ensures
        books_balance(start.run(ops)),
        start.run(ops).state.program matches Some(program) ==> records_sum(program.payout_history)
            <= program.total_funds,
    decreases ops.len(),
{
    if ops.len() != 0 {
        law_books_always_balance(start, ops.drop_last());
        law_books_stay_balanced(start.run(ops.drop_last()), ops.last());
    }
}

/// How a program can develop: its name, payout key and token stay, what was ever locked does not
/// shrink, and payments are added to the record but never changed or taken out.
pub open spec fn develops(before: ProgramInfo, after: ProgramInfo) -> bool {
    &&& after.program_id == before.program_id
    &&& after.authorized_payout_key == before.authorized_payout_key
    &&& after.token_address == before.token_address
    &&& before.total_funds <= after.total_funds
    &&& before.payout_history.is_prefix_of(after.payout_history)
}

/// Over any number of operations a program stays the program that it was, its record of payments
/// only grows, and no other program can take its place.
pub proof fn law_program_is_kept_and_history_only_grows(
    view: ProgramView,
    ops: Seq<ProgramOp>,
    other_id: Seq<u8>,
    other_key: Account,
    other_token: Account,
)
    requires
        view.state.program is Some,
    ensures
        view.run(ops).state.program is Some,
        develops(view.state.program.unwrap(), view.run(ops).state.program.unwrap()),
        view.run(ops).init_program_result(other_id, other_key, other_token)
            == Err::<ProgramInfo, Rejection>(Rejection::AlreadyInitialized),
    decreases ops.len(),
{
    if ops.len() != 0 {
        law_program_is_kept_and_history_only_grows(
            view,
            ops.drop_last(),
            other_id,
            other_key,
            other_token,
        );
        let before = view.run(ops.drop_last());
        let program = before.state.program.unwrap();
        let after = before.step(ops.last()).state.program.unwrap();
        assert(program.payout_history.is_prefix_of(after.payout_history));
        let first = view.state.program.unwrap().payout_history;
        assert(first =~= after.payout_history.subrange(0, first.len() as int));
    }
}

/// No recipient of the operation is the contract itself.
pub open spec fn pays_others(view: ProgramView, op: ProgramOp) -> bool {
    match op {
        ProgramOp::BatchPayout { recipients, .. } => !recipients.contains(view.contract),
        ProgramOp::SinglePayout { recipient, .. } => recipient != view.contract,
        _ => true,
    }
}

/// The transfers of a batch take the sum of its amounts out of the account that pays.
proof fn lemma_batch_transfers_inflow(
    token: Account,
    from: Account,
    recipients: Seq<Account>,
    amounts: Seq<i128>,
    counted: Account,
)
    requires
        recipients.len() == amounts.len(),
        !recipients.contains(from),
    ensures
        net_inflow(batch_transfers(token, from, recipients, amounts), counted, from) == (
        if counted == token {
            -amounts_sum(amounts)
        } else {
            0
        }),
    decreases recipients.len(),
{
    let transfers = batch_transfers(token, from, recipients, amounts);
    if recipients.len() != 0 {
        let earlier = recipients.drop_last();
        assert(transfers.drop_last() =~= batch_transfers(
            token,
            from,
            earlier,
            amounts.drop_last(),
        ));
        assert(!earlier.contains(from)) by {
            if earlier.contains(from) {
                let i = earlier.index_of(from);
                assert(recipients[i] == from);
            }
        }
        assert(recipients.contains(recipients.last()));
        lemma_batch_transfers_inflow(token, from, earlier, amounts.drop_last(), counted);
    }
}

/// What the record of payments comes to.
pub open spec fn paid_out(view: ProgramView) -> int {
    match view.state.program {
        Some(program) => records_sum(program.payout_history),
        None => 0,
    }
}

/// With every operation just as many tokens leave the contract as are added to the record of
/// payments, in the token of the program, and no other tokens move. Locking funds moves none.
pub proof fn law_operation_moves_what_it_records(view: ProgramView, op: ProgramOp, token: Account)
    requires
        pays_others(view, op),
    ensures
        net_inflow(view.step(op).calls, token, view.contract) == net_inflow(
            view.calls,
            token,
            view.contract,
        ) - (if view.state.program matches Some(program) && program.token_address == token {
            paid_out(view.step(op)) - paid_out(view)
        } else {
            0
        }),
{
    let asked = view.asked_by(op);
    let holder = view.contract;
    assert(view.step(op).calls =~= view.calls + asked);
    lemma_net_inflow_concat(view.calls, asked, token, holder);
    if view.refuses(op) || view.state.program is None {
        lemma_no_transfer(asked, token, holder);
    } else {
        let program = view.state.program.unwrap();
        match op {
            ProgramOp::BatchPayout { recipients, amounts } => {
                let transfers = batch_transfers(
                    program.token_address,
                    holder,
                    recipients,
                    amounts,
                );
                let first = view.payer_calls();
                let rest = asked.subrange(asked.len() - 2, asked.len() as int);
                assert(asked =~= first + transfers + rest);
                lemma_net_inflow_concat(first + transfers, rest, token, holder);
                lemma_net_inflow_concat(first, transfers, token, holder);
                lemma_no_transfer(first, token, holder);
                lemma_no_transfer(rest, token, holder);
                lemma_batch_transfers_inflow(
                    program.token_address,
                    holder,
                    recipients,
                    amounts,
                    token,
                );
                lemma_batch_records_sum(recipients, amounts, view.timestamp);
                lemma_records_sum_concat(
                    program.payout_history,
                    batch_records(recipients, amounts, view.timestamp),
                );
            },
            ProgramOp::SinglePayout { recipient, amount } => {
                let at = asked.len() - 3;
                let record = PayoutRecord { recipient, amount, timestamp: view.timestamp };
                assert(asked[at] == (ProgramAsk::Transfer {
                    token: program.token_address,
                    from: holder,
                    to: recipient,
                    amount,
                }));
                lemma_single_transfer(asked, at, token, holder);
                assert(records_sum(seq![record]) == amount) by {
                    reveal_with_fuel(records_sum, 2);
                }
                lemma_records_sum_concat(program.payout_history, seq![record]);
            },
            _ => {
                lemma_no_transfer(asked, token, holder);
            },
        }
    }
}

/// From the first call on, whatever is called in whatever order, the contract has paid, net,
/// exactly what the record of payments comes to.
pub proof fn law_contract_pays_what_is_recorded(
    start: ProgramView,
    ops: Seq<ProgramOp>,
    token: Account,
)
    requires
        start.state == ProgramState::empty(),
        start.calls.len() == 0,
        forall|i: int| 0 <= i < ops.len() ==> pays_others(start, #[trigger] ops[i]),
    ensures
        net_inflow(start.run(ops).calls, token, start.contract) == (if start.run(
            ops,
        ).state.program matches Some(program) && program.token_address == token {
            -paid_out(start.run(ops))
        } else {
            0
        }),
        start.run(ops).contract == start.contract,
    decreases ops.len(),
{
    if ops.len() != 0 {
        let earlier = ops.drop_last();
        assert forall|i: int| 0 <= i < earlier.len() implies pays_others(
            start,
            #[trigger] earlier[i],
        ) by {
            assert(earlier[i] == ops[i]);
        }
        law_contract_pays_what_is_recorded(start, earlier, token);
        assert(pays_others(start, ops[ops.len() - 1]));
        let before = start.run(earlier);
        law_operation_moves_what_it_records(before, ops.last(), token);
        if before.state.program is None {
            assert(records_sum(seq![]) == 0);
        } else {
            assert(before.step(ops.last()).state.program matches Some(program)
                && program.token_address == before.state.program->0.token_address);
        }
    }
}

/// The payments of a batch, one by one.
pub open spec fn one_by_one(recipients: Seq<Account>, amounts: Seq<i128>) -> Seq<ProgramOp> {
    Seq::new(
        recipients.len(),
        |i: int| ProgramOp::SinglePayout { recipient: recipients[i], amount: amounts[i] },
    )
}

proof fn lemma_sum_prefix(amounts: Seq<i128>, n: int)
    requires
        0 <= n <= amounts.len(),
        forall|i: int| 0 <= i < amounts.len() ==> 0 < #[trigger] amounts[i],
    ensures
        0 <= amounts_sum(amounts.take(n)) <= amounts_sum(amounts),
    decreases amounts.len(),
{
    if n == amounts.len() {
        assert(amounts.take(n) =~= amounts);
        lemma_batch_total(amounts);
    } else {
        let earlier = amounts.drop_last();
        assert(earlier.take(n) =~= amounts.take(n));
        assert(0 < amounts[amounts.len() - 1]);
        assert forall|i: int| 0 <= i < earlier.len() implies 0 < #[trigger] earlier[i] by {
            assert(0 < amounts[i]);
        }
        lemma_sum_prefix(earlier, n);
    }
}

/// After the first payments of a batch, made one by one.
proof fn lemma_one_by_one(
    view: ProgramView,
    recipients: Seq<Account>,
    amounts: Seq<i128>,
    n: int,
)
    requires
        view.state.program matches Some(program) && view.whitelisted(program.authorized_payout_key),
        view.batch_payout_result(recipients, amounts) is Ok,
        0 <= n <= recipients.len(),
    ensures
        ({
            let program = view.state.program.unwrap();
            let after = view.run(one_by_one(recipients, amounts).take(n));
            &&& after.timestamp == view.timestamp
            &&& after.state == (ProgramState {
                program: Some(
                    program.paid(
                        batch_records(recipients, amounts, view.timestamp).take(n),
                        amounts_sum(amounts.take(n)),
                    ),
                ),
                ..view.state
            })
        }),
    decreases n,
{
    let program = view.state.program.unwrap();
    let ops = one_by_one(recipients, amounts);
    let records = batch_records(recipients, amounts, view.timestamp);
    lemma_batch_total(amounts);
    lemma_sum_prefix(amounts, n);
    if n == 0 {
        assert(ops.take(0) =~= seq![]);
        assert(amounts.take(0) =~= seq![]);
        assert(program.payout_history + records.take(0) =~= program.payout_history);
        assert(view.run(ops.take(0)).state.program.unwrap() =~= program.paid(records.take(0), 0));
    } else {
        lemma_one_by_one(view, recipients, amounts, n - 1);
        lemma_sum_prefix(amounts, n - 1);
        assert(ops.take(n).drop_last() =~= ops.take(n - 1));
        assert(amounts.take(n).drop_last() =~= amounts.take(n - 1));
        assert(amounts.take(n).last() == amounts[n - 1]);
        assert(0 < amounts[n - 1]);
        let before = view.run(ops.take(n - 1));
        let after = view.run(ops.take(n));
        assert(after == before.single_payout(recipients[n - 1], amounts[n - 1]));
        assert(records.take(n) =~= records.take(n - 1) + seq![records[n - 1]]);
        assert(program.payout_history + records.take(n) =~= program.payout_history + records.take(
            n - 1,
        ) + seq![records[n - 1]]);
        assert(after.state.program.unwrap() =~= program.paid(
            records.take(n),
            amounts_sum(amounts.take(n)),
        ));
        assert(after.state =~= ProgramState {
            program: Some(program.paid(records.take(n), amounts_sum(amounts.take(n)))),
            ..view.state
        });
    }
}

/// A batch is worth its parts: where the holder of the payout key is not rate limited, a batch that
/// succeeds leaves the same ledger entries behind as paying the recipients one by one.
pub proof fn law_batch_is_its_single_payments(
    view: ProgramView,
    recipients: Seq<Account>,
    amounts: Seq<i128>,
)
    requires
        view.state.program matches Some(program) && view.whitelisted(program.authorized_payout_key),
        view.batch_payout_result(recipients, amounts) is Ok,
    ensures
        view.run(one_by_one(recipients, amounts)).state == view.batch_payout(
            recipients,
            amounts,
        ).state,
{
    let n = recipients.len() as int;
    let records = batch_records(recipients, amounts, view.timestamp);
    lemma_one_by_one(view, recipients, amounts, n);
    lemma_batch_total(amounts);
    assert(one_by_one(recipients, amounts).take(n) =~= one_by_one(recipients, amounts));
    assert(records.take(n) =~= records);
    assert(amounts.take(n) =~= amounts);
}

/// A batch for one recipient does what a single payment does. It is answered the same, but for the
/// words in which an amount that is not positive is refused; it leaves the same ledger entries
/// behind; and it asks the same of the host, but for the event that a payment ends with.
pub proof fn law_batch_of_one_is_a_single_payment(
    view: ProgramView,
    recipient: Account,
    amount: i128,
)
    ensures
        view.batch_payout_result(seq![recipient], seq![amount]) == (
        match view.single_payout_result(recipient, amount) {
            Err(Rejection::AmountNotPositive) => Err(Rejection::BatchAmountNotPositive),
            answer => answer,
        }),
        view.batch_payout(seq![recipient], seq![amount]).state == view.single_payout(
            recipient,
            amount,
        ).state,
        ({
            let batch = view.asked_by(
                ProgramOp::BatchPayout { recipients: seq![recipient], amounts: seq![amount] },
            );
            let single = view.asked_by(ProgramOp::SinglePayout { recipient, amount });
            if view.single_payout_result(recipient, amount) is Ok {
                &&& 0 < batch.len() && 0 < single.len()
                &&& batch.drop_last() == single.drop_last()
                &&& batch.last() is Publish && single.last() is Publish
            } else {
                batch == single
            }
        }),
{
    let amounts = seq![amount];
    assert(amounts.drop_last() =~= seq![]);
    assert(batch_total(amounts.drop_last()) == Ok::<int, Rejection>(0));
    let record = PayoutRecord { recipient, amount, timestamp: view.timestamp };
    assert(batch_records(seq![recipient], amounts, view.timestamp) =~= seq![record]);
    let batch = view.asked_by(ProgramOp::BatchPayout { recipients: seq![recipient], amounts });
    let single = view.asked_by(ProgramOp::SinglePayout { recipient, amount });
    if view.single_payout_result(recipient, amount) is Ok {
        assert(batch.drop_last() =~= single.drop_last());
    } else {
        assert(batch =~= single);
    }
}

/// A refused call leaves all ledger entries as they were, and moves no tokens.
pub proof fn law_refused_call_changes_nothing(view: ProgramView, op: ProgramOp)
    requires
        view.refuses(op),
    ensures
        view.step(op).state == view.state,
        forall|i: int|
            0 <= i < view.asked_by(op).len() ==> !(#[trigger] view.asked_by(op)[i] is Transfer),
{
}

/// Tokens leave the contract only with the consent of the holder of the payout key, and nobody
/// else's tokens are ever moved: every transfer goes out of the contract, in the token of the
/// program, after the demand that the holder authorizes the call.
pub proof fn law_transfers_have_authority(view: ProgramView, op: ProgramOp, i: int)
    requires
        0 <= i < view.asked_by(op).len(),
        view.asked_by(op)[i] is Transfer,
    ensures
        ({
            let asked = view.asked_by(op);
            &&& view.state.program matches Some(program)
            &&& asked[i]->from == view.contract
            &&& asked[i]->token == program.token_address
            &&& 0 < i
            &&& asked[0] == (ProgramAsk::RequireAuth(program.authorized_payout_key))
        }),
{
    let asked = view.asked_by(op);
    if !(view.refuses(op) || view.state.program is None) {
        let program = view.state.program.unwrap();
        match op {
            ProgramOp::BatchPayout { recipients, amounts } => {
                let first = view.payer_calls();
                let transfers = batch_transfers(
                    program.token_address,
                    view.contract,
                    recipients,
                    amounts,
                );
                let rest = asked.subrange(asked.len() - 2, asked.len() as int);
                assert(asked =~= first + transfers + rest);
                assert(asked[0] == first[0]);
                if i < first.len() {
                    assert(asked[i] == first[i]);
                } else if i < first.len() + transfers.len() {
                    assert(asked[i] == transfers[i - first.len()]);
                }
            },
            ProgramOp::SinglePayout { .. } => {
                assert(asked[0] == view.payer_calls()[0]);
            },
            _ => {},
        }
    }
}

/// The state of the ledger after the host has performed one request.
pub open spec fn perform(state: ProgramState, call: ProgramAsk) -> ProgramState {
    match call {
        HostCall::Write(ProgramEntry::ProgramData(program)) => ProgramState {
            program: Some(program),
            ..state
        },
        HostCall::Write(ProgramEntry::RateLimitConfig(config)) => ProgramState {
            rate_limit_config: Some(config),
            ..state
        },
        HostCall::Write(ProgramEntry::UserStats(user, stats)) => ProgramState {
            stats: state.stats.insert(user, stats),
            ..state
        },
        HostCall::Write(ProgramEntry::Whitelist(address, listed)) => ProgramState {
            whitelist: state.whitelist.insert(address, listed),
            ..state
        },
        HostCall::Remove(ProgramKey::ProgramData) => ProgramState { program: None, ..state },
        HostCall::Remove(ProgramKey::RateLimitConfig) => ProgramState {
            rate_limit_config: None,
            ..state
        },
        HostCall::Remove(ProgramKey::UserStats(user)) => ProgramState {
            stats: state.stats.remove(user),
            ..state
        },
        HostCall::Remove(ProgramKey::Whitelist(address)) => ProgramState {
            whitelist: state.whitelist.remove(address),
            ..state
        },
        _ => state,
    }
}

/// The state of the ledger after the host has performed the requests in order.
pub open spec fn perform_all(state: ProgramState, calls: Seq<ProgramAsk>) -> ProgramState
    decreases calls.len(),
{
    if calls.len() == 0 {
        state
    } else {
        perform(perform_all(state, calls.drop_last()), calls.last())
    }
}

proof fn lemma_perform_concat(
    state: ProgramState,
    first: Seq<ProgramAsk>,
    second: Seq<ProgramAsk>,
)
    ensures
        perform_all(state, first + second) == perform_all(perform_all(state, first), second),
    decreases second.len(),
{
    if second.len() == 0 {
        assert(first + second =~= first);
    } else {
        assert((first + second).drop_last() =~= first + second.drop_last());
        lemma_perform_concat(state, first, second.drop_last());
    }
}

proof fn lemma_perform_three(state: ProgramState, a: ProgramAsk, b: ProgramAsk, c: ProgramAsk)
    ensures
        perform_all(state, seq![]) == state,
        perform_all(state, seq![a]) == perform(state, a),
        perform_all(state, seq![a, b]) == perform(perform(state, a), b),
        perform_all(state, seq![a, b, c]) == perform(perform(perform(state, a), b), c),
{
    let none: Seq<ProgramAsk> = seq![];
    assert(seq![a].drop_last() =~= none);
    assert(seq![a, b].drop_last() =~= seq![a]);
    assert(seq![a, b, c].drop_last() =~= seq![a, b]);
}

/// Requests that write nothing leave the ledger entries as they were.
proof fn lemma_perform_nothing(state: ProgramState, calls: Seq<ProgramAsk>)
    requires
        forall|i: int| 0 <= i < calls.len() ==> #[trigger] calls[i] is Transfer,
    ensures
        perform_all(state, calls) == state,
    decreases calls.len(),
{
    if calls.len() != 0 {
        let earlier = calls.drop_last();
        assert forall|i: int| 0 <= i < earlier.len() implies #[trigger] earlier[i] is Transfer by {
            assert(earlier[i] == calls[i]);
        }
        lemma_perform_nothing(state, earlier);
        assert(calls[calls.len() - 1] is Transfer);
    }
}

/// What every payment asks for to begin with keeps the statistics of the holder of the payout key.
proof fn lemma_perform_payer_calls(view: ProgramView)
    requires
        view.payer_result() is Ok,
    ensures
        perform_all(view.state, view.payer_calls()) == (ProgramState {
            stats: view.stats_kept(view.state.program.unwrap().authorized_payout_key),
            ..view.state
        }),
{
    let payout_key = view.state.program.unwrap().authorized_payout_key;
    let limits = view.rate_limit_calls(payout_key);
    let auth = ProgramAsk::RequireAuth(payout_key);
    lemma_perform_concat(view.state, seq![auth], limits);
    lemma_perform_three(view.state, auth, auth, auth);
    if view.whitelisted(payout_key) {
        assert(limits =~= seq![]);
    } else {
        assert(limits =~= seq![limits[0], limits[1]]);
        lemma_perform_three(view.state, limits[0], limits[1], limits[1]);
    }
}

/// The requests of a call that succeeds say all that changes: a host that performs them in order
/// arrives at the state that the call leaves behind.
pub proof fn law_requests_describe_the_change(view: ProgramView, op: ProgramOp)
    requires
        !view.refuses(op),
        !(op is SetTime),
        !(op is LapseStats),
    ensures
        view.step(op).state == perform_all(view.state, view.asked_by(op)),
{
    let asked = view.asked_by(op);
    let start = view.state;
    match op {
        ProgramOp::BatchPayout { recipients, amounts } => {
            let program = start.program.unwrap();
            let first = view.payer_calls();
            let transfers = batch_transfers(
                program.token_address,
                view.contract,
                recipients,
                amounts,
            );
            let rest = asked.subrange(asked.len() - 2, asked.len() as int);
            assert(asked =~= first + transfers + rest);
            lemma_perform_concat(start, first + transfers, rest);
            lemma_perform_concat(start, first, transfers);
            lemma_perform_payer_calls(view);
            let counted = perform_all(start, first);
            lemma_perform_nothing(counted, transfers);
            assert(rest =~= seq![rest[0], rest[1]]);
            lemma_perform_three(counted, rest[0], rest[1], rest[1]);
        },
        ProgramOp::SinglePayout { .. } => {
            let first = view.payer_calls();
            let rest = asked.subrange(asked.len() - 3, asked.len() as int);
            assert(asked =~= first + rest);
            lemma_perform_concat(start, first, rest);
            lemma_perform_payer_calls(view);
            let counted = perform_all(start, first);
            assert(rest =~= seq![rest[0], rest[1], rest[2]]);
            lemma_perform_three(counted, rest[0], rest[1], rest[2]);
        },
        ProgramOp::InitProgram { .. } => {
            assert(asked =~= seq![asked[0], asked[1], asked[2]]);
            lemma_perform_three(start, asked[0], asked[1], asked[2]);
        },
        _ => {
            assert(asked =~= seq![asked[0], asked[1]]);
            lemma_perform_three(start, asked[0], asked[1], asked[1]);
        },
    }
    assert(view.step(op).state =~= perform_all(start, asked));
}

/// A party on the whitelist is never held up by the rate limit, and nothing is counted.
pub proof fn law_whitelist_exempts(view: ProgramView, user: Account)
    requires
        view.whitelisted(user),
    ensures
        view.check_rate_limit_result(user) is Ok,
        view.check_rate_limit(user).state == view.state,
        view.check_rate_limit(user).calls == view.calls,
{
    assert(view.check_rate_limit(user).calls =~= view.calls);
}

/// Setting the whitelist status of a party decides whether it is on the whitelist, whatever it was
/// before, and concerns that party alone.
pub proof fn law_whitelist_status_is_what_was_set(
    view: ProgramView,
    address: Account,
    whitelisted: bool,
    other: Account,
)
    requires
        view.state.program is Some,
    ensures
        view.set_whitelist_status(address, whitelisted).whitelisted(address) == whitelisted,
        other != address ==> view.set_whitelist_status(address, whitelisted).whitelisted(other)
            == view.whitelisted(other),
{
}

/// What was locked can be paid out: right after funds were added, a payment of no more than them
/// can fail only because of the rate limit.
pub proof fn law_locked_funds_can_be_paid_out(
    view: ProgramView,
    amount: i128,
    recipient: Account,
    payment: i128,
)
    requires
        books_balance(view),
        view.lock_program_funds_result(amount) is Ok,
        0 < payment <= amount,
        view.check_rate_limit_result(view.state.program.unwrap().authorized_payout_key) is Ok,
    ensures
        ({
            let locked = view.lock_program_funds(amount);
            &&& locked.single_payout_result(recipient, payment) matches Ok(program)
            &&& program.remaining_balance == view.state.program.unwrap().remaining_balance + amount
                - payment
        }),
{
    let locked = view.lock_program_funds(amount);
    let payout_key = view.state.program.unwrap().authorized_payout_key;
    assert(locked.check_rate_limit_result(payout_key) == view.check_rate_limit_result(payout_key));
}

/// The holder of the payout key, if off the whitelist, has to wait: a payment after one that was
/// made is refused with `CooldownActive` until the cooldown has passed, unless the clock stood at
/// zero. The end of the cooldown has to be a time that can be represented.
pub proof fn law_second_payment_waits_for_the_cooldown(
    view: ProgramView,
    first: ProgramOp,
    timestamp: u64,
    recipients: Seq<Account>,
    amounts: Seq<i128>,
    recipient: Account,
    amount: i128,
)
    requires
        first is BatchPayout || first is SinglePayout,
        !view.refuses(first),
        !view.whitelisted(view.state.program->0.authorized_payout_key),
        0 < view.timestamp,
        view.timestamp + view.limits().cooldown_seconds <= u64::MAX,
        timestamp < view.timestamp + view.limits().cooldown_seconds,
    ensures
        ({
            let later = view.step(first).step(ProgramOp::SetTime { timestamp });
            let waits = Err::<ProgramInfo, Rejection>(Rejection::CooldownActive);
            &&& later.batch_payout_result(recipients, amounts) == waits
            &&& later.single_payout_result(recipient, amount) == waits
        }),
{
}

/// The operation leaves the limits and the standing of the user alone: it sets no limits, and does
/// not put the user on the whitelist or make the statistics of the user lapse.
pub open spec fn leaves_limits_alone(op: ProgramOp, user: Account) -> bool {
    match op {
        ProgramOp::SetRateLimitConfig { .. } => false,
        ProgramOp::SetWhitelistStatus { address, whitelisted } => address != user || !whitelisted,
        ProgramOp::LapseStats { user: lapsed } => lapsed != user,
        _ => true,
    }
}

/// Where the last operation of the holder of the payout key is known to be no earlier than some
/// time above zero, it stays so.
proof fn lemma_last_operation_moves_on(
    view: ProgramView,
    ops: Seq<ProgramOp>,
    user: Account,
    first: u64,
)
    requires
        view.state.program matches Some(program) && program.authorized_payout_key == user,
        !view.whitelisted(user),
        0 < first,
        view.stats_of(user) matches Some(stats) && first <= stats.last_operation_time,
        forall|i: int| 0 <= i < ops.len() ==> leaves_limits_alone(#[trigger] ops[i], user),
    ensures
        view.run(ops).state.program matches Some(program) && program.authorized_payout_key == user,
        view.run(ops).limits() == view.limits(),
        !view.run(ops).whitelisted(user),
        view.run(ops).stats_of(user) matches Some(stats) && first <= stats.last_operation_time,
    decreases ops.len(),
{
    if ops.len() != 0 {
        let earlier = ops.drop_last();
        assert forall|i: int| 0 <= i < earlier.len() implies leaves_limits_alone(
            #[trigger] earlier[i],
            user,
        ) by {
            assert(earlier[i] == ops[i]);
        }
        lemma_last_operation_moves_on(view, earlier, user, first);
        assert(leaves_limits_alone(ops[ops.len() - 1], user));
    }
}

/// Any two calls that pay, to one recipient or to many, lie at least the cooldown apart if the
/// holder of the payout key is off the whitelist, whatever happens in between, as long as the
/// limits and the standing of the holder are left alone: until the cooldown after the first has
/// passed, every further one is refused, with `CooldownActive` where the times that the limits lead
/// to can be represented. A payment at time zero starts no cooldown.
pub proof fn law_payments_lie_the_cooldown_apart(
    view: ProgramView,
    first: ProgramOp,
    between: Seq<ProgramOp>,
    recipients: Seq<Account>,
    amounts: Seq<i128>,
    recipient: Account,
    amount: i128,
)
    requires
        first is BatchPayout || first is SinglePayout,
        !view.refuses(first),
        !view.whitelisted(view.state.program->0.authorized_payout_key),
        0 < view.timestamp,
        forall|i: int|
            0 <= i < between.len() ==> leaves_limits_alone(
                #[trigger] between[i],
                view.state.program->0.authorized_payout_key,
            ),
    ensures
        ({
            let payout_key = view.state.program->0.authorized_payout_key;
            let later = view.step(first).run(between);
            let cooldown_end = view.timestamp + view.limits().cooldown_seconds;
            let batch = later.batch_payout_result(recipients, amounts);
            let single = later.single_payout_result(recipient, amount);
            let waits = Err::<ProgramInfo, Rejection>(Rejection::CooldownActive);
            &&& batch is Ok || single is Ok ==> cooldown_end <= later.timestamp
            &&& later.timestamp < cooldown_end && later.rate_limit_fits(payout_key) ==> batch
                == waits && single == waits
        }),
{
    let payout_key = view.state.program->0.authorized_payout_key;
    lemma_last_operation_moves_on(view.step(first), between, payout_key, view.timestamp);
}

/// The operation leaves the limits, the standing of the user and the window alone: it sets no
/// limits, does not put the user on the whitelist or make the statistics of the user lapse, and
/// does not take the clock to the end of the window.
pub open spec fn within_window(op: ProgramOp, user: Account, window_end: int) -> bool {
    match op {
        ProgramOp::SetTime { timestamp } => timestamp < window_end,
        _ => leaves_limits_alone(op, user),
    }
}

/// How many calls that pay, to one recipient or to many, succeed among the operations.
pub open spec fn accepted_payments(view: ProgramView, ops: Seq<ProgramOp>) -> nat
    decreases ops.len(),
{
    if ops.len() == 0 {
        0
    } else {
        let pays = ops.last() is BatchPayout || ops.last() is SinglePayout;
        accepted_payments(view, ops.drop_last()) + if pays && !view.run(ops.drop_last()).refuses(
            ops.last(),
        ) {
            1nat
        } else {
            0nat
        }
    }
}

/// Within one window the holder of the payout key, if off the whitelist, gets no more payments
/// through than the limits allow, whatever else is called in between, and refused ones do not
/// count.
pub proof fn law_payments_in_a_window_are_limited(view: ProgramView, ops: Seq<ProgramOp>)
    requires
        view.state.program is Some,
        view.state.rate_limit_config is Some,
        !view.whitelisted(view.state.program->0.authorized_payout_key),
        view.stats_of(view.state.program->0.authorized_payout_key) is Some,
        view.timestamp < view.stats_of(
            view.state.program->0.authorized_payout_key,
        )->0.window_start_time + view.state.rate_limit_config->0.window_seconds,
        forall|i: int|
            0 <= i < ops.len() ==> within_window(
                #[trigger] ops[i],
                view.state.program->0.authorized_payout_key,
                view.stats_of(view.state.program->0.authorized_payout_key)->0.window_start_time
                    + view.state.rate_limit_config->0.window_seconds,
            ),
    ensures
        ({
            let user = view.state.program->0.authorized_payout_key;
            let counted = view.stats_of(user)->0.op_count;
            let accepted = accepted_payments(view, ops);
            &&& accepted == 0 || counted + accepted
                <= view.state.rate_limit_config->0.max_ops_per_window
            &&& view.run(ops).stats_of(user) matches Some(stats)
            &&& stats.op_count == counted + accepted
            &&& stats.window_start_time == view.stats_of(user)->0.window_start_time
            &&& view.run(ops).state.program matches Some(program)
            &&& program.authorized_payout_key == user
            &&& view.run(ops).state.rate_limit_config == view.state.rate_limit_config
            &&& !view.run(ops).whitelisted(user)
            &&& view.run(ops).timestamp < stats.window_start_time
                + view.state.rate_limit_config->0.window_seconds
        }),
    decreases ops.len(),
{
    if ops.len() != 0 {
        let earlier = ops.drop_last();
        let user = view.state.program->0.authorized_payout_key;
        let window_end = view.stats_of(user)->0.window_start_time
            + view.state.rate_limit_config->0.window_seconds;
        assert forall|i: int| 0 <= i < earlier.len() implies within_window(
            #[trigger] earlier[i],
            user,
            window_end,
        ) by {
            assert(earlier[i] == ops[i]);
        }
        law_payments_in_a_window_are_limited(view, earlier);
        assert(within_window(ops[ops.len() - 1], user, window_end));
    }
}

} // verus!
