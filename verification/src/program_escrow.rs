//! An escrow that holds the prize pool of one program and pays it out.
//!
//! Funds are locked into the pool at any time. The holder of the payout key pays out of it, to one
//! recipient or to many at once, and every payment is recorded. Payments are rate limited, unless
//! the payout key is on the whitelist.
use vstd::prelude::*;

use crate::account::Account;
use crate::entries::Entries;
use crate::host::{Durability, HostCall};
use crate::rate_limit::{
    assess, assessable, times_fit, verdict, Denial, RateLimitConfig, UserStats, STATS_TTL_LEDGERS,
};
use crate::rejection::Rejection;

verus! {

/// A payment that was made.
#[derive(Clone, Copy, Debug, PartialEq, Eq)]
pub struct PayoutRecord {
    pub recipient: Account,
    pub amount: i128,
    pub timestamp: u64,
}

/// A program and its pool.
#[derive(Debug, PartialEq, Eq)]
pub struct ProgramData {
    /// The text that names the program, as bytes.
    pub program_id: Vec<u8>,
    /// All that was ever locked.
    pub total_funds: i128,
    /// What is left of it.
    pub remaining_balance: i128,
    /// The party that may pay out.
    pub authorized_payout_key: Account,
    /// The payments, in the order in which they were made.
    pub payout_history: Vec<PayoutRecord>,
    /// The token contract that payments go through.
    pub token_address: Account,
}

/// `ProgramData` as mathematical values.
#[verifier::ext_equal]
pub struct ProgramInfo {
    pub program_id: Seq<u8>,
    pub total_funds: i128,
    pub remaining_balance: i128,
    pub authorized_payout_key: Account,
    pub payout_history: Seq<PayoutRecord>,
    pub token_address: Account,
}

impl View for ProgramData {
    type V = ProgramInfo;

    open spec fn view(&self) -> ProgramInfo {
        ProgramInfo {
            program_id: self.program_id@,
            total_funds: self.total_funds,
            remaining_balance: self.remaining_balance,
            authorized_payout_key: self.authorized_payout_key,
            payout_history: self.payout_history@,
            token_address: self.token_address,
        }
    }
}

fn copy_name(name: &Vec<u8>) -> (copy: Vec<u8>)
    ensures
        copy@ == name@,
{
    let copy = name.clone();
    assert(copy@ =~= name@);
    copy
}

impl Clone for ProgramData {
    fn clone(&self) -> (copy: Self)
        ensures
            copy@ == self@,
    {
        let payout_history = self.payout_history.clone();
        assert(payout_history@ =~= self.payout_history@);
        ProgramData {
            program_id: copy_name(&self.program_id),
            total_funds: self.total_funds,
            remaining_balance: self.remaining_balance,
            authorized_payout_key: self.authorized_payout_key,
            payout_history,
            token_address: self.token_address,
        }
    }
}

/// The name of a ledger entry of the contract.
#[derive(Clone, Copy, Debug, PartialEq, Eq)]
pub enum ProgramKey {
    ProgramData,
    RateLimitConfig,
    UserStats(Account),
    Whitelist(Account),
}

impl ProgramKey {
    pub open spec fn spec_symbol(self) -> Seq<char> {
        match self {
            ProgramKey::ProgramData => "ProgData"@,
            ProgramKey::RateLimitConfig => "RL_CFG"@,
            ProgramKey::UserStats(_) => "U_STATS"@,
            ProgramKey::Whitelist(_) => "W_LIST"@,
        }
    }

    /// The symbol under which the entry is kept.
    pub fn symbol(&self) -> (symbol: &'static str)
        ensures
            symbol@ == self.spec_symbol(),
    {
        match self {
            ProgramKey::ProgramData => "ProgData",
            ProgramKey::RateLimitConfig => "RL_CFG",
            ProgramKey::UserStats(_) => "U_STATS",
            ProgramKey::Whitelist(_) => "W_LIST",
        }
    }

    pub open spec fn spec_durability(self) -> Durability {
        match self {
            ProgramKey::UserStats(_) => Durability::Temporary,
            _ => Durability::Instance,
        }
    }

    /// Where the entry is kept: statistics for a time, all else with the contract.
    pub fn durability(&self) -> (durability: Durability)
        ensures
            durability == self.spec_durability(),
    {
        match self {
            ProgramKey::UserStats(_) => Durability::Temporary,
            _ => Durability::Instance,
        }
    }
}

/// A ledger entry of the contract, as it is written, with the program as `P`.
#[derive(Clone, Copy, Debug, PartialEq, Eq)]
pub enum ProgramEntry<P> {
    ProgramData(P),
    RateLimitConfig(RateLimitConfig),
    UserStats(Account, UserStats),
    Whitelist(Account, bool),
}

impl<P> ProgramEntry<P> {
    pub open spec fn spec_key(self) -> ProgramKey {
        match self {
            ProgramEntry::ProgramData(_) => ProgramKey::ProgramData,
            ProgramEntry::RateLimitConfig(_) => ProgramKey::RateLimitConfig,
            ProgramEntry::UserStats(user, _) => ProgramKey::UserStats(user),
            ProgramEntry::Whitelist(address, _) => ProgramKey::Whitelist(address),
        }
    }

    /// The name of the entry.
    pub fn key(&self) -> (key: ProgramKey)
        ensures
            key == self.spec_key(),
    {
        match self {
            ProgramEntry::ProgramData(_) => ProgramKey::ProgramData,
            ProgramEntry::RateLimitConfig(_) => ProgramKey::RateLimitConfig,
            ProgramEntry::UserStats(user, _) => ProgramKey::UserStats(*user),
            ProgramEntry::Whitelist(address, _) => ProgramKey::Whitelist(*address),
        }
    }
}

/// An event of the contract, with the program named by an `I`.
#[derive(Clone, Copy, Debug, PartialEq, Eq)]
pub enum ProgramEvent<I> {
    ProgramInitialized {
        program_id: I,
        authorized_payout_key: Account,
        token_address: Account,
        total_funds: i128,
    },
    FundsLocked { program_id: I, amount: i128, remaining_balance: i128 },
    BatchPayout { program_id: I, recipients: u32, total: i128, remaining_balance: i128 },
    Payout { program_id: I, recipient: Account, amount: i128, remaining_balance: i128 },
    RateLimitViolation { user: Account, reason: Denial, timestamp: u64 },
}

impl<I> ProgramEvent<I> {
    pub open spec fn spec_topic(self) -> Seq<char> {
        match self {
            ProgramEvent::ProgramInitialized { .. } => "ProgInit"@,
            ProgramEvent::FundsLocked { .. } => "FundLock"@,
            ProgramEvent::BatchPayout { .. } => "BatPay"@,
            ProgramEvent::Payout { .. } => "Payout"@,
            ProgramEvent::RateLimitViolation { .. } => "RL_Vio"@,
        }
    }

    /// The topic under which the event is published.
    pub fn topic(&self) -> (topic: &'static str)
        ensures
            topic@ == self.spec_topic(),
    {
        match self {
            ProgramEvent::ProgramInitialized { .. } => "ProgInit",
            ProgramEvent::FundsLocked { .. } => "FundLock",
            ProgramEvent::BatchPayout { .. } => "BatPay",
            ProgramEvent::Payout { .. } => "Payout",
            ProgramEvent::RateLimitViolation { .. } => "RL_Vio",
        }
    }
}

/// A request of the contract to the host.
pub type ProgramCall = HostCall<ProgramEntry<ProgramData>, ProgramKey, ProgramEvent<Vec<u8>>>;

/// A request of the contract to the host, as mathematical values.
pub type ProgramAsk = HostCall<ProgramEntry<ProgramInfo>, ProgramKey, ProgramEvent<Seq<u8>>>;

pub open spec fn entry_view(entry: ProgramEntry<ProgramData>) -> ProgramEntry<ProgramInfo> {
    match entry {
        ProgramEntry::ProgramData(program) => ProgramEntry::ProgramData(program@),
        ProgramEntry::RateLimitConfig(config) => ProgramEntry::RateLimitConfig(config),
        ProgramEntry::UserStats(user, stats) => ProgramEntry::UserStats(user, stats),
        ProgramEntry::Whitelist(address, listed) => ProgramEntry::Whitelist(address, listed),
    }
}

pub open spec fn event_view(event: ProgramEvent<Vec<u8>>) -> ProgramEvent<Seq<u8>> {
    match event {
        ProgramEvent::ProgramInitialized {
            program_id,
            authorized_payout_key,
            token_address,
            total_funds,
        } => ProgramEvent::ProgramInitialized {
            program_id: program_id@,
            authorized_payout_key,
            token_address,
            total_funds,
        },
        ProgramEvent::FundsLocked { program_id, amount, remaining_balance } => {
            ProgramEvent::FundsLocked { program_id: program_id@, amount, remaining_balance }
        },
        ProgramEvent::BatchPayout { program_id, recipients, total, remaining_balance } => {
            ProgramEvent::BatchPayout {
                program_id: program_id@,
                recipients,
                total,
                remaining_balance,
            }
        },
        ProgramEvent::Payout { program_id, recipient, amount, remaining_balance } => {
            ProgramEvent::Payout { program_id: program_id@, recipient, amount, remaining_balance }
        },
        ProgramEvent::RateLimitViolation { user, reason, timestamp } => {
            ProgramEvent::RateLimitViolation { user, reason, timestamp }
        },
    }
}

pub open spec fn call_view(call: ProgramCall) -> ProgramAsk {
    match call {
        HostCall::RequireAuth(account) => HostCall::RequireAuth(account),
        HostCall::Write(entry) => HostCall::Write(entry_view(entry)),
        HostCall::Remove(key) => HostCall::Remove(key),
        HostCall::ExtendTtl { key, threshold, extend_to } => HostCall::ExtendTtl {
            key,
            threshold,
            extend_to,
        },
        HostCall::Transfer { token, from, to, amount } => HostCall::Transfer {
            token,
            from,
            to,
            amount,
        },
        HostCall::Publish(event) => HostCall::Publish(event_view(event)),
    }
}

/// The ledger entries of the contract.
#[derive(Clone, Debug)]
pub struct ProgramStorage {
    pub program: Option<ProgramData>,
    pub rate_limit_config: Option<RateLimitConfig>,
    pub whitelist: Entries<Account, bool>,
    pub stats: Entries<Account, UserStats>,
}

/// The ledger entries of the contract, as mathematical values.
#[verifier::ext_equal]
pub struct ProgramState {
    pub program: Option<ProgramInfo>,
    pub rate_limit_config: Option<RateLimitConfig>,
    pub whitelist: Map<Account, bool>,
    pub stats: Map<Account, UserStats>,
}

impl ProgramState {
    /// The state before anything was written.
    pub open spec fn empty() -> Self {
        ProgramState {
            program: None,
            rate_limit_config: None,
            whitelist: Map::empty(),
            stats: Map::empty(),
        }
    }
}

impl View for ProgramStorage {
    type V = ProgramState;

    open spec fn view(&self) -> ProgramState {
        ProgramState {
            program: match self.program {
                Some(program) => Some(program@),
                None => None,
            },
            rate_limit_config: self.rate_limit_config,
            whitelist: self.whitelist@,
            stats: self.stats@,
        }
    }
}

/// What a call sees of the ledger, and what it has asked of the host.
#[derive(Clone, Debug)]
pub struct ProgramEnv {
    /// The contract itself, as a party.
    pub contract: Account,
    /// The time of the ledger, in seconds.
    pub timestamp: u64,
    pub storage: ProgramStorage,
    /// The requests to the host so far, in order. They include those of refused calls, whose
    /// effects the host discards: `storage` changes only with calls that succeed.
    pub calls: Vec<ProgramCall>,
}

/// `ProgramEnv` as mathematical values.
#[verifier::ext_equal]
pub struct ProgramView {
    pub contract: Account,
    pub timestamp: u64,
    pub state: ProgramState,
    pub calls: Seq<ProgramAsk>,
}

impl View for ProgramEnv {
    type V = ProgramView;

    open spec fn view(&self) -> ProgramView {
        ProgramView {
            contract: self.contract,
            timestamp: self.timestamp,
            state: self.storage@,
            calls: self.calls@.map_values(|call: ProgramCall| call_view(call)),
        }
    }
}

/// The limits in force after initialization, and where none were set: twenty operations an hour,
/// half a minute apart.
pub open spec fn initial_limits() -> RateLimitConfig {
    RateLimitConfig { window_seconds: 3600, max_ops_per_window: 20, cooldown_seconds: 30 }
}

/// The rejection that a denied operation is answered with.
pub open spec fn denial_rejection(denial: Denial) -> Rejection {
    match denial {
        Denial::Cooldown => Rejection::CooldownActive,
        Denial::MaxOps => Rejection::RateLimitExceeded,
    }
}

/// The sum of some amounts.
pub open spec fn amounts_sum(amounts: Seq<i128>) -> int
    decreases amounts.len(),
{
    if amounts.len() == 0 {
        0
    } else {
        amounts_sum(amounts.drop_last()) + amounts.last()
    }
}

/// What the amounts of a batch come to, or, from the first amount on that stands in the way, why
/// they cannot be paid: an amount that is not positive, or a sum that cannot be represented.
pub open spec fn batch_total(amounts: Seq<i128>) -> Result<int, Rejection>
    decreases amounts.len(),
{
    if amounts.len() == 0 {
        Ok(0)
    } else {
        match batch_total(amounts.drop_last()) {
            Err(rejection) => Err(rejection),
            Ok(total) => if amounts.last() <= 0 {
                Err(Rejection::BatchAmountNotPositive)
            } else if i128::MAX < total + amounts.last() {
                Err(Rejection::PayoutOverflow)
            } else {
                Ok(total + amounts.last())
            },
        }
    }
}

/// The records of a batch paid at one time.
pub open spec fn batch_records(
    recipients: Seq<Account>,
    amounts: Seq<i128>,
    timestamp: u64,
) -> Seq<PayoutRecord> {
    Seq::new(
        recipients.len(),
        |i: int| PayoutRecord { recipient: recipients[i], amount: amounts[i], timestamp },
    )
}

/// The transfers of a batch.
pub open spec fn batch_transfers(
    token: Account,
    from: Account,
    recipients: Seq<Account>,
    amounts: Seq<i128>,
) -> Seq<ProgramAsk> {
    Seq::new(
        recipients.len(),
        |i: int| HostCall::Transfer { token, from, to: recipients[i], amount: amounts[i] },
    )
}

impl ProgramInfo {
    /// A program without funds.
    pub open spec fn unfunded(program_id: Seq<u8>, payout_key: Account, token: Account) -> Self {
        ProgramInfo {
            program_id,
            total_funds: 0,
            remaining_balance: 0,
            authorized_payout_key: payout_key,
            payout_history: seq![],
            token_address: token,
        }
    }

    /// The program with further funds in its pool.
    pub open spec fn funded(self, amount: i128) -> Self {
        ProgramInfo {
            total_funds: (self.total_funds + amount) as i128,
            remaining_balance: (self.remaining_balance + amount) as i128,
            ..self
        }
    }

    /// The program after payments that come to `total`.
    pub open spec fn paid(self, records: Seq<PayoutRecord>, total: int) -> Self {
        ProgramInfo {
            remaining_balance: (self.remaining_balance - total) as i128,
            payout_history: self.payout_history + records,
            ..self
        }
    }
}

impl ProgramView {
    /// The same ledger with a new state and further requests.
    pub open spec fn moved(self, state: ProgramState, asked: Seq<ProgramAsk>) -> Self {
        ProgramView { state, calls: self.calls + asked, ..self }
    }

    /// The same ledger with further requests, whose effects are discarded.
    pub open spec fn refused(self, asked: Seq<ProgramAsk>) -> Self {
        self.moved(self.state, asked)
    }

    pub open spec fn whitelisted(self, user: Account) -> bool {
        self.state.whitelist.contains_key(user)
    }

    pub open spec fn stats_of(self, user: Account) -> Option<UserStats> {
        if self.state.stats.contains_key(user) {
            Some(self.state.stats[user])
        } else {
            None
        }
    }

    /// The limits in force.
    pub open spec fn limits(self) -> RateLimitConfig {
        match self.state.rate_limit_config {
            Some(config) => config,
            None => initial_limits(),
        }
    }

    /// The times that the limits of the user lead to can be represented.
    pub open spec fn rate_limit_fits(self, user: Account) -> bool {
        times_fit(self.limits(), self.stats_of(user), self.timestamp)
    }

    /// What the limits say of an operation of the user now.
    pub open spec fn rate_limit_verdict(self, user: Account) -> Result<UserStats, Denial> {
        verdict(self.limits(), self.stats_of(user), self.timestamp)
    }

    /// Whether an operation of the user is let through.
    pub open spec fn check_rate_limit_result(self, user: Account) -> Result<(), Rejection> {
        if self.whitelisted(user) {
            Ok(())
        } else if !self.rate_limit_fits(user) {
            Err(Rejection::ArithmeticOverflow)
        } else {
            match self.rate_limit_verdict(user) {
                Ok(_) => Ok(()),
                Err(denial) => Err(denial_rejection(denial)),
            }
        }
    }

    /// What the rate limit asks of the host: to keep the statistics and see that they live, or to
    /// publish the violation; nothing for users on the whitelist.
    pub open spec fn rate_limit_calls(self, user: Account) -> Seq<ProgramAsk> {
        if self.whitelisted(user) || !self.rate_limit_fits(user) {
            seq![]
        } else {
            match self.rate_limit_verdict(user) {
                Ok(stats) => seq![
                    HostCall::Write(ProgramEntry::UserStats(user, stats)),
                    HostCall::ExtendTtl {
                        key: ProgramKey::UserStats(user),
                        threshold: STATS_TTL_LEDGERS,
                        extend_to: STATS_TTL_LEDGERS,
                    },
                ],
                Err(reason) => seq![
                    HostCall::Publish(
                        ProgramEvent::RateLimitViolation { user, reason, timestamp: self.timestamp },
                    ),
                ],
            }
        }
    }

    /// The statistics of all users once an operation of this one was let through.
    pub open spec fn stats_kept(self, user: Account) -> Map<Account, UserStats> {
        if self.whitelisted(user) || self.check_rate_limit_result(user) is Err {
            self.state.stats
        } else {
            self.state.stats.insert(user, self.rate_limit_verdict(user)->Ok_0)
        }
    }

    pub open spec fn check_rate_limit(self, user: Account) -> Self {
        self.moved(
            ProgramState { stats: self.stats_kept(user), ..self.state },
            self.rate_limit_calls(user),
        )
    }

    pub open spec fn init_program_result(
        self,
        program_id: Seq<u8>,
        payout_key: Account,
        token: Account,
    ) -> Result<ProgramInfo, Rejection> {
        if self.state.program is Some {
            Err(Rejection::AlreadyInitialized)
        } else {
            Ok(ProgramInfo::unfunded(program_id, payout_key, token))
        }
    }

    pub open spec fn init_program(
        self,
        program_id: Seq<u8>,
        payout_key: Account,
        token: Account,
    ) -> Self {
        match self.init_program_result(program_id, payout_key, token) {
            Err(_) => self.refused(seq![]),
            Ok(program) => self.moved(
                ProgramState {
                    program: Some(program),
                    rate_limit_config: Some(initial_limits()),
                    ..self.state
                },
                seq![
                    HostCall::Write(ProgramEntry::ProgramData(program)),
                    HostCall::Write(ProgramEntry::RateLimitConfig(initial_limits())),
                    HostCall::Publish(
                        ProgramEvent::ProgramInitialized {
                            program_id,
                            authorized_payout_key: payout_key,
                            token_address: token,
                            total_funds: 0,
                        },
                    ),
                ],
            ),
        }
    }

    /// What a call for the holder of the payout key is answered before the holder is asked.
    pub open spec fn payout_key_result(self) -> Result<(), Rejection> {
        if self.state.program is Some {
            Ok(())
        } else {
            Err(Rejection::NotInitialized)
        }
    }

    pub open spec fn set_rate_limit_config(self, config: RateLimitConfig) -> Self {
        match self.state.program {
            Some(program) => self.moved(
                ProgramState { rate_limit_config: Some(config), ..self.state },
                seq![
                    HostCall::RequireAuth(program.authorized_payout_key),
                    HostCall::Write(ProgramEntry::RateLimitConfig(config)),
                ],
            ),
            None => self.refused(seq![]),
        }
    }

    pub open spec fn set_whitelist_status(self, address: Account, whitelisted: bool) -> Self {
        match self.state.program {
            Some(program) => if whitelisted {
                self.moved(
                    ProgramState {
                        whitelist: self.state.whitelist.insert(address, true),
                        ..self.state
                    },
                    seq![
                        HostCall::RequireAuth(program.authorized_payout_key),
                        HostCall::Write(ProgramEntry::Whitelist(address, true)),
                    ],
                )
            } else {
                self.moved(
                    ProgramState { whitelist: self.state.whitelist.remove(address), ..self.state },
                    seq![
                        HostCall::RequireAuth(program.authorized_payout_key),
                        HostCall::Remove(ProgramKey::Whitelist(address)),
                    ],
                )
            },
            None => self.refused(seq![]),
        }
    }

    pub open spec fn lock_program_funds_result(self, amount: i128) -> Result<
        ProgramInfo,
        Rejection,
    > {
        if amount <= 0 {
            Err(Rejection::AmountNotPositive)
        } else {
            match self.state.program {
                None => Err(Rejection::NotInitialized),
                Some(program) => if i128::MAX < program.total_funds + amount || i128::MAX
                    < program.remaining_balance + amount {
                    Err(Rejection::ArithmeticOverflow)
                } else {
                    Ok(program.funded(amount))
                },
            }
        }
    }

    pub open spec fn lock_program_funds(self, amount: i128) -> Self {
        match self.lock_program_funds_result(amount) {
            Err(_) => self.refused(seq![]),
            Ok(program) => self.moved(
                ProgramState { program: Some(program), ..self.state },
                seq![
                    HostCall::Write(ProgramEntry::ProgramData(program)),
                    HostCall::Publish(
                        ProgramEvent::FundsLocked {
                            program_id: program.program_id,
                            amount,
                            remaining_balance: program.remaining_balance,
                        },
                    ),
                ],
            ),
        }
    }

    /// What a payment is answered before its amounts are looked at.
    pub open spec fn payer_result(self) -> Result<ProgramInfo, Rejection> {
        match self.state.program {
            None => Err(Rejection::NotInitialized),
            Some(program) => match self.check_rate_limit_result(program.authorized_payout_key) {
                Err(rejection) => Err(rejection),
                Ok(_) => Ok(program),
            },
        }
    }

    /// What every payment asks of the host to begin with: the consent of the holder of the payout
    /// key, and what the rate limit needs.
    pub open spec fn payer_calls(self) -> Seq<ProgramAsk> {
        match self.state.program {
            None => seq![],
            Some(program) => seq![HostCall::RequireAuth(program.authorized_payout_key)]
                + self.rate_limit_calls(program.authorized_payout_key),
        }
    }

    pub open spec fn batch_payout_result(
        self,
        recipients: Seq<Account>,
        amounts: Seq<i128>,
    ) -> Result<ProgramInfo, Rejection> {
        match self.payer_result() {
            Err(rejection) => Err(rejection),
            Ok(program) => if recipients.len() != amounts.len() {
                Err(Rejection::LengthMismatch)
            } else if recipients.len() == 0 {
                Err(Rejection::EmptyBatch)
            } else {
                match batch_total(amounts) {
                    Err(rejection) => Err(rejection),
                    Ok(total) => if program.remaining_balance < total {
                        Err(
                            Rejection::InsufficientBalance {
                                requested: total as i128,
                                available: program.remaining_balance,
                            },
                        )
                    } else {
                        Ok(program.paid(batch_records(recipients, amounts, self.timestamp), total))
                    },
                }
            },
        }
    }

    pub open spec fn batch_payout(self, recipients: Seq<Account>, amounts: Seq<i128>) -> Self {
        match self.batch_payout_result(recipients, amounts) {
            Err(_) => self.refused(self.payer_calls()),
            Ok(program) => self.moved(
                ProgramState {
                    program: Some(program),
                    stats: self.stats_kept(program.authorized_payout_key),
                    ..self.state
                },
                self.payer_calls() + batch_transfers(
                    program.token_address,
                    self.contract,
                    recipients,
                    amounts,
                ) + seq![
                    HostCall::Write(ProgramEntry::ProgramData(program)),
                    HostCall::Publish(
                        ProgramEvent::BatchPayout {
                            program_id: program.program_id,
                            recipients: recipients.len() as u32,
                            total: batch_total(amounts)->Ok_0 as i128,
                            remaining_balance: program.remaining_balance,
                        },
                    ),
                ],
            ),
        }
    }

    /// Why a batch is not paid in whose lists an item of another type was found. The lists are as
    /// long as given, and `leading` are the amounts before the first item that is not one. What
    /// stands in the way before such an item is come upon is the reason.
    pub open spec fn stopped_batch_rejection(
        self,
        recipients: nat,
        amounts: nat,
        leading: Seq<i128>,
    ) -> Rejection {
        match self.payer_result() {
            Err(rejection) => rejection,
            Ok(program) => if recipients != amounts {
                Rejection::LengthMismatch
            } else if recipients == 0 {
                Rejection::EmptyBatch
            } else {
                match batch_total(leading) {
                    Err(rejection) => rejection,
                    Ok(total) => if leading.len() == amounts && program.remaining_balance < total {
                        Rejection::InsufficientBalance {
                            requested: total as i128,
                            available: program.remaining_balance,
                        }
                    } else {
                        Rejection::MalformedArgument
                    },
                }
            },
        }
    }

    pub open spec fn single_payout_result(self, recipient: Account, amount: i128) -> Result<
        ProgramInfo,
        Rejection,
    > {
        match self.payer_result() {
            Err(rejection) => Err(rejection),
            Ok(program) => if amount <= 0 {
                Err(Rejection::AmountNotPositive)
            } else if program.remaining_balance < amount {
                Err(
                    Rejection::InsufficientBalance {
                        requested: amount,
                        available: program.remaining_balance,
                    },
                )
            } else {
                Ok(
                    program.paid(
                        seq![PayoutRecord { recipient, amount, timestamp: self.timestamp }],
                        amount as int,
                    ),
                )
            },
        }
    }

    pub open spec fn single_payout(self, recipient: Account, amount: i128) -> Self {
        match self.single_payout_result(recipient, amount) {
            Err(_) => self.refused(self.payer_calls()),
            Ok(program) => self.moved(
                ProgramState {
                    program: Some(program),
                    stats: self.stats_kept(program.authorized_payout_key),
                    ..self.state
                },
                self.payer_calls() + seq![
                    HostCall::Transfer {
                        token: program.token_address,
                        from: self.contract,
                        to: recipient,
                        amount,
                    },
                    HostCall::Write(ProgramEntry::ProgramData(program)),
                    HostCall::Publish(
                        ProgramEvent::Payout {
                            program_id: program.program_id,
                            recipient,
                            amount,
                            remaining_balance: program.remaining_balance,
                        },
                    ),
                ],
            ),
        }
    }

    /// The program, if there is one.
    pub open spec fn get_program_info_result(self) -> Result<ProgramInfo, Rejection> {
        match self.state.program {
            Some(program) => Ok(program),
            None => Err(Rejection::NotInitialized),
        }
    }
}

/// An answer with a program in it, as mathematical values.
pub open spec fn answer_view(answer: Result<ProgramData, Rejection>) -> Result<
    ProgramInfo,
    Rejection,
> {
    match answer {
        Ok(program) => Ok(program@),
        Err(rejection) => Err(rejection),
    }
}

impl ProgramEnv {
    /// The tables are tables.
    pub open spec fn wf(&self) -> bool {
        &&& self.storage.whitelist.wf()
        &&& self.storage.stats.wf()
    }

    /// A ledger on which the contract has not been used yet.
    pub fn new(contract: Account, timestamp: u64) -> (env: ProgramEnv)
        ensures
            env.wf(),
            env@ == (ProgramView {
                contract,
                timestamp,
                state: ProgramState::empty(),
                calls: seq![],
            }),
    {
        let env = ProgramEnv {
            contract,
            timestamp,
            storage: ProgramStorage {
                program: None,
                rate_limit_config: None,
                whitelist: Entries::new(),
                stats: Entries::new(),
            },
            calls: Vec::new(),
        };
        assert(env@.calls =~= seq![]);
        env
    }

    fn ask(&mut self, call: ProgramCall)
        ensures
            final(self)@ == (ProgramView {
                calls: old(self)@.calls.push(call_view(call)),
                ..old(self)@
            }),
            final(self).storage == old(self).storage,
    {
        self.calls.push(call);
        assert(self@.calls =~= old(self)@.calls.push(call_view(call)));
    }

    /// Puts the statistics of the user back to what they were.
    fn restore_stats(&mut self, user: &Account, before: Option<UserStats>)
        requires
            old(self).wf(),
        ensures
            final(self).wf(),
            final(self)@ == (ProgramView {
                state: ProgramState {
                    stats: match before {
                        Some(stats) => old(self)@.state.stats.insert(*user, stats),
                        None => old(self)@.state.stats.remove(*user),
                    },
                    ..old(self)@.state
                },
                ..old(self)@
            }),
    {
        match before {
            Some(stats) => {
                self.storage.stats.set(*user, stats);
            },
            None => {
                self.storage.stats.remove(user);
            },
        }
    }
}

/// Adds up the amounts of a batch.
pub fn total_payout(amounts: &Vec<i128>) -> (total: Result<i128, Rejection>)
    ensures
        match total {
            Ok(sum) => batch_total(amounts@) == Ok::<int, Rejection>(sum as int),
            Err(rejection) => batch_total(amounts@) == Err::<int, Rejection>(rejection),
        },
{
    let mut total: i128 = 0;
    let mut i: usize = 0;
    assert(amounts@.take(0) =~= seq![]);
    while i < amounts.len()
        invariant
            i <= amounts@.len(),
            0 <= total,
            batch_total(amounts@.take(i as int)) == Ok::<int, Rejection>(total as int),
        decreases amounts@.len() - i,
    {
        let amount: i128 = amounts[i];
        proof {
            let next = amounts@.take(i + 1);
            assert(next.drop_last() =~= amounts@.take(i as int));
            assert(next.last() == amount);
            if batch_total(next) is Err {
                lemma_batch_total_prefix(amounts@, i + 1);
            }
        }
        if amount <= 0 {
            return Err(Rejection::BatchAmountNotPositive);
        }
        match total.checked_add(amount) {
            Some(sum) => {
                total = sum;
            },
            None => {
                return Err(Rejection::PayoutOverflow);
            },
        }
        i = i + 1;
    }
    assert(amounts@.take(i as int) =~= amounts@);
    Ok(total)
}

/// What stands in the way of the first amounts of a batch stands in the way of the batch.
pub proof fn lemma_batch_total_prefix(amounts: Seq<i128>, n: int)
    requires
        0 <= n <= amounts.len(),
        batch_total(amounts.take(n)) is Err,
    ensures
        batch_total(amounts) == batch_total(amounts.take(n)),
    decreases amounts.len(),
{
    if n == amounts.len() {
        assert(amounts.take(n) =~= amounts);
    } else {
        assert(amounts.drop_last().take(n) =~= amounts.take(n));
        lemma_batch_total_prefix(amounts.drop_last(), n);
    }
}

/// The program escrow contract.
#[derive(Clone, Copy, Debug)]
pub struct ProgramEscrowContract;

impl ProgramEscrowContract {
    /// Sets up the program, once, with an empty pool and the initial limits.
    pub fn init_program(
        env: &mut ProgramEnv,
        program_id: Vec<u8>,
        authorized_payout_key: Account,
        token_address: Account,
    ) -> (result: Result<ProgramData, Rejection>)
        requires
            old(env).wf(),
        ensures
            final(env).wf(),
            answer_view(result) == old(env)@.init_program_result(
                program_id@,
                authorized_payout_key,
                token_address,
            ),
            final(env)@ == old(env)@.init_program(
                program_id@,
                authorized_payout_key,
                token_address,
            ),
    {
        if env.storage.program.is_some() {
            assert(env@ =~= old(env)@.refused(seq![]));
            return Err(Rejection::AlreadyInitialized);
        }
        let program = ProgramData {
            program_id: copy_name(&program_id),
            total_funds: 0,
            remaining_balance: 0,
            authorized_payout_key,
            payout_history: Vec::new(),
            token_address,
        };
        assert(program@ =~= ProgramInfo::unfunded(
            program_id@,
            authorized_payout_key,
            token_address,
        ));
        let config = RateLimitConfig {
            window_seconds: 3600,
            max_ops_per_window: 20,
            cooldown_seconds: 30,
        };
        env.storage.program = Some(program.clone());
        env.storage.rate_limit_config = Some(config);
        env.ask(HostCall::Write(ProgramEntry::ProgramData(program.clone())));
        env.ask(HostCall::Write(ProgramEntry::RateLimitConfig(config)));
        env.ask(
            HostCall::Publish(
                ProgramEvent::ProgramInitialized {
                    program_id: copy_name(&program_id),
                    authorized_payout_key,
                    token_address,
                    total_funds: 0,
                },
            ),
        );
        assert(env@ =~= old(env)@.init_program(program_id@, authorized_payout_key, token_address));
        Ok(program)
    }

    /// Sets the limits. The holder of the payout key has to authorize it.
    pub fn set_rate_limit_config(
        env: &mut ProgramEnv,
        window_seconds: u64,
        max_ops_per_window: u32,
        cooldown_seconds: u64,
    ) -> (result: Result<(), Rejection>)
        requires
            old(env).wf(),
        ensures
            final(env).wf(),
            result == old(env)@.payout_key_result(),
            final(env)@ == old(env)@.set_rate_limit_config(
                RateLimitConfig { window_seconds, max_ops_per_window, cooldown_seconds },
            ),
    {
        let payout_key = match &env.storage.program {
            Some(program) => program.authorized_payout_key,
            None => {
                assert(env@ =~= old(env)@.refused(seq![]));
                return Err(Rejection::NotInitialized);
            },
        };
        let config = RateLimitConfig { window_seconds, max_ops_per_window, cooldown_seconds };
        env.ask(HostCall::RequireAuth(payout_key));
        env.storage.rate_limit_config = Some(config);
        env.ask(HostCall::Write(ProgramEntry::RateLimitConfig(config)));
        assert(env@ =~= old(env)@.set_rate_limit_config(config));
        Ok(())
    }

    /// Puts a party on the whitelist or takes it off. The holder of the payout key has to
    /// authorize it.
    pub fn set_whitelist_status(
        env: &mut ProgramEnv,
        address: Account,
        whitelisted: bool,
    ) -> (result: Result<(), Rejection>)
        requires
            old(env).wf(),
        ensures
            final(env).wf(),
            result == old(env)@.payout_key_result(),
            final(env)@ == old(env)@.set_whitelist_status(address, whitelisted),
    {
        let payout_key = match &env.storage.program {
            Some(program) => program.authorized_payout_key,
            None => {
                assert(env@ =~= old(env)@.refused(seq![]));
                return Err(Rejection::NotInitialized);
            },
        };
        env.ask(HostCall::RequireAuth(payout_key));
        if whitelisted {
            env.storage.whitelist.set(address, true);
            env.ask(HostCall::Write(ProgramEntry::Whitelist(address, true)));
        } else {
            env.storage.whitelist.remove(&address);
            env.ask(HostCall::Remove(ProgramKey::Whitelist(address)));
        }
        assert(env@ =~= old(env)@.set_whitelist_status(address, whitelisted));
        Ok(())
    }

    /// Lets an operation of the user through and counts it, or publishes that it went over the
    /// limits. Users on the whitelist are let through without being counted.
    pub fn check_rate_limit(env: &mut ProgramEnv, user: &Account) -> (result: Result<(), Rejection>)
        requires
            old(env).wf(),
        ensures
            final(env).wf(),
            result == old(env)@.check_rate_limit_result(*user),
            final(env)@ == old(env)@.check_rate_limit(*user),
    {
        if env.storage.whitelist.has(user) {
            assert(env@ =~= old(env)@.check_rate_limit(*user));
            return Ok(());
        }
        let config = match env.storage.rate_limit_config {
            Some(config) => config,
            None => RateLimitConfig {
                window_seconds: 3600,
                max_ops_per_window: 20,
                cooldown_seconds: 30,
            },
        };
        let now: u64 = env.timestamp;
        let stored = env.storage.stats.get(user);
        if !assessable(&config, stored, now) {
            assert(env@ =~= old(env)@.check_rate_limit(*user));
            return Err(Rejection::ArithmeticOverflow);
        }
        match assess(&config, stored, now) {
            Err(reason) => {
                env.ask(
                    HostCall::Publish(
                        ProgramEvent::RateLimitViolation { user: *user, reason, timestamp: now },
                    ),
                );
                assert(env@ =~= old(env)@.check_rate_limit(*user));
                match reason {
                    Denial::Cooldown => Err(Rejection::CooldownActive),
                    Denial::MaxOps => Err(Rejection::RateLimitExceeded),
                }
            },
            Ok(stats) => {
                env.storage.stats.set(*user, stats);
                env.ask(HostCall::Write(ProgramEntry::UserStats(*user, stats)));
                env.ask(
                    HostCall::ExtendTtl {
                        key: ProgramKey::UserStats(*user),
                        threshold: STATS_TTL_LEDGERS,
                        extend_to: STATS_TTL_LEDGERS,
                    },
                );
                assert(env@ =~= old(env)@.check_rate_limit(*user));
                Ok(())
            },
        }
    }

    /// Adds funds to the pool.
    pub fn lock_program_funds(env: &mut ProgramEnv, amount: i128) -> (result: Result<
        ProgramData,
        Rejection,
    >)
        requires
            old(env).wf(),
        ensures
            final(env).wf(),
            answer_view(result) == old(env)@.lock_program_funds_result(amount),
            final(env)@ == old(env)@.lock_program_funds(amount),
    {
        if amount <= 0 {
            assert(env@ =~= old(env)@.refused(seq![]));
            return Err(Rejection::AmountNotPositive);
        }
        let mut program = match &env.storage.program {
            Some(program) => program.clone(),
            None => {
                assert(env@ =~= old(env)@.refused(seq![]));
                return Err(Rejection::NotInitialized);
            },
        };
        match (
            program.total_funds.checked_add(amount),
            program.remaining_balance.checked_add(amount),
        ) {
            (Some(total_funds), Some(remaining_balance)) => {
                program.total_funds = total_funds;
                program.remaining_balance = remaining_balance;
            },
            _ => {
                assert(env@ =~= old(env)@.refused(seq![]));
                return Err(Rejection::ArithmeticOverflow);
            },
        }
        env.storage.program = Some(program.clone());
        env.ask(HostCall::Write(ProgramEntry::ProgramData(program.clone())));
        env.ask(
            HostCall::Publish(
                ProgramEvent::FundsLocked {
                    program_id: copy_name(&program.program_id),
                    amount,
                    remaining_balance: program.remaining_balance,
                },
            ),
        );
        assert(env@ =~= old(env)@.lock_program_funds(amount));
        Ok(program)
    }

    /// Pays many recipients at once, each the amount at the same place in the list of amounts. The
    /// holder of the payout key has to authorize it. Either all are paid or none.
    pub fn batch_payout(
        env: &mut ProgramEnv,
        recipients: &Vec<Account>,
        amounts: &Vec<i128>,
    ) -> (result: Result<ProgramData, Rejection>)
        requires
            old(env).wf(),
            recipients@.len() <= u32::MAX,
        ensures
            final(env).wf(),
            answer_view(result) == old(env)@.batch_payout_result(recipients@, amounts@),
            final(env)@ == old(env)@.batch_payout(recipients@, amounts@),
    {
        let ghost before = env@;
        let ghost refused = before.refused(before.payer_calls());
        let mut program = match &env.storage.program {
            Some(program) => program.clone(),
            None => {
                assert(env@ =~= refused);
                return Err(Rejection::NotInitialized);
            },
        };
        let payout_key = program.authorized_payout_key;
        env.ask(HostCall::RequireAuth(payout_key));
        let stats_before = env.storage.stats.get(&payout_key);
        match Self::check_rate_limit(env, &payout_key) {
            Ok(_) => {},
            Err(rejection) => {
                assert(env@ =~= refused);
                return Err(rejection);
            },
        }
        if recipients.len() != amounts.len() {
            env.restore_stats(&payout_key, stats_before);
            assert(env@ =~= refused);
            return Err(Rejection::LengthMismatch);
        }
        if recipients.len() == 0 {
            env.restore_stats(&payout_key, stats_before);
            assert(env@ =~= refused);
            return Err(Rejection::EmptyBatch);
        }
        let total: i128 = match total_payout(amounts) {
            Ok(total) => total,
            Err(rejection) => {
                env.restore_stats(&payout_key, stats_before);
                assert(env@ =~= refused);
                return Err(rejection);
            },
        };
        if total > program.remaining_balance {
            let available: i128 = program.remaining_balance;
            env.restore_stats(&payout_key, stats_before);
            assert(env@ =~= refused);
            return Err(Rejection::InsufficientBalance { requested: total, available });
        }
        let timestamp: u64 = env.timestamp;
        let contract = env.contract;
        let token = program.token_address;
        let ghost paid_from = env@;
        let ghost transfers = batch_transfers(token, contract, recipients@, amounts@);
        let ghost records = batch_records(recipients@, amounts@, timestamp);
        let ghost initial = program@;
        assert(env@.calls =~= paid_from.calls + transfers.take(0));
        assert(program@.payout_history =~= initial.payout_history + records.take(0));
        let mut i: usize = 0;
        while i < recipients.len()
            invariant
                i <= recipients@.len(),
                recipients@.len() == amounts@.len(),
                transfers == batch_transfers(token, contract, recipients@, amounts@),
                records == batch_records(recipients@, amounts@, timestamp),
                env.wf(),
                env@ == (ProgramView {
                    calls: paid_from.calls + transfers.take(i as int),
                    ..paid_from
                }),
                program@ == (ProgramInfo {
                    payout_history: initial.payout_history + records.take(i as int),
                    ..initial
                }),
            decreases recipients@.len() - i,
        {
            let recipient = recipients[i];
            let amount: i128 = amounts[i];
            env.ask(HostCall::Transfer { token, from: contract, to: recipient, amount });
            program.payout_history.push(PayoutRecord { recipient, amount, timestamp });
            assert(transfers.take(i + 1) =~= transfers.take(i as int).push(transfers[i as int]));
            assert(records.take(i + 1) =~= records.take(i as int).push(records[i as int]));
            i = i + 1;
            assert(env@.calls =~= paid_from.calls + transfers.take(i as int));
            assert(program@.payout_history =~= initial.payout_history + records.take(i as int));
        }
        proof {
            assert(transfers.take(i as int) =~= transfers);
            assert(records.take(i as int) =~= records);
            lemma_batch_total(amounts@);
        }
        program.remaining_balance = program.remaining_balance - total;
        env.storage.program = Some(program.clone());
        env.ask(HostCall::Write(ProgramEntry::ProgramData(program.clone())));
        let count: u32 = recipients.len() as u32;
        env.ask(
            HostCall::Publish(
                ProgramEvent::BatchPayout {
                    program_id: copy_name(&program.program_id),
                    recipients: count,
                    total,
                    remaining_balance: program.remaining_balance,
                },
            ),
        );
        assert(program@ =~= initial.paid(records, total as int));
        assert(env@ =~= before.batch_payout(recipients@, amounts@));
        Ok(program)
    }

    /// Refuses a batch in whose lists an item of another type was found, with the reason that comes
    /// up first. The lists are as long as given, and `leading` are the amounts before the first
    /// item that is not one. No transfer is asked for.
    pub fn stop_batch(
        env: &mut ProgramEnv,
        recipients: u32,
        amounts: u32,
        leading: &Vec<i128>,
    ) -> (rejection: Rejection)
        requires
            old(env).wf(),
        ensures
            final(env).wf(),
            rejection == old(env)@.stopped_batch_rejection(
                recipients as nat,
                amounts as nat,
                leading@,
            ),
            final(env)@ == old(env)@.refused(old(env)@.payer_calls()),
    {
        let ghost before = env@;
        let ghost refused = before.refused(before.payer_calls());
        let (payout_key, available) = match &env.storage.program {
            Some(program) => (program.authorized_payout_key, program.remaining_balance),
            None => {
                assert(env@ =~= refused);
                return Rejection::NotInitialized;
            },
        };
        env.ask(HostCall::RequireAuth(payout_key));
        let stats_before = env.storage.stats.get(&payout_key);
        match Self::check_rate_limit(env, &payout_key) {
            Ok(_) => {},
            Err(rejection) => {
                assert(env@ =~= refused);
                return rejection;
            },
        }
        env.restore_stats(&payout_key, stats_before);
        assert(env@ =~= refused);
        if recipients != amounts {
            return Rejection::LengthMismatch;
        }
        if recipients == 0 {
            return Rejection::EmptyBatch;
        }
        match total_payout(leading) {
            Err(rejection) => rejection,
            Ok(requested) => if leading.len() == amounts as usize && requested > available {
                Rejection::InsufficientBalance { requested, available }
            } else {
                Rejection::MalformedArgument
            },
        }
    }

    /// Pays one recipient. The holder of the payout key has to authorize it.
    pub fn single_payout(env: &mut ProgramEnv, recipient: Account, amount: i128) -> (result: Result<
        ProgramData,
        Rejection,
    >)
        requires
            old(env).wf(),
        ensures
            final(env).wf(),
            answer_view(result) == old(env)@.single_payout_result(recipient, amount),
            final(env)@ == old(env)@.single_payout(recipient, amount),
    {
        let ghost before = env@;
        let ghost refused = before.refused(before.payer_calls());
        let mut program = match &env.storage.program {
            Some(program) => program.clone(),
            None => {
                assert(env@ =~= refused);
                return Err(Rejection::NotInitialized);
            },
        };
        let payout_key = program.authorized_payout_key;
        env.ask(HostCall::RequireAuth(payout_key));
        let stats_before = env.storage.stats.get(&payout_key);
        match Self::check_rate_limit(env, &payout_key) {
            Ok(_) => {},
            Err(rejection) => {
                assert(env@ =~= refused);
                return Err(rejection);
            },
        }
        if amount <= 0 {
            env.restore_stats(&payout_key, stats_before);
            assert(env@ =~= refused);
            return Err(Rejection::AmountNotPositive);
        }
        if amount > program.remaining_balance {
            let available: i128 = program.remaining_balance;
            env.restore_stats(&payout_key, stats_before);
            assert(env@ =~= refused);
            return Err(Rejection::InsufficientBalance { requested: amount, available });
        }
        let ghost initial = program@;
        let timestamp: u64 = env.timestamp;
        let contract = env.contract;
        let token = program.token_address;
        env.ask(HostCall::Transfer { token, from: contract, to: recipient, amount });
        let record = PayoutRecord { recipient, amount, timestamp };
        program.payout_history.push(record);
        program.remaining_balance = program.remaining_balance - amount;
        env.storage.program = Some(program.clone());
        env.ask(HostCall::Write(ProgramEntry::ProgramData(program.clone())));
        env.ask(
            HostCall::Publish(
                ProgramEvent::Payout {
                    program_id: copy_name(&program.program_id),
                    recipient,
                    amount,
                    remaining_balance: program.remaining_balance,
                },
            ),
        );
        assert(program@ =~= initial.paid(seq![record], amount as int));
        assert(env@ =~= before.single_payout(recipient, amount));
        Ok(program)
    }

    /// The program and its pool.
    pub fn get_program_info(env: &ProgramEnv) -> (result: Result<ProgramData, Rejection>)
        ensures
            answer_view(result) == env@.get_program_info_result(),
    {
        match &env.storage.program {
            Some(program) => Ok(program.clone()),
            None => Err(Rejection::NotInitialized),
        }
    }

    /// What is left in the pool.
    pub fn get_remaining_balance(env: &ProgramEnv) -> (result: Result<i128, Rejection>)
        ensures
            result == (match env@.state.program {
                Some(program) => Ok(program.remaining_balance),
                None => Err(Rejection::NotInitialized),
            }),
    {
        match &env.storage.program {
            Some(program) => Ok(program.remaining_balance),
            None => Err(Rejection::NotInitialized),
        }
    }
}

/// Amounts come to a total just where all of them are positive and their sum can be represented;
/// the total is that sum.
pub proof fn lemma_batch_total(amounts: Seq<i128>)
    ensures
        batch_total(amounts) is Ok <==> {
            &&& forall|i: int| 0 <= i < amounts.len() ==> 0 < #[trigger] amounts[i]
            &&& amounts_sum(amounts) <= i128::MAX
        },
        batch_total(amounts) matches Ok(total) ==> total == amounts_sum(amounts) && 0 <= total,
        (forall|i: int| 0 <= i < amounts.len() ==> 0 < #[trigger] amounts[i]) ==> 0 <= amounts_sum(
            amounts,
        ),
    decreases amounts.len(),
{
    if amounts.len() != 0 {
        let earlier = amounts.drop_last();
        lemma_batch_total(earlier);
        assert(forall|i: int| 0 <= i < earlier.len() ==> #[trigger] earlier[i] == amounts[i]);
        if batch_total(amounts) is Ok {
            assert forall|i: int| 0 <= i < amounts.len() implies 0 < #[trigger] amounts[i] by {
                if i < earlier.len() {
                    assert(0 < earlier[i]);
                }
            }
        }
        if forall|i: int| 0 <= i < amounts.len() ==> 0 < #[trigger] amounts[i] {
            assert(0 < amounts[amounts.len() - 1]);
            assert forall|i: int| 0 <= i < earlier.len() implies 0 < #[trigger] earlier[i] by {
                assert(0 < amounts[i]);
            }
        }
    }
}

} // verus!
