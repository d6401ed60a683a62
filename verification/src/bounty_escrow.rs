//! An escrow that holds one deposit for each bounty.
//!
//! A depositor locks funds under a bounty number. The admin can release them to a contributor;
//! once the deadline has passed anyone can have them sent back to the depositor. Deposits are rate
//! limited per depositor, except for depositors on the whitelist.
use vstd::prelude::*;

use crate::account::Account;
use crate::entries::Entries;
use crate::host::{Durability, HostCall};
use crate::rate_limit::{
    assess, assessable, times_fit, verdict, Denial, RateLimitConfig, UserStats, STATS_TTL_LEDGERS,
};

verus! {

/// Why a call is refused.
#[derive(Clone, Copy, Debug, PartialEq, Eq, PartialOrd, Ord, Structural)]
pub enum Error {
    AlreadyInitialized,
    NotInitialized,
    BountyExists,
    BountyNotFound,
    FundsNotLocked,
    DeadlineNotPassed,
    Unauthorized,
    RateLimitExceeded,
    CooldownActive,
}

impl Error {
    pub open spec fn spec_code(self) -> u32 {
        match self {
            Error::AlreadyInitialized => 1,
            Error::NotInitialized => 2,
            Error::BountyExists => 3,
            Error::BountyNotFound => 4,
            Error::FundsNotLocked => 5,
            Error::DeadlineNotPassed => 6,
            Error::Unauthorized => 7,
            Error::RateLimitExceeded => 8,
            Error::CooldownActive => 9,
        }
    }

    /// The number by which callers of the contract know the error.
    pub fn code(&self) -> (code: u32)
        ensures
            code == self.spec_code(),
    {
        match self {
            Error::AlreadyInitialized => 1,
            Error::NotInitialized => 2,
            Error::BountyExists => 3,
            Error::BountyNotFound => 4,
            Error::FundsNotLocked => 5,
            Error::DeadlineNotPassed => 6,
            Error::Unauthorized => 7,
            Error::RateLimitExceeded => 8,
            Error::CooldownActive => 9,
        }
    }
}

/// What has become of a deposit.
#[derive(Clone, Copy, Debug, PartialEq, Eq, Structural)]
pub enum EscrowStatus {
    Locked,
    Released,
    Refunded,
}

/// A deposit.
#[derive(Clone, Copy, Debug, PartialEq, Eq)]
pub struct Escrow {
    pub depositor: Account,
    pub amount: i128,
    pub status: EscrowStatus,
    pub deadline: u64,
}

/// The name of a ledger entry of the contract.
#[derive(Clone, Copy, Debug, PartialEq, Eq)]
pub enum DataKey {
    Admin,
    Token,
    /// The deposit for the bounty of this number.
    Escrow(u64),
    RateLimitCfg,
    UserStats(Account),
    Whitelist(Account),
}

impl DataKey {
    pub open spec fn spec_durability(self) -> Durability {
        match self {
            DataKey::Escrow(_) => Durability::Persistent,
            DataKey::UserStats(_) => Durability::Temporary,
            _ => Durability::Instance,
        }
    }

    /// Where the entry is kept: deposits for good, statistics for a time, all else with the
    /// contract.
    pub fn durability(&self) -> (durability: Durability)
        ensures
            durability == self.spec_durability(),
    {
        match self {
            DataKey::Escrow(_) => Durability::Persistent,
            DataKey::UserStats(_) => Durability::Temporary,
            _ => Durability::Instance,
        }
    }
}

/// A ledger entry of the contract, as it is written.
#[derive(Clone, Copy, Debug, PartialEq, Eq)]
pub enum BountyEntry {
    Admin(Account),
    Token(Account),
    Escrow(u64, Escrow),
    RateLimitCfg(RateLimitConfig),
    UserStats(Account, UserStats),
    Whitelist(Account, bool),
}

impl BountyEntry {
    pub open spec fn spec_key(self) -> DataKey {
        match self {
            BountyEntry::Admin(_) => DataKey::Admin,
            BountyEntry::Token(_) => DataKey::Token,
            BountyEntry::Escrow(bounty_id, _) => DataKey::Escrow(bounty_id),
            BountyEntry::RateLimitCfg(_) => DataKey::RateLimitCfg,
            BountyEntry::UserStats(user, _) => DataKey::UserStats(user),
            BountyEntry::Whitelist(address, _) => DataKey::Whitelist(address),
        }
    }

    /// The name of the entry.
    pub fn key(&self) -> (key: DataKey)
        ensures
            key == self.spec_key(),
    {
        match self {
            BountyEntry::Admin(_) => DataKey::Admin,
            BountyEntry::Token(_) => DataKey::Token,
            BountyEntry::Escrow(bounty_id, _) => DataKey::Escrow(*bounty_id),
            BountyEntry::RateLimitCfg(_) => DataKey::RateLimitCfg,
            BountyEntry::UserStats(user, _) => DataKey::UserStats(*user),
            BountyEntry::Whitelist(address, _) => DataKey::Whitelist(*address),
        }
    }
}

/// An event of the contract.
#[derive(Clone, Copy, Debug, PartialEq, Eq)]
pub enum BountyEvent {
    RateLimitViolation { user: Account, reason: Denial, timestamp: u64 },
    FundsLocked { bounty_id: u64, depositor: Account, amount: i128, deadline: u64 },
    FundsReleased { bounty_id: u64, contributor: Account, amount: i128 },
    FundsRefunded { bounty_id: u64, depositor: Account, amount: i128 },
}

impl BountyEvent {
    pub open spec fn spec_topic(self) -> Seq<char> {
        match self {
            BountyEvent::RateLimitViolation { .. } => "rate_limit_violation"@,
            BountyEvent::FundsLocked { .. } => "funds_locked"@,
            BountyEvent::FundsReleased { .. } => "funds_released"@,
            BountyEvent::FundsRefunded { .. } => "funds_refunded"@,
        }
    }

    /// The topic under which the event is published.
    pub fn topic(&self) -> (topic: &'static str)
        ensures
            topic@ == self.spec_topic(),
    {
        match self {
            BountyEvent::RateLimitViolation { .. } => "rate_limit_violation",
            BountyEvent::FundsLocked { .. } => "funds_locked",
            BountyEvent::FundsReleased { .. } => "funds_released",
            BountyEvent::FundsRefunded { .. } => "funds_refunded",
        }
    }
}

/// A request of the contract to the host.
pub type BountyCall = HostCall<BountyEntry, DataKey, BountyEvent>;

/// The ledger entries of the contract.
#[derive(Clone, Debug)]
pub struct BountyStorage {
    pub admin: Option<Account>,
    pub token: Option<Account>,
    pub rate_limit_cfg: Option<RateLimitConfig>,
    pub whitelist: Entries<Account, bool>,
    pub stats: Entries<Account, UserStats>,
    pub escrows: Entries<u64, Escrow>,
}

/// The ledger entries of the contract, as mathematical values.
#[verifier::ext_equal]
pub struct BountyState {
    pub admin: Option<Account>,
    pub token: Option<Account>,
    pub rate_limit_cfg: Option<RateLimitConfig>,
    pub whitelist: Map<Account, bool>,
    pub stats: Map<Account, UserStats>,
    pub escrows: Map<u64, Escrow>,
}

impl BountyState {
    /// The state before anything was written.
    pub open spec fn empty() -> Self {
        BountyState {
            admin: None,
            token: None,
            rate_limit_cfg: None,
            whitelist: Map::empty(),
            stats: Map::empty(),
            escrows: Map::empty(),
        }
    }

    /// The admin, the token and the limits are set together, and there are no deposits before
    /// that. Deposits are finitely many.
    pub open spec fn valid(self) -> bool {
        &&& self.admin is Some <==> self.token is Some
        &&& self.admin is Some <==> self.rate_limit_cfg is Some
        &&& self.admin is Some || forall|bounty_id: u64| !self.escrows.contains_key(bounty_id)
        &&& self.escrows.dom().finite()
    }
}

impl View for BountyStorage {
    type V = BountyState;

    open spec fn view(&self) -> BountyState {
        BountyState {
            admin: self.admin,
            token: self.token,
            rate_limit_cfg: self.rate_limit_cfg,
            whitelist: self.whitelist@,
            stats: self.stats@,
            escrows: self.escrows@,
        }
    }
}

impl BountyStorage {
    /// The tables are tables.
    pub open spec fn tables_wf(&self) -> bool {
        &&& self.whitelist.wf()
        &&& self.stats.wf()
        &&& self.escrows.wf()
    }

    pub fn new() -> (storage: BountyStorage)
        ensures
            storage.tables_wf(),
            storage@ == BountyState::empty(),
            storage@.valid(),
    {
        BountyStorage {
            admin: None,
            token: None,
            rate_limit_cfg: None,
            whitelist: Entries::new(),
            stats: Entries::new(),
            escrows: Entries::new(),
        }
    }
}

/// What a call sees of the ledger, and what it has asked of the host.
#[derive(Clone, Debug)]
pub struct BountyEnv {
    /// The contract itself, as a party.
    pub contract: Account,
    /// The time of the ledger, in seconds.
    pub timestamp: u64,
    pub storage: BountyStorage,
    /// The requests to the host so far, in order. They include those of refused calls, whose
    /// effects the host discards: `storage` changes only with calls that succeed.
    pub calls: Vec<BountyCall>,
}

/// `BountyEnv` as mathematical values.
#[verifier::ext_equal]
pub struct BountyView {
    pub contract: Account,
    pub timestamp: u64,
    pub state: BountyState,
    pub calls: Seq<BountyCall>,
}

impl View for BountyEnv {
    type V = BountyView;

    open spec fn view(&self) -> BountyView {
        BountyView {
            contract: self.contract,
            timestamp: self.timestamp,
            state: self.storage@,
            calls: self.calls@,
        }
    }
}

/// The error that a denied operation is answered with.
pub open spec fn denial_error(denial: Denial) -> Error {
    match denial {
        Denial::Cooldown => Error::CooldownActive,
        Denial::MaxOps => Error::RateLimitExceeded,
    }
}

/// The limits in force after initialization: ten operations an hour, a minute apart.
pub open spec fn initial_limits() -> RateLimitConfig {
    RateLimitConfig { window_seconds: 3600, max_ops_per_window: 10, cooldown_seconds: 60 }
}

impl BountyView {
    /// The state of the ledger is one that the contract can have left behind.
    pub open spec fn valid(self) -> bool {
        self.state.valid()
    }

    /// The same ledger with a new state and further requests.
    pub open spec fn moved(self, state: BountyState, asked: Seq<BountyCall>) -> Self {
        BountyView { state, calls: self.calls + asked, ..self }
    }

    /// The same ledger with further requests, whose effects are discarded.
    pub open spec fn refused(self, asked: Seq<BountyCall>) -> Self {
        self.moved(self.state, asked)
    }

    pub open spec fn whitelisted(self, user: Account) -> bool {
        self.state.whitelist.contains_key(user)
    }

    pub open spec fn stats_of(self, user: Account) -> Option<UserStats> {
        if self.state.stats.contains_key(user) {
            Some(self.state.stats[user])
        } else {
            None
        }
    }

    /// The rate limit of the user can be worked out: the user is exempt, or there are limits, and
    /// the times that they lead to can be represented.
    pub open spec fn rate_limit_defined(self, user: Account) -> bool {
        self.whitelisted(user) || (self.state.rate_limit_cfg matches Some(config) && times_fit(
            config,
            self.stats_of(user),
            self.timestamp,
        ))
    }

    /// Whether an operation of the user is let through: the statistics to keep, if any are kept,
    /// or the reason why not.
    pub open spec fn rate_limit(self, user: Account) -> Result<Option<UserStats>, Denial> {
        if self.whitelisted(user) {
            Ok(None)
        } else {
            match verdict(
                self.state.rate_limit_cfg.unwrap(),
                self.stats_of(user),
                self.timestamp,
            ) {
                Ok(stats) => Ok(Some(stats)),
                Err(denial) => Err(denial),
            }
        }
    }

    /// What the rate limit asks of the host: to keep the statistics and see that they live, or to
    /// publish the violation; nothing for users on the whitelist.
    pub open spec fn rate_limit_calls(self, user: Account) -> Seq<BountyCall> {
        match self.rate_limit(user) {
            Ok(None) => seq![],
            Ok(Some(stats)) => seq![
                HostCall::Write(BountyEntry::UserStats(user, stats)),
                HostCall::ExtendTtl {
                    key: DataKey::UserStats(user),
                    threshold: STATS_TTL_LEDGERS,
                    extend_to: STATS_TTL_LEDGERS,
                },
            ],
            Err(reason) => seq![
                HostCall::Publish(
                    BountyEvent::RateLimitViolation { user, reason, timestamp: self.timestamp },
                ),
            ],
        }
    }

    /// The statistics of all users once an operation of this one was let through.
    pub open spec fn stats_kept(self, user: Account) -> Map<Account, UserStats> {
        match self.rate_limit(user) {
            Ok(Some(stats)) => self.state.stats.insert(user, stats),
            _ => self.state.stats,
        }
    }

    pub open spec fn init_result(self) -> Result<(), Error> {
        if self.state.admin is Some {
            Err(Error::AlreadyInitialized)
        } else {
            Ok(())
        }
    }

    pub open spec fn init(self, admin: Account, token: Account) -> Self {
        if self.init_result() is Ok {
            self.moved(
                BountyState {
                    admin: Some(admin),
                    token: Some(token),
                    rate_limit_cfg: Some(initial_limits()),
                    ..self.state
                },
                seq![
                    HostCall::Write(BountyEntry::Admin(admin)),
                    HostCall::Write(BountyEntry::Token(token)),
                    HostCall::Write(BountyEntry::RateLimitCfg(initial_limits())),
                ],
            )
        } else {
            self.refused(seq![])
        }
    }

    /// What a call for the admin alone is answered before the admin is asked.
    pub open spec fn admin_result(self) -> Result<(), Error> {
        if self.state.admin is Some {
            Ok(())
        } else {
            Err(Error::NotInitialized)
        }
    }

    pub open spec fn set_rate_limit_config(self, config: RateLimitConfig) -> Self {
        match self.state.admin {
            Some(admin) => self.moved(
                BountyState { rate_limit_cfg: Some(config), ..self.state },
                seq![
                    HostCall::RequireAuth(admin),
                    HostCall::Write(BountyEntry::RateLimitCfg(config)),
                ],
            ),
            None => self.refused(seq![]),
        }
    }

    pub open spec fn set_whitelist_status(self, address: Account, whitelisted: bool) -> Self {
        match self.state.admin {
            Some(admin) => if whitelisted {
                self.moved(
                    BountyState {
                        whitelist: self.state.whitelist.insert(address, true),
                        ..self.state
                    },
                    seq![
                        HostCall::RequireAuth(admin),
                        HostCall::Write(BountyEntry::Whitelist(address, true)),
                    ],
                )
            } else {
                self.moved(
                    BountyState { whitelist: self.state.whitelist.remove(address), ..self.state },
                    seq![
                        HostCall::RequireAuth(admin),
                        HostCall::Remove(DataKey::Whitelist(address)),
                    ],
                )
            },
            None => self.refused(seq![]),
        }
    }

    pub open spec fn check_rate_limit_result(self, user: Account) -> Result<(), Error> {
        match self.rate_limit(user) {
            Ok(_) => Ok(()),
            Err(denial) => Err(denial_error(denial)),
        }
    }

    pub open spec fn check_rate_limit(self, user: Account) -> Self {
        self.moved(
            BountyState { stats: self.stats_kept(user), ..self.state },
            self.rate_limit_calls(user),
        )
    }

    pub open spec fn lock_funds_result(self, depositor: Account, bounty_id: u64) -> Result<
        (),
        Error,
    > {
        if self.check_rate_limit_result(depositor) is Err {
            self.check_rate_limit_result(depositor)
        } else if self.state.admin is None {
            Err(Error::NotInitialized)
        } else if self.state.escrows.contains_key(bounty_id) {
            Err(Error::BountyExists)
        } else {
            Ok(())
        }
    }

    pub open spec fn lock_funds(
        self,
        depositor: Account,
        bounty_id: u64,
        amount: i128,
        deadline: u64,
    ) -> Self {
        let escrow = Escrow { depositor, amount, status: EscrowStatus::Locked, deadline };
        let asked = seq![HostCall::RequireAuth(depositor)] + self.rate_limit_calls(depositor);
        if self.lock_funds_result(depositor, bounty_id) is Ok {
            self.moved(
                BountyState {
                    stats: self.stats_kept(depositor),
                    escrows: self.state.escrows.insert(bounty_id, escrow),
                    ..self.state
                },
                asked + seq![
                    HostCall::Transfer {
                        token: self.state.token.unwrap(),
                        from: depositor,
                        to: self.contract,
                        amount,
                    },
                    HostCall::Write(BountyEntry::Escrow(bounty_id, escrow)),
                    HostCall::Publish(
                        BountyEvent::FundsLocked { bounty_id, depositor, amount, deadline },
                    ),
                ],
            )
        } else {
            self.refused(asked)
        }
    }

    pub open spec fn release_funds_result(self, bounty_id: u64) -> Result<(), Error> {
        if self.state.admin is None {
            Err(Error::NotInitialized)
        } else if !self.state.escrows.contains_key(bounty_id) {
            Err(Error::BountyNotFound)
        } else if self.state.escrows[bounty_id].status != EscrowStatus::Locked {
            Err(Error::FundsNotLocked)
        } else {
            Ok(())
        }
    }

    pub open spec fn release_funds(self, bounty_id: u64, contributor: Account) -> Self {
        let held = self.state.escrows[bounty_id];
        let released = Escrow { status: EscrowStatus::Released, ..held };
        if self.state.admin is None {
            self.refused(seq![])
        } else if self.release_funds_result(bounty_id) is Err {
            self.refused(seq![HostCall::RequireAuth(self.state.admin.unwrap())])
        } else {
            self.moved(
                BountyState {
                    escrows: self.state.escrows.insert(bounty_id, released),
                    ..self.state
                },
                seq![
                    HostCall::RequireAuth(self.state.admin.unwrap()),
                    HostCall::Transfer {
                        token: self.state.token.unwrap(),
                        from: self.contract,
                        to: contributor,
                        amount: held.amount,
                    },
                    HostCall::Write(BountyEntry::Escrow(bounty_id, released)),
                    HostCall::Publish(
                        BountyEvent::FundsReleased { bounty_id, contributor, amount: held.amount },
                    ),
                ],
            )
        }
    }

    pub open spec fn refund_result(self, bounty_id: u64) -> Result<(), Error> {
        if !self.state.escrows.contains_key(bounty_id) {
            Err(Error::BountyNotFound)
        } else if self.state.escrows[bounty_id].status != EscrowStatus::Locked {
            Err(Error::FundsNotLocked)
        } else if self.timestamp < self.state.escrows[bounty_id].deadline {
            Err(Error::DeadlineNotPassed)
        } else {
            Ok(())
        }
    }

    pub open spec fn refund(self, bounty_id: u64) -> Self {
        let held = self.state.escrows[bounty_id];
        let refunded = Escrow { status: EscrowStatus::Refunded, ..held };
        if self.refund_result(bounty_id) is Err {
            self.refused(seq![])
        } else {
            self.moved(
                BountyState {
                    escrows: self.state.escrows.insert(bounty_id, refunded),
                    ..self.state
                },
                seq![
                    HostCall::Transfer {
                        token: self.state.token.unwrap(),
                        from: self.contract,
                        to: held.depositor,
                        amount: held.amount,
                    },
                    HostCall::Write(BountyEntry::Escrow(bounty_id, refunded)),
                    HostCall::Publish(
                        BountyEvent::FundsRefunded {
                            bounty_id,
                            depositor: held.depositor,
                            amount: held.amount,
                        },
                    ),
                ],
            )
        }
    }
}

impl BountyEnv {
    /// The tables are tables, and the state is one that the contract can have left behind.
    pub open spec fn wf(&self) -> bool {
        &&& self.storage.tables_wf()
        &&& self@.valid()
    }

    /// A ledger on which the contract has not been used yet.
    pub fn new(contract: Account, timestamp: u64) -> (env: BountyEnv)
        ensures
            env.wf(),
            env@ == (BountyView {
                contract,
                timestamp,
                state: BountyState::empty(),
                calls: seq![],
            }),
    {
        let env = BountyEnv { contract, timestamp, storage: BountyStorage::new(), calls: Vec::new() };
        assert(env@.calls =~= seq![]);
        env
    }

    /// Whether the ledger entries are such as the contract can have left behind.
    pub fn consistent(&self) -> (consistent: bool)
        requires
            self.storage.tables_wf(),
        ensures
            consistent == self.wf(),
    {
        proof {
            crate::entries::lemma_entries_finite(&self.storage.escrows);
        }
        let initialized = self.storage.admin.is_some();
        self.storage.token.is_some() == initialized && self.storage.rate_limit_cfg.is_some()
            == initialized && (initialized || self.storage.escrows.is_empty())
    }

    /// Whether the rate limit of the user can be worked out.
    pub fn rate_limit_computable(&self, user: &Account) -> (computable: bool)
        requires
            self.wf(),
        ensures
            computable == self@.rate_limit_defined(*user),
    {
        if self.storage.whitelist.has(user) {
            return true;
        }
        match self.storage.rate_limit_cfg {
            Some(config) => assessable(&config, self.storage.stats.get(user), self.timestamp),
            None => false,
        }
    }

    fn ask(&mut self, call: BountyCall)
        ensures
            final(self)@ == (BountyView { calls: old(self)@.calls.push(call), ..old(self)@ }),
            final(self).storage == old(self).storage,
    {
        self.calls.push(call);
    }

    /// Puts the statistics of the user back to what they were.
    fn restore_stats(&mut self, user: &Account, before: Option<UserStats>)
        requires
            old(self).storage.tables_wf(),
        ensures
            final(self).storage.tables_wf(),
            final(self)@ == (BountyView {
                state: BountyState {
                    stats: match before {
                        Some(stats) => old(self)@.state.stats.insert(*user, stats),
                        None => old(self)@.state.stats.remove(*user),
                    },
                    ..old(self)@.state
                },
                ..old(self)@
            }),
    {
        match before {
            Some(stats) => {
                self.storage.stats.set(*user, stats);
            },
            None => {
                self.storage.stats.remove(user);
            },
        }
    }
}

/// The bounty escrow contract.
#[derive(Clone, Copy, Debug)]
pub struct BountyEscrowContract;

/// What to ask the token contract for: the holdings of one party in one token.
#[derive(Clone, Copy, Debug, PartialEq, Eq)]
pub struct BalanceQuery {
    pub token: Account,
    pub holder: Account,
}

impl BountyEscrowContract {
    /// Sets the admin and the token, once, and the initial limits.
    pub fn init(env: &mut BountyEnv, admin: Account, token: Account) -> (result: Result<(), Error>)
        requires
            old(env).wf(),
        ensures
            final(env).wf(),
            result == old(env)@.init_result(),
            final(env)@ == old(env)@.init(admin, token),
    {
        if env.storage.admin.is_some() {
            assert(env@ =~= old(env)@.refused(seq![]));
            return Err(Error::AlreadyInitialized);
        }
        env.storage.admin = Some(admin);
        env.storage.token = Some(token);
        let config = RateLimitConfig {
            window_seconds: 3600,
            max_ops_per_window: 10,
            cooldown_seconds: 60,
        };
        env.storage.rate_limit_cfg = Some(config);
        env.ask(HostCall::Write(BountyEntry::Admin(admin)));
        env.ask(HostCall::Write(BountyEntry::Token(token)));
        env.ask(HostCall::Write(BountyEntry::RateLimitCfg(config)));
        assert(env@ =~= old(env)@.init(admin, token));
        Ok(())
    }

    /// Sets the limits. The admin has to authorize it.
    pub fn set_rate_limit_config(
        env: &mut BountyEnv,
        window_seconds: u64,
        max_ops_per_window: u32,
        cooldown_seconds: u64,
    ) -> (result: Result<(), Error>)
        requires
            old(env).wf(),
        ensures
            final(env).wf(),
            result == old(env)@.admin_result(),
            final(env)@ == old(env)@.set_rate_limit_config(
                RateLimitConfig { window_seconds, max_ops_per_window, cooldown_seconds },
            ),
    {
        let admin = match env.storage.admin {
            Some(admin) => admin,
            None => {
                assert(env@ =~= old(env)@.refused(seq![]));
                return Err(Error::NotInitialized);
            },
        };
        let config = RateLimitConfig { window_seconds, max_ops_per_window, cooldown_seconds };
        env.ask(HostCall::RequireAuth(admin));
        env.storage.rate_limit_cfg = Some(config);
        env.ask(HostCall::Write(BountyEntry::RateLimitCfg(config)));
        assert(env@ =~= old(env)@.set_rate_limit_config(config));
        Ok(())
    }

    /// Puts a party on the whitelist or takes it off. The admin has to authorize it.
    pub fn set_whitelist_status(env: &mut BountyEnv, address: Account, whitelisted: bool) -> (result:
        Result<(), Error>)
        requires
            old(env).wf(),
        ensures
            final(env).wf(),
            result == old(env)@.admin_result(),
            final(env)@ == old(env)@.set_whitelist_status(address, whitelisted),
    {
        let admin = match env.storage.admin {
            Some(admin) => admin,
            None => {
                assert(env@ =~= old(env)@.refused(seq![]));
                return Err(Error::NotInitialized);
            },
        };
        env.ask(HostCall::RequireAuth(admin));
        if whitelisted {
            env.storage.whitelist.set(address, true);
            env.ask(HostCall::Write(BountyEntry::Whitelist(address, true)));
        } else {
            env.storage.whitelist.remove(&address);
            env.ask(HostCall::Remove(DataKey::Whitelist(address)));
        }
        assert(env@ =~= old(env)@.set_whitelist_status(address, whitelisted));
        Ok(())
    }

    /// Lets an operation of the user through and counts it, or publishes that it went over the
    /// limits. Users on the whitelist are let through without being counted.
    pub fn check_rate_limit(env: &mut BountyEnv, user: &Account) -> (result: Result<(), Error>)
        requires
            old(env).wf(),
            old(env)@.rate_limit_defined(*user),
        ensures
            final(env).wf(),
            result == old(env)@.check_rate_limit_result(*user),
            final(env)@ == old(env)@.check_rate_limit(*user),
    {
        if env.storage.whitelist.has(user) {
            assert(env@ =~= old(env)@.check_rate_limit(*user));
            return Ok(());
        }
        let config = env.storage.rate_limit_cfg.unwrap();
        let now: u64 = env.timestamp;
        match assess(&config, env.storage.stats.get(user), now) {
            Err(reason) => {
                env.ask(
                    HostCall::Publish(
                        BountyEvent::RateLimitViolation { user: *user, reason, timestamp: now },
                    ),
                );
                assert(env@ =~= old(env)@.check_rate_limit(*user));
                match reason {
                    Denial::Cooldown => Err(Error::CooldownActive),
                    Denial::MaxOps => Err(Error::RateLimitExceeded),
                }
            },
            Ok(stats) => {
                env.storage.stats.set(*user, stats);
                env.ask(HostCall::Write(BountyEntry::UserStats(*user, stats)));
                env.ask(
                    HostCall::ExtendTtl {
                        key: DataKey::UserStats(*user),
                        threshold: STATS_TTL_LEDGERS,
                        extend_to: STATS_TTL_LEDGERS,
                    },
                );
                assert(env@ =~= old(env)@.check_rate_limit(*user));
                Ok(())
            },
        }
    }

    /// Locks funds of the depositor, who has to authorize it, for a bounty that has none yet.
    pub fn lock_funds(
        env: &mut BountyEnv,
        depositor: Account,
        bounty_id: u64,
        amount: i128,
        deadline: u64,
    ) -> (result: Result<(), Error>)
        requires
            old(env).wf(),
            old(env)@.rate_limit_defined(depositor),
        ensures
            final(env).wf(),
            result == old(env)@.lock_funds_result(depositor, bounty_id),
            final(env)@ == old(env)@.lock_funds(depositor, bounty_id, amount, deadline),
    {
        let ghost before = env@;
        env.ask(HostCall::RequireAuth(depositor));
        let stats_before = env.storage.stats.get(&depositor);
        match Self::check_rate_limit(env, &depositor) {
            Ok(_) => {},
            Err(error) => {
                assert(env@ =~= before.lock_funds(depositor, bounty_id, amount, deadline));
                return Err(error);
            },
        }
        if env.storage.admin.is_none() {
            env.restore_stats(&depositor, stats_before);
            assert(env@ =~= before.lock_funds(depositor, bounty_id, amount, deadline));
            return Err(Error::NotInitialized);
        }
        if env.storage.escrows.has(&bounty_id) {
            env.restore_stats(&depositor, stats_before);
            assert(env@ =~= before.lock_funds(depositor, bounty_id, amount, deadline));
            return Err(Error::BountyExists);
        }
        let token = env.storage.token.unwrap();
        let contract = env.contract;
        env.ask(HostCall::Transfer { token, from: depositor, to: contract, amount });
        let escrow = Escrow { depositor, amount, status: EscrowStatus::Locked, deadline };
        env.storage.escrows.set(bounty_id, escrow);
        env.ask(HostCall::Write(BountyEntry::Escrow(bounty_id, escrow)));
        env.ask(
            HostCall::Publish(BountyEvent::FundsLocked { bounty_id, depositor, amount, deadline }),
        );
        assert(env@ =~= before.lock_funds(depositor, bounty_id, amount, deadline));
        Ok(())
    }

    /// Pays locked funds to the contributor. The admin has to authorize it.
    pub fn release_funds(env: &mut BountyEnv, bounty_id: u64, contributor: Account) -> (result: Result<
        (),
        Error,
    >)
        requires
            old(env).wf(),
        ensures
            final(env).wf(),
            result == old(env)@.release_funds_result(bounty_id),
            final(env)@ == old(env)@.release_funds(bounty_id, contributor),
    {
        let admin = match env.storage.admin {
            Some(admin) => admin,
            None => {
                assert(env@ =~= old(env)@.refused(seq![]));
                return Err(Error::NotInitialized);
            },
        };
        env.ask(HostCall::RequireAuth(admin));
        let held = match env.storage.escrows.get(&bounty_id) {
            Some(held) => held,
            None => {
                assert(env@ =~= old(env)@.release_funds(bounty_id, contributor));
                return Err(Error::BountyNotFound);
            },
        };
        if held.status != EscrowStatus::Locked {
            assert(env@ =~= old(env)@.release_funds(bounty_id, contributor));
            return Err(Error::FundsNotLocked);
        }
        let token = env.storage.token.unwrap();
        let contract = env.contract;
        env.ask(
            HostCall::Transfer { token, from: contract, to: contributor, amount: held.amount },
        );
        let released = Escrow { status: EscrowStatus::Released, ..held };
        env.storage.escrows.set(bounty_id, released);
        env.ask(HostCall::Write(BountyEntry::Escrow(bounty_id, released)));
        env.ask(
            HostCall::Publish(
                BountyEvent::FundsReleased { bounty_id, contributor, amount: held.amount },
            ),
        );
        assert(env@ =~= old(env)@.release_funds(bounty_id, contributor));
        Ok(())
    }

    /// Sends locked funds back to the depositor, once the deadline has passed. Anyone may call it.
    pub fn refund(env: &mut BountyEnv, bounty_id: u64) -> (result: Result<(), Error>)
        requires
            old(env).wf(),
        ensures
            final(env).wf(),
            result == old(env)@.refund_result(bounty_id),
            final(env)@ == old(env)@.refund(bounty_id),
    {
        let held = match env.storage.escrows.get(&bounty_id) {
            Some(held) => held,
            None => {
                assert(env@ =~= old(env)@.refund(bounty_id));
                return Err(Error::BountyNotFound);
            },
        };
        if held.status != EscrowStatus::Locked {
            assert(env@ =~= old(env)@.refund(bounty_id));
            return Err(Error::FundsNotLocked);
        }
        if env.timestamp < held.deadline {
            assert(env@ =~= old(env)@.refund(bounty_id));
            return Err(Error::DeadlineNotPassed);
        }
        let token = env.storage.token.unwrap();
        let contract = env.contract;
        env.ask(
            HostCall::Transfer { token, from: contract, to: held.depositor, amount: held.amount },
        );
        let refunded = Escrow { status: EscrowStatus::Refunded, ..held };
        env.storage.escrows.set(bounty_id, refunded);
        env.ask(HostCall::Write(BountyEntry::Escrow(bounty_id, refunded)));
        env.ask(
            HostCall::Publish(
                BountyEvent::FundsRefunded {
                    bounty_id,
                    depositor: held.depositor,
                    amount: held.amount,
                },
            ),
        );
        assert(env@ =~= old(env)@.refund(bounty_id));
        Ok(())
    }

    /// The deposit for a bounty.
    pub fn get_escrow_info(env: &BountyEnv, bounty_id: u64) -> (result: Result<Escrow, Error>)
        requires
            env.storage.tables_wf(),
        ensures
            result == (if env@.state.escrows.contains_key(bounty_id) {
                Ok(env@.state.escrows[bounty_id])
            } else {
                Err(Error::BountyNotFound)
            }),
    {
        match env.storage.escrows.get(&bounty_id) {
            Some(escrow) => Ok(escrow),
            None => Err(Error::BountyNotFound),
        }
    }

    /// What has to be asked of the token contract to answer `get_balance`.
    pub fn balance_query(env: &BountyEnv) -> (query: Result<BalanceQuery, Error>)
        ensures
            query == (match env@.state.token {
                Some(token) => Ok(BalanceQuery { token, holder: env@.contract }),
                None => Err(Error::NotInitialized),
            }),
    {
        match env.storage.token {
            Some(token) => Ok(BalanceQuery { token, holder: env.contract }),
            None => Err(Error::NotInitialized),
        }
    }

    /// The balance of the contract, given what the token contract reported to `balance_query`.
    pub fn get_balance(env: &BountyEnv, reported: i128) -> (result: Result<i128, Error>)
        ensures
            result == (if env@.state.token is Some {
                Ok(reported)
            } else {
                Err(Error::NotInitialized)
            }),
    {
        match Self::balance_query(env) {
            Ok(_) => Ok(reported),
            Err(error) => Err(error),
        }
    }
}

} // verus!
