//! Escrow contracts for grants.
//!
//! Two contracts hold tokens until they are due. The bounty escrow (`bounty_escrow`) keeps one
//! deposit for each bounty, to be released by an admin or refunded after a deadline. The program
//! escrow (`program_escrow`) keeps the prize pool of one program, out of which the holder of a
//! payout key pays one recipient or many. Both limit how often a party may act (`rate_limit`).
//!
//! Each contract function takes what the call sees of the ledger, decides, and adds to it the
//! requests that the host has to perform (`host`). Its contract gives the answer, the ledger
//! entries left behind and the requests, exactly. What holds of each escrow as a whole, whatever is
//! called in whatever order, is proved in `bounty_laws` and `program_laws`; what each call does, read
//! off its arguments and the ledger entries alone, in `bounty_outcomes` and `program_outcomes`.
pub mod account;
pub mod entries;
pub mod host;
pub mod rate_limit;

pub mod bounty_escrow;
pub mod bounty_laws;
pub mod bounty_outcomes;

pub mod host_vec;
pub mod program_escrow;
pub mod program_laws;
pub mod program_outcomes;
pub mod rejection;
