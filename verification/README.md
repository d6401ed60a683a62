# grant_escrow

Two escrow contracts for the Stellar network, with their behaviour proved in Verus.

* The bounty escrow holds one deposit for each bounty. The admin releases it to a contributor, or,
  once the deadline has passed, anyone has it sent back to the depositor.
* The program escrow holds the prize pool of one program. The holder of the payout key pays out of
  it, to one recipient or to many at once, and every payment is recorded.

Both limit how often a party may act: so many operations in a window of time, and a cooldown
between two of them. A whitelist exempts from that.

## Layout

* `src/` is the library. It decides on plain values: a contract function takes what the call sees of
  the ledger and lists what the host has to do, in order.
  * `bounty_escrow.rs`, `program_escrow.rs`: the contracts.
  * `bounty_laws.rs`, `program_laws.rs`: what holds of them over any sequence of calls.
  * `rate_limit.rs`: the limits. `rejection.rs`: why the program escrow refuses a call.
  * `host.rs`: requests to the host. `host_vec.rs`: lists that the host hands over.
  * `account.rs`, `entries.rs`: parties, and tables of ledger entries.
* `app/` runs the library on a ledger: it reads the entries, calls the library and performs the
  requests.
* `tests/` exercises the library on concrete values.

## What is taken on trust

The list type of the host, `soroban_sdk::Vec`, is opaque to Verus. `host_vec.rs` states what reading
its length and its items gives back. That the host discards what a refused call wrote and published
is a property of the host.
