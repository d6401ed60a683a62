//! What a contract asks of the ledger host.
//!
//! A contract call reads ledger entries, decides, and then asks the host for effects: that a party
//! has authorized the call, that entries are written, that tokens move, that events are published.
//! The functions of this crate decide on plain values and list these requests in order; whoever
//! runs them on a ledger performs the list in that order. When a call is refused the host discards
//! all that the call wrote and published.
use vstd::prelude::*;

use crate::account::Account;

verus! {

/// How long a ledger entry lives.
#[derive(Clone, Copy, Debug, PartialEq, Eq, Structural)]
pub enum Durability {
    /// As long as the contract instance, and loaded with it.
    Instance,
    /// For good, independently of the contract instance.
    Persistent,
    /// Until its time to live runs out.
    Temporary,
}

/// A request to the host, where entries are written as `E`, named by `K`, and events are `V`.
#[derive(Clone, Copy, Debug)]
pub enum HostCall<E, K, V> {
    /// Fail the whole call unless the party has authorized it.
    RequireAuth(Account),
    /// Write an entry.
    Write(E),
    /// Take an entry out.
    Remove(K),
    /// See that the entry lives for `extend_to` ledgers, if it has fewer than `threshold` left.
    ExtendTtl { key: K, threshold: u32, extend_to: u32 },
    /// Move tokens; the token contract fails the whole call if it does not allow the transfer.
    Transfer { token: Account, from: Account, to: Account, amount: i128 },
    /// Publish an event.
    Publish(V),
}

/// What one request adds to the holdings of `holder` in `token`.
pub open spec fn inflow<E, K, V>(call: HostCall<E, K, V>, token: Account, holder: Account) -> int {
    match call {
        HostCall::Transfer { token: t, from, to, amount } if t == token => (if to == holder {
            amount as int
        } else {
            0
        }) - (if from == holder {
            amount as int
        } else {
            0
        }),
        _ => 0,
    }
}

/// What a list of requests adds to the holdings of `holder` in `token`.
pub open spec fn net_inflow<E, K, V>(
    calls: Seq<HostCall<E, K, V>>,
    token: Account,
    holder: Account,
) -> int
    decreases calls.len(),
{
    if calls.len() == 0 {
        0
    } else {
        net_inflow(calls.drop_last(), token, holder) + inflow(calls.last(), token, holder)
    }
}

/// The inflow of two lists one after the other is the sum of their inflows.
pub proof fn lemma_net_inflow_concat<E, K, V>(
    first: Seq<HostCall<E, K, V>>,
    second: Seq<HostCall<E, K, V>>,
    token: Account,
    holder: Account,
)
    ensures
        net_inflow(first + second, token, holder) == net_inflow(first, token, holder) + net_inflow(
            second,
            token,
            holder,
        ),
    decreases second.len(),
{
    if second.len() == 0 {
        assert(first + second =~= first);
    } else {
        assert((first + second).drop_last() =~= first + second.drop_last());
        assert((first + second).last() == second.last());
        lemma_net_inflow_concat(first, second.drop_last(), token, holder);
    }
}

/// Requests without a transfer among them move no tokens.
pub proof fn lemma_no_transfer<E, K, V>(
    calls: Seq<HostCall<E, K, V>>,
    token: Account,
    holder: Account,
)
    requires
        forall|i: int| 0 <= i < calls.len() ==> !(#[trigger] calls[i] is Transfer),
    ensures
        net_inflow(calls, token, holder) == 0,
    decreases calls.len(),
{
    if calls.len() != 0 {
        let earlier = calls.drop_last();
        assert forall|i: int| 0 <= i < earlier.len() implies !(#[trigger] earlier[i] is Transfer) by {
            assert(earlier[i] == calls[i]);
        }
        lemma_no_transfer(earlier, token, holder);
        assert(!(calls[calls.len() - 1] is Transfer));
    }
}

/// Requests with one transfer among them move what that transfer moves.
pub proof fn lemma_single_transfer<E, K, V>(
    calls: Seq<HostCall<E, K, V>>,
    at: int,
    token: Account,
    holder: Account,
)
    requires
        0 <= at < calls.len(),
        forall|i: int| 0 <= i < calls.len() && i != at ==> !(#[trigger] calls[i] is Transfer),
    ensures
        net_inflow(calls, token, holder) == inflow(calls[at], token, holder),
    decreases calls.len(),
{
    let earlier = calls.drop_last();
    assert forall|i: int| 0 <= i < earlier.len() && i != at implies !(
    #[trigger] earlier[i] is Transfer) by {
        assert(earlier[i] == calls[i]);
    }
    if at == calls.len() - 1 {
        lemma_no_transfer(earlier, token, holder);
    } else {
        lemma_single_transfer(earlier, at, token, holder);
        assert(!(calls[calls.len() - 1] is Transfer));
    }
}

} // verus!
