//! Lists that the host hands over.
//!
//! A list argument of a contract call lives in the host as a `soroban_sdk::Vec`. The host does not
//! check that its items are of the type that the contract expects, so each one is tried. Here such
//! lists are read into plain ones.
use vstd::prelude::*;

use crate::account::Account;
use crate::program_escrow::{answer_view, ProgramData, ProgramEnv, ProgramEscrowContract, ProgramInfo};
use crate::rejection::Rejection;

verus! {

/// The list type of the host, as an opaque type.
#[verifier::external_type_specification]
#[verifier::external_body]
#[verifier::reject_recursive_types(T)]
pub struct ExHostVec<T>(soroban_sdk::Vec<T>);

/// The address type of the host, as an opaque type.
#[verifier::external_type_specification]
#[verifier::external_body]
pub struct ExHostAddress(soroban_sdk::Address);

/// What a host list of amounts holds: each item that is an amount, and nothing for any other item.
pub uninterp spec fn amounts_in(list: soroban_sdk::Vec<i128>) -> Seq<Option<i128>>;

/// What a host list of addresses holds: the party of each item that is an address, and nothing for
/// any other item.
pub uninterp spec fn recipients_in(list: soroban_sdk::Vec<soroban_sdk::Address>) -> Seq<
    Option<Account>,
>;

/// Calls `soroban_sdk::Vec::len`: it returns the number of items, of whatever type they are.
#[verifier::external_body]
fn amount_count(list: &soroban_sdk::Vec<i128>) -> (count: u32)
    ensures
        count == amounts_in(*list).len(),
{
    list.len()
}

/// Calls `soroban_sdk::Vec::try_get_unchecked`: at a position within the list it returns the item,
/// or an error where the item is not a 128-bit integer. Outside the list it would panic.
#[verifier::external_body]
fn amount_at(list: &soroban_sdk::Vec<i128>, position: u32) -> (amount: Option<i128>)
    requires
        position < amounts_in(*list).len(),
    ensures
        amount == amounts_in(*list)[position as int],
{
    list.try_get_unchecked(position).ok()
}

/// Calls `soroban_sdk::Vec::len`: it returns the number of items, of whatever type they are.
#[verifier::external_body]
fn recipient_count(list: &soroban_sdk::Vec<soroban_sdk::Address>) -> (count: u32)
    ensures
        count == recipients_in(*list).len(),
{
    list.len()
}

/// Calls `soroban_sdk::Vec::try_get_unchecked`: at a position within the list it returns the item,
/// or an error where the item is not an address. Outside the list it would panic. The address is
/// written out as text, which has 56 characters for an account as for a contract.
#[verifier::external_body]
fn recipient_at(list: &soroban_sdk::Vec<soroban_sdk::Address>, position: u32) -> (recipient: Option<
    Account,
>)
    requires
        position < recipients_in(*list).len(),
    ensures
        recipient == recipients_in(*list)[position as int],
{
    let address = list.try_get_unchecked(position).ok()?;
    let mut strkey = [0u8; 56];
    address.to_string().copy_into_slice(&mut strkey);
    Some(Account { strkey })
}

/// Every item of the list is of the expected type.
pub open spec fn readable<T>(items: Seq<Option<T>>) -> bool {
    forall|i: int| 0 <= i < items.len() ==> #[trigger] items[i] is Some
}

/// The items of a list in which every item is of the expected type.
pub open spec fn read<T>(items: Seq<Option<T>>) -> Seq<T> {
    Seq::new(items.len(), |i: int| items[i]->0)
}

/// The items before the first one that is not of the expected type.
pub open spec fn leading<T>(items: Seq<Option<T>>) -> Seq<T>
    decreases items.len(),
{
    if readable(items) || items.len() == 0 {
        read(items)
    } else {
        leading(items.drop_last())
    }
}

/// The leading items are all items just where every item is of the expected type.
pub proof fn lemma_leading_of_readable<T>(items: Seq<Option<T>>)
    ensures
        leading(items).len() <= items.len(),
        readable(items) <==> leading(items).len() == items.len(),
        readable(items) ==> leading(items) == read(items),
    decreases items.len(),
{
    if !readable(items) && items.len() != 0 {
        lemma_leading_of_readable(items.drop_last());
    }
}

/// Items up to one of another type are the leading ones.
proof fn lemma_leading_stops<T>(items: Seq<Option<T>>, plain: Seq<T>)
    requires
        plain.len() <= items.len(),
        forall|k: int| 0 <= k < plain.len() ==> #[trigger] items[k] == Some(plain[k]),
        plain.len() < items.len() ==> items[plain.len() as int] is None,
    ensures
        leading(items) == plain,
    decreases items.len(),
{
    if plain.len() == items.len() {
        assert(read(items) =~= plain);
    } else {
        let earlier = items.drop_last();
        assert(!readable(items));
        assert forall|k: int| 0 <= k < plain.len() implies #[trigger] earlier[k] == Some(plain[k]) by {
            assert(earlier[k] == items[k]);
        }
        lemma_leading_stops(earlier, plain);
    }
}

/// A list is readable just where every item is of the expected type, and is then read item by item,
/// in order. Of any list the leading items are read so, and the item after them, if there is one, is
/// of another type.
pub proof fn law_lists_are_read_in_order<T>(items: Seq<Option<T>>, i: int)
    ensures
        readable(items) <==> forall|k: int| 0 <= k < items.len() ==> #[trigger] items[k] is Some,
        read(items).len() == items.len(),
        0 <= i < items.len() && items[i] is Some ==> items[i] == Some(read(items)[i]),
        leading(items).len() <= items.len(),
        0 <= i < leading(items).len() ==> items[i] == Some(leading(items)[i]),
        leading(items).len() < items.len() ==> items[leading(items).len() as int] is None,
    decreases items.len(),
{
    if !readable(items) && items.len() != 0 {
        let earlier = items.drop_last();
        law_lists_are_read_in_order(earlier, i);
        lemma_leading_of_readable(earlier);
        if 0 <= i < leading(items).len() {
            assert(earlier[i] == items[i]);
        }
        if leading(items).len() < earlier.len() {
            assert(earlier[leading(items).len() as int] == items[leading(items).len() as int]);
        } else {
            assert(readable(earlier));
            let last = items.len() - 1;
            if items[last] is Some {
                assert forall|k: int| 0 <= k < items.len() implies #[trigger] items[k] is Some by {
                    if k < last {
                        assert(earlier[k] is Some);
                    }
                }
                assert(false);
            }
        }
    }
}

/// Reads a host list of amounts, up to the first item that is not one.
pub fn read_amounts(list: &soroban_sdk::Vec<i128>) -> (amounts: Vec<i128>)
    ensures
        amounts@ == leading(amounts_in(*list)),
{
    let ghost items = amounts_in(*list);
    let count: u32 = amount_count(list);
    let mut plain: Vec<i128> = Vec::new();
    let mut i: u32 = 0;
    while i < count
        invariant
            i <= count,
            items == amounts_in(*list),
            count == items.len(),
            plain@.len() == i,
            forall|k: int| 0 <= k < i ==> #[trigger] items[k] == Some(plain@[k]),
        decreases count - i,
    {
        match amount_at(list, i) {
            Some(amount) => plain.push(amount),
            None => {
                proof {
                    lemma_leading_stops(items, plain@);
                }
                return plain;
            },
        }
        i = i + 1;
    }
    proof {
        lemma_leading_stops(items, plain@);
    }
    plain
}

/// Reads a host list of addresses, up to the first item that is not one.
pub fn read_recipients(list: &soroban_sdk::Vec<soroban_sdk::Address>) -> (recipients: Vec<Account>)
    ensures
        recipients@ == leading(recipients_in(*list)),
{
    let ghost items = recipients_in(*list);
    let count: u32 = recipient_count(list);
    let mut plain: Vec<Account> = Vec::new();
    let mut i: u32 = 0;
    while i < count
        invariant
            i <= count,
            items == recipients_in(*list),
            count == items.len(),
            plain@.len() == i,
            forall|k: int| 0 <= k < i ==> #[trigger] items[k] == Some(plain@[k]),
        decreases count - i,
    {
        match recipient_at(list, i) {
            Some(recipient) => plain.push(recipient),
            None => {
                proof {
                    lemma_leading_stops(items, plain@);
                }
                return plain;
            },
        }
        i = i + 1;
    }
    proof {
        lemma_leading_stops(items, plain@);
    }
    plain
}

impl ProgramEscrowContract {
    /// `batch_payout` on lists as the host hands them over. A batch with an item of another type in
    /// one of its lists is refused, with the reason that comes up first.
    pub fn batch_payout_host(
        env: &mut ProgramEnv,
        recipients: &soroban_sdk::Vec<soroban_sdk::Address>,
        amounts: &soroban_sdk::Vec<i128>,
    ) -> (result: Result<ProgramData, Rejection>)
        requires
            old(env).wf(),
        ensures
            final(env).wf(),
            ({
                let to = recipients_in(*recipients);
                let sums = amounts_in(*amounts);
                if readable(to) && readable(sums) {
                    &&& answer_view(result) == old(env)@.batch_payout_result(read(to), read(sums))
                    &&& final(env)@ == old(env)@.batch_payout(read(to), read(sums))
                } else {
                    &&& answer_view(result) == Err::<ProgramInfo, Rejection>(
                        old(env)@.stopped_batch_rejection(to.len(), sums.len(), leading(sums)),
                    )
                    &&& final(env)@ == old(env)@.refused(old(env)@.payer_calls())
                }
            }),
    {
        let recipient_total: u32 = recipient_count(recipients);
        let amount_total: u32 = amount_count(amounts);
        let plain_recipients = read_recipients(recipients);
        let plain_amounts = read_amounts(amounts);
        proof {
            lemma_leading_of_readable(recipients_in(*recipients));
            lemma_leading_of_readable(amounts_in(*amounts));
        }
        if plain_recipients.len() == recipient_total as usize && plain_amounts.len()
            == amount_total as usize {
            Self::batch_payout(env, &plain_recipients, &plain_amounts)
        } else {
            Err(Self::stop_batch(env, recipient_total, amount_total, &plain_amounts))
        }
    }
}

} // verus!
