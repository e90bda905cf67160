//! The final snapshot: one row per known client, with balances as decimal text.

use crate::ledger::{Client, ClientView};
use crate::money::{
    format_spec, lemma_format_parse_round_trip, parse_spec, Money, ParseError,
};
use crate::pipeline::store_wf;
use std::collections::HashMap;
use vstd::prelude::*;
use vstd::std_specs::hash::*;

verus! {

broadcast use vstd::std_specs::hash::group_hash_axioms;

/// One row of the snapshot: a client's balances, each with exactly four digits after the
/// decimal point, and the lock.
#[derive(Debug, PartialEq, Eq)]
pub struct RawClient {
    pub client: u16,
    pub available: String,
    pub held: String,
    pub total: String,
    pub locked: bool,
}

/// The mathematical model of a row of the snapshot.
pub struct RawClientView {
    pub client: u16,
    pub available: Seq<char>,
    pub held: Seq<char>,
    pub total: Seq<char>,
    pub locked: bool,
}

impl View for RawClient {
    type V = RawClientView;

    open spec fn view(&self) -> RawClientView {
        RawClientView {
            client: self.client,
            available: self.available@,
            held: self.held@,
            total: self.total@,
            locked: self.locked,
        }
    }
}

/// The row that shows an account.
pub open spec fn row_of(c: ClientView) -> RawClientView {
    RawClientView {
        client: c.client,
        available: format_spec(c.available),
        held: format_spec(c.held),
        total: format_spec(c.total),
        locked: c.locked,
    }
}

/// The account that a row shows, without entries, or the reason why one of its balances is
/// no amount: the first that fails, of available, held and total in this order.
pub open spec fn account_of_row(row: RawClientView) -> Result<ClientView, ParseError> {
    match parse_spec(row.available) {
        Err(reason) => Err(reason),
        Ok(available) => match parse_spec(row.held) {
            Err(reason) => Err(reason),
            Ok(held) => match parse_spec(row.total) {
                Err(reason) => Err(reason),
                Ok(total) => Ok(
                    ClientView {
                        client: row.client,
                        available: available@,
                        held: held@,
                        total: total@,
                        transactions: Seq::empty(),
                        locked: row.locked,
                    },
                ),
            },
        },
    }
}

impl RawClient {
    /// The row that shows an account.
    pub fn from_client(client: &Client) -> (row: RawClient)
        ensures
            row@ == row_of(client@),
    {
        RawClient {
            client: client.client,
            available: client.available.format(),
            held: client.held.format(),
            total: client.total.format(),
            locked: client.locked,
        }
    }
}

impl Client {
    /// The account that a row shows, without entries: see `account_of_row`.
    pub fn from_raw(row: &RawClient) -> (r: Result<Client, ParseError>)
        ensures
            match account_of_row(row@) {
                Ok(account) => r is Ok && r->Ok_0@ == account,
                Err(reason) => r is Err && r->Err_0 == reason,
            },
    {
        let available = match Money::parse(row.available.as_str()) {
            Ok(amount) => amount,
            Err(reason) => {
                return Err(reason);
            },
        };
        let held = match Money::parse(row.held.as_str()) {
            Ok(amount) => amount,
            Err(reason) => {
                return Err(reason);
            },
        };
        let total = match Money::parse(row.total.as_str()) {
            Ok(amount) => amount,
            Err(reason) => {
                return Err(reason);
            },
        };
        Ok(
            Client {
                client: row.client,
                available,
                held,
                total,
                transactions: Vec::new(),
                locked: row.locked,
            },
        )
    }
}

/// Showing an account as a row and reading the row again gives the account back, but for
/// its entries.
pub proof fn lemma_row_round_trip(c: ClientView)
    requires
        c.available <= u64::MAX,
        c.held <= u64::MAX,
        c.total <= u64::MAX,
    ensures
        account_of_row(row_of(c)) == Ok::<ClientView, ParseError>(
            ClientView { transactions: Seq::empty(), ..c },
        ),
{
    lemma_format_parse_round_trip(Money { units: c.available as u64 });
    lemma_format_parse_round_trip(Money { units: c.held as u64 });
    lemma_format_parse_round_trip(Money { units: c.total as u64 });
}

/// The snapshot of the store: one row for each known client, in ascending order of the
/// client's id.
pub fn output_accounts(client_data: &HashMap<u16, Client>) -> (rows: Vec<RawClient>)
    requires
        store_wf(client_data@),
    ensures
        forall|i: int|
            0 <= i < rows.len() ==> client_data@.contains_key((#[trigger] rows[i]).client)
                && rows[i]@ == row_of(client_data@[rows[i].client]@),
        forall|i: int, j: int|
            0 <= i < j < rows.len() ==> (#[trigger] rows[i]).client < (#[trigger] rows[j]).client,
        forall|id: u16|
            client_data@.contains_key(id) ==> exists|i: int|
                0 <= i < rows.len() && (#[trigger] rows[i]).client == id,
{
    let mut rows: Vec<RawClient> = Vec::new();
    let mut next: u32 = 0;
    while next <= 65535
        invariant
            next <= 65536,
            store_wf(client_data@),
            forall|i: int|
                0 <= i < rows.len() ==> client_data@.contains_key((#[trigger] rows[i]).client)
                    && rows[i]@ == row_of(client_data@[rows[i].client]@) && rows[i].client < next,
            forall|i: int, j: int|
                0 <= i < j < rows.len() ==> (#[trigger] rows[i]).client < (
                #[trigger] rows[j]).client,
            forall|id: u16|
                id < next && client_data@.contains_key(id) ==> exists|i: int|
                    0 <= i < rows.len() && (#[trigger] rows[i]).client == id,
        decreases 65536 - next,
    {
        let id = next as u16;
        let ghost earlier = rows@;
        match client_data.get(&id) {
            Some(client) => {
                rows.push(RawClient::from_client(client));
                proof {
                    let last = rows.len() - 1;
                    assert(rows[last].client == id);
                    assert forall|other: u16|
                        other < next + 1 && client_data@.contains_key(other) implies exists|i: int|
                        0 <= i < rows.len() && (#[trigger] rows[i]).client == other by {
                        if other < next {
                            let i = choose|i: int|
                                0 <= i < earlier.len() && (#[trigger] earlier[i]).client == other;
                            assert(rows[i] == earlier[i]);
                        } else {
                            assert(rows[last].client == other);
                        }
                    }
                }
            },
            None => {},
        }
        next += 1;
    }
    rows
}

} // verus!
