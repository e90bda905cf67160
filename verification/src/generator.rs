//! Random streams of records, for trying the engine out.

use crate::ledger::TransactionType;
use crate::money::{format_spec, Money};
use crate::pipeline::{carries_amount, views, RawTransaction, RawTransactionView};
use vstd::prelude::*;

verus! {

/// The number of records in a generated stream.
pub const GENERATED_RECORDS: u32 = 30;

/// The number of clients that a generated stream speaks of; their ids start at one.
pub const GENERATED_CLIENTS: u64 = 3;

/// The largest amount of a generated deposit or withdrawal, in ten-thousandths: 99999.0000.
pub const LARGEST_GENERATED_UNITS: u64 = 999990000;

/// Draws a number from `low` to `high`, both included, with `rand::Rng::gen_range` on the
/// generator that `rand::thread_rng` returns.
///
/// Not proved, but taken from `rand`: the number lies in the range. Nothing else is claimed
/// of it, and two calls may differ. `gen_range` panics on an empty range, which `requires`
/// excludes; `thread_rng` panics where the operating system supplies no seed.
#[verifier::external_body]
fn random_between(low: u64, high: u64) -> (n: u64)
    requires
        low <= high,
    ensures
        low <= n <= high,
{
    rand::Rng::gen_range(&mut rand::thread_rng(), low..=high)
}

/// The kind of transaction that a draw from one to five selects.
pub open spec fn kind_for(draw: u64) -> TransactionType {
    if draw == 1 {
        TransactionType::Withdrawal
    } else if draw == 2 {
        TransactionType::Deposit
    } else if draw == 3 {
        TransactionType::Dispute
    } else if draw == 4 {
        TransactionType::Resolve
    } else {
        TransactionType::Chargeback
    }
}

/// The kind of transaction that a draw from one to five selects.
pub fn kind_for_draw(draw: u64) -> (kind: TransactionType)
    ensures
        kind == kind_for(draw),
{
    if draw == 1 {
        TransactionType::Withdrawal
    } else if draw == 2 {
        TransactionType::Deposit
    } else if draw == 3 {
        TransactionType::Dispute
    } else if draw == 4 {
        TransactionType::Resolve
    } else {
        TransactionType::Chargeback
    }
}

/// The record that opens every generated stream: a deposit of 5.0000 for client 1, with id 1.
pub open spec fn first_record() -> RawTransactionView {
    RawTransactionView {
        transaction_type: TransactionType::Deposit,
        client: 1,
        tx: 1,
        amount: Some(format_spec(50000)),
    }
}

/// The record that opens every generated stream.
pub fn generate_deposit() -> (r: RawTransaction)
    ensures
        r@ == first_record(),
{
    RawTransaction {
        transaction_type: TransactionType::Deposit,
        client: 1,
        tx: 1,
        amount: Some(Money::from_units(50000).format()),
    }
}

/// The record that the draws select. A deposit or a withdrawal gets the id `fresh` and the
/// amount of `units` ten-thousandths; a dispute, a resolve or a chargeback gets the id
/// `referenced` and no amount.
pub open spec fn drawn_record(
    kind: TransactionType,
    client: u16,
    fresh: u32,
    referenced: u32,
    units: u64,
) -> RawTransactionView {
    RawTransactionView {
        transaction_type: kind,
        client,
        tx: if carries_amount(kind) {
            fresh
        } else {
            referenced
        },
        amount: if carries_amount(kind) {
            Some(format_spec(units as nat))
        } else {
            None
        },
    }
}

/// The record that the draws select: see `drawn_record`.
pub fn record_from_draws(
    kind: TransactionType,
    client: u16,
    fresh: u32,
    referenced: u32,
    units: u64,
) -> (r: RawTransaction)
    ensures
        r@ == drawn_record(kind, client, fresh, referenced, units),
{
    match kind {
        TransactionType::Deposit | TransactionType::Withdrawal => RawTransaction {
            transaction_type: kind,
            client,
            tx: fresh,
            amount: Some(Money::from_units(units).format()),
        },
        _ => RawTransaction { transaction_type: kind, client, tx: referenced, amount: None },
    }
}

/// Whether the record at position `i` of a stream could have been generated after the
/// records before it: its client is one of the generated clients; a deposit or a withdrawal
/// has the id `i + 1` and an amount up to the largest generated one; a dispute, a resolve or
/// a chargeback has no amount and the id of an earlier record.
pub open spec fn well_generated(stream: Seq<RawTransactionView>, i: int) -> bool {
    let record = stream[i];
    &&& 1 <= record.client <= GENERATED_CLIENTS
    &&& carries_amount(record.transaction_type) ==> record.tx == i + 1 && exists|units: nat|
        units <= LARGEST_GENERATED_UNITS && record.amount == Some(#[trigger] format_spec(units))
    &&& !carries_amount(record.transaction_type) ==> record.amount is None && exists|j: int|
        0 <= j < i && (#[trigger] stream[j]).tx == record.tx
}

/// A random stream of thirty records: the opening deposit, then records of random kind for
/// random clients, each well generated after those before it.
pub fn generate_test_data() -> (stream: Vec<RawTransaction>)
    ensures
        stream.len() == GENERATED_RECORDS,
        stream[0]@ == first_record(),
        forall|i: int|
            1 <= i < stream.len() ==> #[trigger] well_generated(views(stream@), i),
{
    let mut stream: Vec<RawTransaction> = Vec::new();
    stream.push(generate_deposit());
    let mut x: u32 = 2;
    while x <= GENERATED_RECORDS
        invariant
            2 <= x <= GENERATED_RECORDS + 1,
            stream.len() == x - 1,
            stream[0]@ == first_record(),
            forall|i: int|
                1 <= i < stream.len() ==> #[trigger] well_generated(views(stream@), i),
        decreases GENERATED_RECORDS + 1 - x,
    {
        let ghost earlier = views(stream@);
        let kind = kind_for_draw(random_between(1, 5));
        let client = random_between(1, GENERATED_CLIENTS) as u16;
        let ghost mut source: int = 0;
        let referenced = match kind {
            TransactionType::Deposit | TransactionType::Withdrawal => x,
            _ => {
                let pick = random_between(0, (stream.len() - 1) as u64) as usize;
                proof {
                    source = pick as int;
                    assert(earlier[source].tx == stream[pick as int].tx);
                }
                stream[pick].tx
            },
        };
        let units = match kind {
            TransactionType::Deposit | TransactionType::Withdrawal => random_between(
                0,
                LARGEST_GENERATED_UNITS,
            ),
            _ => 0,
        };
        let record = record_from_draws(kind, client, x, referenced, units);
        stream.push(record);
        proof {
            let now = views(stream@);
            let last = x - 1;
            assert(now[last] == drawn_record(kind, client, x, referenced, units));
            assert forall|i: int| 1 <= i < stream.len() implies well_generated(now, i) by {
                if i < last {
                    assert(well_generated(earlier, i));
                    assert(now[i] == earlier[i]);
                    if !carries_amount(now[i].transaction_type) {
                        let j = choose|j: int|
                            0 <= j < i && (#[trigger] earlier[j]).tx == earlier[i].tx;
                        assert(now[j] == earlier[j]);
                    }
                } else {
                    if carries_amount(kind) {
                        assert(now[i].amount == Some(format_spec(units as nat)));
                    } else {
                        assert(now[source] == earlier[source]);
                    }
                }
            }
        }
        x += 1;
    }
    stream
}

} // verus!
