//! The ingestion pipeline: the store of accounts, and the loop that applies a stream of
//! records to it, one record at a time and in order.

use crate::dispatcher::{
    after, apply_spec, lemma_total_is_available_plus_held, transaction_handler,
};
use crate::ledger::{
    reason_text, Client, ClientView, Transaction, TransactionError, TransactionType,
};
use crate::money::{digits_of, format_spec, parse_spec, push_digits, Money};
use std::collections::HashMap;
use vstd::prelude::*;
use vstd::std_specs::hash::*;
use vstd::string::*;

verus! {

broadcast use vstd::std_specs::hash::group_hash_axioms;

/// Whether every account of the store is kept under its own id and has a total that is the
/// sum of its balances.
pub open spec fn store_wf(store: Map<u16, Client>) -> bool {
    forall|id: u16| #[trigger]
        store.contains_key(id) ==> store[id].wf() && store[id].client == id
}

/// The account of client `id`, created empty where the store does not know the client.
/// No account is ever removed.
pub fn get_or_insert<'a>(id: u16, client_data: &'a mut HashMap<u16, Client>) -> (client:
    &'a mut Client)
    ensures
        old(client_data)@.contains_key(id) ==> *client == old(client_data)@[id],
        !old(client_data)@.contains_key(id) ==> client@ == ClientView::fresh(id),
        final(client_data)@ == old(client_data)@.insert(id, *final(client)),
{
    client_data.entry(id).or_insert(Client::new(id))
}

/// One record as it is read: the amount is still its decimal text.
#[derive(Debug)]
pub struct RawTransaction {
    pub transaction_type: TransactionType,
    pub client: u16,
    pub tx: u32,
    pub amount: Option<String>,
}

/// The mathematical model of a record as it is read.
pub struct RawTransactionView {
    pub transaction_type: TransactionType,
    pub client: u16,
    pub tx: u32,
    pub amount: Option<Seq<char>>,
}

impl View for RawTransaction {
    type V = RawTransactionView;

    open spec fn view(&self) -> RawTransactionView {
        RawTransactionView {
            transaction_type: self.transaction_type,
            client: self.client,
            tx: self.tx,
            amount: match self.amount {
                Some(text) => Some(text@),
                None => None,
            },
        }
    }
}

/// Whether a transaction of this kind carries an amount.
pub open spec fn carries_amount(kind: TransactionType) -> bool {
    kind == TransactionType::Deposit || kind == TransactionType::Withdrawal
}

/// The transaction that a record stands for. The amount of a deposit or a withdrawal is
/// parsed, and a text that is no amount rejects the record; the amount of a dispute, a
/// resolve or a chargeback is not read.
pub open spec fn transaction_of(raw: RawTransactionView) -> Result<Transaction, TransactionError> {
    let without = Transaction {
        transaction_type: raw.transaction_type,
        client: raw.client,
        tx: raw.tx,
        disputed: false,
        resolved: false,
        amount: None,
    };
    if !carries_amount(raw.transaction_type) {
        Ok(without)
    } else {
        match raw.amount {
            None => Ok(without),
            Some(text) => match parse_spec(text) {
                Ok(amount) => Ok(Transaction { amount: Some(amount), ..without }),
                Err(_) => Err(TransactionError::InvalidAmount),
            },
        }
    }
}

impl Transaction {
    /// The transaction that a record stands for: see `transaction_of`.
    pub fn from_raw(raw: &RawTransaction) -> (r: Result<Transaction, TransactionError>)
        ensures
            r == transaction_of(raw@),
    {
        let reads_amount = match raw.transaction_type {
            TransactionType::Deposit => true,
            TransactionType::Withdrawal => true,
            _ => false,
        };
        let amount = match &raw.amount {
            Some(text) => if reads_amount {
                match Money::parse(text.as_str()) {
                    Ok(amount) => Some(amount),
                    Err(_) => {
                        return Err(TransactionError::InvalidAmount);
                    },
                }
            } else {
                None
            },
            None => None,
        };
        Ok(
            Transaction {
                transaction_type: raw.transaction_type,
                client: raw.client,
                tx: raw.tx,
                disputed: false,
                resolved: false,
                amount,
            },
        )
    }
}

impl RawTransaction {
    /// The record that stands for a transaction: the amount, where there is one, as its
    /// decimal text with four digits after the point.
    pub fn from_transaction(tx: &Transaction) -> (r: RawTransaction)
        ensures
            r@.transaction_type == tx.transaction_type,
            r@.client == tx.client,
            r@.tx == tx.tx,
            r@.amount == match tx.amount {
                Some(amount) => Some(format_spec(amount@)),
                None => None,
            },
    {
        let amount = match tx.amount {
            Some(amount) => Some(amount.format()),
            None => None,
        };
        RawTransaction {
            transaction_type: tx.transaction_type,
            client: tx.client,
            tx: tx.tx,
            amount,
        }
    }
}

/// The models of the accounts of a store.
pub open spec fn accounts(store: Map<u16, Client>) -> Map<u16, ClientView> {
    store.map_values(|c: Client| c@)
}

/// The account of client `id` in `accounts`: the one kept there, or an empty one.
pub open spec fn account_of(accounts: Map<u16, ClientView>, id: u16) -> ClientView {
    if accounts.contains_key(id) {
        accounts[id]
    } else {
        ClientView::fresh(id)
    }
}

/// What happened to one record.
#[derive(Clone, Copy, Debug, PartialEq, Eq)]
pub struct RecordOutcome {
    /// The record's position in the stream, counted from one.
    pub record: u64,
    pub client: u16,
    pub tx: u32,
    pub kind: TransactionType,
    /// `Ok` where the record was applied, else the reason why it was rejected.
    pub result: Result<(), TransactionError>,
}

/// Whether a record is accepted by the accounts `before`, or why it is rejected.
pub open spec fn verdict(before: Map<u16, ClientView>, raw: RawTransactionView) -> Result<
    (),
    TransactionError,
> {
    match transaction_of(raw) {
        Err(reason) => Err(reason),
        Ok(tx) => match apply_spec(account_of(before, raw.client), tx) {
            Ok(_) => Ok(()),
            Err(reason) => Err(reason),
        },
    }
}

/// The accounts after one record. A record whose amount cannot be read changes nothing. Any
/// other record makes its client known; it changes that client's account where it is
/// accepted, and no other account in any case.
pub open spec fn step(before: Map<u16, ClientView>, raw: RawTransactionView) -> Map<
    u16,
    ClientView,
> {
    match transaction_of(raw) {
        Err(_) => before,
        Ok(tx) => before.insert(
            raw.client,
            after(account_of(before, raw.client), tx),
        ),
    }
}

/// The outcome of the record at position `record` of the stream.
pub open spec fn outcome_of(
    before: Map<u16, ClientView>,
    record: u64,
    raw: RawTransactionView,
) -> RecordOutcome {
    RecordOutcome {
        record,
        client: raw.client,
        tx: raw.tx,
        kind: raw.transaction_type,
        result: verdict(before, raw),
    }
}

/// Applies one record to the store: finds or creates the account of the record's client,
/// applies the transaction to it or rejects it, and reports which.
pub fn process_record(
    record_num: u64,
    raw: &RawTransaction,
    client_data: &mut HashMap<u16, Client>,
) -> (outcome: RecordOutcome)
    requires
        store_wf(old(client_data)@),
    ensures
        store_wf(final(client_data)@),
        outcome == outcome_of(accounts(old(client_data)@), record_num, raw@),
        accounts(final(client_data)@) == step(accounts(old(client_data)@), raw@),
{
    let ghost before = client_data@;
    let result = match Transaction::from_raw(raw) {
        Err(reason) => Err(reason),
        Ok(transaction) => {
            let client = get_or_insert(transaction.client, client_data);
            assert(client@ == account_of(accounts(before), raw.client));
            transaction_handler(client, &transaction)
        },
    };
    proof {
        assert(accounts(client_data@) =~= step(accounts(before), raw@));
    }
    RecordOutcome {
        record: record_num,
        client: raw.client,
        tx: raw.tx,
        kind: raw.transaction_type,
        result,
    }
}

/// The models of a sequence of records.
pub open spec fn views(records: Seq<RawTransaction>) -> Seq<RawTransactionView> {
    records.map_values(|r: RawTransaction| r@)
}

/// The accounts after each record of `raws` in turn.
pub open spec fn run(before: Map<u16, ClientView>, raws: Seq<RawTransactionView>) -> Map<
    u16,
    ClientView,
>
    decreases raws.len(),
{
    if raws.len() == 0 {
        before
    } else {
        step(run(before, raws.drop_last()), raws.last())
    }
}

/// Applies a stream of records to the store, strictly in order, and reports what happened to
/// each. A rejected record changes no balance, and the run goes on with the next record.
///
/// The outcome at position `i` is that of record `i` on the accounts as the records before it
/// left them; records are numbered from one.
pub fn process_transaction_data(
    records: &Vec<RawTransaction>,
    client_data: &mut HashMap<u16, Client>,
) -> (outcomes: Vec<RecordOutcome>)
    requires
        store_wf(old(client_data)@),
    ensures
        store_wf(final(client_data)@),
        accounts(final(client_data)@) == run(accounts(old(client_data)@), views(records@)),
        outcomes.len() == records.len(),
        forall|i: int|
            0 <= i < records.len() ==> #[trigger] outcomes[i] == outcome_of(
                run(accounts(old(client_data)@), views(records@).take(i)),
                (i + 1) as u64,
                records[i]@,
            ),
{
    let ghost before = accounts(client_data@);
    let ghost raws = views(records@);
    let mut outcomes: Vec<RecordOutcome> = Vec::new();
    let mut i: usize = 0;
    while i < records.len()
        invariant
            i <= records.len(),
            raws == views(records@),
            store_wf(client_data@),
            accounts(client_data@) == run(before, raws.take(i as int)),
            outcomes.len() == i,
            forall|j: int|
                0 <= j < i ==> #[trigger] outcomes[j] == outcome_of(
                    run(before, raws.take(j)),
                    (j + 1) as u64,
                    records[j]@,
                ),
        decreases records.len() - i,
    {
        proof {
            assert(raws.take(i + 1).drop_last() =~= raws.take(i as int));
            assert(raws.take(i + 1).last() == records[i as int]@);
        }
        let outcome = process_record(i as u64 + 1, &records[i], client_data);
        outcomes.push(outcome);
        i += 1;
    }
    proof {
        assert(raws.take(records.len() as int) =~= raws);
    }
    outcomes
}

/// Whether the total of every account is the sum of its available and its held balance.
pub open spec fn all_balanced(accounts: Map<u16, ClientView>) -> bool {
    forall|id: u16| #[trigger] accounts.contains_key(id) ==> accounts[id].balanced()
}

/// One record touches one account: every other client's account stays as it is, and no
/// account is removed.
pub proof fn lemma_step_touches_one(before: Map<u16, ClientView>, raw: RawTransactionView, id: u16)
    requires
        id != raw.client,
    ensures
        step(before, raw).contains_key(id) == before.contains_key(id),
        before.contains_key(id) ==> step(before, raw)[id] == before[id],
{
}

/// Conservation of funds: after every record of a run, the total of every account is the sum
/// of its available and its held balance.
pub proof fn lemma_run_keeps_balance(before: Map<u16, ClientView>, raws: Seq<RawTransactionView>)
    requires
        all_balanced(before),
    ensures
        all_balanced(run(before, raws)),
    decreases raws.len(),
{
    if raws.len() > 0 {
        let earlier = run(before, raws.drop_last());
        let raw = raws.last();
        lemma_run_keeps_balance(before, raws.drop_last());
        match transaction_of(raw) {
            Ok(tx) => {
                lemma_total_is_available_plus_held(account_of(earlier, raw.client), tx);
                assert forall|id: u16| #[trigger]
                    step(earlier, raw).contains_key(id) implies step(earlier, raw)[id].balanced() by {
                    if id != raw.client {
                        assert(earlier.contains_key(id));
                    }
                }
            },
            Err(_) => {},
        }
    }
}

/// Once an account is locked, no record of a run changes it: its balances, its entries and
/// its lock stay as they are.
pub proof fn lemma_run_keeps_locked(
    before: Map<u16, ClientView>,
    raws: Seq<RawTransactionView>,
    id: u16,
)
    requires
        before.contains_key(id),
        before[id].locked,
    ensures
        run(before, raws).contains_key(id),
        run(before, raws)[id] == before[id],
    decreases raws.len(),
{
    if raws.len() > 0 {
        lemma_run_keeps_locked(before, raws.drop_last(), id);
    }
}

/// The line that the run's log holds for an outcome: the record's number, then either the
/// success marker or the failure marker with the client, the transaction and the reason.
pub open spec fn log_line_spec(outcome: RecordOutcome) -> Seq<char> {
    "[RECORD #"@ + digits_of(outcome.record as nat) + match outcome.result {
        Ok(_) => "][SUCCESS]: Transaction processed successfully."@,
        Err(reason) => "][ERROR]: client "@ + digits_of(outcome.client as nat) + ", tx "@
            + digits_of(outcome.tx as nat) + ": "@ + reason_text(reason),
    }
}

impl RecordOutcome {
    /// The line that the run's log holds for this outcome.
    pub fn log_line(&self) -> (line: String)
        ensures
            line@ == log_line_spec(*self),
    {
        let mut line = String::new();
        line.append("[RECORD #");
        push_digits(&mut line, self.record);
        match self.result {
            Ok(_) => {
                line.append("][SUCCESS]: Transaction processed successfully.");
            },
            Err(reason) => {
                line.append("][ERROR]: client ");
                push_digits(&mut line, self.client as u64);
                line.append(", tx ");
                push_digits(&mut line, self.tx as u64);
                line.append(": ");
                line.append(reason.message());
            },
        }
        proof {
            assert(line@ =~= log_line_spec(*self));
        }
        line
    }
}

} // verus!
