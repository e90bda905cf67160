//! The rules that apply one transaction to one account.
//!
//! Each rule is a function on the account's model, `apply_spec` and the five it
//! dispatches to; the executable handlers are proved to follow them. A rejected
//! transaction leaves the account exactly as it was.

use crate::ledger::{Client, ClientView, Transaction, TransactionError, TransactionType};
use crate::money::Money;
use vstd::prelude::*;

verus! {

/// Whether `t` is an entry that a dispute, resolve or chargeback with id `id` refers to.
pub open spec fn is_reference(t: Transaction, id: u32) -> bool {
    t.tx == id && t.amount is Some
}

/// The position of the first entry that `id` refers to, if there is one.
pub open spec fn referenced_index(entries: Seq<Transaction>, id: u32) -> Option<int>
    decreases entries.len(),
{
    if entries.len() == 0 {
        None
    } else if is_reference(entries[0], id) {
        Some(0)
    } else {
        match referenced_index(entries.drop_first(), id) {
            Some(i) => Some(i + 1),
            None => None,
        }
    }
}

/// The entry that an accepted deposit or withdrawal `tx` of `amount` leaves in the account.
pub open spec fn entry_of(tx: Transaction, amount: Money) -> Transaction {
    Transaction {
        transaction_type: tx.transaction_type,
        client: tx.client,
        tx: tx.tx,
        disputed: false,
        resolved: false,
        amount: Some(amount),
    }
}

/// `entry` with its dispute flag set.
pub open spec fn mark_disputed(entry: Transaction) -> Transaction {
    Transaction { disputed: true, ..entry }
}

/// `entry` with its finalized flag set.
pub open spec fn mark_resolved(entry: Transaction) -> Transaction {
    Transaction { resolved: true, ..entry }
}

/// A deposit adds its amount to the available balance and to the total, and leaves an entry.
pub open spec fn deposit_spec(c: ClientView, tx: Transaction) -> Result<
    ClientView,
    TransactionError,
> {
    match tx.amount {
        None => Err(TransactionError::MissingAmount),
        Some(amount) => if c.available + amount@ + c.held > u64::MAX {
            Err(TransactionError::BalanceOverflow)
        } else {
            Ok(
                ClientView {
                    available: c.available + amount@,
                    total: c.available + amount@ + c.held,
                    transactions: c.transactions.push(entry_of(tx, amount)),
                    ..c
                },
            )
        },
    }
}

/// A withdrawal takes its amount from the available balance and from the total, and leaves
/// an entry.
pub open spec fn withdrawal_spec(c: ClientView, tx: Transaction) -> Result<
    ClientView,
    TransactionError,
> {
    match tx.amount {
        None => Err(TransactionError::MissingAmount),
        Some(amount) => if amount@ > c.available {
            Err(TransactionError::InsufficientFunds)
        } else {
            Ok(
                ClientView {
                    available: (c.available - amount@) as nat,
                    total: (c.available - amount@ + c.held) as nat,
                    transactions: c.transactions.push(entry_of(tx, amount)),
                    ..c
                },
            )
        },
    }
}

/// A dispute moves the amount of a deposit from available to held, or holds the amount of a
/// withdrawal on top of the total, and marks the entry. An entry is disputed at most once:
/// the mark is never cleared, not by a resolve either.
pub open spec fn dispute_spec(c: ClientView, tx: Transaction) -> Result<
    ClientView,
    TransactionError,
> {
    match referenced_index(c.transactions, tx.tx) {
        None => Err(TransactionError::ReferencedTransactionNotFound),
        Some(i) => {
            let entry = c.transactions[i];
            let amount = entry.amount->0@;
            if entry.disputed {
                Err(TransactionError::AlreadyDisputed)
            } else {
                match entry.transaction_type {
                    TransactionType::Deposit => if amount > c.available {
                        Err(TransactionError::BalanceUnderflow)
                    } else if c.held + amount > u64::MAX {
                        Err(TransactionError::HeldOverflow)
                    } else {
                        Ok(
                            ClientView {
                                available: (c.available - amount) as nat,
                                held: c.held + amount,
                                transactions: c.transactions.update(i, mark_disputed(entry)),
                                ..c
                            },
                        )
                    },
                    TransactionType::Withdrawal => if c.available + c.held + amount > u64::MAX {
                        Err(TransactionError::HeldOverflow)
                    } else {
                        Ok(
                            ClientView {
                                held: c.held + amount,
                                total: c.available + c.held + amount,
                                transactions: c.transactions.update(i, mark_disputed(entry)),
                                ..c
                            },
                        )
                    },
                    _ => Err(TransactionError::InvalidDisputeTarget),
                }
            }
        },
    }
}

/// A resolve moves the disputed amount back from held to available and finalizes the entry.
pub open spec fn resolve_spec(c: ClientView, tx: Transaction) -> Result<
    ClientView,
    TransactionError,
> {
    match referenced_index(c.transactions, tx.tx) {
        None => Err(TransactionError::ReferencedTransactionNotFound),
        Some(i) => {
            let entry = c.transactions[i];
            let amount = entry.amount->0@;
            if entry.resolved {
                Err(TransactionError::AlreadyFinalized)
            } else if !entry.disputed {
                Err(TransactionError::NotUnderDispute)
            } else if amount > c.held {
                Err(TransactionError::HeldUnderflow)
            } else if c.available + amount > u64::MAX {
                Err(TransactionError::BalanceOverflow)
            } else {
                Ok(
                    ClientView {
                        available: c.available + amount,
                        held: (c.held - amount) as nat,
                        transactions: c.transactions.update(i, mark_resolved(entry)),
                        ..c
                    },
                )
            }
        },
    }
}

/// A chargeback removes the disputed amount from held and from the total, finalizes the
/// entry and locks the account.
pub open spec fn chargeback_spec(c: ClientView, tx: Transaction) -> Result<
    ClientView,
    TransactionError,
> {
    match referenced_index(c.transactions, tx.tx) {
        None => Err(TransactionError::ReferencedTransactionNotFound),
        Some(i) => {
            let entry = c.transactions[i];
            let amount = entry.amount->0@;
            if entry.resolved {
                Err(TransactionError::AlreadyFinalized)
            } else if !entry.disputed {
                Err(TransactionError::NotUnderDispute)
            } else if amount > c.held {
                Err(TransactionError::HeldUnderflow)
            } else {
                Ok(
                    ClientView {
                        held: (c.held - amount) as nat,
                        total: (c.available + c.held - amount) as nat,
                        locked: true,
                        transactions: c.transactions.update(i, mark_resolved(entry)),
                        ..c
                    },
                )
            }
        },
    }
}

/// What one transaction does to an account: the new account, or the reason for rejecting it.
pub open spec fn apply_spec(c: ClientView, tx: Transaction) -> Result<ClientView, TransactionError> {
    if c.locked {
        Err(TransactionError::AccountFrozen)
    } else {
        match tx.transaction_type {
            TransactionType::Deposit => deposit_spec(c, tx),
            TransactionType::Withdrawal => withdrawal_spec(c, tx),
            TransactionType::Dispute => dispute_spec(c, tx),
            TransactionType::Resolve => resolve_spec(c, tx),
            TransactionType::Chargeback => chargeback_spec(c, tx),
        }
    }
}

/// Whether a handler that was to follow `expected` did so: on success the account's model is
/// the expected one, on rejection the reason is the expected one and the account is untouched.
pub open spec fn follows(
    before: Client,
    after: Client,
    expected: Result<ClientView, TransactionError>,
    r: Result<(), TransactionError>,
) -> bool {
    match expected {
        Ok(v) => r == Ok::<(), TransactionError>(()) && after@ == v,
        Err(e) => r == Err::<(), TransactionError>(e) && after == before,
    }
}

/// The first referenced entry is a referenced entry, and none stands before it.
pub proof fn lemma_referenced_index(entries: Seq<Transaction>, id: u32)
    ensures
        match referenced_index(entries, id) {
            Some(i) => 0 <= i < entries.len() && is_reference(entries[i], id) && forall|j: int|
                0 <= j < i ==> !is_reference(#[trigger] entries[j], id),
            None => forall|j: int|
                0 <= j < entries.len() ==> !is_reference(#[trigger] entries[j], id),
        },
    decreases entries.len(),
{
    if entries.len() == 0 || is_reference(entries[0], id) {
    } else {
        let rest = entries.drop_first();
        lemma_referenced_index(rest, id);
        match referenced_index(rest, id) {
            Some(i) => {
                assert(entries[i + 1] == rest[i]);
                assert forall|j: int| 0 <= j < i + 1 implies !is_reference(
                    #[trigger] entries[j],
                    id,
                ) by {
                    if j > 0 {
                        assert(entries[j] == rest[j - 1]);
                    }
                }
            },
            None => {
                assert forall|j: int| 0 <= j < entries.len() implies !is_reference(
                    #[trigger] entries[j],
                    id,
                ) by {
                    if j > 0 {
                        assert(entries[j] == rest[j - 1]);
                    }
                }
            },
        }
    }
}

/// A referenced entry that no referenced entry precedes is the first one.
pub proof fn lemma_referenced_index_is(entries: Seq<Transaction>, id: u32, i: int)
    requires
        0 <= i < entries.len(),
        is_reference(entries[i], id),
        forall|j: int| 0 <= j < i ==> !is_reference(#[trigger] entries[j], id),
    ensures
        referenced_index(entries, id) == Some(i),
{
    lemma_referenced_index(entries, id);
}

/// Without a referenced entry there is no first one.
pub proof fn lemma_referenced_index_none(entries: Seq<Transaction>, id: u32)
    requires
        forall|j: int| 0 <= j < entries.len() ==> !is_reference(#[trigger] entries[j], id),
    ensures
        referenced_index(entries, id) is None,
{
    lemma_referenced_index(entries, id);
}

/// Finds the entry that a dispute, resolve or chargeback with id `tx_id` refers to: the first
/// entry with that id that carries an amount.
pub fn find_referenced_transaction(tx_id: &u32, transactions: &Vec<Transaction>) -> (r: Result<
    usize,
    TransactionError,
>)
    ensures
        match r {
            Ok(i) => i < transactions.len() && referenced_index(transactions@, *tx_id) == Some(
                i as int,
            ),
            Err(reason) => reason == TransactionError::ReferencedTransactionNotFound
                && referenced_index(transactions@, *tx_id) is None,
        },
{
    let mut i: usize = 0;
    while i < transactions.len()
        invariant
            i <= transactions.len(),
            forall|j: int| 0 <= j < i ==> !is_reference(#[trigger] transactions@[j], *tx_id),
        decreases transactions.len() - i,
    {
        if transactions[i].tx == *tx_id && transactions[i].amount.is_some() {
            proof {
                lemma_referenced_index_is(transactions@, *tx_id, i as int);
            }
            return Ok(i);
        }
        i += 1;
    }
    proof {
        lemma_referenced_index_none(transactions@, *tx_id);
    }
    Err(TransactionError::ReferencedTransactionNotFound)
}

/// Applies a deposit: see `deposit_spec`.
pub fn handle_deposit(client: &mut Client, incoming_tx: &Transaction) -> (r: Result<
    (),
    TransactionError,
>)
    requires
        old(client).wf(),
    ensures
        follows(*old(client), *final(client), deposit_spec(old(client)@, *incoming_tx), r),
        final(client).wf(),
{
    let amount = match incoming_tx.amount {
        Some(amount) => amount,
        None => {
            return Err(TransactionError::MissingAmount);
        },
    };
    let available = match client.available.checked_add(amount) {
        Ok(sum) => sum,
        Err(_) => {
            return Err(TransactionError::BalanceOverflow);
        },
    };
    let total = match available.checked_add(client.held) {
        Ok(sum) => sum,
        Err(_) => {
            return Err(TransactionError::BalanceOverflow);
        },
    };
    client.available = available;
    client.total = total;
    client.transactions.push(
        Transaction {
            transaction_type: incoming_tx.transaction_type,
            client: incoming_tx.client,
            tx: incoming_tx.tx,
            disputed: false,
            resolved: false,
            amount: Some(amount),
        },
    );
    Ok(())
}

/// Applies a withdrawal: see `withdrawal_spec`.
pub fn handle_withdrawal(client: &mut Client, incoming_tx: &Transaction) -> (r: Result<
    (),
    TransactionError,
>)
    requires
        old(client).wf(),
    ensures
        follows(*old(client), *final(client), withdrawal_spec(old(client)@, *incoming_tx), r),
        final(client).wf(),
{
    let amount = match incoming_tx.amount {
        Some(amount) => amount,
        None => {
            return Err(TransactionError::MissingAmount);
        },
    };
    let available = match client.available.checked_sub(amount) {
        Ok(rest) => rest,
        Err(_) => {
            return Err(TransactionError::InsufficientFunds);
        },
    };
    client.available = available;
    client.total = Money::from_units(available.units + client.held.units);
    client.transactions.push(
        Transaction {
            transaction_type: incoming_tx.transaction_type,
            client: incoming_tx.client,
            tx: incoming_tx.tx,
            disputed: false,
            resolved: false,
            amount: Some(amount),
        },
    );
    Ok(())
}

/// Applies a dispute: see `dispute_spec`.
pub fn handle_dispute(client: &mut Client, incoming_tx: &Transaction) -> (r: Result<
    (),
    TransactionError,
>)
    requires
        old(client).wf(),
    ensures
        follows(*old(client), *final(client), dispute_spec(old(client)@, *incoming_tx), r),
        final(client).wf(),
{
    proof {
        lemma_referenced_index(client.transactions@, incoming_tx.tx);
    }
    let index = match find_referenced_transaction(&incoming_tx.tx, &client.transactions) {
        Ok(index) => index,
        Err(reason) => {
            return Err(reason);
        },
    };
    let entry = client.transactions[index];
    match entry.is_already_disputed() {
        Ok(()) => {},
        Err(reason) => {
            return Err(reason);
        },
    }
    let amount = entry.amount.unwrap();
    match entry.transaction_type {
        TransactionType::Deposit => {
            let available = match client.available.checked_sub(amount) {
                Ok(rest) => rest,
                Err(_) => {
                    return Err(TransactionError::BalanceUnderflow);
                },
            };
            let held = match client.held.checked_add(amount) {
                Ok(sum) => sum,
                Err(_) => {
                    return Err(TransactionError::HeldOverflow);
                },
            };
            client.available = available;
            client.held = held;
        },
        TransactionType::Withdrawal => {
            let held = match client.held.checked_add(amount) {
                Ok(sum) => sum,
                Err(_) => {
                    return Err(TransactionError::HeldOverflow);
                },
            };
            let total = match client.available.checked_add(held) {
                Ok(sum) => sum,
                Err(_) => {
                    return Err(TransactionError::HeldOverflow);
                },
            };
            client.held = held;
            client.total = total;
        },
        _ => {
            return Err(TransactionError::InvalidDisputeTarget);
        },
    }
    client.transactions.set(index, Transaction { disputed: true, ..entry });
    Ok(())
}

/// Applies a resolve: see `resolve_spec`.
pub fn handle_resolve(client: &mut Client, incoming_tx: &Transaction) -> (r: Result<
    (),
    TransactionError,
>)
    requires
        old(client).wf(),
    ensures
        follows(*old(client), *final(client), resolve_spec(old(client)@, *incoming_tx), r),
        final(client).wf(),
{
    proof {
        lemma_referenced_index(client.transactions@, incoming_tx.tx);
    }
    let index = match find_referenced_transaction(&incoming_tx.tx, &client.transactions) {
        Ok(index) => index,
        Err(reason) => {
            return Err(reason);
        },
    };
    let entry = client.transactions[index];
    match entry.is_already_resolved() {
        Ok(()) => {},
        Err(reason) => {
            return Err(reason);
        },
    }
    let amount = entry.amount.unwrap();
    if !entry.disputed {
        return Err(TransactionError::NotUnderDispute);
    }
    let held = match client.held.checked_sub(amount) {
        Ok(rest) => rest,
        Err(_) => {
            return Err(TransactionError::HeldUnderflow);
        },
    };
    let available = match client.available.checked_add(amount) {
        Ok(sum) => sum,
        Err(_) => {
            return Err(TransactionError::BalanceOverflow);
        },
    };
    client.held = held;
    client.available = available;
    client.transactions.set(index, Transaction { resolved: true, ..entry });
    Ok(())
}

/// Applies a chargeback: see `chargeback_spec`.
pub fn handle_chargeback(client: &mut Client, incoming_tx: &Transaction) -> (r: Result<
    (),
    TransactionError,
>)
    requires
        old(client).wf(),
    ensures
        follows(*old(client), *final(client), chargeback_spec(old(client)@, *incoming_tx), r),
        final(client).wf(),
{
    proof {
        lemma_referenced_index(client.transactions@, incoming_tx.tx);
    }
    let index = match find_referenced_transaction(&incoming_tx.tx, &client.transactions) {
        Ok(index) => index,
        Err(reason) => {
            return Err(reason);
        },
    };
    let entry = client.transactions[index];
    match entry.is_already_resolved() {
        Ok(()) => {},
        Err(reason) => {
            return Err(reason);
        },
    }
    let amount = entry.amount.unwrap();
    if !entry.disputed {
        return Err(TransactionError::NotUnderDispute);
    }
    let held = match client.held.checked_sub(amount) {
        Ok(rest) => rest,
        Err(_) => {
            return Err(TransactionError::HeldUnderflow);
        },
    };
    client.held = held;
    client.total = Money::from_units(client.available.units + held.units);
    client.locked = true;
    client.transactions.set(index, Transaction { resolved: true, ..entry });
    Ok(())
}

/// Applies one transaction to an account, or rejects it and leaves the account as it was:
/// see `apply_spec`. A locked account rejects every transaction.
pub fn transaction_handler(client: &mut Client, incoming_tx: &Transaction) -> (r: Result<
    (),
    TransactionError,
>)
    requires
        old(client).wf(),
    ensures
        follows(*old(client), *final(client), apply_spec(old(client)@, *incoming_tx), r),
        final(client).wf(),
{
    match client.is_frozen() {
        Ok(()) => {},
        Err(reason) => {
            return Err(reason);
        },
    }
    match incoming_tx.transaction_type {
        TransactionType::Deposit => handle_deposit(client, incoming_tx),
        TransactionType::Withdrawal => handle_withdrawal(client, incoming_tx),
        TransactionType::Dispute => handle_dispute(client, incoming_tx),
        TransactionType::Resolve => handle_resolve(client, incoming_tx),
        TransactionType::Chargeback => handle_chargeback(client, incoming_tx),
    }
}

/// The account after `tx`: the new account where `tx` is accepted, the old one where it is
/// rejected.
pub open spec fn after(c: ClientView, tx: Transaction) -> ClientView {
    match apply_spec(c, tx) {
        Ok(next) => next,
        Err(_) => c,
    }
}

/// The account after each transaction of `txs` in turn.
pub open spec fn after_all(c: ClientView, txs: Seq<Transaction>) -> ClientView
    decreases txs.len(),
{
    if txs.len() == 0 {
        c
    } else {
        after(after_all(c, txs.drop_last()), txs.last())
    }
}

/// Conservation of funds: a transaction keeps the total equal to the sum of the available
/// and the held balance, whether it is accepted or rejected.
pub proof fn lemma_total_is_available_plus_held(c: ClientView, tx: Transaction)
    requires
        c.balanced(),
    ensures
        after(c, tx).balanced(),
{
}

/// Conservation of funds over a run: after every transaction of a sequence the total is the
/// sum of the available and the held balance.
pub proof fn lemma_total_is_available_plus_held_all(c: ClientView, txs: Seq<Transaction>)
    requires
        c.balanced(),
    ensures
        after_all(c, txs).balanced(),
    decreases txs.len(),
{
    if txs.len() > 0 {
        lemma_total_is_available_plus_held_all(c, txs.drop_last());
        lemma_total_is_available_plus_held(after_all(c, txs.drop_last()), txs.last());
    }
}

/// A locked account rejects every transaction with `AccountFrozen`.
pub proof fn lemma_locked_rejects(c: ClientView, tx: Transaction)
    requires
        c.locked,
    ensures
        apply_spec(c, tx) == Err::<ClientView, TransactionError>(TransactionError::AccountFrozen),
        after(c, tx) == c,
{
}

/// Once an account is locked, no sequence of transactions changes it: its balances, its
/// entries and its lock stay as they are.
pub proof fn lemma_locked_stays(c: ClientView, txs: Seq<Transaction>)
    requires
        c.locked,
    ensures
        after_all(c, txs) == c,
    decreases txs.len(),
{
    if txs.len() > 0 {
        lemma_locked_stays(c, txs.drop_last());
        lemma_locked_rejects(c, txs.last());
    }
}

/// No transaction unlocks an account.
pub proof fn lemma_lock_is_permanent(c: ClientView, tx: Transaction)
    requires
        c.locked,
    ensures
        after(c, tx).locked,
{
}

/// Setting a flag of the entry at `i` moves no reference: the first entry that `id` refers
/// to stands where it stood.
pub proof fn lemma_referenced_index_update(
    entries: Seq<Transaction>,
    id: u32,
    i: int,
    entry: Transaction,
)
    requires
        0 <= i < entries.len(),
        entry.tx == entries[i].tx,
        entry.amount == entries[i].amount,
    ensures
        referenced_index(entries.update(i, entry), id) == referenced_index(entries, id),
{
    let updated = entries.update(i, entry);
    lemma_referenced_index(entries, id);
    assert forall|j: int| 0 <= j < entries.len() implies is_reference(#[trigger] updated[j], id)
        == is_reference(entries[j], id) by {}
    match referenced_index(entries, id) {
        Some(k) => {
            assert forall|j: int| 0 <= j < k implies !is_reference(#[trigger] updated[j], id) by {
                assert(!is_reference(entries[j], id));
            }
            assert(is_reference(updated[k], id));
            lemma_referenced_index_is(updated, id, k);
        },
        None => {
            assert forall|j: int| 0 <= j < updated.len() implies !is_reference(
                #[trigger] updated[j],
                id,
            ) by {
                assert(!is_reference(entries[j], id));
            }
            lemma_referenced_index_none(updated, id);
        },
    }
}

/// A dispute takes effect once: when a dispute is accepted, the same dispute submitted again
/// is rejected with `AlreadyDisputed`, and the account stays as the first one left it.
pub proof fn lemma_dispute_applies_once(c: ClientView, tx: Transaction)
    requires
        tx.transaction_type == TransactionType::Dispute,
        apply_spec(c, tx) is Ok,
    ensures
        apply_spec(after(c, tx), tx) == Err::<ClientView, TransactionError>(
            TransactionError::AlreadyDisputed,
        ),
        after(after(c, tx), tx) == after(c, tx),
{
    lemma_referenced_index(c.transactions, tx.tx);
    let i = referenced_index(c.transactions, tx.tx)->0;
    lemma_referenced_index_update(c.transactions, tx.tx, i, mark_disputed(c.transactions[i]));
}

} // verus!
