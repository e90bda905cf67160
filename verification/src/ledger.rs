//! The ledger's data: transactions, client accounts and rejection reasons.

use crate::money::Money;
use vstd::prelude::*;

verus! {

/// The forms a transaction can take.
#[derive(Clone, Copy, Debug, PartialEq, Eq, Structural)]
pub enum TXType {
    Deposit,
    Withdrawal,
    Dispute,
    Resolve,
    Chargeback,
}

pub type TransactionType = TXType;

/// Why a transaction was rejected. A rejected transaction changes nothing.
#[derive(Clone, Copy, Debug, PartialEq, Eq, Structural)]
pub enum TransactionError {
    /// The account is locked after a chargeback.
    AccountFrozen,
    /// A deposit or withdrawal carries no amount.
    MissingAmount,
    /// The amount of a deposit or withdrawal is not a decimal text in range.
    InvalidAmount,
    /// The available balance, or the total, would exceed the largest amount.
    BalanceOverflow,
    /// A withdrawal exceeds the available balance.
    InsufficientFunds,
    /// The account holds no entry with the referenced id.
    ReferencedTransactionNotFound,
    /// The referenced entry is already under dispute, or was.
    AlreadyDisputed,
    /// Disputing the deposit would take the available balance below zero.
    BalanceUnderflow,
    /// The held balance, or the total, would exceed the largest amount.
    HeldOverflow,
    /// The referenced entry is neither a deposit nor a withdrawal.
    InvalidDisputeTarget,
    /// The referenced entry was already resolved or charged back.
    AlreadyFinalized,
    /// The referenced entry is not under dispute.
    NotUnderDispute,
    /// The held balance is smaller than the disputed amount.
    HeldUnderflow,
}

/// One transaction: an incoming record, or an entry kept in an account.
///
/// Of an incoming record the two flags are not read. An entry is a deposit or a
/// withdrawal with its amount; `disputed` is set by a dispute and never cleared,
/// `resolved` is set by a resolve or a chargeback and never cleared.
#[derive(Clone, Copy, Debug, PartialEq, Eq, Structural)]
pub struct Transaction {
    pub transaction_type: TransactionType,
    pub client: u16,
    pub tx: u32,
    pub disputed: bool,
    pub resolved: bool,
    pub amount: Option<Money>,
}

/// A client's account: its balances, its lock and the entries it keeps.
#[derive(Debug)]
pub struct Client {
    pub client: u16,
    pub available: Money,
    pub held: Money,
    pub total: Money,
    pub transactions: Vec<Transaction>,
    pub locked: bool,
}

/// The mathematical model of an account.
pub struct ClientView {
    pub client: u16,
    pub available: nat,
    pub held: nat,
    pub total: nat,
    pub transactions: Seq<Transaction>,
    pub locked: bool,
}

impl ClientView {
    /// The model of an account that has seen no transaction.
    pub open spec fn fresh(id: u16) -> ClientView {
        ClientView {
            client: id,
            available: 0,
            held: 0,
            total: 0,
            transactions: Seq::empty(),
            locked: false,
        }
    }

    /// The total is the sum of the available and the held balance.
    pub open spec fn balanced(self) -> bool {
        self.total == self.available + self.held
    }
}

impl View for Client {
    type V = ClientView;

    open spec fn view(&self) -> ClientView {
        ClientView {
            client: self.client,
            available: self.available@,
            held: self.held@,
            total: self.total@,
            transactions: self.transactions@,
            locked: self.locked,
        }
    }
}

impl Client {
    /// The account's invariant: the total is the sum of the two balances.
    pub open spec fn wf(&self) -> bool {
        self@.balanced()
    }

    /// An account without funds, entries or lock.
    pub fn new(id: u16) -> (r: Client)
        ensures
            r@ == ClientView::fresh(id),
            r.wf(),
    {
        Client {
            client: id,
            available: Money::zero(),
            held: Money::zero(),
            total: Money::zero(),
            transactions: Vec::new(),
            locked: false,
        }
    }

    /// `Ok` for an account that takes transactions, `AccountFrozen` for a locked one.
    pub fn is_frozen(&self) -> (r: Result<(), TransactionError>)
        ensures
            r == (if self.locked {
                Err::<(), TransactionError>(TransactionError::AccountFrozen)
            } else {
                Ok::<(), TransactionError>(())
            }),
    {
        if self.locked {
            Err(TransactionError::AccountFrozen)
        } else {
            Ok(())
        }
    }
}

impl Transaction {
    /// `Ok` for an entry that was never disputed, `AlreadyDisputed` otherwise.
    pub fn is_already_disputed(&self) -> (r: Result<(), TransactionError>)
        ensures
            r == (if self.disputed {
                Err::<(), TransactionError>(TransactionError::AlreadyDisputed)
            } else {
                Ok::<(), TransactionError>(())
            }),
    {
        if self.disputed {
            Err(TransactionError::AlreadyDisputed)
        } else {
            Ok(())
        }
    }

    /// `Ok` for an entry that was neither resolved nor charged back, `AlreadyFinalized` otherwise.
    pub fn is_already_resolved(&self) -> (r: Result<(), TransactionError>)
        ensures
            r == (if self.resolved {
                Err::<(), TransactionError>(TransactionError::AlreadyFinalized)
            } else {
                Ok::<(), TransactionError>(())
            }),
    {
        if self.resolved {
            Err(TransactionError::AlreadyFinalized)
        } else {
            Ok(())
        }
    }
}

/// The text that describes a rejection reason.
pub open spec fn reason_text(reason: TransactionError) -> Seq<char> {
    match reason {
        TransactionError::AccountFrozen => "account is frozen, further transactions are not allowed"@,
        TransactionError::MissingAmount => "a deposit or withdrawal requires an amount"@,
        TransactionError::InvalidAmount => "the amount is not a decimal number with at most four fractional digits"@,
        TransactionError::BalanceOverflow => "the available balance would overflow"@,
        TransactionError::InsufficientFunds => "the withdrawal exceeds the available balance"@,
        TransactionError::ReferencedTransactionNotFound => "could not find the referenced transaction"@,
        TransactionError::AlreadyDisputed => "the transaction is already disputed, further disputes are not allowed"@,
        TransactionError::BalanceUnderflow => "the dispute would make the available balance negative"@,
        TransactionError::HeldOverflow => "the held balance would overflow"@,
        TransactionError::InvalidDisputeTarget => "only a withdrawal or a deposit can be disputed"@,
        TransactionError::AlreadyFinalized => "the transaction is already resolved, further resolves and chargebacks are not allowed"@,
        TransactionError::NotUnderDispute => "the transaction is not under dispute"@,
        TransactionError::HeldUnderflow => "the held balance is smaller than the disputed amount"@,
    }
}

impl TransactionError {
    /// The text that describes the reason.
    pub fn message(&self) -> (t: &'static str)
        ensures
            t@ == reason_text(*self),
    {
        match self {
            TransactionError::AccountFrozen => "account is frozen, further transactions are not allowed",
            TransactionError::MissingAmount => "a deposit or withdrawal requires an amount",
            TransactionError::InvalidAmount => "the amount is not a decimal number with at most four fractional digits",
            TransactionError::BalanceOverflow => "the available balance would overflow",
            TransactionError::InsufficientFunds => "the withdrawal exceeds the available balance",
            TransactionError::ReferencedTransactionNotFound => "could not find the referenced transaction",
            TransactionError::AlreadyDisputed => "the transaction is already disputed, further disputes are not allowed",
            TransactionError::BalanceUnderflow => "the dispute would make the available balance negative",
            TransactionError::HeldOverflow => "the held balance would overflow",
            TransactionError::InvalidDisputeTarget => "only a withdrawal or a deposit can be disputed",
            TransactionError::AlreadyFinalized => "the transaction is already resolved, further resolves and chargebacks are not allowed",
            TransactionError::NotUnderDispute => "the transaction is not under dispute",
            TransactionError::HeldUnderflow => "the held balance is smaller than the disputed amount",
        }
    }
}

} // verus!
