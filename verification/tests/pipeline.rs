use payments_engine::ledger::{Client, TXType, Transaction, TransactionError};
use payments_engine::money::Money;
use payments_engine::pipeline::{
    get_or_insert, process_record, process_transaction_data, RawTransaction, RecordOutcome,
};
use payments_engine::report::{output_accounts, RawClient};
use std::collections::HashMap;

fn record(kind: TXType, client: u16, tx: u32, amount: Option<&str>) -> RawTransaction {
    RawTransaction {
        transaction_type: kind,
        client,
        tx,
        amount: amount.map(|text| text.to_string()),
    }
}

fn row(client: u16, available: &str, held: &str, total: &str, locked: bool) -> RawClient {
    RawClient {
        client,
        available: available.to_string(),
        held: held.to_string(),
        total: total.to_string(),
        locked,
    }
}

fn run(records: Vec<RawTransaction>) -> (HashMap<u16, Client>, Vec<RecordOutcome>) {
    let mut client_data = HashMap::new();
    let outcomes = process_transaction_data(&records, &mut client_data);
    (client_data, outcomes)
}

fn results(outcomes: &Vec<RecordOutcome>) -> Vec<Result<(), TransactionError>> {
    outcomes.iter().map(|outcome| outcome.result).collect()
}

#[test]
fn positive_dispute() {
    let (client_data, _) = run(vec![
        record(TXType::Deposit, 1, 1, Some("1.5")),
        record(TXType::Deposit, 2, 2, Some("2.0")),
        record(TXType::Dispute, 1, 1, None),
    ]);
    let test_client1 = row(1, "0.0000", "1.5000", "1.5000", false);
    let test_client2 = row(2, "2.0000", "0.0000", "2.0000", false);
    let client1 = RawClient::from_client(client_data.get(&1).unwrap());
    let client2 = RawClient::from_client(client_data.get(&2).unwrap());
    assert_eq!(test_client1, client1);
    assert_eq!(test_client2, client2);
}

#[test]
fn negative_dispute() {
    let (client_data, outcomes) = run(vec![
        record(TXType::Deposit, 1, 1, Some("1.5")),
        record(TXType::Deposit, 2, 2, Some("2.0")),
        record(TXType::Dispute, 1, 3, None),
    ]);
    let test_client1 = row(1, "1.5000", "0.0000", "1.5000", false);
    let test_client2 = row(2, "2.0000", "0.0000", "2.0000", false);
    let client1 = RawClient::from_client(client_data.get(&1).unwrap());
    let client2 = RawClient::from_client(client_data.get(&2).unwrap());
    assert_eq!(test_client1, client1);
    assert_eq!(test_client2, client2);
    assert_eq!(outcomes[2].result, Err(TransactionError::ReferencedTransactionNotFound));
}

#[test]
fn postive_resolve() {
    let (client_data, _) = run(vec![
        record(TXType::Deposit, 1, 1, Some("5.0")),
        record(TXType::Deposit, 2, 2, Some("2.0")),
        record(TXType::Dispute, 1, 1, None),
        record(TXType::Resolve, 1, 1, None),
    ]);
    let test_client1 = row(1, "5.0000", "0.0000", "5.0000", false);
    let test_client2 = row(2, "2.0000", "0.0000", "2.0000", false);
    let client1 = RawClient::from_client(client_data.get(&1).unwrap());
    let client2 = RawClient::from_client(client_data.get(&2).unwrap());
    assert_eq!(test_client1, client1);
    assert_eq!(test_client2, client2);
}

#[test]
fn negative_resolve() {
    let (client_data, outcomes) = run(vec![
        record(TXType::Deposit, 1, 1, Some("1.5")),
        record(TXType::Deposit, 2, 2, Some("2.0")),
        record(TXType::Deposit, 1, 3, Some("3.5")),
        record(TXType::Dispute, 1, 3, None),
        record(TXType::Resolve, 1, 1, None),
    ]);
    let test_client1 = row(1, "1.5000", "3.5000", "5.0000", false);
    let test_client2 = row(2, "2.0000", "0.0000", "2.0000", false);
    let client1 = RawClient::from_client(client_data.get(&1).unwrap());
    let client2 = RawClient::from_client(client_data.get(&2).unwrap());
    assert_eq!(test_client1, client1);
    assert_eq!(test_client2, client2);
    assert_eq!(outcomes[4].result, Err(TransactionError::NotUnderDispute));
}

#[test]
fn positive_chargeback() {
    let (client_data, _) = run(vec![
        record(TXType::Deposit, 1, 1, Some("1.5")),
        record(TXType::Deposit, 2, 2, Some("2.0")),
        record(TXType::Deposit, 1, 3, Some("3.5")),
        record(TXType::Dispute, 1, 1, None),
        record(TXType::Chargeback, 1, 1, None),
    ]);
    let test_client1 = row(1, "3.5000", "0.0000", "3.5000", true);
    let test_client2 = row(2, "2.0000", "0.0000", "2.0000", false);
    let client1 = RawClient::from_client(client_data.get(&1).unwrap());
    let client2 = RawClient::from_client(client_data.get(&2).unwrap());
    assert_eq!(test_client1, client1);
    assert_eq!(test_client2, client2);
}

#[test]
fn get_or_insert_creates_once() {
    let mut client_data: HashMap<u16, Client> = HashMap::new();
    {
        let client = get_or_insert(9, &mut client_data);
        assert_eq!(client.client, 9);
        assert_eq!(client.total.units, 0);
        assert!(!client.locked);
        assert!(client.transactions.is_empty());
        client.available = Money::from_units(5);
        client.total = Money::from_units(5);
    }
    assert_eq!(client_data.len(), 1);
    {
        let client = get_or_insert(9, &mut client_data);
        assert_eq!(client.available.units, 5);
    }
    assert_eq!(client_data.len(), 1);
    get_or_insert(4, &mut client_data);
    assert_eq!(client_data.len(), 2);
    assert_eq!(client_data.get(&9).unwrap().available.units, 5);
    assert_eq!(client_data.get(&4).unwrap().client, 4);
}

#[test]
fn from_raw_parses_the_amount_of_deposits_and_withdrawals() {
    assert_eq!(
        Transaction::from_raw(&record(TXType::Deposit, 3, 8, Some("1.25"))),
        Ok(Transaction {
            transaction_type: TXType::Deposit,
            client: 3,
            tx: 8,
            disputed: false,
            resolved: false,
            amount: Some(Money { units: 12_500 }),
        })
    );
    assert_eq!(
        Transaction::from_raw(&record(TXType::Withdrawal, 3, 9, None)),
        Ok(Transaction {
            transaction_type: TXType::Withdrawal,
            client: 3,
            tx: 9,
            disputed: false,
            resolved: false,
            amount: None,
        })
    );
    assert_eq!(
        Transaction::from_raw(&record(TXType::Deposit, 3, 8, Some("1.2.5"))),
        Err(TransactionError::InvalidAmount)
    );
    assert_eq!(
        Transaction::from_raw(&record(TXType::Withdrawal, 3, 8, Some(""))),
        Err(TransactionError::InvalidAmount)
    );
    assert_eq!(
        Transaction::from_raw(&record(TXType::Withdrawal, 3, 8, Some("0.00001"))),
        Err(TransactionError::InvalidAmount)
    );
}

#[test]
fn from_raw_does_not_read_the_amount_of_control_records() {
    for kind in [TXType::Dispute, TXType::Resolve, TXType::Chargeback] {
        for amount in [None, Some("7.5"), Some("seven")] {
            assert_eq!(
                Transaction::from_raw(&record(kind, 3, 8, amount)),
                Ok(Transaction {
                    transaction_type: kind,
                    client: 3,
                    tx: 8,
                    disputed: false,
                    resolved: false,
                    amount: None,
                })
            );
        }
    }
}

#[test]
fn from_transaction_formats_the_amount() {
    let tx = Transaction {
        transaction_type: TXType::Withdrawal,
        client: 3,
        tx: 8,
        disputed: true,
        resolved: false,
        amount: Some(Money { units: 12_500 }),
    };
    let raw = RawTransaction::from_transaction(&tx);
    assert_eq!(raw.transaction_type, TXType::Withdrawal);
    assert_eq!(raw.client, 3);
    assert_eq!(raw.tx, 8);
    assert_eq!(raw.amount, Some("1.2500".to_string()));
    let bare = RawTransaction::from_transaction(&Transaction { amount: None, ..tx });
    assert_eq!(bare.amount, None);
    assert_eq!(Transaction::from_raw(&raw), Ok(Transaction { disputed: false, ..tx }));
}

#[test]
fn control_record_with_an_amount_leaves_no_entry() {
    let (client_data, outcomes) = run(vec![
        record(TXType::Deposit, 1, 1, Some("5.0")),
        record(TXType::Dispute, 1, 1, Some("5.0")),
        record(TXType::Resolve, 1, 1, Some("nonsense")),
    ]);
    assert_eq!(results(&outcomes), vec![Ok(()), Ok(()), Ok(())]);
    let client = client_data.get(&1).unwrap();
    assert_eq!(client.transactions.len(), 1);
    assert_eq!(client.available.units, 50_000);
    assert_eq!(client.held.units, 0);
}

#[test]
fn run_reports_each_record_and_goes_on() {
    let (client_data, outcomes) = run(vec![
        record(TXType::Deposit, 1, 1, Some("5.0")),
        record(TXType::Withdrawal, 1, 2, Some("100.0")),
        record(TXType::Deposit, 2, 3, Some("oops")),
        record(TXType::Dispute, 3, 1, None),
        record(TXType::Deposit, 1, 4, None),
        record(TXType::Withdrawal, 1, 5, Some("1.5")),
    ]);
    assert_eq!(
        outcomes,
        vec![
            RecordOutcome { record: 1, client: 1, tx: 1, kind: TXType::Deposit, result: Ok(()) },
            RecordOutcome {
                record: 2,
                client: 1,
                tx: 2,
                kind: TXType::Withdrawal,
                result: Err(TransactionError::InsufficientFunds),
            },
            RecordOutcome {
                record: 3,
                client: 2,
                tx: 3,
                kind: TXType::Deposit,
                result: Err(TransactionError::InvalidAmount),
            },
            RecordOutcome {
                record: 4,
                client: 3,
                tx: 1,
                kind: TXType::Dispute,
                result: Err(TransactionError::ReferencedTransactionNotFound),
            },
            RecordOutcome {
                record: 5,
                client: 1,
                tx: 4,
                kind: TXType::Deposit,
                result: Err(TransactionError::MissingAmount),
            },
            RecordOutcome { record: 6, client: 1, tx: 5, kind: TXType::Withdrawal, result: Ok(()) },
        ]
    );
    assert_eq!(client_data.len(), 2);
    assert!(!client_data.contains_key(&2));
    assert_eq!(
        output_accounts(&client_data),
        vec![
            row(1, "3.5000", "0.0000", "3.5000", false),
            row(3, "0.0000", "0.0000", "0.0000", false)
        ]
    );
}

#[test]
fn dispute_only_looks_at_the_clients_own_entries() {
    let (client_data, outcomes) = run(vec![
        record(TXType::Deposit, 1, 1, Some("5.0")),
        record(TXType::Deposit, 2, 2, Some("2.0")),
        record(TXType::Dispute, 2, 1, None),
    ]);
    assert_eq!(outcomes[2].result, Err(TransactionError::ReferencedTransactionNotFound));
    assert_eq!(
        output_accounts(&client_data),
        vec![
            row(1, "5.0000", "0.0000", "5.0000", false),
            row(2, "2.0000", "0.0000", "2.0000", false)
        ]
    );
}

#[test]
fn locked_account_keeps_its_balances_through_a_run() {
    let (mut client_data, outcomes) = run(vec![
        record(TXType::Deposit, 1, 1, Some("5.0")),
        record(TXType::Deposit, 1, 2, Some("2.0")),
        record(TXType::Dispute, 1, 1, None),
        record(TXType::Chargeback, 1, 1, None),
    ]);
    assert_eq!(results(&outcomes), vec![Ok(()), Ok(()), Ok(()), Ok(())]);
    let locked = row(1, "2.0000", "0.0000", "2.0000", true);
    assert_eq!(output_accounts(&client_data), vec![row(1, "2.0000", "0.0000", "2.0000", true)]);
    let later = vec![
        record(TXType::Deposit, 1, 3, Some("1.0")),
        record(TXType::Withdrawal, 1, 4, Some("1.0")),
        record(TXType::Deposit, 2, 5, Some("1.0")),
        record(TXType::Dispute, 1, 2, None),
        record(TXType::Resolve, 1, 1, None),
        record(TXType::Chargeback, 1, 2, None),
    ];
    let outcomes = process_transaction_data(&later, &mut client_data);
    assert_eq!(
        results(&outcomes),
        vec![
            Err(TransactionError::AccountFrozen),
            Err(TransactionError::AccountFrozen),
            Ok(()),
            Err(TransactionError::AccountFrozen),
            Err(TransactionError::AccountFrozen),
            Err(TransactionError::AccountFrozen),
        ]
    );
    assert_eq!(outcomes[0].record, 1);
    assert_eq!(
        output_accounts(&client_data),
        vec![locked, row(2, "1.0000", "0.0000", "1.0000", false)]
    );
    assert_eq!(client_data.get(&1).unwrap().transactions.len(), 2);
}

#[test]
fn process_record_keeps_the_given_number() {
    let mut client_data = HashMap::new();
    let outcome = process_record(41, &record(TXType::Deposit, 6, 2, Some("0.5")), &mut client_data);
    assert_eq!(
        outcome,
        RecordOutcome { record: 41, client: 6, tx: 2, kind: TXType::Deposit, result: Ok(()) }
    );
    let outcome = process_record(42, &record(TXType::Resolve, 6, 2, None), &mut client_data);
    assert_eq!(outcome.result, Err(TransactionError::NotUnderDispute));
    assert_eq!(outcome.record, 42);
    assert_eq!(client_data.get(&6).unwrap().total.units, 5_000);
}

#[test]
fn empty_run_changes_nothing() {
    let (client_data, outcomes) = run(Vec::new());
    assert!(outcomes.is_empty());
    assert!(client_data.is_empty());
    assert!(output_accounts(&client_data).is_empty());
}

#[test]
fn log_lines_name_record_and_reason() {
    let applied = RecordOutcome { record: 1, client: 1, tx: 1, kind: TXType::Deposit, result: Ok(()) };
    assert_eq!(applied.log_line(), "[RECORD #1][SUCCESS]: Transaction processed successfully.");
    let rejected = RecordOutcome {
        record: 1204,
        client: 65535,
        tx: 4294967295,
        kind: TXType::Withdrawal,
        result: Err(TransactionError::InsufficientFunds),
    };
    assert_eq!(
        rejected.log_line(),
        "[RECORD #1204][ERROR]: client 65535, tx 4294967295: the withdrawal exceeds the available balance"
    );
    let frozen = RecordOutcome {
        record: 18446744073709551615,
        client: 0,
        tx: 0,
        kind: TXType::Deposit,
        result: Err(TransactionError::AccountFrozen),
    };
    assert_eq!(
        frozen.log_line(),
        "[RECORD #18446744073709551615][ERROR]: client 0, tx 0: account is frozen, further transactions are not allowed"
    );
}

#[test]
fn every_reason_has_its_own_text() {
    let reasons = [
        TransactionError::AccountFrozen,
        TransactionError::MissingAmount,
        TransactionError::InvalidAmount,
        TransactionError::BalanceOverflow,
        TransactionError::InsufficientFunds,
        TransactionError::ReferencedTransactionNotFound,
        TransactionError::AlreadyDisputed,
        TransactionError::BalanceUnderflow,
        TransactionError::HeldOverflow,
        TransactionError::InvalidDisputeTarget,
        TransactionError::AlreadyFinalized,
        TransactionError::NotUnderDispute,
        TransactionError::HeldUnderflow,
    ];
    for (i, a) in reasons.iter().enumerate() {
        assert!(!a.message().is_empty());
        for b in reasons.iter().skip(i + 1) {
            assert_ne!(a.message(), b.message());
        }
    }
    assert_eq!(
        TransactionError::ReferencedTransactionNotFound.message(),
        "could not find the referenced transaction"
    );
}
