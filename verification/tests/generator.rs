use payments_engine::generator::{
    generate_deposit, generate_test_data, kind_for_draw, record_from_draws,
};
use payments_engine::ledger::{Client, TXType};
use payments_engine::money::Money;
use payments_engine::pipeline::{process_transaction_data, RawTransaction};
use std::collections::HashMap;

fn carries_amount(kind: TXType) -> bool {
    kind == TXType::Deposit || kind == TXType::Withdrawal
}

#[test]
fn stream_opens_with_the_fixed_deposit() {
    let first = generate_deposit();
    assert_eq!(first.transaction_type, TXType::Deposit);
    assert_eq!(first.client, 1);
    assert_eq!(first.tx, 1);
    assert_eq!(first.amount, Some("5.0000".to_string()));
}

#[test]
fn draws_select_the_kind() {
    assert_eq!(kind_for_draw(1), TXType::Withdrawal);
    assert_eq!(kind_for_draw(2), TXType::Deposit);
    assert_eq!(kind_for_draw(3), TXType::Dispute);
    assert_eq!(kind_for_draw(4), TXType::Resolve);
    assert_eq!(kind_for_draw(5), TXType::Chargeback);
}

#[test]
fn record_follows_the_draws() {
    let deposit = record_from_draws(TXType::Deposit, 2, 17, 4, 123_456);
    assert_eq!(deposit.transaction_type, TXType::Deposit);
    assert_eq!(deposit.client, 2);
    assert_eq!(deposit.tx, 17);
    assert_eq!(deposit.amount, Some("12.3456".to_string()));
    let withdrawal = record_from_draws(TXType::Withdrawal, 3, 18, 4, 999_990_000);
    assert_eq!(withdrawal.tx, 18);
    assert_eq!(withdrawal.amount, Some("99999.0000".to_string()));
    for kind in [TXType::Dispute, TXType::Resolve, TXType::Chargeback] {
        let control = record_from_draws(kind, 1, 19, 4, 123_456);
        assert_eq!(control.transaction_type, kind);
        assert_eq!(control.client, 1);
        assert_eq!(control.tx, 4);
        assert_eq!(control.amount, None);
    }
}

fn check_stream(stream: &Vec<RawTransaction>) {
    assert_eq!(stream.len(), 30);
    assert_eq!(stream[0].transaction_type, TXType::Deposit);
    assert_eq!((stream[0].client, stream[0].tx), (1, 1));
    assert_eq!(stream[0].amount, Some("5.0000".to_string()));
    for i in 1..stream.len() {
        let record = &stream[i];
        assert!(1 <= record.client && record.client <= 3);
        if carries_amount(record.transaction_type) {
            assert_eq!(record.tx as usize, i + 1);
            let text = record.amount.as_ref().unwrap();
            let amount = Money::parse(text).unwrap();
            assert!(amount.units <= 999_990_000);
            assert_eq!(&amount.format(), text);
        } else {
            assert_eq!(record.amount, None);
            assert!(stream[..i].iter().any(|earlier| earlier.tx == record.tx));
        }
    }
}

#[test]
fn generated_streams_are_well_formed() {
    for _ in 0..50 {
        check_stream(&generate_test_data());
    }
}

#[test]
fn generated_streams_vary() {
    let mut kinds = Vec::new();
    let mut clients = Vec::new();
    let mut amounts = Vec::new();
    for _ in 0..40 {
        for record in generate_test_data().iter().skip(1) {
            if !kinds.contains(&record.transaction_type) {
                kinds.push(record.transaction_type);
            }
            if !clients.contains(&record.client) {
                clients.push(record.client);
            }
            if let Some(text) = &record.amount {
                if !amounts.contains(text) {
                    amounts.push(text.clone());
                }
            }
        }
    }
    assert_eq!(kinds.len(), 5);
    assert_eq!(clients.len(), 3);
    assert!(amounts.len() > 10);
}

#[test]
fn generated_stream_runs_through_the_engine() {
    for _ in 0..20 {
        let stream = generate_test_data();
        let mut client_data: HashMap<u16, Client> = HashMap::new();
        let outcomes = process_transaction_data(&stream, &mut client_data);
        assert_eq!(outcomes.len(), 30);
        assert_eq!(outcomes[0].result, Ok(()));
        for (i, outcome) in outcomes.iter().enumerate() {
            assert_eq!(outcome.record as usize, i + 1);
        }
        for (id, client) in client_data.iter() {
            assert_eq!(*id, client.client);
            assert_eq!(client.total.units, client.available.units + client.held.units);
        }
    }
}
