use brc20_index::brc20_ticker::Brc20Ticker;
use brc20_index::brc20_tx::Brc20Tx;
use brc20_index::index::Brc20Index;
use brc20_index::inscription::Brc20Inscription;
use brc20_index::mint::{handle_mint_operation, MintRecord};
use brc20_index::reconcile::{total_credited, total_matches};

fn record(tick: &str, amount: u128) -> MintRecord {
    MintRecord {
        tx_id: "t".to_string(),
        tick: tick.to_string(),
        owner: "alice".to_string(),
        amount,
        block_height: 1,
    }
}

#[test]
fn total_is_the_sum_of_the_records_of_the_ticker() {
    let records = vec![record("ordi", 100), record("pepe", 7), record("ordi", 50), record("ordi", 0)];
    assert_eq!(total_credited("ordi", &records), Some(150));
    assert_eq!(total_credited("pepe", &records), Some(7));
    assert_eq!(total_credited("meme", &records), Some(0));
    assert_eq!(total_credited("ordi", &Vec::new()), Some(0));
}

#[test]
fn total_that_does_not_fit_is_none() {
    let records = vec![record("ordi", u128::MAX), record("pepe", 5), record("ordi", 1)];
    assert_eq!(total_credited("ordi", &records), None);
    assert_eq!(total_credited("pepe", &records), Some(5));
}

#[test]
fn recomputed_total_sums_credited_not_requested_amounts() {
    let mut index = Brc20Index::new();
    assert!(index.tickers.register(Brc20Ticker::new("ordi".to_string(), 150, 100, 0)).is_ok());
    for i in 0..3 {
        let tx = Brc20Tx::new(format!("t{}", i), "alice".to_string(), 5);
        let mint = Brc20Inscription::mint("ordi".to_string(), Some("100".to_string()));
        assert!(handle_mint_operation(mint, &tx, &mut index).is_some());
    }
    let ticker = index.tickers.get("ordi").unwrap();
    let mut records: Vec<MintRecord> = Vec::new();
    for i in 0..ticker.mint_count() {
        records.push(ticker.mint_at(i).record().unwrap());
    }
    assert_eq!(records[1].amount, 50);
    assert_eq!(records[2].amount, 0);
    assert_eq!(total_credited("ordi", &records), Some(150));
    assert!(total_matches(ticker, &records));
    records.pop();
    records.pop();
    assert!(!total_matches(ticker, &records));
}
