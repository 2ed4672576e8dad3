use brc20_index::brc20_ticker::{Brc20Ticker, RegistryError, TickerRegistry};
use brc20_index::brc20_tx::{Brc20Tx, InvalidBrc20Tx, InvalidBrc20TxMap};
use brc20_index::inscription::Brc20Inscription;
use brc20_index::mint::Brc20MintTx;

fn rejection(tx_id: &str, reason: &str) -> InvalidBrc20Tx {
    InvalidBrc20Tx::new(
        tx_id.to_string(),
        Brc20Inscription::mint("ordi".to_string(), Some("1".to_string())),
        reason.to_string(),
    )
}

#[test]
fn new_ticker_has_nothing_minted() {
    let ticker = Brc20Ticker::new("ordi".to_string(), 21_000_000, 1000, 18);
    assert_eq!(ticker.get_tick(), "ordi");
    assert_eq!(ticker.get_max_supply(), 21_000_000);
    assert_eq!(ticker.get_limit(), 1000);
    assert_eq!(ticker.get_decimals(), 18);
    assert_eq!(ticker.get_total_supply(), 0);
    assert_eq!(ticker.mint_count(), 0);
    assert_eq!(ticker.recompute_total_minted(), 0);
}

#[test]
fn a_symbol_is_registered_once() {
    let mut tickers = TickerRegistry::new();
    assert_eq!(tickers.len(), 0);
    assert!(!tickers.contains("ordi"));
    assert!(tickers.get("ordi").is_none());
    assert_eq!(tickers.register(Brc20Ticker::new("ordi".to_string(), 1000, 100, 0)), Ok(()));
    assert_eq!(
        tickers.register(Brc20Ticker::new("ordi".to_string(), 5, 5, 5)),
        Err(RegistryError::TickerExists)
    );
    assert_eq!(tickers.len(), 1);
    let kept = tickers.get("ordi").unwrap();
    assert_eq!(kept.get_max_supply(), 1000);
    assert_eq!(kept.get_limit(), 100);
    assert_eq!(kept.get_decimals(), 0);
}

#[test]
fn tickers_are_walked_in_the_order_of_registration() {
    let mut tickers = TickerRegistry::new();
    for name in ["ordi", "pepe", "meme"] {
        assert!(tickers.register(Brc20Ticker::new(name.to_string(), 10, 1, 0)).is_ok());
    }
    assert_eq!(tickers.len(), 3);
    assert_eq!(tickers.ticker_at(0).get_tick(), "ordi");
    assert_eq!(tickers.ticker_at(1).get_tick(), "pepe");
    assert_eq!(tickers.ticker_at(2).get_tick(), "meme");
}

#[test]
fn recorded_mint_grows_the_total_of_its_ticker_only() {
    let mut tickers = TickerRegistry::new();
    let mut invalid = InvalidBrc20TxMap::new();
    assert!(tickers.register(Brc20Ticker::new("ordi".to_string(), 1000, 100, 0)).is_ok());
    assert!(tickers.register(Brc20Ticker::new("pepe".to_string(), 1000, 100, 0)).is_ok());
    let t = Brc20Tx::new("t1".to_string(), "alice".to_string(), 1);
    let m = Brc20MintTx::new(&t, Brc20Inscription::mint("pepe".to_string(), Some("7".to_string())))
        .validate_mint(&t, &mut tickers, &mut invalid);
    assert!(m.is_valid());
    assert_eq!(tickers.get("pepe").unwrap().get_total_supply(), 7);
    assert_eq!(tickers.get("ordi").unwrap().get_total_supply(), 0);
}

#[test]
fn rejections_are_found_by_transaction_id() {
    let mut ledger = InvalidBrc20TxMap::new();
    assert_eq!(ledger.len(), 0);
    assert!(!ledger.contains("t1"));
    ledger.add_invalid_tx(rejection("t1", "first"));
    ledger.add_invalid_tx(rejection("t2", "second"));
    assert_eq!(ledger.len(), 2);
    assert!(ledger.contains("t1"));
    assert_eq!(ledger.get("t1").unwrap().reason, "first");
    assert_eq!(ledger.get("t2").unwrap().reason, "second");
    assert!(ledger.get("t3").is_none());
    assert_eq!(ledger.entry_at(0).tx_id, "t1");
    assert_eq!(ledger.entry_at(1).tx_id, "t2");
}

#[test]
fn a_transaction_id_is_never_recorded_twice() {
    let mut ledger = InvalidBrc20TxMap::new();
    ledger.add_invalid_tx(rejection("t1", "first"));
    ledger.add_invalid_tx(rejection("t2", "second"));
    ledger.add_invalid_tx(rejection("t1", "third"));
    assert_eq!(ledger.len(), 2);
    assert_eq!(ledger.get("t1").unwrap().reason, "third");
    let mut ids: Vec<String> = Vec::new();
    for i in 0..ledger.len() {
        ids.push(ledger.entry_at(i).tx_id.clone());
    }
    assert_eq!(ids, vec!["t1".to_string(), "t2".to_string()]);
}
