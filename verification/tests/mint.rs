use brc20_index::amount::AmountError;
use brc20_index::brc20_ticker::{Brc20Ticker, TickerRegistry};
use brc20_index::brc20_tx::{Brc20Tx, InvalidBrc20TxMap};
use brc20_index::index::Brc20Index;
use brc20_index::inscription::Brc20Inscription;
use brc20_index::mint::{decide_mint, handle_mint_operation, Brc20MintTx, MintRejection};
use brc20_index::user_balance::UserBalanceEntryType;

fn tx(id: &str, owner: &str) -> Brc20Tx {
    Brc20Tx::new(id.to_string(), owner.to_string(), 790_000)
}

fn mint_of(tick: &str, amt: Option<&str>) -> Brc20Inscription {
    Brc20Inscription::mint(tick.to_string(), amt.map(|s| s.to_string()))
}

fn index_with(tick: &str, max: u128, limit: u128, decimals: u8) -> Brc20Index {
    let mut index = Brc20Index::new();
    assert!(index
        .tickers
        .register(Brc20Ticker::new(tick.to_string(), max, limit, decimals))
        .is_ok());
    index
}

#[test]
fn new_mint_is_not_valid_and_credits_nothing() {
    let t = tx("a1", "alice");
    let m = Brc20MintTx::new(&t, mint_of("ordi", Some("5")));
    assert!(!m.is_valid());
    assert_eq!(m.get_amount(), 0);
    assert_eq!(m.get_mint().tick, "ordi");
    assert_eq!(m.get_mint().op, "mint");
    assert_eq!(m.get_mint().amt, Some("5".to_string()));
    assert_eq!(m.get_brc20_tx().get_txid(), "a1");
    assert_eq!(m.get_brc20_tx().get_owner(), "alice");
    assert_eq!(m.get_brc20_tx().get_block_height(), 790_000);
    assert!(m.record().is_none());
}

#[test]
fn mint_over_the_limit_is_rejected_and_changes_no_total() {
    let mut index = index_with("ordi", 1000, 100, 0);
    let t = tx("a1", "alice");
    let emitted = handle_mint_operation(mint_of("ordi", Some("101")), &t, &mut index);
    assert!(emitted.is_none());
    assert_eq!(index.tickers.get("ordi").unwrap().get_total_supply(), 0);
    assert_eq!(index.tickers.get("ordi").unwrap().mint_count(), 0);
    let rejected = index.invalid_tx_map.get("a1").unwrap();
    assert_eq!(rejected.reason, "mint amount exceeds limit");
    assert_eq!(rejected.inscription, mint_of("ordi", Some("101")));
}

#[test]
fn mint_over_the_limit_is_rejected_even_when_nothing_is_left() {
    let mut index = index_with("ordi", 100, 100, 0);
    assert!(handle_mint_operation(mint_of("ordi", Some("100")), &tx("a1", "alice"), &mut index)
        .is_some());
    let emitted = handle_mint_operation(mint_of("ordi", Some("101")), &tx("a2", "bob"), &mut index);
    assert!(emitted.is_none());
    assert_eq!(index.invalid_tx_map.get("a2").unwrap().reason, "mint amount exceeds limit");
}

#[test]
fn mint_of_the_limit_itself_is_accepted() {
    let mut index = index_with("ordi", 1000, 100, 0);
    let emitted = handle_mint_operation(mint_of("ordi", Some("100")), &tx("a1", "alice"), &mut index);
    assert_eq!(emitted.unwrap().amount, 100);
}

#[test]
fn mint_of_an_unknown_ticker_is_rejected_and_emits_nothing() {
    let mut index = index_with("ordi", 1000, 100, 0);
    let t = tx("b7", "bob");
    let emitted = handle_mint_operation(mint_of("pepe", Some("1")), &t, &mut index);
    assert!(emitted.is_none());
    let rejected = index.invalid_tx_map.get("b7").unwrap();
    assert_eq!(rejected.reason, "ticker does not exist");
    assert_eq!(rejected.tx_id, "b7");
    assert_eq!(index.tickers.len(), 1);
    assert_eq!(index.tickers.get("ordi").unwrap().get_total_supply(), 0);
}

#[test]
fn ticker_symbols_are_matched_exactly() {
    let mut index = index_with("ordi", 1000, 100, 0);
    let emitted = handle_mint_operation(mint_of("ORDI", Some("1")), &tx("b8", "bob"), &mut index);
    assert!(emitted.is_none());
    assert_eq!(index.invalid_tx_map.get("b8").unwrap().reason, "ticker does not exist");
}

#[test]
fn accepted_mint_emits_a_receive_entry_for_the_owner() {
    let mut index = index_with("ordi", 100_000, 10_000, 2);
    let t = tx("c3", "carol");
    let entry = handle_mint_operation(mint_of("ordi", Some("1.5")), &t, &mut index).unwrap();
    assert_eq!(entry.address, "carol");
    assert_eq!(entry.tick, "ordi");
    assert_eq!(entry.block_height, 790_000);
    assert_eq!(entry.amount, 150);
    assert_eq!(entry.entry_type, UserBalanceEntryType::Receive);
    let ticker = index.tickers.get("ordi").unwrap();
    assert_eq!(ticker.get_total_supply(), 150);
    assert_eq!(ticker.mint_count(), 1);
    let recorded = ticker.mint_at(0);
    assert!(recorded.is_valid());
    assert_eq!(recorded.get_amount(), 150);
    assert_eq!(recorded.get_brc20_tx().get_txid(), "c3");
    assert_eq!(index.invalid_tx_map.len(), 0);
}

#[test]
fn mint_without_an_amount_credits_zero() {
    let mut index = index_with("ordi", 1000, 100, 0);
    let entry = handle_mint_operation(mint_of("ordi", None), &tx("c4", "carol"), &mut index);
    assert_eq!(entry.unwrap().amount, 0);
    assert_eq!(index.tickers.get("ordi").unwrap().mint_count(), 1);
}

#[test]
fn crossing_mint_is_credited_with_what_is_left() {
    let mut index = index_with("ordi", 250, 100, 0);
    for (i, expected) in [100u128, 100, 50, 0, 0].iter().enumerate() {
        let t = tx(&format!("t{}", i), "dave");
        let entry = handle_mint_operation(mint_of("ordi", Some("100")), &t, &mut index).unwrap();
        assert_eq!(entry.amount, *expected);
        assert!(index.tickers.get("ordi").unwrap().get_total_supply() <= 250);
    }
    let ticker = index.tickers.get("ordi").unwrap();
    assert_eq!(ticker.get_total_supply(), 250);
    assert_eq!(ticker.recompute_total_minted(), 250);
    assert_eq!(ticker.mint_count(), 5);
}

#[test]
fn unreadable_amounts_are_rejected_with_the_reason_of_the_parser() {
    let mut index = index_with("ordi", 1000, 100, 1);
    let cases = [
        ("m1", "abc", "malformed amount"),
        ("m2", "1.25", "too many digits to the right of the decimal point"),
        ("m3", "340282366920938463463374607431768211456", "amount is too large"),
        ("m4", "-1", "malformed amount"),
    ];
    for (id, amt, reason) in cases {
        let emitted = handle_mint_operation(mint_of("ordi", Some(amt)), &tx(id, "erin"), &mut index);
        assert!(emitted.is_none());
        assert_eq!(index.invalid_tx_map.get(id).unwrap().reason, reason);
    }
    assert_eq!(index.tickers.get("ordi").unwrap().get_total_supply(), 0);
    assert_eq!(index.invalid_tx_map.len(), 4);
}

#[test]
fn decision_names_each_rejection() {
    let ticker = Brc20Ticker::new("ordi".to_string(), 1000, 100, 0);
    assert_eq!(decide_mint(None, &Some("1".to_string())), Err(MintRejection::TickerMissing));
    assert_eq!(
        decide_mint(Some(&ticker), &Some("x".to_string())),
        Err(MintRejection::Amount(AmountError::Malformed))
    );
    assert_eq!(
        decide_mint(Some(&ticker), &Some("1.5".to_string())),
        Err(MintRejection::Amount(AmountError::TooManyDecimals))
    );
    assert_eq!(
        decide_mint(Some(&ticker), &Some("999999999999999999999999999999999999999999".to_string())),
        Err(MintRejection::Amount(AmountError::Overflow))
    );
    assert_eq!(decide_mint(Some(&ticker), &Some("101".to_string())), Err(MintRejection::OverLimit));
    assert_eq!(decide_mint(Some(&ticker), &Some("100".to_string())), Ok(100));
    assert_eq!(decide_mint(Some(&ticker), &None), Ok(0));
}

#[test]
fn rejection_reasons_are_worded() {
    assert_eq!(MintRejection::TickerMissing.reason(), "ticker does not exist");
    assert_eq!(MintRejection::OverLimit.reason(), "mint amount exceeds limit");
    assert_eq!(MintRejection::Amount(AmountError::Malformed).reason(), "malformed amount");
    assert_eq!(
        MintRejection::Amount(AmountError::TooManyDecimals).reason(),
        "too many digits to the right of the decimal point"
    );
    assert_eq!(MintRejection::Amount(AmountError::Overflow).reason(), "amount is too large");
}

#[test]
fn validate_mint_takes_the_transaction_it_is_given() {
    let mut tickers = TickerRegistry::new();
    let mut invalid = InvalidBrc20TxMap::new();
    assert!(tickers.register(Brc20Ticker::new("ordi".to_string(), 1000, 100, 0)).is_ok());
    let first = tx("f1", "frank");
    let second = tx("f2", "grace");
    let validated = Brc20MintTx::new(&first, mint_of("ordi", Some("40")))
        .validate_mint(&second, &mut tickers, &mut invalid);
    assert!(validated.is_valid());
    assert_eq!(validated.get_amount(), 40);
    assert_eq!(validated.get_brc20_tx().get_txid(), "f2");
    assert_eq!(validated.get_brc20_tx().get_owner(), "grace");
    let record = validated.record().unwrap();
    assert_eq!(record.tx_id, "f2");
    assert_eq!(record.owner, "grace");
    assert_eq!(record.tick, "ordi");
    assert_eq!(record.amount, 40);
    assert_eq!(record.block_height, 790_000);
    assert_eq!(tickers.get("ordi").unwrap().get_total_supply(), 40);
    assert_eq!(invalid.len(), 0);
}

#[test]
fn rejected_mint_is_returned_not_valid() {
    let mut tickers = TickerRegistry::new();
    let mut invalid = InvalidBrc20TxMap::new();
    let t = tx("f3", "frank");
    let validated =
        Brc20MintTx::new(&t, mint_of("ordi", Some("40"))).validate_mint(&t, &mut tickers, &mut invalid);
    assert!(!validated.is_valid());
    assert_eq!(validated.get_amount(), 0);
    assert!(invalid.contains("f3"));
    assert_eq!(tickers.len(), 0);
}
