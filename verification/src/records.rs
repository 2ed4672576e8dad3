//! The records of the index as stored documents.
//!
//! Each kind of record has its keys. Texts are stored as text, block heights
//! as 64-bit integers, amounts and balances as the text of their decimal
//! digits.

use vstd::prelude::*;
use mongodb::bson::Document;
use crate::brc20_ticker::{Brc20Ticker, TickerView};
use crate::brc20_tx::{InvalidBrc20Tx, InvalidTxView};
use crate::document::{
    amount_field, amount_value, balance_field, balance_value, document_fields, empty_document,
    get_amount, get_balance, get_i64, get_text, int64_field, lemma_amount_read_back,
    lemma_balance_read_back, no_fields, set_amount, set_balance, set_i32, set_i64, set_text,
    text_field, FieldValue,
};
use crate::inscription::{clone_text, InscriptionView};
use crate::mint::{MintRecord, MintRecordView};
use crate::user_balance::{
    consistent, representable, Balance, EntryView, UserBalance, UserBalanceEntry,
    UserBalanceEntryType, UserBalanceView,
};

verus! {

/// The keys of the records are distinct texts.
pub proof fn lemma_keys_differ()
    ensures
        "address"@.len() == 7,
        "tick"@.len() == 4,
        "block_height"@.len() == 12,
        "amt"@.len() == 3,
        "entry_type"@.len() == 10,
        "available_balance"@.len() == 17,
        "transferable_balance"@.len() == 20,
        "overall_balance"@.len() == 15,
        "tx_id"@.len() == 5 && "tx_id"@[0] == 't',
        "owner"@.len() == 5 && "owner"@[0] == 'o',
{
    reveal_strlit("address");
    reveal_strlit("tick");
    reveal_strlit("block_height");
    reveal_strlit("amt");
    reveal_strlit("entry_type");
    reveal_strlit("available_balance");
    reveal_strlit("transferable_balance");
    reveal_strlit("overall_balance");
    reveal_strlit("tx_id");
    reveal_strlit("owner");
}

/// The fields of a stored balance entry.
pub open spec fn entry_fields(e: EntryView) -> Map<Seq<char>, FieldValue> {
    no_fields().insert("address"@, FieldValue::Text(e.address)).insert(
        "tick"@,
        FieldValue::Text(e.tick),
    ).insert("block_height"@, FieldValue::Int64(e.block_height as i64)).insert(
        "amt"@,
        amount_value(e.amount),
    ).insert("entry_type"@, FieldValue::Text(e.entry_type.tag_text()))
}

/// The balance entry that fields hold: each of its keys is there with a
/// value of its kind, the block height is not negative, and the tag is that
/// of a kind of entry.
pub open spec fn entry_from_fields(fields: Map<Seq<char>, FieldValue>) -> Option<EntryView> {
    match (
        text_field(fields, "address"@),
        text_field(fields, "tick"@),
        int64_field(fields, "block_height"@),
        amount_field(fields, "amt"@),
        text_field(fields, "entry_type"@),
    ) {
        (Some(address), Some(tick), Some(height), Some(amount), Some(tag)) => {
            match UserBalanceEntryType::of_tag(tag) {
                Some(entry_type) => if height >= 0 {
                    Some(
                        EntryView {
                            address,
                            tick,
                            block_height: height as u64,
                            amount,
                            entry_type,
                        },
                    )
                } else {
                    None
                },
                None => None,
            }
        },
        _ => None,
    }
}

/// The document of a balance entry; `None` where its block height does not
/// fit in a signed 64-bit integer.
pub fn entry_to_document(entry: &UserBalanceEntry) -> (r: Option<Document>)
    ensures
        r.is_some() == (entry@.block_height <= i64::MAX),
        r matches Some(doc) ==> document_fields(doc) == entry_fields(entry@),
{
    if entry.block_height > i64::MAX as u64 {
        return None;
    }
    let mut doc = empty_document();
    set_text(&mut doc, "address", entry.address.clone());
    set_text(&mut doc, "tick", entry.tick.clone());
    set_i64(&mut doc, "block_height", entry.block_height as i64);
    set_amount(&mut doc, "amt", entry.amount);
    set_text(&mut doc, "entry_type", entry.entry_type.tag());
    Some(doc)
}

/// The balance entry that a document holds, if it holds one.
pub fn entry_from_document(doc: &Document) -> (r: Option<UserBalanceEntry>)
    ensures
        match entry_from_fields(document_fields(*doc)) {
            Some(e) => r matches Some(entry) && entry@ == e,
            None => r.is_none(),
        },
{
    let address = get_text(doc, "address");
    let tick = get_text(doc, "tick");
    let height = get_i64(doc, "block_height");
    let amount = get_amount(doc, "amt");
    let tag = get_text(doc, "entry_type");
    match (address, tick, height, amount, tag) {
        (Some(address), Some(tick), Some(height), Some(amount), Some(tag)) => {
            match UserBalanceEntryType::from_tag(tag.as_str()) {
                Some(entry_type) => {
                    if height >= 0 {
                        Some(UserBalanceEntry::new(address, tick, height as u64, amount, entry_type))
                    } else {
                        None
                    }
                },
                None => None,
            }
        },
        _ => None,
    }
}

/// A balance entry is read back from its document as it was.
pub proof fn lemma_entry_round_trip(e: EntryView)
    requires
        e.block_height <= i64::MAX,
    ensures
        entry_from_fields(entry_fields(e)) == Some(e),
{
    lemma_keys_differ();
    let fields = entry_fields(e);
    lemma_amount_read_back(fields, "amt"@, e.amount);
    e.entry_type.lemma_tag_round_trip();
}

/// The fields of a stored materialized balance.
pub open spec fn balance_fields(b: UserBalanceView) -> Map<Seq<char>, FieldValue> {
    no_fields().insert("address"@, FieldValue::Text(b.address)).insert(
        "tick"@,
        FieldValue::Text(b.tick),
    ).insert("available_balance"@, balance_value(b.balance.available)).insert(
        "transferable_balance"@,
        balance_value(b.balance.transferable),
    ).insert("overall_balance"@, balance_value(b.balance.overall))
}

/// The materialized balance that fields hold: each of its keys is there
/// with a value of its kind, and the overall balance is the sum of the other
/// two.
pub open spec fn balance_from_fields(fields: Map<Seq<char>, FieldValue>) -> Option<
    UserBalanceView,
> {
    match (
        text_field(fields, "address"@),
        text_field(fields, "tick"@),
        balance_field(fields, "available_balance"@),
        balance_field(fields, "transferable_balance"@),
        balance_field(fields, "overall_balance"@),
    ) {
        (Some(address), Some(tick), Some(available), Some(transferable), Some(overall)) => {
            if overall == available + transferable {
                Some(
                    UserBalanceView {
                        address,
                        tick,
                        balance: Balance {
                            available: available as int,
                            transferable: transferable as int,
                            overall: overall as int,
                        },
                    },
                )
            } else {
                None
            }
        },
        _ => None,
    }
}

/// The document of a materialized balance.
pub fn balance_to_document(balance: &UserBalance) -> (doc: Document)
    ensures
        document_fields(doc) == balance_fields(balance@),
{
    let mut doc = empty_document();
    set_text(&mut doc, "address", balance.get_address().clone());
    set_text(&mut doc, "tick", balance.get_tick().clone());
    set_balance(&mut doc, "available_balance", balance.get_available_balance());
    set_balance(&mut doc, "transferable_balance", balance.get_transferable_balance());
    set_balance(&mut doc, "overall_balance", balance.get_overall_balance());
    doc
}

/// The materialized balance that a document holds, if it holds one.
pub fn balance_from_document(doc: &Document) -> (r: Option<UserBalance>)
    ensures
        match balance_from_fields(document_fields(*doc)) {
            Some(b) => r matches Some(balance) && balance@ == b && balance.wf(),
            None => r.is_none(),
        },
{
    let address = get_text(doc, "address");
    let tick = get_text(doc, "tick");
    let available = get_balance(doc, "available_balance");
    let transferable = get_balance(doc, "transferable_balance");
    let overall = get_balance(doc, "overall_balance");
    match (address, tick, available, transferable, overall) {
        (Some(address), Some(tick), Some(available), Some(transferable), Some(overall)) => {
            UserBalance::from_parts(address, tick, available, transferable, overall)
        },
        _ => None,
    }
}

/// A consistent materialized balance is read back from its document as it
/// was.
pub proof fn lemma_balance_round_trip(b: UserBalanceView)
    requires
        consistent(b.balance),
        representable(b.balance),
    ensures
        balance_from_fields(balance_fields(b)) == Some(b),
{
    lemma_keys_differ();
    let fields = balance_fields(b);
    lemma_balance_read_back(fields, "available_balance"@, b.balance.available as i128);
    lemma_balance_read_back(fields, "transferable_balance"@, b.balance.transferable as i128);
    lemma_balance_read_back(fields, "overall_balance"@, b.balance.overall as i128);
}

/// The fields of a stored balance that an entry of the given kind changes,
/// with their values in `b`: an entry changes two of the three balances.
pub open spec fn changed_fields(b: UserBalanceView, kind: UserBalanceEntryType) -> Map<
    Seq<char>,
    FieldValue,
> {
    match kind {
        UserBalanceEntryType::Receive => no_fields().insert(
            "overall_balance"@,
            balance_value(b.balance.overall),
        ).insert("available_balance"@, balance_value(b.balance.available)),
        UserBalanceEntryType::Send => no_fields().insert(
            "transferable_balance"@,
            balance_value(b.balance.transferable),
        ).insert("overall_balance"@, balance_value(b.balance.overall)),
        UserBalanceEntryType::Inscription => no_fields().insert(
            "transferable_balance"@,
            balance_value(b.balance.transferable),
        ).insert("available_balance"@, balance_value(b.balance.available)),
    }
}

/// The fields to set in the stored document of `balance` after an entry of
/// the given kind was applied to it.
pub fn changed_balance_fields(balance: &UserBalance, kind: UserBalanceEntryType) -> (doc: Document)
    ensures
        document_fields(doc) == changed_fields(balance@, kind),
{
    let mut doc = empty_document();
    match kind {
        UserBalanceEntryType::Receive => {
            set_balance(&mut doc, "overall_balance", balance.get_overall_balance());
            set_balance(&mut doc, "available_balance", balance.get_available_balance());
        },
        UserBalanceEntryType::Send => {
            set_balance(&mut doc, "transferable_balance", balance.get_transferable_balance());
            set_balance(&mut doc, "overall_balance", balance.get_overall_balance());
        },
        UserBalanceEntryType::Inscription => {
            set_balance(&mut doc, "transferable_balance", balance.get_transferable_balance());
            set_balance(&mut doc, "available_balance", balance.get_available_balance());
        },
    }
    doc
}

/// The fields of a stored record of an accepted mint.
pub open spec fn mint_record_fields(m: MintRecordView) -> Map<Seq<char>, FieldValue> {
    no_fields().insert("tx_id"@, FieldValue::Text(m.tx_id)).insert(
        "tick"@,
        FieldValue::Text(m.tick),
    ).insert("owner"@, FieldValue::Text(m.owner)).insert("amt"@, amount_value(m.amount)).insert(
        "block_height"@,
        FieldValue::Int64(m.block_height as i64),
    )
}

/// The record of an accepted mint that fields hold.
pub open spec fn mint_record_from_fields(fields: Map<Seq<char>, FieldValue>) -> Option<
    MintRecordView,
> {
    match (
        text_field(fields, "tx_id"@),
        text_field(fields, "tick"@),
        text_field(fields, "owner"@),
        amount_field(fields, "amt"@),
        int64_field(fields, "block_height"@),
    ) {
        (Some(tx_id), Some(tick), Some(owner), Some(amount), Some(height)) => {
            if height >= 0 {
                Some(MintRecordView { tx_id, tick, owner, amount, block_height: height as u64 })
            } else {
                None
            }
        },
        _ => None,
    }
}

/// The document of the record of an accepted mint; `None` where its block
/// height does not fit in a signed 64-bit integer.
pub fn mint_record_to_document(record: &MintRecord) -> (r: Option<Document>)
    ensures
        r.is_some() == (record@.block_height <= i64::MAX),
        r matches Some(doc) ==> document_fields(doc) == mint_record_fields(record@),
{
    if record.block_height > i64::MAX as u64 {
        return None;
    }
    let mut doc = empty_document();
    set_text(&mut doc, "tx_id", record.tx_id.clone());
    set_text(&mut doc, "tick", record.tick.clone());
    set_text(&mut doc, "owner", record.owner.clone());
    set_amount(&mut doc, "amt", record.amount);
    set_i64(&mut doc, "block_height", record.block_height as i64);
    Some(doc)
}

/// The record of an accepted mint that a document holds, if it holds one.
pub fn mint_record_from_document(doc: &Document) -> (r: Option<MintRecord>)
    ensures
        match mint_record_from_fields(document_fields(*doc)) {
            Some(m) => r matches Some(record) && record@ == m,
            None => r.is_none(),
        },
{
    let tx_id = get_text(doc, "tx_id");
    let tick = get_text(doc, "tick");
    let owner = get_text(doc, "owner");
    let amount = get_amount(doc, "amt");
    let height = get_i64(doc, "block_height");
    match (tx_id, tick, owner, amount, height) {
        (Some(tx_id), Some(tick), Some(owner), Some(amount), Some(height)) => {
            if height >= 0 {
                Some(MintRecord { tx_id, tick, owner, amount, block_height: height as u64 })
            } else {
                None
            }
        },
        _ => None,
    }
}

/// The record of an accepted mint is read back from its document as it was.
pub proof fn lemma_mint_record_round_trip(m: MintRecordView)
    requires
        m.block_height <= i64::MAX,
    ensures
        mint_record_from_fields(mint_record_fields(m)) == Some(m),
{
    lemma_keys_differ();
    let fields = mint_record_fields(m);
    lemma_amount_read_back(fields, "amt"@, m.amount);
}

/// The fields of a stored ticker: the parameters of its deploy and its
/// total minted.
pub open spec fn ticker_fields(t: TickerView) -> Map<Seq<char>, FieldValue> {
    no_fields().insert("tick"@, FieldValue::Text(t.tick)).insert(
        "max_supply"@,
        amount_value(t.max_supply),
    ).insert("limit"@, amount_value(t.limit)).insert(
        "decimals"@,
        FieldValue::Int32(t.decimals as i32),
    ).insert("total_minted"@, amount_value(t.total_minted))
}

/// The document of a ticker.
pub fn ticker_to_document(ticker: &Brc20Ticker) -> (doc: Document)
    ensures
        document_fields(doc) == ticker_fields(ticker@),
{
    let mut doc = empty_document();
    set_text(&mut doc, "tick", ticker.get_tick().clone());
    set_amount(&mut doc, "max_supply", ticker.get_max_supply());
    set_amount(&mut doc, "limit", ticker.get_limit());
    set_i32(&mut doc, "decimals", ticker.get_decimals() as i32);
    set_amount(&mut doc, "total_minted", ticker.get_total_supply());
    doc
}

/// The fields with a text under `key` if there is one.
pub open spec fn with_text(
    fields: Map<Seq<char>, FieldValue>,
    key: Seq<char>,
    text: Option<Seq<char>>,
) -> Map<Seq<char>, FieldValue> {
    match text {
        Some(s) => fields.insert(key, FieldValue::Text(s)),
        None => fields,
    }
}

/// The fields of a stored rejected inscription: the transaction id, the
/// reason, and the inscription as it was inscribed.
pub open spec fn invalid_tx_fields(t: InvalidTxView) -> Map<Seq<char>, FieldValue> {
    let required = no_fields().insert("tx_id"@, FieldValue::Text(t.tx_id)).insert(
        "reason"@,
        FieldValue::Text(t.reason),
    ).insert("p"@, FieldValue::Text(t.inscription.p)).insert(
        "op"@,
        FieldValue::Text(t.inscription.op),
    ).insert("tick"@, FieldValue::Text(t.inscription.tick));
    with_text(
        with_text(
            with_text(with_text(required, "amt"@, t.inscription.amt), "max"@, t.inscription.max),
            "lim"@,
            t.inscription.lim,
        ),
        "dec"@,
        t.inscription.dec,
    )
}

/// Puts a text under `key` if there is one.
fn set_optional_text(doc: &mut Document, key: &str, text: &Option<String>)
    ensures
        document_fields(*final(doc)) == with_text(
            document_fields(*old(doc)),
            key@,
            crate::inscription::text_view(*text),
        ),
{
    match clone_text(text) {
        Some(s) => {
            set_text(doc, key, s);
        },
        None => {},
    }
}

/// The document of a rejected inscription.
pub fn invalid_tx_to_document(invalid_tx: &InvalidBrc20Tx) -> (doc: Document)
    ensures
        document_fields(doc) == invalid_tx_fields(invalid_tx@),
{
    let mut doc = empty_document();
    set_text(&mut doc, "tx_id", invalid_tx.tx_id.clone());
    set_text(&mut doc, "reason", invalid_tx.reason.clone());
    set_text(&mut doc, "p", invalid_tx.inscription.p.clone());
    set_text(&mut doc, "op", invalid_tx.inscription.op.clone());
    set_text(&mut doc, "tick", invalid_tx.inscription.tick.clone());
    set_optional_text(&mut doc, "amt", &invalid_tx.inscription.amt);
    set_optional_text(&mut doc, "max", &invalid_tx.inscription.max);
    set_optional_text(&mut doc, "lim", &invalid_tx.inscription.lim);
    set_optional_text(&mut doc, "dec", &invalid_tx.inscription.dec);
    doc
}

/// The height of a completed block that a checkpoint document holds.
pub fn completed_block_height(doc: &Document) -> (r: Option<i64>)
    ensures
        r == int64_field(document_fields(*doc), "block_height"@),
{
    get_i64(doc, "block_height")
}

/// The checkpoint document of a completed block.
pub fn completed_block_document(block_height: i64) -> (doc: Document)
    ensures
        document_fields(doc) == no_fields().insert(
            "block_height"@,
            FieldValue::Int64(block_height),
        ),
        int64_field(document_fields(doc), "block_height"@) == Some(block_height),
{
    let mut doc = empty_document();
    set_i64(&mut doc, "block_height", block_height);
    doc
}

} // verus!
