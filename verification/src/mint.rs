//! Validation of mint inscriptions.

use vstd::prelude::*;
use crate::amount::{parse_amount, parsed_amount, AmountError};
use crate::brc20_ticker::{ticker_with_mint, Brc20Ticker, TickerRegistry, TickerView};
use crate::brc20_tx::{Brc20Tx, Brc20TxView, InvalidBrc20Tx, InvalidBrc20TxMap, InvalidTxView};
use crate::index::Brc20Index;
use crate::inscription::{Brc20Inscription, InscriptionView};
use crate::user_balance::{EntryView, UserBalanceEntry, UserBalanceEntryType};

verus! {

/// A mint inscription together with the outcome of its validation.
pub struct Brc20MintTx {
    brc20_tx: Brc20Tx,
    mint: Brc20Inscription,
    amount: u128,
    is_valid: bool,
}

/// A [`Brc20MintTx`] as plain values.
pub struct MintTxView {
    pub brc20_tx: Brc20TxView,
    pub mint: InscriptionView,
    pub amount: u128,
    pub is_valid: bool,
}

impl View for Brc20MintTx {
    type V = MintTxView;

    closed spec fn view(&self) -> MintTxView {
        MintTxView {
            brc20_tx: self.brc20_tx@,
            mint: self.mint@,
            amount: self.amount,
            is_valid: self.is_valid,
        }
    }
}

impl Clone for Brc20MintTx {
    fn clone(&self) -> (r: Self)
        ensures
            r == *self,
    {
        Brc20MintTx {
            brc20_tx: self.brc20_tx.clone(),
            mint: self.mint.clone(),
            amount: self.amount,
            is_valid: self.is_valid,
        }
    }
}

/// What is kept of an accepted mint: who minted how much of which ticker,
/// in which transaction and block.
#[derive(Debug, PartialEq, Eq)]
pub struct MintRecord {
    pub tx_id: String,
    pub tick: String,
    pub owner: String,
    /// The amount credited, which may be less than the amount asked for.
    pub amount: u128,
    pub block_height: u64,
}

/// A [`MintRecord`] as plain values.
pub struct MintRecordView {
    pub tx_id: Seq<char>,
    pub tick: Seq<char>,
    pub owner: Seq<char>,
    pub amount: u128,
    pub block_height: u64,
}

impl View for MintRecord {
    type V = MintRecordView;

    open spec fn view(&self) -> MintRecordView {
        MintRecordView {
            tx_id: self.tx_id@,
            tick: self.tick@,
            owner: self.owner@,
            amount: self.amount,
            block_height: self.block_height,
        }
    }
}

/// The record of a mint.
pub open spec fn record_of(mint: MintTxView) -> MintRecordView {
    MintRecordView {
        tx_id: mint.brc20_tx.tx_id,
        tick: mint.mint.tick,
        owner: mint.brc20_tx.owner,
        amount: mint.amount,
        block_height: mint.brc20_tx.block_height,
    }
}

/// Why a mint is rejected.
#[derive(Debug, Clone, Copy, PartialEq, Eq, Structural)]
pub enum MintRejection {
    /// No ticker with the symbol of the mint is deployed.
    TickerMissing,
    /// The amount of the mint cannot be read.
    Amount(AmountError),
    /// The amount of the mint is greater than the per-mint limit.
    OverLimit,
}

impl MintRejection {
    /// The reason as it is recorded with the rejected inscription.
    pub open spec fn reason_text(self) -> Seq<char> {
        match self {
            MintRejection::TickerMissing => "ticker does not exist"@,
            MintRejection::Amount(AmountError::Malformed) => "malformed amount"@,
            MintRejection::Amount(AmountError::TooManyDecimals) => "too many digits to the right of the decimal point"@,
            MintRejection::Amount(AmountError::Overflow) => "amount is too large"@,
            MintRejection::OverLimit => "mint amount exceeds limit"@,
        }
    }

    pub fn reason(&self) -> (r: String)
        ensures
            r@ == self.reason_text(),
    {
        match self {
            MintRejection::TickerMissing => "ticker does not exist".to_owned(),
            MintRejection::Amount(AmountError::Malformed) => "malformed amount".to_owned(),
            MintRejection::Amount(AmountError::TooManyDecimals) => "too many digits to the right of the decimal point".to_owned(),
            MintRejection::Amount(AmountError::Overflow) => "amount is too large".to_owned(),
            MintRejection::OverLimit => "mint amount exceeds limit".to_owned(),
        }
    }
}

/// The amount that a mint asks for: what its amount string denotes for a
/// ticker with `decimals` decimals, and zero if it has no amount string.
pub open spec fn requested_amount(amt: Option<Seq<char>>, decimals: u8) -> Result<
    u128,
    AmountError,
> {
    match amt {
        Some(s) => parsed_amount(s, decimals as nat),
        None => Ok(0),
    }
}

/// The rule of minting. A mint of a deployed ticker whose amount can be read
/// and is within the per-mint limit is accepted; it is credited with the
/// amount it asks for, or with what is left under the maximum supply where
/// that is less.
pub open spec fn mint_decision(ticker: Option<TickerView>, amt: Option<Seq<char>>) -> Result<
    u128,
    MintRejection,
> {
    match ticker {
        None => Err(MintRejection::TickerMissing),
        Some(t) => match requested_amount(amt, t.decimals) {
            Err(e) => Err(MintRejection::Amount(e)),
            Ok(a) => if a > t.limit {
                Err(MintRejection::OverLimit)
            } else if t.total_minted + a > t.max_supply {
                Ok((t.max_supply - t.total_minted) as u128)
            } else {
                Ok(a)
            },
        },
    }
}

/// What a mint with the amount string `amt` is credited with against the
/// ticker `t`: nothing where it is rejected.
pub open spec fn credited_by(t: TickerView, amt: Option<Seq<char>>) -> nat {
    match mint_decision(Some(t), amt) {
        Ok(credited) => credited as nat,
        Err(_) => 0,
    }
}

/// The total minted of the ticker `t` after mints with the amount strings
/// `requests` are decided against it one after the other, each against the
/// total that the mints before it left. It is the total of `t` and of what
/// the mints are credited with.
pub open spec fn minted_after(t: TickerView, requests: Seq<Option<Seq<char>>>) -> nat
    decreases requests.len(),
{
    if requests.len() == 0 {
        t.total_minted as nat
    } else {
        let before = minted_after(t, requests.drop_last());
        before + credited_by(TickerView { total_minted: before as u128, ..t }, requests.last())
    }
}

/// Whatever mints are asked of a ticker, in whatever order, what is minted
/// of it never exceeds its maximum supply.
pub proof fn lemma_cap_enforced(t: TickerView, requests: Seq<Option<Seq<char>>>)
    requires
        t.total_minted <= t.max_supply,
    ensures
        t.total_minted <= minted_after(t, requests) <= t.max_supply,
    decreases requests.len(),
{
    if requests.len() != 0 {
        lemma_cap_enforced(t, requests.drop_last());
    }
}

/// A mint within the per-mint limit that would take the total over the
/// maximum supply is not rejected: it is credited with exactly what is left,
/// which may be nothing.
pub proof fn lemma_crossing_mint_fills_cap(t: TickerView, amt: Option<Seq<char>>, asked: u128)
    requires
        t.total_minted <= t.max_supply,
        requested_amount(amt, t.decimals) == Ok::<u128, AmountError>(asked),
        asked <= t.limit,
        t.total_minted + asked > t.max_supply,
    ensures
        mint_decision(Some(t), amt) == Ok::<u128, MintRejection>(
            (t.max_supply - t.total_minted) as u128,
        ),
        t.total_minted + credited_by(t, amt) == t.max_supply,
{
}

/// A mint that asks for more than the per-mint limit is rejected, whatever
/// is left of the supply, with the reason "mint amount exceeds limit".
pub proof fn lemma_over_limit_rejected(t: TickerView, amt: Option<Seq<char>>, asked: u128)
    requires
        requested_amount(amt, t.decimals) == Ok::<u128, AmountError>(asked),
        asked > t.limit,
    ensures
        mint_decision(Some(t), amt) == Err::<u128, MintRejection>(MintRejection::OverLimit),
        MintRejection::OverLimit.reason_text() == "mint amount exceeds limit"@,
        credited_by(t, amt) == 0,
{
}

/// A mint of a ticker that is not deployed is rejected, whatever it asks
/// for, with the reason "ticker does not exist".
pub proof fn lemma_unknown_ticker_rejected(
    tickers: Map<Seq<char>, TickerView>,
    tick: Seq<char>,
    amt: Option<Seq<char>>,
)
    requires
        !tickers.contains_key(tick),
    ensures
        mint_decision(ticker_of(tickers, tick), amt) == Err::<u128, MintRejection>(
            MintRejection::TickerMissing,
        ),
        MintRejection::TickerMissing.reason_text() == "ticker does not exist"@,
{
}

/// The recorded transaction ids after a rejection of the transaction
/// `tx_id`: it comes last unless it was recorded before.
pub open spec fn recorded_ids(ids: Seq<Seq<char>>, known: bool, tx_id: Seq<char>) -> Seq<
    Seq<char>,
> {
    if known {
        ids
    } else {
        ids.push(tx_id)
    }
}

/// The ticker that a mint names, if it is deployed.
pub open spec fn ticker_of(tickers: Map<Seq<char>, TickerView>, tick: Seq<char>) -> Option<
    TickerView,
> {
    if tickers.contains_key(tick) {
        Some(tickers[tick])
    } else {
        None
    }
}

/// Decides a mint with the amount string `amt` against the ticker it names:
/// the amount to credit, or the reason to reject it.
pub fn decide_mint(ticker: Option<&Brc20Ticker>, amt: &Option<String>) -> (r: Result<
    u128,
    MintRejection,
>)
    requires
        ticker matches Some(t) ==> t.wf(),
    ensures
        r == mint_decision(
            match ticker {
                Some(t) => Some(t@),
                None => None,
            },
            match *amt {
                Some(s) => Some(s@),
                None => None,
            },
        ),
{
    match ticker {
        None => Err(MintRejection::TickerMissing),
        Some(t) => {
            let requested: Result<u128, AmountError> = match amt {
                Some(s) => parse_amount(s.as_str(), t.get_decimals()),
                None => Ok(0),
            };
            match requested {
                Err(e) => Err(MintRejection::Amount(e)),
                Ok(a) => {
                    let remaining: u128 = t.get_max_supply() - t.get_total_supply();
                    if a > t.get_limit() {
                        Err(MintRejection::OverLimit)
                    } else if a > remaining {
                        Ok(remaining)
                    } else {
                        Ok(a)
                    }
                },
            }
        },
    }
}

impl Brc20MintTx {
    /// A mint that is not validated yet: it credits nothing and is not valid.
    pub fn new(brc20_tx: &Brc20Tx, mint: Brc20Inscription) -> (r: Self)
        ensures
            r@ == (MintTxView { brc20_tx: brc20_tx@, mint: mint@, amount: 0, is_valid: false }),
    {
        Brc20MintTx { brc20_tx: brc20_tx.clone(), mint, amount: 0, is_valid: false }
    }

    /// The record of the mint, if it was accepted.
    pub fn record(&self) -> (r: Option<MintRecord>)
        ensures
            r.is_some() == self@.is_valid,
            r matches Some(record) ==> record@ == record_of(self@),
    {
        if self.is_valid {
            Some(
                MintRecord {
                    tx_id: self.brc20_tx.get_txid().clone(),
                    tick: self.mint.tick.clone(),
                    owner: self.brc20_tx.get_owner().clone(),
                    amount: self.amount,
                    block_height: self.brc20_tx.get_block_height(),
                },
            )
        } else {
            None
        }
    }

    /// The amount credited; zero unless the mint is valid.
    pub fn get_amount(&self) -> (r: u128)
        ensures
            r == self@.amount,
    {
        self.amount
    }

    pub fn is_valid(&self) -> (r: bool)
        ensures
            r == self@.is_valid,
    {
        self.is_valid
    }

    pub fn get_mint(&self) -> (r: &Brc20Inscription)
        ensures
            r@ == self@.mint,
    {
        &self.mint
    }

    pub fn get_brc20_tx(&self) -> (r: &Brc20Tx)
        ensures
            r@ == self@.brc20_tx,
    {
        &self.brc20_tx
    }

    /// Validates the mint inscription of `self` as carried by `brc20_tx`.
    ///
    /// An accepted mint is recorded with its ticker, whose total grows by the
    /// amount credited; the rejected-inscription ledger is not touched. A
    /// rejected mint is recorded in that ledger with the reason; the tickers
    /// are not touched.
    pub fn validate_mint(
        self,
        brc20_tx: &Brc20Tx,
        ticker_map: &mut TickerRegistry,
        invalid_tx_map: &mut InvalidBrc20TxMap,
    ) -> (r: Brc20MintTx)
        requires
            old(ticker_map).wf(),
            old(invalid_tx_map).wf(),
        ensures
            final(ticker_map).wf(),
            final(invalid_tx_map).wf(),
            final(ticker_map).symbols() == old(ticker_map).symbols(),
            r@.brc20_tx == brc20_tx@,
            r@.mint == self@.mint,
            match mint_decision(ticker_of(old(ticker_map)@, self@.mint.tick), self@.mint.amt) {
                Ok(credited) => {
                    &&& r@.is_valid
                    &&& r@.amount == credited
                    &&& final(ticker_map)@ == old(ticker_map)@.insert(
                        self@.mint.tick,
                        ticker_with_mint(old(ticker_map)@[self@.mint.tick], r@),
                    )
                    &&& final(invalid_tx_map)@ == old(invalid_tx_map)@
                    &&& final(invalid_tx_map).tx_ids() == old(invalid_tx_map).tx_ids()
                },
                Err(rejection) => {
                    &&& !r@.is_valid
                    &&& r@.amount == 0
                    &&& final(ticker_map)@ == old(ticker_map)@
                    &&& final(invalid_tx_map)@ == old(invalid_tx_map)@.insert(
                        brc20_tx@.tx_id,
                        InvalidTxView {
                            tx_id: brc20_tx@.tx_id,
                            inscription: self@.mint,
                            reason: rejection.reason_text(),
                        },
                    )
                    &&& final(invalid_tx_map).tx_ids() == recorded_ids(
                        old(invalid_tx_map).tx_ids(),
                        old(invalid_tx_map)@.contains_key(brc20_tx@.tx_id),
                        brc20_tx@.tx_id,
                    )
                },
            },
    {
        let mut brc20_mint_tx = Brc20MintTx::new(brc20_tx, self.mint);
        let decision = decide_mint(
            ticker_map.get(brc20_mint_tx.mint.tick.as_str()),
            &brc20_mint_tx.mint.amt,
        );
        match decision {
            Ok(credited) => {
                brc20_mint_tx.amount = credited;
                brc20_mint_tx.is_valid = true;
                ticker_map.record_mint(brc20_mint_tx.clone());
            },
            Err(rejection) => {
                let invalid_tx = InvalidBrc20Tx::new(
                    brc20_mint_tx.brc20_tx.get_txid().clone(),
                    brc20_mint_tx.mint.clone(),
                    rejection.reason(),
                );
                invalid_tx_map.add_invalid_tx(invalid_tx);
            },
        }
        brc20_mint_tx
    }
}

/// The balance entry that an accepted mint emits: its owner receives what
/// the mint credits.
pub open spec fn mint_entry(tx: Brc20TxView, tick: Seq<char>, credited: u128) -> EntryView {
    EntryView {
        address: tx.owner,
        tick,
        block_height: tx.block_height,
        amount: credited,
        entry_type: UserBalanceEntryType::Receive,
    }
}

/// Handles one mint inscription: validates it against the index, and hands
/// back the balance entry that it emits.
///
/// An accepted mint is recorded with its ticker and emits the entry by which
/// the owner of the transaction receives the amount credited. A rejected mint
/// is recorded with its reason, changes no ticker and emits nothing.
pub fn handle_mint_operation(
    inscription: Brc20Inscription,
    brc20_tx: &Brc20Tx,
    brc20_index: &mut Brc20Index,
) -> (r: Option<UserBalanceEntry>)
    requires
        old(brc20_index).wf(),
    ensures
        final(brc20_index).wf(),
        final(brc20_index).tickers.symbols() == old(brc20_index).tickers.symbols(),
        match mint_decision(
            ticker_of(old(brc20_index).tickers@, inscription@.tick),
            inscription@.amt,
        ) {
            Ok(credited) => {
                &&& r matches Some(entry)
                &&& entry@ == mint_entry(brc20_tx@, inscription@.tick, credited)
                &&& final(brc20_index).tickers@ == old(brc20_index).tickers@.insert(
                    inscription@.tick,
                    ticker_with_mint(
                        old(brc20_index).tickers@[inscription@.tick],
                        MintTxView {
                            brc20_tx: brc20_tx@,
                            mint: inscription@,
                            amount: credited,
                            is_valid: true,
                        },
                    ),
                )
                &&& final(brc20_index).invalid_tx_map@ == old(brc20_index).invalid_tx_map@
                &&& final(brc20_index).invalid_tx_map.tx_ids() == old(
                    brc20_index,
                ).invalid_tx_map.tx_ids()
            },
            Err(rejection) => {
                &&& r.is_none()
                &&& final(brc20_index).tickers@ == old(brc20_index).tickers@
                &&& final(brc20_index).invalid_tx_map@ == old(brc20_index).invalid_tx_map@.insert(
                    brc20_tx@.tx_id,
                    InvalidTxView {
                        tx_id: brc20_tx@.tx_id,
                        inscription: inscription@,
                        reason: rejection.reason_text(),
                    },
                )
                &&& final(brc20_index).invalid_tx_map.tx_ids() == recorded_ids(
                    old(brc20_index).invalid_tx_map.tx_ids(),
                    old(brc20_index).invalid_tx_map@.contains_key(brc20_tx@.tx_id),
                    brc20_tx@.tx_id,
                )
            },
        },
{
    let validated_mint_tx = Brc20MintTx::new(brc20_tx, inscription).validate_mint(
        brc20_tx,
        &mut brc20_index.tickers,
        &mut brc20_index.invalid_tx_map,
    );
    if validated_mint_tx.is_valid() {
        Some(
            UserBalanceEntry::new(
                validated_mint_tx.get_brc20_tx().get_owner().clone(),
                validated_mint_tx.get_mint().tick.clone(),
                validated_mint_tx.get_brc20_tx().get_block_height(),
                validated_mint_tx.get_amount(),
                UserBalanceEntryType::Receive,
            ),
        )
    } else {
        None
    }
}

} // verus!
