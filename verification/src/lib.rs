//! Validation and accounting for BRC-20 inscriptions.
//!
//! Every inscribed operation is judged against the protocol rules and the
//! state indexed so far; accepted operations change the ticker registry and
//! emit balance entries, rejected ones are recorded with a reason. Amounts are
//! fixed-point integers scaled by the ticker's declared number of decimals.
//!
//! - [`amount`]: decimal strings and scaled integers.
//! - [`inscription`], [`brc20_tx`]: what is inscribed, the transaction that
//!   carries it, and the ledger of rejected inscriptions.
//! - [`brc20_ticker`]: deployed tickers and their registry.
//! - [`mint`]: the rule of minting and its validator.
//! - [`index`]: the state that the validators work on.
//! - [`user_balance`], [`balance_ledger`]: balance entries, the balances
//!   they add up to, and the rebuild of all balances from the entries.
//! - [`reconcile`]: totals computed anew from mint records.
//! - [`document`], [`records`]: the records as stored documents.
//! - [`table`]: the keyed collection that the registries are built on.

pub mod amount;
pub mod balance_ledger;
pub mod brc20_ticker;
pub mod brc20_tx;
pub mod document;
pub mod index;
pub mod inscription;
pub mod mint;
pub mod reconcile;
pub mod records;
pub mod table;
pub mod user_balance;
