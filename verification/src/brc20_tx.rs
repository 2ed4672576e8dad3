//! The transaction that carries an inscription, and the ledger of rejected
//! inscriptions.

use vstd::prelude::*;
use crate::inscription::{Brc20Inscription, InscriptionView};
use crate::table::{keys_distinct, StringTable};

verus! {

/// The base-ledger transaction that carries an inscription.
#[derive(Debug, PartialEq, Eq)]
pub struct Brc20Tx {
    tx_id: String,
    owner: String,
    block_height: u64,
}

/// A [`Brc20Tx`] as plain values.
pub struct Brc20TxView {
    pub tx_id: Seq<char>,
    pub owner: Seq<char>,
    pub block_height: u64,
}

impl View for Brc20Tx {
    type V = Brc20TxView;

    closed spec fn view(&self) -> Brc20TxView {
        Brc20TxView { tx_id: self.tx_id@, owner: self.owner@, block_height: self.block_height }
    }
}

impl Clone for Brc20Tx {
    fn clone(&self) -> (r: Self)
        ensures
            r == *self,
    {
        Brc20Tx {
            tx_id: self.tx_id.clone(),
            owner: self.owner.clone(),
            block_height: self.block_height,
        }
    }
}

impl Brc20Tx {
    pub fn new(tx_id: String, owner: String, block_height: u64) -> (r: Self)
        ensures
            r@ == (Brc20TxView { tx_id: tx_id@, owner: owner@, block_height }),
    {
        Brc20Tx { tx_id, owner, block_height }
    }

    pub fn get_txid(&self) -> (r: &String)
        ensures
            r@ == self@.tx_id,
    {
        &self.tx_id
    }

    pub fn get_owner(&self) -> (r: &String)
        ensures
            r@ == self@.owner,
    {
        &self.owner
    }

    pub fn get_block_height(&self) -> (r: u64)
        ensures
            r == self@.block_height,
    {
        self.block_height
    }
}

/// A rejected inscription with the reason of its rejection.
#[derive(Debug, PartialEq, Eq)]
pub struct InvalidBrc20Tx {
    pub tx_id: String,
    pub inscription: Brc20Inscription,
    pub reason: String,
}

/// An [`InvalidBrc20Tx`] as plain values.
pub struct InvalidTxView {
    pub tx_id: Seq<char>,
    pub inscription: InscriptionView,
    pub reason: Seq<char>,
}

impl View for InvalidBrc20Tx {
    type V = InvalidTxView;

    open spec fn view(&self) -> InvalidTxView {
        InvalidTxView { tx_id: self.tx_id@, inscription: self.inscription@, reason: self.reason@ }
    }
}

impl InvalidBrc20Tx {
    pub fn new(tx_id: String, inscription: Brc20Inscription, reason: String) -> (r: Self)
        ensures
            r@ == (InvalidTxView { tx_id: tx_id@, inscription: inscription@, reason: reason@ }),
    {
        InvalidBrc20Tx { tx_id, inscription, reason }
    }
}

/// The rejected inscriptions of a run, one for each transaction id.
pub struct InvalidBrc20TxMap {
    table: StringTable<InvalidBrc20Tx>,
}

impl InvalidBrc20TxMap {
    /// Every record is filed under its own transaction id.
    pub closed spec fn wf(&self) -> bool {
        &&& self.table.wf()
        &&& forall|k: Seq<char>| #[trigger]
            self.table@.contains_key(k) ==> self.table@[k].tx_id@ == k
    }

    /// The records by transaction id.
    pub closed spec fn view(&self) -> Map<Seq<char>, InvalidTxView> {
        Map::new(|k: Seq<char>| self.table@.contains_key(k), |k: Seq<char>| self.table@[k]@)
    }

    /// The transaction ids in the order in which each was first recorded.
    pub closed spec fn tx_ids(&self) -> Seq<Seq<char>> {
        self.table.keys()
    }

    /// No transaction id is recorded twice, and each recorded id is that of
    /// the record found under it.
    pub proof fn lemma_tx_ids(&self)
        requires
            self.wf(),
        ensures
            keys_distinct(self.tx_ids()),
            forall|k: Seq<char>| self@.contains_key(k) <==> self.tx_ids().contains(k),
            forall|k: Seq<char>| self@.contains_key(k) ==> (#[trigger] self@[k]).tx_id == k,
    {
        self.table.lemma_keys();
    }

    pub fn new() -> (r: Self)
        ensures
            r.wf(),
            r@ == Map::<Seq<char>, InvalidTxView>::empty(),
            r.tx_ids() == Seq::<Seq<char>>::empty(),
    {
        let r = InvalidBrc20TxMap { table: StringTable::new() };
        assert(r@ =~= Map::<Seq<char>, InvalidTxView>::empty());
        r
    }

    /// Records a rejection. A second record for a transaction id takes the
    /// place of the first, so that an id is never held twice.
    pub fn add_invalid_tx(&mut self, invalid_tx: InvalidBrc20Tx)
        requires
            old(self).wf(),
        ensures
            final(self).wf(),
            final(self)@ == old(self)@.insert(invalid_tx@.tx_id, invalid_tx@),
            final(self).tx_ids() == if old(self)@.contains_key(invalid_tx@.tx_id) {
                old(self).tx_ids()
            } else {
                old(self).tx_ids().push(invalid_tx@.tx_id)
            },
            keys_distinct(final(self).tx_ids()),
    {
        let key: String = invalid_tx.tx_id.clone();
        self.table.insert(key, invalid_tx);
        proof {
            assert(self@ =~= old(self)@.insert(invalid_tx@.tx_id, invalid_tx@));
            self.table.lemma_keys();
        }
    }

    /// The number of transaction ids recorded.
    pub fn len(&self) -> (n: usize)
        ensures
            n == self.tx_ids().len(),
    {
        self.table.len()
    }

    pub fn contains(&self, tx_id: &str) -> (r: bool)
        ensures
            r == self@.contains_key(tx_id@),
    {
        self.table.contains_key(tx_id)
    }

    /// The record of the transaction `tx_id`, if it was rejected.
    pub fn get(&self, tx_id: &str) -> (r: Option<&InvalidBrc20Tx>)
        requires
            self.wf(),
        ensures
            r.is_some() == self@.contains_key(tx_id@),
            r matches Some(t) ==> t@ == self@[tx_id@],
    {
        self.table.get(tx_id)
    }

    /// The record at position `i` of the order of recording.
    pub fn entry_at(&self, i: usize) -> (r: &InvalidBrc20Tx)
        requires
            self.wf(),
            i < self.tx_ids().len(),
        ensures
            self@.contains_key(self.tx_ids()[i as int]),
            r@ == self@[self.tx_ids()[i as int]],
    {
        self.table.value_at(i)
    }
}

} // verus!
