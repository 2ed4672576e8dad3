//! Balance entries and the balances of one address in one ticker.

use vstd::prelude::*;
use crate::inscription::same_text;

verus! {

/// The kind of a balance entry; it decides which balances the amount of the
/// entry is added to and taken from.
#[derive(Debug, Clone, Copy, PartialEq, Eq, Structural)]
pub enum UserBalanceEntryType {
    /// Tokens arrive: by a mint, or by a transfer that its recipient redeems.
    Receive,
    /// Tokens inscribed for transfer leave the sender.
    Send,
    /// Available tokens are inscribed for transfer.
    Inscription,
}

impl UserBalanceEntryType {
    /// The tag under which the kind is stored.
    pub open spec fn tag_text(self) -> Seq<char> {
        match self {
            UserBalanceEntryType::Receive => "receive"@,
            UserBalanceEntryType::Send => "send"@,
            UserBalanceEntryType::Inscription => "inscription"@,
        }
    }

    /// The kind that a tag stands for.
    pub open spec fn of_tag(tag: Seq<char>) -> Option<UserBalanceEntryType> {
        if tag == "receive"@ {
            Some(UserBalanceEntryType::Receive)
        } else if tag == "send"@ {
            Some(UserBalanceEntryType::Send)
        } else if tag == "inscription"@ {
            Some(UserBalanceEntryType::Inscription)
        } else {
            None
        }
    }

    pub fn tag(&self) -> (r: String)
        ensures
            r@ == self.tag_text(),
    {
        match self {
            UserBalanceEntryType::Receive => "receive".to_owned(),
            UserBalanceEntryType::Send => "send".to_owned(),
            UserBalanceEntryType::Inscription => "inscription".to_owned(),
        }
    }

    pub fn from_tag(tag: &str) -> (r: Option<UserBalanceEntryType>)
        ensures
            r == Self::of_tag(tag@),
    {
        if same_text(tag, "receive") {
            Some(UserBalanceEntryType::Receive)
        } else if same_text(tag, "send") {
            Some(UserBalanceEntryType::Send)
        } else if same_text(tag, "inscription") {
            Some(UserBalanceEntryType::Inscription)
        } else {
            None
        }
    }

    /// Every kind is read back from its own tag.
    pub proof fn lemma_tag_round_trip(self)
        ensures
            Self::of_tag(self.tag_text()) == Some(self),
    {
        reveal_strlit("receive");
        reveal_strlit("send");
        reveal_strlit("inscription");
        assert("receive"@.len() == 7);
        assert("send"@.len() == 4);
        assert("inscription"@.len() == 11);
    }
}

/// One change of the balances of an address in a ticker. The amount is never
/// negative: the kind of the entry gives its direction.
#[derive(Debug, PartialEq, Eq)]
pub struct UserBalanceEntry {
    pub address: String,
    pub tick: String,
    pub block_height: u64,
    pub amount: u128,
    pub entry_type: UserBalanceEntryType,
}

/// A [`UserBalanceEntry`] as plain values.
pub struct EntryView {
    pub address: Seq<char>,
    pub tick: Seq<char>,
    pub block_height: u64,
    pub amount: u128,
    pub entry_type: UserBalanceEntryType,
}

impl View for UserBalanceEntry {
    type V = EntryView;

    open spec fn view(&self) -> EntryView {
        EntryView {
            address: self.address@,
            tick: self.tick@,
            block_height: self.block_height,
            amount: self.amount,
            entry_type: self.entry_type,
        }
    }
}

impl Clone for UserBalanceEntry {
    fn clone(&self) -> (r: Self)
        ensures
            r == *self,
    {
        UserBalanceEntry {
            address: self.address.clone(),
            tick: self.tick.clone(),
            block_height: self.block_height,
            amount: self.amount,
            entry_type: self.entry_type,
        }
    }
}

impl UserBalanceEntry {
    pub fn new(
        address: String,
        tick: String,
        block_height: u64,
        amount: u128,
        entry_type: UserBalanceEntryType,
    ) -> (r: Self)
        ensures
            r@ == (EntryView { address: address@, tick: tick@, block_height, amount, entry_type }),
    {
        UserBalanceEntry { address, tick, block_height, amount, entry_type }
    }
}

/// The three balances of an address in a ticker, as unbounded integers.
pub struct Balance {
    pub available: int,
    pub transferable: int,
    pub overall: int,
}

pub open spec fn zero_balance() -> Balance {
    Balance { available: 0, transferable: 0, overall: 0 }
}

/// The overall balance is the available and the transferable balance
/// together.
pub open spec fn consistent(b: Balance) -> bool {
    b.overall == b.available + b.transferable
}

/// Each of the three balances fits in a signed 128-bit integer.
pub open spec fn representable(b: Balance) -> bool {
    &&& i128::MIN <= b.available <= i128::MAX
    &&& i128::MIN <= b.transferable <= i128::MAX
    &&& i128::MIN <= b.overall <= i128::MAX
}

/// The balances after an entry of the given kind and amount.
pub open spec fn balance_after(b: Balance, kind: UserBalanceEntryType, amount: int) -> Balance {
    match kind {
        UserBalanceEntryType::Receive => Balance {
            available: b.available + amount,
            transferable: b.transferable,
            overall: b.overall + amount,
        },
        UserBalanceEntryType::Send => Balance {
            available: b.available,
            transferable: b.transferable - amount,
            overall: b.overall - amount,
        },
        UserBalanceEntryType::Inscription => Balance {
            available: b.available - amount,
            transferable: b.transferable + amount,
            overall: b.overall,
        },
    }
}

/// An entry of any kind keeps the balances consistent.
pub proof fn lemma_balance_after_consistent(b: Balance, kind: UserBalanceEntryType, amount: int)
    requires
        consistent(b),
    ensures
        consistent(balance_after(b, kind, amount)),
{
}

/// A balance did not fit in a signed 128-bit integer.
#[derive(Debug, Clone, Copy, PartialEq, Eq, Structural)]
pub enum BalanceError {
    OutOfRange,
}

/// The materialized balances of one address in one ticker.
#[derive(Debug, PartialEq, Eq)]
pub struct UserBalance {
    address: String,
    tick: String,
    overall_balance: i128,
    available_balance: i128,
    transferable_balance: i128,
}

/// A [`UserBalance`] as plain values.
pub struct UserBalanceView {
    pub address: Seq<char>,
    pub tick: Seq<char>,
    pub balance: Balance,
}

impl View for UserBalance {
    type V = UserBalanceView;

    closed spec fn view(&self) -> UserBalanceView {
        UserBalanceView {
            address: self.address@,
            tick: self.tick@,
            balance: Balance {
                available: self.available_balance as int,
                transferable: self.transferable_balance as int,
                overall: self.overall_balance as int,
            },
        }
    }
}

impl Clone for UserBalance {
    fn clone(&self) -> (r: Self)
        ensures
            r == *self,
    {
        UserBalance {
            address: self.address.clone(),
            tick: self.tick.clone(),
            overall_balance: self.overall_balance,
            available_balance: self.available_balance,
            transferable_balance: self.transferable_balance,
        }
    }
}

impl UserBalance {
    /// The balances are consistent.
    pub open spec fn wf(&self) -> bool {
        consistent(self@.balance)
    }

    /// The balances of an address that no entry has touched yet.
    pub fn new(address: String, tick: String) -> (r: Self)
        ensures
            r@ == (UserBalanceView { address: address@, tick: tick@, balance: zero_balance() }),
            r.wf(),
    {
        UserBalance {
            address,
            tick,
            overall_balance: 0,
            available_balance: 0,
            transferable_balance: 0,
        }
    }

    /// Stored balances as a value of this type; `None` where the overall
    /// balance is not the sum of the other two.
    pub fn from_parts(
        address: String,
        tick: String,
        available_balance: i128,
        transferable_balance: i128,
        overall_balance: i128,
    ) -> (r: Option<Self>)
        ensures
            r.is_some() == (overall_balance == available_balance + transferable_balance),
            r matches Some(b) ==> b.wf() && b@ == (UserBalanceView {
                address: address@,
                tick: tick@,
                balance: Balance {
                    available: available_balance as int,
                    transferable: transferable_balance as int,
                    overall: overall_balance as int,
                },
            }),
    {
        match available_balance.checked_add(transferable_balance) {
            Some(sum) => {
                if sum == overall_balance {
                    Some(
                        UserBalance {
                            address,
                            tick,
                            overall_balance,
                            available_balance,
                            transferable_balance,
                        },
                    )
                } else {
                    None
                }
            },
            None => None,
        }
    }

    pub fn get_address(&self) -> (r: &String)
        ensures
            r@ == self@.address,
    {
        &self.address
    }

    pub fn get_tick(&self) -> (r: &String)
        ensures
            r@ == self@.tick,
    {
        &self.tick
    }

    pub fn get_available_balance(&self) -> (r: i128)
        ensures
            r == self@.balance.available,
    {
        self.available_balance
    }

    pub fn get_transferable_balance(&self) -> (r: i128)
        ensures
            r == self@.balance.transferable,
    {
        self.transferable_balance
    }

    pub fn get_overall_balance(&self) -> (r: i128)
        ensures
            r == self@.balance.overall,
    {
        self.overall_balance
    }

    /// Applies an entry of the given kind and amount. Where a balance would
    /// leave the range of a signed 128-bit integer, nothing is changed.
    pub fn apply(&mut self, kind: UserBalanceEntryType, amount: u128) -> (r: Result<
        (),
        BalanceError,
    >)
        ensures
            r.is_ok() == representable(balance_after(old(self)@.balance, kind, amount as int)),
            r.is_ok() ==> final(self)@ == (UserBalanceView {
                balance: balance_after(old(self)@.balance, kind, amount as int),
                ..old(self)@
            }),
            r.is_err() ==> *final(self) == *old(self),
            old(self).wf() ==> final(self).wf(),
    {
        match kind {
            UserBalanceEntryType::Receive => {
                let a: Option<i128> = self.available_balance.checked_add_unsigned(amount);
                let o: Option<i128> = self.overall_balance.checked_add_unsigned(amount);
                match (a, o) {
                    (Some(a), Some(o)) => {
                        self.available_balance = a;
                        self.overall_balance = o;
                        Ok(())
                    },
                    _ => Err(BalanceError::OutOfRange),
                }
            },
            UserBalanceEntryType::Send => {
                let t: Option<i128> = self.transferable_balance.checked_sub_unsigned(amount);
                let o: Option<i128> = self.overall_balance.checked_sub_unsigned(amount);
                match (t, o) {
                    (Some(t), Some(o)) => {
                        self.transferable_balance = t;
                        self.overall_balance = o;
                        Ok(())
                    },
                    _ => Err(BalanceError::OutOfRange),
                }
            },
            UserBalanceEntryType::Inscription => {
                let a: Option<i128> = self.available_balance.checked_sub_unsigned(amount);
                let t: Option<i128> = self.transferable_balance.checked_add_unsigned(amount);
                match (a, t) {
                    (Some(a), Some(t)) => {
                        self.available_balance = a;
                        self.transferable_balance = t;
                        Ok(())
                    },
                    _ => Err(BalanceError::OutOfRange),
                }
            },
        }
    }
}

} // verus!
