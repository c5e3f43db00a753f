//! A model of the currency ledger that holds each account's spendable and
//! reserved funds. The ad ledger only ever asks it to reserve an amount
//! (move it from spendable to reserved), to release a reservation, and to
//! read the two balances.

use std::collections::HashMap;
use vstd::prelude::*;

verus! {

/// One account's holdings: the spendable part and the part locked behind a
/// reservation.
#[derive(Clone, Copy, PartialEq, Eq, Structural, Debug)]
pub struct Account {
    /// Funds the owner may spend or reserve.
    pub free: u128,
    /// Funds locked by a reservation; the owner reclaims them on release.
    pub reserved: u128,
}

/// The error a failed reservation reports.
#[derive(Clone, Copy, PartialEq, Eq, Structural, Debug)]
pub enum BalanceError {
    /// The account's spendable funds are below the requested amount.
    InsufficientBalance,
}

/// The balance ledger: free and reserved funds per account. Accounts that
/// were never touched hold zero.
pub struct Balances {
    accounts: HashMap<u64, Account>,
}

impl View for Balances {
    type V = Map<u64, Account>;

    closed spec fn view(&self) -> Map<u64, Account> {
        self.accounts@
    }
}

/// The holdings recorded for `who` in ledger state `m`, zero if absent.
pub open spec fn account_at(m: Map<u64, Account>, who: u64) -> Account {
    if m.contains_key(who) {
        m[who]
    } else {
        Account { free: 0, reserved: 0 }
    }
}

/// `who`'s spendable funds in ledger state `m`.
pub open spec fn free_at(m: Map<u64, Account>, who: u64) -> u128 {
    account_at(m, who).free
}

/// `who`'s reserved funds in ledger state `m`.
pub open spec fn reserved_at(m: Map<u64, Account>, who: u64) -> u128 {
    account_at(m, who).reserved
}

impl Balances {
    /// Every account's total holdings fit the balance type, so moving funds
    /// between the free and the reserved side can never overflow.
    pub open spec fn wf(&self) -> bool {
        forall|who: u64| #[trigger]
            self@.contains_key(who) ==> self@[who].free + self@[who].reserved <= u128::MAX
    }

    /// An empty ledger: every account holds zero.
    pub fn new() -> (r: Balances)
        ensures
            r.wf(),
            r@ == Map::<u64, Account>::empty(),
    {
        Balances { accounts: HashMap::new() }
    }

    /// Credits `amount` to `who`'s spendable funds.
    pub fn deposit_free(&mut self, who: u64, amount: u128)
        requires
            old(self).wf(),
            free_at(old(self)@, who) + reserved_at(old(self)@, who) + amount <= u128::MAX,
        ensures
            final(self).wf(),
            final(self)@ == old(self)@.insert(
                who,
                (Account {
                    free: (free_at(old(self)@, who) + amount) as u128,
                    reserved: reserved_at(old(self)@, who),
                }),
            ),
    {
        let acc = self.account(who);
        self.accounts.insert(who, Account { free: acc.free + amount, reserved: acc.reserved });
    }

    /// The holdings recorded for `who`, zero if the account was never touched.
    pub fn account(&self, who: u64) -> (r: Account)
        ensures
            r == account_at(self@, who),
    {
        match self.accounts.get(&who) {
            Some(acc) => *acc,
            None => Account { free: 0, reserved: 0 },
        }
    }

    /// `who`'s spendable funds.
    pub fn free_balance(&self, who: u64) -> (r: u128)
        ensures
            r == free_at(self@, who),
    {
        self.account(who).free
    }

    /// `who`'s reserved funds.
    pub fn reserved_balance(&self, who: u64) -> (r: u128)
        ensures
            r == reserved_at(self@, who),
    {
        self.account(who).reserved
    }

    /// Moves `amount` of `who`'s funds from spendable to reserved. Fails,
    /// changing nothing, when the spendable funds are below `amount`.
    pub fn reserve(&mut self, who: u64, amount: u128) -> (r: Result<(), BalanceError>)
        requires
            old(self).wf(),
        ensures
            final(self).wf(),
            r is Ok <==> free_at(old(self)@, who) >= amount,
            r is Ok ==> final(self)@ == old(self)@.insert(
                who,
                (Account {
                    free: (free_at(old(self)@, who) - amount) as u128,
                    reserved: (reserved_at(old(self)@, who) + amount) as u128,
                }),
            ),
            r is Err ==> final(self)@ == old(self)@ && r == Err::<(), BalanceError>(
                BalanceError::InsufficientBalance,
            ),
    {
        let acc = self.account(who);
        if acc.free >= amount {
            self.accounts.insert(
                who,
                Account { free: acc.free - amount, reserved: acc.reserved + amount },
            );
            Ok(())
        } else {
            Err(BalanceError::InsufficientBalance)
        }
    }

    /// Releases up to `amount` of `who`'s reserved funds back to spendable
    /// and returns how much of `amount` could not be released because less
    /// than that was reserved.
    pub fn unreserve(&mut self, who: u64, amount: u128) -> (leftover: u128)
        requires
            old(self).wf(),
        ensures
            final(self).wf(),
            leftover == if amount <= reserved_at(old(self)@, who) {
                0u128
            } else {
                (amount - reserved_at(old(self)@, who)) as u128
            },
            final(self)@ == old(self)@.insert(
                who,
                (Account {
                    free: (free_at(old(self)@, who) + (amount - leftover)) as u128,
                    reserved: (reserved_at(old(self)@, who) - (amount - leftover)) as u128,
                }),
            ),
    {
        let acc = self.account(who);
        let moved = if amount <= acc.reserved {
            amount
        } else {
            acc.reserved
        };
        self.accounts.insert(
            who,
            Account { free: acc.free + moved, reserved: acc.reserved - moved },
        );
        amount - moved
    }
}

} // verus!
