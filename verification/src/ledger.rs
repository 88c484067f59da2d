//! The ledger itself: the state that is kept, and the calls on it.

use crate::address::Address;
use crate::book::Book;
use crate::config::Config;
use crate::error::LedgerError;
use crate::model::{moved, LedgerView};
use crate::sums::{lemma_amount_within_total, lemma_total_empty, lemma_total_insert};
use vstd::prelude::*;

verus! {

/// A fungible-token ledger. Every call on it either applies in full or is
/// rejected and changes nothing.
pub struct Ledger {
    config: Option<Config>,
    owner: Option<Address>,
    total_supply: u64,
    balances: Book<Address>,
    allowances: Book<(Address, Address)>,
}

impl View for Ledger {
    type V = LedgerView;

    closed spec fn view(&self) -> LedgerView {
        LedgerView {
            config: match self.config {
                Some(config) => Some(config@),
                None => None,
            },
            owner: self.owner,
            total_supply: self.total_supply,
            balances: self.balances@,
            allowances: self.allowances@,
        }
    }
}

impl Ledger {
    /// Both books are in order.
    pub closed spec fn books_in_order(&self) -> bool {
        self.balances.wf() && self.allowances.wf()
    }

    /// The ledger is sound: its books are in order, its balances add up to
    /// the total supply, and owner and configuration are set together.
    pub open spec fn wf(&self) -> bool {
        self.books_in_order() && self@.sound()
    }

    /// A ledger that awaits its `initialize`.
    pub fn new() -> (r: Ledger)
        ensures
            r.wf(),
            r@ == LedgerView::empty(),
    {
        proof {
            lemma_total_empty::<Address>();
        }
        Ledger {
            config: None,
            owner: None,
            total_supply: 0,
            balances: Book::new(),
            allowances: Book::new(),
        }
    }

    /// Sets the configuration and makes `deployer` the owner. The name is
    /// padded to 16 characters and the symbol to 8. The call is rejected on a
    /// ledger that has its configuration already, and for a name or a symbol
    /// that is too long or not ASCII.
    pub fn initialize(&mut self, name: &str, symbol: &str, decimals: u8, deployer: Address) -> (r:
        Result<(), LedgerError>)
        requires
            old(self).wf(),
        ensures
            final(self).wf(),
            match old(self)@.initialize(name@, symbol@, decimals, deployer) {
                Ok(next) => r is Ok && final(self)@ == next,
                Err(e) => r == Err::<(), LedgerError>(e) && *final(self) == *old(self),
            },
    {
        if self.config.is_some() {
            return Err(LedgerError::AlreadyInitialized);
        }
        let config = match Config::new(name, symbol, decimals) {
            Ok(config) => config,
            Err(e) => {
                return Err(e);
            },
        };
        proof {
            lemma_total_empty::<Address>();
        }
        self.config = Some(config);
        self.owner = Some(deployer);
        self.total_supply = 0;
        self.balances = Book::new();
        self.allowances = Book::new();
        Ok(())
    }

    /// The configuration, once it is set.
    pub fn config(&self) -> (r: Option<&Config>)
        ensures
            match r {
                Some(config) => self@.config == Some(config@),
                None => self@.config is None,
            },
    {
        self.config.as_ref()
    }

    /// The owner, once it is set.
    pub fn owner(&self) -> (r: Option<Address>)
        ensures
            r == self@.owner,
    {
        self.owner
    }

    /// The number of base units in existence.
    pub fn total_supply(&self) -> (r: u64)
        ensures
            r == self@.total_supply,
    {
        self.total_supply
    }

    /// What `address` holds; zero for an address that never held anything.
    pub fn balance_of(&self, address: Address) -> (r: u64)
        requires
            self.wf(),
        ensures
            r == self@.balance_of(address),
    {
        self.balances.get(&address)
    }

    /// What `spender` may still move out of `owner`'s balance; zero where
    /// nothing was approved.
    pub fn allowance(&self, owner: Address, spender: Address) -> (r: u64)
        requires
            self.wf(),
        ensures
            r == self@.allowance(owner, spender),
    {
        self.allowances.get(&(owner, spender))
    }

    /// Lets `spender` move `amount` out of `caller`'s balance, in place of
    /// whatever `spender` could move before. Always applies.
    pub fn approve(&mut self, caller: Address, spender: Address, amount: u64) -> (r: bool)
        requires
            old(self).wf(),
        ensures
            final(self).wf(),
            r,
            final(self)@ == old(self)@.approve(caller, spender, amount),
    {
        self.allowances.set((caller, spender), amount);
        true
    }

    /// Whether `caller` is the owner.
    fn is_owner(&self, caller: Address) -> (r: bool)
        ensures
            r == (self@.owner == Some(caller)),
    {
        match self.owner {
            Some(owner) => owner == caller,
            None => false,
        }
    }

    /// Creates `amount` on the balance of `to`. Rejected unless `caller` is
    /// the owner, and where the balance or the total supply would overflow.
    pub fn mint(&mut self, caller: Address, to: Address, amount: u64) -> (r: Result<
        bool,
        LedgerError,
    >)
        requires
            old(self).wf(),
        ensures
            final(self).wf(),
            match old(self)@.mint(caller, to, amount) {
                Ok(next) => r == Ok::<bool, LedgerError>(true) && final(self)@ == next,
                Err(e) => r == Err::<bool, LedgerError>(e) && *final(self) == *old(self),
            },
    {
        if !self.is_owner(caller) {
            return Err(LedgerError::NotOwner);
        }
        let balance = self.balances.get(&to);
        if amount > u64::MAX - balance || amount > u64::MAX - self.total_supply {
            return Err(LedgerError::Overflow);
        }
        proof {
            lemma_total_insert(self.balances@, to, (balance + amount) as u64);
        }
        self.balances.set(to, balance + amount);
        self.total_supply = self.total_supply + amount;
        Ok(true)
    }

    /// Destroys `amount` on the balance of `from`. Rejected unless `caller`
    /// is the owner, and where the balance does not cover the amount.
    pub fn burn(&mut self, caller: Address, from: Address, amount: u64) -> (r: Result<
        bool,
        LedgerError,
    >)
        requires
            old(self).wf(),
        ensures
            final(self).wf(),
            match old(self)@.burn(caller, from, amount) {
                Ok(next) => r == Ok::<bool, LedgerError>(true) && final(self)@ == next,
                Err(e) => r == Err::<bool, LedgerError>(e) && *final(self) == *old(self),
            },
    {
        if !self.is_owner(caller) {
            return Err(LedgerError::NotOwner);
        }
        let balance = self.balances.get(&from);
        if balance < amount {
            return Err(LedgerError::InsufficientBalance);
        }
        proof {
            lemma_amount_within_total(self.balances@, from);
            lemma_total_insert(self.balances@, from, (balance - amount) as u64);
        }
        self.balances.set(from, balance - amount);
        self.total_supply = self.total_supply - amount;
        Ok(true)
    }

    /// Takes `amount` off the balance of `from` and puts it on that of `to`.
    fn move_balance(&mut self, from: Address, to: Address, amount: u64)
        requires
            old(self).wf(),
            old(self)@.balance_of(from) >= amount,
        ensures
            final(self).wf(),
            final(self)@ == (LedgerView {
                balances: moved(old(self)@.balances, from, to, amount),
                ..old(self)@
            }),
    {
        let held = self.balances.get(&from);
        proof {
            lemma_total_insert(self.balances@, from, (held - amount) as u64);
        }
        self.balances.set(from, held - amount);
        let reached = self.balances.get(&to);
        proof {
            self.balances.lemma_finite();
            lemma_amount_within_total(self.balances@, to);
            lemma_total_insert(self.balances@, to, (reached + amount) as u64);
        }
        self.balances.set(to, reached + amount);
    }

    /// Moves `amount` from `caller`'s balance to that of `to`. Rejected where
    /// the caller's balance does not cover the amount.
    pub fn transfer(&mut self, caller: Address, to: Address, amount: u64) -> (r: Result<
        bool,
        LedgerError,
    >)
        requires
            old(self).wf(),
        ensures
            final(self).wf(),
            match old(self)@.transfer(caller, to, amount) {
                Ok(next) => r == Ok::<bool, LedgerError>(true) && final(self)@ == next,
                Err(e) => r == Err::<bool, LedgerError>(e) && *final(self) == *old(self),
            },
    {
        if self.balances.get(&caller) < amount {
            return Err(LedgerError::InsufficientBalance);
        }
        self.move_balance(caller, to, amount);
        Ok(true)
    }

    /// Moves `amount` from the balance of `from` to that of `to`, on the
    /// strength of what `from` approved for `caller`, and takes it off that
    /// allowance. Rejected where the allowance does not cover the amount,
    /// and then where the balance of `from` does not.
    pub fn transfer_from(&mut self, caller: Address, from: Address, to: Address, amount: u64) -> (r:
        Result<bool, LedgerError>)
        requires
            old(self).wf(),
        ensures
            final(self).wf(),
            match old(self)@.transfer_from(caller, from, to, amount) {
                Ok(next) => r == Ok::<bool, LedgerError>(true) && final(self)@ == next,
                Err(e) => r == Err::<bool, LedgerError>(e) && *final(self) == *old(self),
            },
    {
        let allowed = self.allowances.get(&(from, caller));
        if allowed < amount {
            return Err(LedgerError::InsufficientAllowance);
        }
        if self.balances.get(&from) < amount {
            return Err(LedgerError::InsufficientBalance);
        }
        self.allowances.set((from, caller), allowed - amount);
        self.move_balance(from, to, amount);
        Ok(true)
    }
}

impl Default for Ledger {
    fn default() -> (r: Ledger)
        ensures
            r.wf(),
            r@ == LedgerView::empty(),
    {
        Ledger::new()
    }
}

} // verus!
