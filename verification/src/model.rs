//! The ledger as a mathematical state machine: its state, and what each call
//! makes of a state.

use crate::address::Address;
use crate::config::ConfigView;
use crate::error::LedgerError;
use crate::sums::{amount_at, total};
use vstd::prelude::*;

verus! {

/// The state of a ledger. An address or a pair that a map does not hold
/// stands at zero.
pub struct LedgerView {
    /// The configuration, once `initialize` has set it.
    pub config: Option<ConfigView>,
    /// The account that may mint and burn, once `initialize` has set it.
    pub owner: Option<Address>,
    /// The number of base units in existence.
    pub total_supply: u64,
    /// What each account holds.
    pub balances: Map<Address, u64>,
    /// For each pair of an owner and a spender, what the spender may still
    /// move out of the owner's balance.
    pub allowances: Map<(Address, Address), u64>,
}

/// A call on the ledger, with the account that makes it.
pub enum Call {
    Initialize { name: Seq<char>, symbol: Seq<char>, decimals: u8, deployer: Address },
    Approve { caller: Address, spender: Address, amount: u64 },
    Mint { caller: Address, to: Address, amount: u64 },
    Burn { caller: Address, from: Address, amount: u64 },
    Transfer { caller: Address, to: Address, amount: u64 },
    TransferFrom { caller: Address, from: Address, to: Address, amount: u64 },
}

/// The balances after `amount` has left `from` and reached `to`.
pub open spec fn moved(balances: Map<Address, u64>, from: Address, to: Address, amount: u64) -> Map<
    Address,
    u64,
> {
    let debited = balances.insert(from, (amount_at(balances, from) - amount) as u64);
    debited.insert(to, (amount_at(debited, to) + amount) as u64)
}

impl LedgerView {
    /// The state of a ledger that was just created: nothing is set, nobody
    /// holds anything.
    pub open spec fn empty() -> LedgerView {
        LedgerView {
            config: None,
            owner: None,
            total_supply: 0,
            balances: Map::empty(),
            allowances: Map::empty(),
        }
    }

    /// What `address` holds.
    pub open spec fn balance_of(self, address: Address) -> u64 {
        amount_at(self.balances, address)
    }

    /// What `spender` may still move out of `owner`'s balance.
    pub open spec fn allowance(self, owner: Address, spender: Address) -> u64 {
        amount_at(self.allowances, (owner, spender))
    }

    /// The accounting invariant: finitely many accounts hold anything, and
    /// what they hold adds up to the total supply.
    pub open spec fn balanced(self) -> bool {
        &&& self.balances.dom().finite()
        &&& total(self.balances) == self.total_supply
    }

    /// Configuration and owner are set together, and nothing exists before
    /// they are.
    pub open spec fn settled(self) -> bool {
        &&& self.config is Some <==> self.owner is Some
        &&& self.config is None ==> self.total_supply == 0
    }

    /// What holds of every state that a ledger can be in.
    pub open spec fn sound(self) -> bool {
        self.balanced() && self.settled()
    }

    /// `initialize`: sets the configuration and the owner, once. It is
    /// rejected on a ledger that has its configuration, and for a name or a
    /// symbol that cannot be padded to its width. The ledger starts with no
    /// supply, no balances and no allowances.
    pub open spec fn initialize(
        self,
        name: Seq<char>,
        symbol: Seq<char>,
        decimals: u8,
        deployer: Address,
    ) -> Result<LedgerView, LedgerError> {
        if self.config is Some {
            Err(LedgerError::AlreadyInitialized)
        } else {
            match ConfigView::new(name, symbol, decimals) {
                Err(e) => Err(e),
                Ok(config) => Ok(
                    LedgerView {
                        config: Some(config),
                        owner: Some(deployer),
                        total_supply: 0,
                        balances: Map::empty(),
                        allowances: Map::empty(),
                    },
                ),
            }
        }
    }

    /// `approve` by `caller`: `spender` may from now on move exactly `amount`
    /// out of `caller`'s balance, whatever the allowance was before.
    pub open spec fn approve(self, caller: Address, spender: Address, amount: u64) -> LedgerView {
        LedgerView { allowances: self.allowances.insert((caller, spender), amount), ..self }
    }

    /// `mint` by `caller`: creates `amount` on the balance of `to`. Only the
    /// owner may do so, and neither that balance nor the total supply may
    /// leave the 64-bit range.
    pub open spec fn mint(self, caller: Address, to: Address, amount: u64) -> Result<
        LedgerView,
        LedgerError,
    > {
        if self.owner != Some(caller) {
            Err(LedgerError::NotOwner)
        } else if self.balance_of(to) + amount > u64::MAX || self.total_supply + amount
            > u64::MAX {
            Err(LedgerError::Overflow)
        } else {
            Ok(
                LedgerView {
                    balances: self.balances.insert(to, (self.balance_of(to) + amount) as u64),
                    total_supply: (self.total_supply + amount) as u64,
                    ..self
                },
            )
        }
    }

    /// `burn` by `caller`: destroys `amount` on the balance of `from`. Only
    /// the owner may do so, and the balance must cover the amount.
    pub open spec fn burn(self, caller: Address, from: Address, amount: u64) -> Result<
        LedgerView,
        LedgerError,
    > {
        if self.owner != Some(caller) {
            Err(LedgerError::NotOwner)
        } else if self.balance_of(from) < amount {
            Err(LedgerError::InsufficientBalance)
        } else {
            Ok(
                LedgerView {
                    balances: self.balances.insert(from, (self.balance_of(from) - amount) as u64),
                    total_supply: (self.total_supply - amount) as u64,
                    ..self
                },
            )
        }
    }

    /// `transfer` by `caller`: moves `amount` from the caller's balance to
    /// that of `to`. The caller's balance must cover the amount.
    pub open spec fn transfer(self, caller: Address, to: Address, amount: u64) -> Result<
        LedgerView,
        LedgerError,
    > {
        if self.balance_of(caller) < amount {
            Err(LedgerError::InsufficientBalance)
        } else {
            Ok(LedgerView { balances: moved(self.balances, caller, to, amount), ..self })
        }
    }

    /// `transfer_from` by `caller`: moves `amount` from the balance of `from`
    /// to that of `to`, and takes it off what `caller` may still move out of
    /// `from`'s balance. That allowance must cover the amount, and so must
    /// the balance of `from`.
    pub open spec fn transfer_from(
        self,
        caller: Address,
        from: Address,
        to: Address,
        amount: u64,
    ) -> Result<LedgerView, LedgerError> {
        if self.allowance(from, caller) < amount {
            Err(LedgerError::InsufficientAllowance)
        } else if self.balance_of(from) < amount {
            Err(LedgerError::InsufficientBalance)
        } else {
            Ok(
                LedgerView {
                    allowances: self.allowances.insert(
                        (from, caller),
                        (self.allowance(from, caller) - amount) as u64,
                    ),
                    balances: moved(self.balances, from, to, amount),
                    ..self
                },
            )
        }
    }

    /// The state that a call leaves behind: the next state where the call
    /// applies, the same state where it is rejected.
    pub open spec fn after(self, call: Call) -> LedgerView {
        match call {
            Call::Initialize { name, symbol, decimals, deployer } => match self.initialize(
                name,
                symbol,
                decimals,
                deployer,
            ) {
                Ok(next) => next,
                Err(_) => self,
            },
            Call::Approve { caller, spender, amount } => self.approve(caller, spender, amount),
            Call::Mint { caller, to, amount } => match self.mint(caller, to, amount) {
                Ok(next) => next,
                Err(_) => self,
            },
            Call::Burn { caller, from, amount } => match self.burn(caller, from, amount) {
                Ok(next) => next,
                Err(_) => self,
            },
            Call::Transfer { caller, to, amount } => match self.transfer(caller, to, amount) {
                Ok(next) => next,
                Err(_) => self,
            },
            Call::TransferFrom { caller, from, to, amount } => match self.transfer_from(
                caller,
                from,
                to,
                amount,
            ) {
                Ok(next) => next,
                Err(_) => self,
            },
        }
    }

    /// The state of a ledger that was created and then took the calls in
    /// turn.
    pub open spec fn after_all(calls: Seq<Call>) -> LedgerView
        decreases calls.len(),
    {
        if calls.len() == 0 {
            LedgerView::empty()
        } else {
            LedgerView::after_all(calls.drop_last()).after(calls.last())
        }
    }

    /// Some run of calls on a new ledger ends in this state.
    pub open spec fn reachable(self) -> bool {
        exists|calls: Seq<Call>| LedgerView::after_all(calls) == self
    }
}

} // verus!
