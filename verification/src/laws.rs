//! What holds of the ledger's calls, whatever the state and the arguments.

use crate::address::Address;
use crate::error::LedgerError;
use crate::model::{moved, Call, LedgerView};
use crate::sums::{
    amount_at, lemma_amount_within_total, lemma_pair_within_total, lemma_total_empty,
    lemma_total_insert, total,
};
use vstd::prelude::*;

verus! {

/// Moving an amount that the sender holds takes it off the sender and puts it
/// on the receiver, leaves every other account alone and keeps the sum. Where
/// sender and receiver are one account, nobody's balance changes.
pub proof fn lemma_moved(balances: Map<Address, u64>, from: Address, to: Address, amount: u64)
    requires
        balances.dom().finite(),
        total(balances) <= u64::MAX,
        amount <= amount_at(balances, from),
    ensures
        moved(balances, from, to, amount).dom().finite(),
        total(moved(balances, from, to, amount)) == total(balances),
        from != to ==> amount_at(moved(balances, from, to, amount), from) == amount_at(
            balances,
            from,
        ) - amount,
        from != to ==> amount_at(moved(balances, from, to, amount), to) == amount_at(balances, to)
            + amount,
        from == to ==> amount_at(moved(balances, from, to, amount), from) == amount_at(
            balances,
            from,
        ),
        forall|other: Address|
            other != from && other != to ==> amount_at(
                moved(balances, from, to, amount),
                other,
            ) == amount_at(balances, other),
{
    let debited = balances.insert(from, (amount_at(balances, from) - amount) as u64);
    lemma_total_insert(balances, from, (amount_at(balances, from) - amount) as u64);
    lemma_amount_within_total(debited, to);
    lemma_total_insert(debited, to, (amount_at(debited, to) + amount) as u64);
}

/// A run of calls on a new ledger always ends in a state whose balances add
/// up to its total supply, and in which owner and configuration are set
/// together.
pub proof fn lemma_after_all_sound(calls: Seq<Call>)
    ensures
        LedgerView::after_all(calls).sound(),
    decreases calls.len(),
{
    if calls.len() == 0 {
        lemma_total_empty::<Address>();
    } else {
        lemma_after_all_sound(calls.drop_last());
        lemma_after_sound(LedgerView::after_all(calls.drop_last()), calls.last());
    }
}

/// In every state that can be reached, the balances add up to the total
/// supply, and owner and configuration are set together.
pub proof fn lemma_reachable_sound(state: LedgerView)
    requires
        state.reachable(),
    ensures
        state.sound(),
        total(state.balances) == state.total_supply,
{
    let calls = choose|calls: Seq<Call>| LedgerView::after_all(calls) == state;
    lemma_after_all_sound(calls);
}

/// No call, applied or rejected, leads out of the sound states.
pub proof fn lemma_after_sound(state: LedgerView, call: Call)
    requires
        state.sound(),
    ensures
        state.after(call).sound(),
{
    match call {
        Call::Initialize { .. } => {
            lemma_total_empty::<Address>();
        },
        Call::Approve { .. } => {},
        Call::Mint { caller, to, amount } => {
            lemma_mint(state, caller, to, amount);
        },
        Call::Burn { caller, from, amount } => {
            lemma_burn(state, caller, from, amount);
        },
        Call::Transfer { caller, to, amount } => {
            lemma_transfer(state, caller, to, amount);
        },
        Call::TransferFrom { caller, from, to, amount } => {
            lemma_transfer_from(state, caller, from, to, amount);
        },
    }
}

/// Once set, the configuration and the owner stay as they are, whatever is
/// called.
pub proof fn lemma_config_and_owner_are_final(state: LedgerView, call: Call)
    requires
        state.config is Some,
    ensures
        state.after(call).config == state.config,
        state.after(call).owner == state.owner,
{
}

/// No call but `mint` and `burn` changes the total supply, and those two
/// only where the owner makes them.
pub proof fn lemma_supply_is_the_owners(state: LedgerView, call: Call)
    requires
        state.sound(),
        state.after(call).total_supply != state.total_supply,
    ensures
        match call {
            Call::Mint { caller, .. } => state.owner == Some(caller),
            Call::Burn { caller, .. } => state.owner == Some(caller),
            _ => false,
        },
{
}

/// A mint that applies adds the amount to the receiver's balance and to the
/// total supply, and to nothing else.
pub proof fn lemma_mint(state: LedgerView, caller: Address, to: Address, amount: u64)
    requires
        state.balanced(),
    ensures
        state.mint(caller, to, amount) matches Ok(next) ==> {
            &&& next.balanced()
            &&& next.total_supply == state.total_supply + amount
            &&& next.balance_of(to) == state.balance_of(to) + amount
            &&& forall|other: Address|
                other != to ==> next.balance_of(other) == state.balance_of(other)
        },
{
    if state.mint(caller, to, amount) is Ok {
        lemma_total_insert(state.balances, to, (state.balance_of(to) + amount) as u64);
    }
}

/// A burn that applies takes the amount off the account's balance and off
/// the total supply, and off nothing else.
pub proof fn lemma_burn(state: LedgerView, caller: Address, from: Address, amount: u64)
    requires
        state.balanced(),
    ensures
        state.burn(caller, from, amount) matches Ok(next) ==> {
            &&& next.balanced()
            &&& next.total_supply == state.total_supply - amount
            &&& next.balance_of(from) == state.balance_of(from) - amount
            &&& forall|other: Address|
                other != from ==> next.balance_of(other) == state.balance_of(other)
        },
{
    if state.burn(caller, from, amount) is Ok {
        lemma_amount_within_total(state.balances, from);
        lemma_total_insert(state.balances, from, (state.balance_of(from) - amount) as u64);
    }
}

/// A transfer that applies moves the amount from the caller to the receiver
/// and leaves the total supply, the other balances and the allowances as
/// they were. A transfer to oneself changes no balance.
pub proof fn lemma_transfer(state: LedgerView, caller: Address, to: Address, amount: u64)
    requires
        state.balanced(),
    ensures
        state.transfer(caller, to, amount) matches Ok(next) ==> {
            &&& next.balanced()
            &&& next.total_supply == state.total_supply
            &&& next.allowances == state.allowances
            &&& caller != to ==> next.balance_of(caller) == state.balance_of(caller) - amount
            &&& caller != to ==> next.balance_of(to) == state.balance_of(to) + amount
            &&& caller == to ==> next.balance_of(caller) == state.balance_of(caller)
            &&& forall|other: Address|
                other != caller && other != to ==> next.balance_of(other) == state.balance_of(
                    other,
                )
        },
{
    if state.transfer(caller, to, amount) is Ok {
        lemma_moved(state.balances, caller, to, amount);
    }
}

/// A delegated transfer that applies moves the amount from the account to
/// the receiver, takes it off the caller's allowance on that account, and
/// leaves the total supply, the other balances and the other allowances as
/// they were.
pub proof fn lemma_transfer_from(
    state: LedgerView,
    caller: Address,
    from: Address,
    to: Address,
    amount: u64,
)
    requires
        state.balanced(),
    ensures
        state.transfer_from(caller, from, to, amount) matches Ok(next) ==> {
            &&& next.balanced()
            &&& next.total_supply == state.total_supply
            &&& next.allowance(from, caller) == state.allowance(from, caller) - amount
            &&& forall|owner: Address, spender: Address|
                (owner, spender) != (from, caller) ==> next.allowance(owner, spender)
                    == state.allowance(owner, spender)
            &&& from != to ==> next.balance_of(from) == state.balance_of(from) - amount
            &&& from != to ==> next.balance_of(to) == state.balance_of(to) + amount
            &&& from == to ==> next.balance_of(from) == state.balance_of(from)
            &&& forall|other: Address|
                other != from && other != to ==> next.balance_of(other) == state.balance_of(
                    other,
                )
        },
{
    if state.transfer_from(caller, from, to, amount) is Ok {
        lemma_moved(state.balances, from, to, amount);
    }
}

/// No account holds more than the total supply, and no two accounts
/// together do.
pub proof fn lemma_balances_within_supply(state: LedgerView, a: Address, b: Address)
    requires
        state.balanced(),
    ensures
        state.balance_of(a) <= state.total_supply,
        a != b ==> state.balance_of(a) + state.balance_of(b) <= state.total_supply,
{
    lemma_amount_within_total(state.balances, a);
    if a != b {
        lemma_pair_within_total(state.balances, a, b);
    }
}

/// After `approve`, the allowance of that spender on the caller's balance is
/// exactly the approved amount, whatever it was before; every other
/// allowance, and everything else, is as it was.
pub proof fn lemma_approve_overwrites(
    state: LedgerView,
    caller: Address,
    spender: Address,
    amount: u64,
)
    ensures
        state.approve(caller, spender, amount).allowance(caller, spender) == amount,
        forall|owner: Address, other: Address|
            (owner, other) != (caller, spender) ==> state.approve(
                caller,
                spender,
                amount,
            ).allowance(owner, other) == state.allowance(owner, other),
        state.approve(caller, spender, amount).balances == state.balances,
        state.approve(caller, spender, amount).total_supply == state.total_supply,
        state.approve(caller, spender, amount).config == state.config,
        state.approve(caller, spender, amount).owner == state.owner,
{
}

/// Once `initialize` has applied, every further `initialize` is rejected as
/// `AlreadyInitialized`, whatever its arguments, and leaves the state as it
/// is.
pub proof fn lemma_initialize_once(
    state: LedgerView,
    name: Seq<char>,
    symbol: Seq<char>,
    decimals: u8,
    deployer: Address,
    second_name: Seq<char>,
    second_symbol: Seq<char>,
    second_decimals: u8,
    second_deployer: Address,
)
    requires
        state.initialize(name, symbol, decimals, deployer) is Ok,
    ensures
        ({
            let first = state.initialize(name, symbol, decimals, deployer)->Ok_0;
            &&& first.initialize(second_name, second_symbol, second_decimals, second_deployer)
                == Err::<LedgerView, LedgerError>(LedgerError::AlreadyInitialized)
            &&& first.after(
                Call::Initialize {
                    name: second_name,
                    symbol: second_symbol,
                    decimals: second_decimals,
                    deployer: second_deployer,
                },
            ) == first
        }),
{
}

/// Minting an amount and then burning the same amount on the same account
/// brings that account's balance and the total supply back to what they were
/// before the mint, and leaves everything else as it was; the burn applies
/// whenever the mint did. This is stated of every pair of calls but one in
/// which the mint is rejected and the burn applies all the same.
pub proof fn lemma_mint_then_burn(state: LedgerView, caller: Address, account: Address, amount: u64)
    requires
        state.mint(caller, account, amount) is Ok || state.burn(caller, account, amount) is Err,
    ensures
        ({
            let minted = state.after(Call::Mint { caller, to: account, amount });
            let burned = minted.after(Call::Burn { caller, from: account, amount });
            &&& state.mint(caller, account, amount) is Ok ==> minted.burn(caller, account, amount)
                is Ok
            &&& burned.total_supply == state.total_supply
            &&& forall|any: Address| burned.balance_of(any) == state.balance_of(any)
            &&& burned.allowances == state.allowances
            &&& burned.config == state.config
            &&& burned.owner == state.owner
        }),
{
}

/// Transferring the caller's whole balance applies and leaves the caller
/// with nothing, unless the caller sends a balance that is not zero to
/// itself: then it keeps that balance.
pub proof fn lemma_transfer_whole_balance(state: LedgerView, caller: Address, to: Address)
    requires
        to != caller || state.balance_of(caller) == 0,
    ensures
        state.transfer(caller, to, state.balance_of(caller)) matches Ok(next) && next.balance_of(
            caller,
        ) == 0,
{
}

/// Transferring more than the caller holds is rejected as
/// `InsufficientBalance`, and the state stays as it is.
pub proof fn lemma_transfer_beyond_balance(
    state: LedgerView,
    caller: Address,
    to: Address,
    amount: u64,
)
    requires
        amount > state.balance_of(caller),
    ensures
        state.transfer(caller, to, amount) == Err::<LedgerView, LedgerError>(
            LedgerError::InsufficientBalance,
        ),
        state.after(Call::Transfer { caller, to, amount }) == state,
{
}

} // verus!
