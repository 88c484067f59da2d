use fungible::address::Address;
use fungible::error::LedgerError;
use fungible::ledger::Ledger;
use fungible::numbers::to_decimals;

fn account(tag: u8) -> Address {
    Address::new([tag; 32])
}

#[test]
fn main() {
    let owner = account(1);
    let wallet1 = account(2);
    let mut ledger = Ledger::new();

    let name = "Test Token";
    let symbol = "TT";
    let decimals = 8u8;
    let mint_amount = to_decimals(1000, decimals);
    let transfer_amount = to_decimals(100, decimals);

    ledger.initialize(name, symbol, decimals, owner).unwrap();

    let config = ledger.config().unwrap();
    assert_eq!(config.name.as_str(), "Test Token      ");
    assert_eq!(config.symbol.as_str(), "TT      ");
    assert_eq!(config.decimals, decimals);

    assert_eq!(ledger.owner(), Some(owner));

    assert_eq!(ledger.mint(owner, owner, mint_amount), Ok(true));
    assert_eq!(ledger.balance_of(owner), mint_amount);
    assert_eq!(ledger.balance_of(owner), 100000000000);

    assert_eq!(ledger.balance_of(wallet1), 0);
    assert_eq!(ledger.transfer(owner, wallet1, transfer_amount), Ok(true));
    assert_eq!(ledger.balance_of(wallet1), transfer_amount);
    assert_eq!(ledger.balance_of(wallet1), 10000000000);
    assert_eq!(ledger.balance_of(owner), 90000000000);
    assert_eq!(ledger.total_supply(), 100000000000);
}

#[test]
fn delegated_transfer_needs_approval_and_spends_it() {
    let owner = account(1);
    let spender = account(2);
    let receiver = account(3);
    let mut ledger = Ledger::new();
    ledger.initialize("Test Token", "TT", 8, owner).unwrap();
    assert_eq!(ledger.mint(owner, owner, 1000), Ok(true));

    assert_eq!(
        ledger.transfer_from(spender, owner, receiver, 400),
        Err(LedgerError::InsufficientAllowance)
    );
    assert_eq!(ledger.balance_of(owner), 1000);
    assert_eq!(ledger.balance_of(receiver), 0);

    assert!(ledger.approve(owner, spender, 400));
    assert_eq!(ledger.allowance(owner, spender), 400);

    assert_eq!(ledger.transfer_from(spender, owner, receiver, 400), Ok(true));
    assert_eq!(ledger.allowance(owner, spender), 0);
    assert_eq!(ledger.balance_of(owner), 600);
    assert_eq!(ledger.balance_of(receiver), 400);
    assert_eq!(ledger.total_supply(), 1000);

    assert_eq!(
        ledger.transfer_from(spender, owner, receiver, 400),
        Err(LedgerError::InsufficientAllowance)
    );
    assert_eq!(ledger.balance_of(owner), 600);
    assert_eq!(ledger.balance_of(receiver), 400);
}
