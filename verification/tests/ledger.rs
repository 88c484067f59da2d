use fungible::address::Address;
use fungible::error::LedgerError;
use fungible::ledger::Ledger;
use fungible::text::TextError;

fn addr(tag: u8) -> Address {
    Address::new([tag; 32])
}

fn started(owner: Address) -> Ledger {
    let mut ledger = Ledger::new();
    ledger.initialize("Coin", "CN", 2, owner).unwrap();
    ledger
}

fn sum_of_balances(ledger: &Ledger, accounts: &[Address]) -> u64 {
    let mut sum = 0u64;
    for account in accounts {
        sum += ledger.balance_of(*account);
    }
    sum
}

#[test]
fn new_ledger_is_blank() {
    let ledger = Ledger::new();
    assert!(ledger.config().is_none());
    assert_eq!(ledger.owner(), None);
    assert_eq!(ledger.total_supply(), 0);
    assert_eq!(ledger.balance_of(addr(1)), 0);
    assert_eq!(ledger.allowance(addr(1), addr(2)), 0);
}

#[test]
fn initialize_sets_config_and_owner() {
    let owner = addr(9);
    let mut ledger = Ledger::new();
    assert_eq!(ledger.initialize("Coin", "CN", 255, owner), Ok(()));
    let config = ledger.config().unwrap();
    assert_eq!(config.name.as_str(), "Coin            ");
    assert_eq!(config.name.as_str().len(), 16);
    assert_eq!(config.symbol.as_str(), "CN      ");
    assert_eq!(config.symbol.as_str().len(), 8);
    assert_eq!(config.decimals, 255);
    assert_eq!(ledger.owner(), Some(owner));
    assert_eq!(ledger.total_supply(), 0);
    assert_eq!(ledger.balance_of(owner), 0);
}

#[test]
fn initialize_twice_is_rejected_and_changes_nothing() {
    let owner = addr(1);
    let other = addr(2);
    let mut ledger = started(owner);
    assert_eq!(ledger.mint(owner, other, 7), Ok(true));
    assert!(ledger.approve(other, owner, 3));

    assert_eq!(
        ledger.initialize("Another", "AN", 4, other),
        Err(LedgerError::AlreadyInitialized)
    );

    let config = ledger.config().unwrap();
    assert_eq!(config.name.as_str(), "Coin            ");
    assert_eq!(config.symbol.as_str(), "CN      ");
    assert_eq!(config.decimals, 2);
    assert_eq!(ledger.owner(), Some(owner));
    assert_eq!(ledger.total_supply(), 7);
    assert_eq!(ledger.balance_of(other), 7);
    assert_eq!(ledger.allowance(other, owner), 3);
}

#[test]
fn already_initialized_comes_before_a_bad_name() {
    let owner = addr(1);
    let mut ledger = started(owner);
    assert_eq!(
        ledger.initialize("a name of more than sixteen bytes", "CN", 2, owner),
        Err(LedgerError::AlreadyInitialized)
    );
}

#[test]
fn initialize_rejects_a_name_that_is_too_long() {
    let mut ledger = Ledger::new();
    assert_eq!(
        ledger.initialize("seventeen chars..", "CN", 2, addr(1)),
        Err(LedgerError::InvalidName(TextError::TooLong))
    );
    assert!(ledger.config().is_none());
    assert_eq!(ledger.owner(), None);
    assert_eq!(ledger.initialize("sixteen chars...", "CN", 2, addr(1)), Ok(()));
    assert_eq!(ledger.config().unwrap().name.as_str(), "sixteen chars...");
}

#[test]
fn initialize_rejects_a_symbol_that_is_too_long() {
    let mut ledger = Ledger::new();
    assert_eq!(
        ledger.initialize("Coin", "NINECHARS", 2, addr(1)),
        Err(LedgerError::InvalidSymbol(TextError::TooLong))
    );
    assert!(ledger.config().is_none());
    assert_eq!(ledger.owner(), None);
}

#[test]
fn initialize_rejects_text_that_is_not_ascii() {
    let mut ledger = Ledger::new();
    assert_eq!(
        ledger.initialize("Cöin", "CN", 2, addr(1)),
        Err(LedgerError::InvalidName(TextError::NotAscii))
    );
    assert_eq!(
        ledger.initialize("Coin", "€", 2, addr(1)),
        Err(LedgerError::InvalidSymbol(TextError::NotAscii))
    );
    assert!(ledger.config().is_none());
}

#[test]
fn a_bad_name_is_reported_before_a_bad_symbol() {
    let mut ledger = Ledger::new();
    assert_eq!(
        ledger.initialize("seventeen chars..", "NINECHARS", 2, addr(1)),
        Err(LedgerError::InvalidName(TextError::TooLong))
    );
}

#[test]
fn initialize_discards_what_was_approved_before() {
    let owner = addr(1);
    let spender = addr(2);
    let mut ledger = Ledger::new();
    assert!(ledger.approve(owner, spender, 5));
    assert_eq!(ledger.allowance(owner, spender), 5);
    assert_eq!(ledger.initialize("Coin", "CN", 2, owner), Ok(()));
    assert_eq!(ledger.allowance(owner, spender), 0);
}

#[test]
fn nobody_can_mint_before_initialize() {
    let mut ledger = Ledger::new();
    assert_eq!(ledger.mint(addr(1), addr(1), 1), Err(LedgerError::NotOwner));
    assert_eq!(ledger.burn(addr(1), addr(1), 0), Err(LedgerError::NotOwner));
    assert_eq!(ledger.total_supply(), 0);
}

#[test]
fn mint_is_for_the_owner_only() {
    let owner = addr(1);
    let other = addr(2);
    let mut ledger = started(owner);
    assert_eq!(ledger.mint(other, other, 10), Err(LedgerError::NotOwner));
    assert_eq!(ledger.balance_of(other), 0);
    assert_eq!(ledger.total_supply(), 0);
    assert_eq!(ledger.mint(owner, other, 10), Ok(true));
    assert_eq!(ledger.balance_of(other), 10);
    assert_eq!(ledger.balance_of(owner), 0);
    assert_eq!(ledger.total_supply(), 10);
}

#[test]
fn mint_adds_to_what_is_there() {
    let owner = addr(1);
    let mut ledger = started(owner);
    assert_eq!(ledger.mint(owner, owner, 10), Ok(true));
    assert_eq!(ledger.mint(owner, owner, 32), Ok(true));
    assert_eq!(ledger.balance_of(owner), 42);
    assert_eq!(ledger.total_supply(), 42);
}

#[test]
fn mint_rejects_overflow_of_the_supply() {
    let owner = addr(1);
    let other = addr(2);
    let mut ledger = started(owner);
    assert_eq!(ledger.mint(owner, owner, u64::MAX - 1), Ok(true));
    assert_eq!(ledger.mint(owner, other, 2), Err(LedgerError::Overflow));
    assert_eq!(ledger.balance_of(other), 0);
    assert_eq!(ledger.balance_of(owner), u64::MAX - 1);
    assert_eq!(ledger.total_supply(), u64::MAX - 1);
    assert_eq!(ledger.mint(owner, other, 1), Ok(true));
    assert_eq!(ledger.total_supply(), u64::MAX);
    assert_eq!(ledger.mint(owner, other, 0), Ok(true));
    assert_eq!(ledger.total_supply(), u64::MAX);
}

#[test]
fn mint_rejects_overflow_of_the_balance() {
    let owner = addr(1);
    let mut ledger = started(owner);
    assert_eq!(ledger.mint(owner, owner, u64::MAX), Ok(true));
    assert_eq!(ledger.mint(owner, owner, 1), Err(LedgerError::Overflow));
    assert_eq!(ledger.balance_of(owner), u64::MAX);
    assert_eq!(ledger.total_supply(), u64::MAX);
}

#[test]
fn burn_is_for_the_owner_only() {
    let owner = addr(1);
    let other = addr(2);
    let mut ledger = started(owner);
    assert_eq!(ledger.mint(owner, other, 10), Ok(true));
    assert_eq!(ledger.burn(other, other, 4), Err(LedgerError::NotOwner));
    assert_eq!(ledger.balance_of(other), 10);
    assert_eq!(ledger.burn(owner, other, 4), Ok(true));
    assert_eq!(ledger.balance_of(other), 6);
    assert_eq!(ledger.total_supply(), 6);
}

#[test]
fn burn_needs_the_balance() {
    let owner = addr(1);
    let other = addr(2);
    let mut ledger = started(owner);
    assert_eq!(ledger.mint(owner, owner, 10), Ok(true));
    assert_eq!(ledger.mint(owner, other, 3), Ok(true));
    assert_eq!(ledger.burn(owner, other, 4), Err(LedgerError::InsufficientBalance));
    assert_eq!(ledger.balance_of(other), 3);
    assert_eq!(ledger.total_supply(), 13);
    assert_eq!(ledger.burn(owner, other, 3), Ok(true));
    assert_eq!(ledger.balance_of(other), 0);
    assert_eq!(ledger.total_supply(), 10);
}

#[test]
fn not_owner_comes_before_the_other_rejections() {
    let owner = addr(1);
    let other = addr(2);
    let mut ledger = started(owner);
    assert_eq!(ledger.mint(owner, owner, u64::MAX), Ok(true));
    assert_eq!(ledger.mint(other, owner, 1), Err(LedgerError::NotOwner));
    assert_eq!(ledger.burn(other, other, 1), Err(LedgerError::NotOwner));
}

#[test]
fn mint_then_burn_restores_balance_and_supply() {
    let owner = addr(1);
    let holder = addr(2);
    let mut ledger = started(owner);
    assert_eq!(ledger.mint(owner, holder, 500), Ok(true));
    assert_eq!(ledger.mint(owner, owner, 20), Ok(true));
    let balance = ledger.balance_of(holder);
    let supply = ledger.total_supply();

    assert_eq!(ledger.mint(owner, holder, 123), Ok(true));
    assert_eq!(ledger.balance_of(holder), 623);
    assert_eq!(ledger.total_supply(), 643);
    assert_eq!(ledger.burn(owner, holder, 123), Ok(true));

    assert_eq!(ledger.balance_of(holder), balance);
    assert_eq!(ledger.total_supply(), supply);
    assert_eq!(ledger.balance_of(owner), 20);
}

#[test]
fn transfer_of_the_whole_balance_leaves_nothing() {
    let owner = addr(1);
    let to = addr(2);
    let mut ledger = started(owner);
    assert_eq!(ledger.mint(owner, owner, 77), Ok(true));
    let all = ledger.balance_of(owner);
    assert_eq!(ledger.transfer(owner, to, all), Ok(true));
    assert_eq!(ledger.balance_of(owner), 0);
    assert_eq!(ledger.balance_of(to), 77);
    assert_eq!(ledger.total_supply(), 77);
}

#[test]
fn transfer_of_one_more_than_the_balance_is_rejected() {
    let owner = addr(1);
    let to = addr(2);
    let mut ledger = started(owner);
    assert_eq!(ledger.mint(owner, owner, 77), Ok(true));
    assert_eq!(ledger.mint(owner, to, 5), Ok(true));
    let all = ledger.balance_of(owner);
    assert_eq!(
        ledger.transfer(owner, to, all + 1),
        Err(LedgerError::InsufficientBalance)
    );
    assert_eq!(ledger.balance_of(owner), 77);
    assert_eq!(ledger.balance_of(to), 5);
    assert_eq!(ledger.total_supply(), 82);
}

#[test]
fn transfer_from_an_account_that_holds_nothing() {
    let owner = addr(1);
    let mut ledger = started(owner);
    assert_eq!(
        ledger.transfer(addr(5), addr(6), 1),
        Err(LedgerError::InsufficientBalance)
    );
    assert_eq!(ledger.transfer(addr(5), addr(6), 0), Ok(true));
    assert_eq!(ledger.balance_of(addr(5)), 0);
    assert_eq!(ledger.balance_of(addr(6)), 0);
    assert_eq!(ledger.total_supply(), 0);
}

#[test]
fn transfer_to_oneself_changes_nothing_but_needs_the_balance() {
    let owner = addr(1);
    let mut ledger = started(owner);
    assert_eq!(ledger.mint(owner, owner, 10), Ok(true));
    assert_eq!(ledger.transfer(owner, owner, 10), Ok(true));
    assert_eq!(ledger.balance_of(owner), 10);
    assert_eq!(ledger.transfer(owner, owner, 4), Ok(true));
    assert_eq!(ledger.balance_of(owner), 10);
    assert_eq!(
        ledger.transfer(owner, owner, 11),
        Err(LedgerError::InsufficientBalance)
    );
    assert_eq!(ledger.balance_of(owner), 10);
    assert_eq!(ledger.total_supply(), 10);
}

#[test]
fn transfer_of_the_whole_supply_cannot_overflow() {
    let owner = addr(1);
    let to = addr(2);
    let mut ledger = started(owner);
    assert_eq!(ledger.mint(owner, owner, u64::MAX), Ok(true));
    assert_eq!(ledger.transfer(owner, to, u64::MAX), Ok(true));
    assert_eq!(ledger.balance_of(to), u64::MAX);
    assert_eq!(ledger.balance_of(owner), 0);
    assert_eq!(ledger.transfer(to, to, u64::MAX), Ok(true));
    assert_eq!(ledger.balance_of(to), u64::MAX);
    assert_eq!(ledger.total_supply(), u64::MAX);
}

#[test]
fn approve_overwrites_the_allowance() {
    let owner = addr(1);
    let spender = addr(2);
    let mut ledger = started(owner);
    assert!(ledger.approve(owner, spender, 100));
    assert_eq!(ledger.allowance(owner, spender), 100);
    assert!(ledger.approve(owner, spender, 30));
    assert_eq!(ledger.allowance(owner, spender), 30);
    assert!(ledger.approve(owner, spender, 0));
    assert_eq!(ledger.allowance(owner, spender), 0);
    assert!(ledger.approve(owner, spender, u64::MAX));
    assert_eq!(ledger.allowance(owner, spender), u64::MAX);
}

#[test]
fn allowances_are_kept_by_owner_and_spender() {
    let a = addr(1);
    let b = addr(2);
    let c = addr(3);
    let mut ledger = started(a);
    assert!(ledger.approve(a, b, 10));
    assert!(ledger.approve(b, a, 20));
    assert!(ledger.approve(a, c, 30));
    assert_eq!(ledger.allowance(a, b), 10);
    assert_eq!(ledger.allowance(b, a), 20);
    assert_eq!(ledger.allowance(a, c), 30);
    assert_eq!(ledger.allowance(c, a), 0);
    assert_eq!(ledger.allowance(b, c), 0);
    assert_eq!(ledger.balance_of(a), 0);
    assert_eq!(ledger.total_supply(), 0);
}

#[test]
fn transfer_from_checks_the_allowance_before_the_balance() {
    let owner = addr(1);
    let from = addr(2);
    let spender = addr(3);
    let to = addr(4);
    let mut ledger = started(owner);
    assert_eq!(ledger.mint(owner, from, 5), Ok(true));
    assert!(ledger.approve(from, spender, 8));

    assert_eq!(
        ledger.transfer_from(spender, from, to, 9),
        Err(LedgerError::InsufficientAllowance)
    );
    assert_eq!(
        ledger.transfer_from(spender, from, to, 8),
        Err(LedgerError::InsufficientBalance)
    );
    assert_eq!(ledger.allowance(from, spender), 8);
    assert_eq!(ledger.balance_of(from), 5);
    assert_eq!(ledger.balance_of(to), 0);

    assert_eq!(ledger.transfer_from(spender, from, to, 5), Ok(true));
    assert_eq!(ledger.allowance(from, spender), 3);
    assert_eq!(ledger.balance_of(from), 0);
    assert_eq!(ledger.balance_of(to), 5);
    assert_eq!(ledger.total_supply(), 5);
}

#[test]
fn transfer_from_uses_the_allowance_of_the_caller_only() {
    let owner = addr(1);
    let spender = addr(2);
    let stranger = addr(3);
    let mut ledger = started(owner);
    assert_eq!(ledger.mint(owner, owner, 50), Ok(true));
    assert!(ledger.approve(owner, spender, 20));
    assert_eq!(
        ledger.transfer_from(stranger, owner, stranger, 1),
        Err(LedgerError::InsufficientAllowance)
    );
    assert_eq!(
        ledger.transfer_from(owner, spender, owner, 1),
        Err(LedgerError::InsufficientAllowance)
    );
    assert_eq!(ledger.transfer_from(spender, owner, spender, 20), Ok(true));
    assert_eq!(ledger.balance_of(spender), 20);
    assert_eq!(ledger.balance_of(owner), 30);
    assert_eq!(ledger.allowance(owner, spender), 0);
}

#[test]
fn balances_add_up_to_the_supply_after_every_call() {
    let owner = addr(1);
    let a = addr(2);
    let b = addr(3);
    let everyone = [owner, a, b];
    let mut ledger = Ledger::new();
    assert_eq!(sum_of_balances(&ledger, &everyone), ledger.total_supply());

    ledger.initialize("Coin", "CN", 2, owner).unwrap();
    assert_eq!(sum_of_balances(&ledger, &everyone), ledger.total_supply());

    assert_eq!(ledger.mint(owner, owner, 1000), Ok(true));
    assert_eq!(sum_of_balances(&ledger, &everyone), 1000);
    assert_eq!(ledger.total_supply(), 1000);

    assert_eq!(ledger.transfer(owner, a, 250), Ok(true));
    assert_eq!(sum_of_balances(&ledger, &everyone), ledger.total_supply());

    assert!(ledger.approve(a, b, 100));
    assert_eq!(ledger.transfer_from(b, a, b, 60), Ok(true));
    assert_eq!(sum_of_balances(&ledger, &everyone), ledger.total_supply());

    assert_eq!(ledger.burn(owner, a, 90), Ok(true));
    assert_eq!(sum_of_balances(&ledger, &everyone), 910);
    assert_eq!(ledger.total_supply(), 910);

    assert_eq!(ledger.burn(owner, a, 1000), Err(LedgerError::InsufficientBalance));
    assert_eq!(ledger.transfer(b, a, 61), Err(LedgerError::InsufficientBalance));
    assert_eq!(sum_of_balances(&ledger, &everyone), 910);
    assert_eq!(ledger.total_supply(), 910);

    assert_eq!(ledger.balance_of(owner), 750);
    assert_eq!(ledger.balance_of(a), 100);
    assert_eq!(ledger.balance_of(b), 60);
}

#[test]
fn two_ledgers_do_not_share_state() {
    let owner = addr(1);
    let mut first = started(owner);
    let mut second = started(owner);
    assert_eq!(first.mint(owner, owner, 5), Ok(true));
    assert_eq!(second.balance_of(owner), 0);
    assert_eq!(second.mint(owner, owner, 9), Ok(true));
    assert_eq!(first.balance_of(owner), 5);
    assert_eq!(second.total_supply(), 9);
}

#[test]
fn config_can_be_cloned_and_compared() {
    let ledger = started(addr(1));
    let config = ledger.config().unwrap().clone();
    assert_eq!(&config, ledger.config().unwrap());
    assert_eq!(config.name.as_str(), "Coin            ");
    assert_eq!(config.decimals, 2);
}

#[test]
fn default_ledger_is_a_new_ledger() {
    let mut ledger = Ledger::default();
    assert!(ledger.config().is_none());
    assert_eq!(ledger.owner(), None);
    assert_eq!(ledger.total_supply(), 0);
    assert_eq!(ledger.initialize("Coin", "CN", 2, addr(1)), Ok(()));
    assert_eq!(ledger.owner(), Some(addr(1)));
}
