//! A token's configuration: name, symbol and decimals.

use crate::error::LedgerError;
use crate::text::{pad_spec, PaddedAscii};
use vstd::prelude::*;

verus! {

/// Width of a token's name, in characters.
pub const NAME_WIDTH: usize = 16;

/// Width of a token's symbol, in characters.
pub const SYMBOL_WIDTH: usize = 8;

/// A token's configuration as plain text and numbers.
pub struct ConfigView {
    pub name: Seq<char>,
    pub symbol: Seq<char>,
    pub decimals: u8,
}

impl ConfigView {
    /// The configuration with the name padded to 16 characters and the
    /// symbol to 8, or the reason why there is none: the name is looked at
    /// first.
    pub open spec fn new(name: Seq<char>, symbol: Seq<char>, decimals: u8) -> Result<
        ConfigView,
        LedgerError,
    > {
        match (pad_spec(name, NAME_WIDTH as nat), pad_spec(symbol, SYMBOL_WIDTH as nat)) {
            (Err(e), _) => Err(LedgerError::InvalidName(e)),
            (Ok(_), Err(e)) => Err(LedgerError::InvalidSymbol(e)),
            (Ok(name), Ok(symbol)) => Ok(ConfigView { name, symbol, decimals }),
        }
    }
}

/// A token's configuration: set once, by `initialize`.
#[derive(Debug, PartialEq, Eq)]
pub struct Config {
    /// The token's name, padded to 16 characters.
    pub name: PaddedAscii<NAME_WIDTH>,
    /// The token's symbol, padded to 8 characters.
    pub symbol: PaddedAscii<SYMBOL_WIDTH>,
    /// How many decimal places one whole token divides into.
    pub decimals: u8,
}

impl View for Config {
    type V = ConfigView;

    open spec fn view(&self) -> ConfigView {
        ConfigView { name: self.name@, symbol: self.symbol@, decimals: self.decimals }
    }
}

impl Config {
    /// Pads the name to 16 characters and the symbol to 8, with spaces on the
    /// right. A name that is too long or not ASCII is `InvalidName`; with a
    /// good name, such a symbol is `InvalidSymbol`. Any number of decimals
    /// is taken.
    pub fn new(name: &str, symbol: &str, decimals: u8) -> (r: Result<Config, LedgerError>)
        ensures
            match r {
                Ok(config) => ConfigView::new(name@, symbol@, decimals) == Ok::<
                    ConfigView,
                    LedgerError,
                >(config@),
                Err(e) => ConfigView::new(name@, symbol@, decimals) == Err::<
                    ConfigView,
                    LedgerError,
                >(e),
            },
    {
        let name = match PaddedAscii::<NAME_WIDTH>::pad(name) {
            Ok(padded) => padded,
            Err(e) => {
                return Err(LedgerError::InvalidName(e));
            },
        };
        let symbol = match PaddedAscii::<SYMBOL_WIDTH>::pad(symbol) {
            Ok(padded) => padded,
            Err(e) => {
                return Err(LedgerError::InvalidSymbol(e));
            },
        };
        Ok(Config { name, symbol, decimals })
    }
}

impl Clone for Config {
    fn clone(&self) -> (r: Self)
        ensures
            r == *self,
    {
        Config { name: self.name.clone(), symbol: self.symbol.clone(), decimals: self.decimals }
    }
}

} // verus!
