//! Coins and their face values.

use vstd::prelude::*;

verus! {

/// The four coins.
#[derive(Debug, PartialEq, Eq, Structural)]
pub enum Coin {
    Penny,
    Nickel,
    Dime,
    Quarter,
}

/// A coin's face value in cents.
pub open spec fn spec_coin_value(coin: Coin) -> u8 {
    match coin {
        Coin::Penny => 1u8,
        Coin::Nickel => 5u8,
        Coin::Dime => 10u8,
        Coin::Quarter => 25u8,
    }
}

/// The face value of a coin in cents.
pub fn value_in_cents(coin: Coin) -> (v: u8)
    ensures
        v == spec_coin_value(coin),
{
    match coin {
        Coin::Penny => 1,
        Coin::Nickel => 5,
        Coin::Dime => 10,
        Coin::Quarter => 25,
    }
}

} // verus!
