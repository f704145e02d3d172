use vstd::prelude::*;

verus! {

/// A state whose quarter may turn up in the coin jar.
#[derive(Debug)]
pub enum UsState {
    Alabama,
    Alaska,
}

/// The coins the counting machine accepts.
pub enum Coin {
    Penny,
    Nickel,
    Dime,
    Quarter(UsState),
}

/// The face value of a coin, in cents.
pub open spec fn coin_value(coin: &Coin) -> u8 {
    match coin {
        Coin::Penny => 1,
        Coin::Nickel => 5,
        Coin::Dime => 10,
        Coin::Quarter(_) => 25,
    }
}

/// Counts a coin: every coin is worth its face value, whatever state a
/// quarter celebrates.
pub fn value_in_cents(coin: Coin) -> (v: u8)
    ensures
        v == coin_value(&coin),
{
    match coin {
        Coin::Penny => 1,
        Coin::Nickel => 5,
        Coin::Dime => 10,
        Coin::Quarter(_state) => 25,
    }
}

/// Adds one under an `Option`: `None` stays `None`.
pub fn plus_one(x: Option<i32>) -> (r: Option<i32>)
    requires
        x matches Some(i) ==> i < i32::MAX,
    ensures
        x is None ==> r is None,
        x matches Some(i) ==> r matches Some(j) && j == i + 1,
{
    match x {
        None => None,
        Some(i) => Some(i + 1),
    }
}

/// Subtracts one under an `Option`: `None` stays `None`.
pub fn substract_one(x: Option<i32>) -> (r: Option<i32>)
    requires
        x matches Some(i) ==> i > i32::MIN,
    ensures
        x is None ==> r is None,
        x matches Some(i) ==> r matches Some(j) && j == i - 1,
{
    match x {
        None => None,
        Some(i) => Some(i - 1),
    }
}

} // verus!
