use vstd::prelude::*;
use vstd::string::StringExecFns;

verus! {

/// Returns its argument plus two.
pub fn add_two(a: i32) -> (r: i32)
    requires
        a + 2 <= i32::MAX,
    ensures
        r == a + 2,
{
    a + 2
}

/// Adds two numbers.
pub fn internal_adder(a: i32, b: i32) -> (r: i32)
    requires
        i32::MIN <= a + b <= i32::MAX,
    ensures
        r == a + b,
{
    a + b
}

/// The value such a call reports, whatever argument it is shown; the
/// caller echoes the argument itself.
pub fn prints_and_returns_10(_a: i32) -> (r: i32)
    ensures
        r == 10,
{
    10
}

/// A friendly greeting that carries the given name.
pub fn greeting(name: &str) -> (r: String)
    ensures
        r@ == "hello "@ + name@ + "!"@,
{
    let mut r = String::from_str("hello ");
    r.append(name);
    r.append("!");
    r
}

/// A guess in the guessing game, checked to lie between 1 and 100.
pub struct Guess {
    value: i32,
}

impl Guess {
    /// The number this guess stands for.
    pub closed spec fn spec_value(&self) -> i32 {
        self.value
    }

    /// Wraps a number as a guess; out-of-range numbers are not guesses.
    pub fn new(value: i32) -> (g: Guess)
        requires
            1 <= value <= 100,
        ensures
            g.spec_value() == value,
    {
        Guess { value }
    }
}

} // verus!
