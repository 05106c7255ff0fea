//! Small functions with exact answers: a greeting, a guess within bounds, a
//! rectangle that holds a smaller one.

use vstd::prelude::*;
use vstd::string::*;

verus! {

/// A rectangle with sides of whole length.
#[derive(Clone, Copy, Debug)]
pub struct Rectangle {
    pub width: u32,
    pub height: u32,
}

impl Rectangle {
    /// Whether `other` fits into this rectangle with room to spare: this one
    /// is both wider and higher.
    pub fn can_hold(&self, other: &Rectangle) -> (fits: bool)
        ensures
            fits == (self.width > other.width && self.height > other.height),
    {
        self.width > other.width && self.height > other.height
    }
}

/// A greeting for `name`.
pub fn greetings(name: &str) -> (text: String)
    ensures
        text@ == "Yo "@ + name@ + "!"@,
{
    String::from_str("Yo ").concat(name).concat("!")
}

/// A guess between 1 and 100.
pub struct Guess {
    value: i32,
}

impl Guess {
    /// The number guessed.
    pub closed spec fn spec_value(&self) -> i32 {
        self.value
    }

    /// Every guess lies between 1 and 100.
    pub open spec fn wf(&self) -> bool {
        1 <= self.spec_value() <= 100
    }

    /// The guess of `value`, which lies between 1 and 100.
    pub fn new(value: i32) -> (g: Guess)
        requires
            1 <= value <= 100,
        ensures
            g.wf(),
            g.spec_value() == value,
    {
        Guess { value }
    }

    /// The guess of `value`, which lies between 1 and 100.
    pub fn new_2(value: i32) -> (g: Guess)
        requires
            1 <= value <= 100,
        ensures
            g.wf(),
            g.spec_value() == value,
    {
        Guess { value }
    }

    /// The number guessed.
    pub fn value(&self) -> (v: i32)
        ensures
            v == self.spec_value(),
    {
        self.value
    }
}

/// Yields 10, whatever it is given.
pub fn prints_and_returns(a: i32) -> (r: i32)
    ensures
        r == 10,
{
    10
}

} // verus!
