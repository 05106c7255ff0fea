//! A restaurant: guests are seated at the front of the house and served
//! from the back.

use crate::hosting;
use vstd::prelude::*;
use vstd::string::*;

verus! {

/// A breakfast: the guest picks the toast, the kitchen picks the fruit.
pub struct Breakfast {
    pub toast: String,
    seasonal_fruit: String,
}

/// A starter.
#[derive(Clone, Copy, PartialEq, Eq, Debug, Structural)]
pub enum Appetizer {
    Soup,
    Salad,
}

/// The mathematical value of a breakfast.
pub struct BreakfastView {
    pub toast: Seq<char>,
    pub seasonal_fruit: Seq<char>,
}

impl View for Breakfast {
    type V = BreakfastView;

    closed spec fn view(&self) -> BreakfastView {
        BreakfastView { toast: self.toast@, seasonal_fruit: self.seasonal_fruit@ }
    }
}

impl Breakfast {
    /// A summer breakfast with the toast asked for; the fruit is peaches.
    pub fn summer(toast: &str) -> (meal: Breakfast)
        ensures
            meal@ == (BreakfastView { toast: toast@, seasonal_fruit: "peaches"@ }),
    {
        Breakfast { toast: String::from_str(toast), seasonal_fruit: String::from_str("peaches") }
    }

    /// The toast of the breakfast.
    pub fn toast(&self) -> (toast: &str)
        ensures
            toast@ == self@.toast,
    {
        self.toast.as_str()
    }

    /// The fruit that comes with the breakfast.
    pub fn seasonal_fruit(&self) -> (fruit: &str)
        ensures
            fruit@ == self@.seasonal_fruit,
    {
        self.seasonal_fruit.as_str()
    }
}

/// Seats three guests.
pub fn eat_at_restaurant2() {
    hosting::add_to_waitlist();
    hosting::add_to_waitlist();
    hosting::add_to_waitlist();
}

/// Seats three guests and orders a soup and a salad.
pub fn eat_at_restaurant() -> (orders: (Appetizer, Appetizer))
    ensures
        orders == (Appetizer::Soup, Appetizer::Salad),
{
    crate::hosting::add_to_waitlist();
    hosting::add_to_waitlist();
    hosting::add_to_waitlist();

    let order1 = Appetizer::Soup;
    let order2 = Appetizer::Salad;
    (order1, order2)
}

} // verus!
