//! Pairs of values of any types, boxes of one value, lists, and the largest
//! of a list of numbers.

use vstd::prelude::*;

verus! {

/// A point whose coordinates may be of different types.
pub struct Point<T, U> {
    pub x: T,
    pub y: U,
}

impl<T, U> Point<T, U> {
    /// The first coordinate.
    pub fn x(&self) -> (x: &T)
        ensures
            *x == self.x,
    {
        &self.x
    }

    /// The point with the first coordinate of this one and the second of
    /// `other`.
    pub fn mixup<V, W>(self, other: Point<V, W>) -> (mixed: Point<T, W>)
        ensures
            mixed.x == self.x,
            mixed.y == other.y,
    {
        Point { x: self.x, y: other.y }
    }
}

/// The largest number of a list that is not empty.
pub fn largest(list: &[i32]) -> (max: i32)
    requires
        list@.len() > 0,
    ensures
        exists|i: int| 0 <= i < list@.len() && list@[i] == max,
        forall|i: int| 0 <= i < list@.len() ==> list@[i] <= max,
{
    let mut largest = list[0];
    let mut k: usize = 1;
    while k < list.len()
        invariant
            1 <= k <= list@.len(),
            exists|i: int| 0 <= i < k && list@[i] == largest,
            forall|i: int| 0 <= i < k ==> list@[i] <= largest,
        decreases list@.len() - k,
    {
        if list[k] > largest {
            largest = list[k];
        }
        k += 1;
    }
    largest
}

/// The largest character of a list that is not empty.
pub fn largest_char(list: &[char]) -> (max: char)
    requires
        list@.len() > 0,
    ensures
        exists|i: int| 0 <= i < list@.len() && list@[i] == max,
        forall|i: int| 0 <= i < list@.len() ==> list@[i] <= max,
{
    let mut largest = list[0];
    let mut k: usize = 1;
    while k < list.len()
        invariant
            1 <= k <= list@.len(),
            exists|i: int| 0 <= i < k && list@[i] == largest,
            forall|i: int| 0 <= i < k ==> list@[i] <= largest,
        decreases list@.len() - k,
    {
        if list[k] > largest {
            largest = list[k];
        }
        k += 1;
    }
    largest
}

/// A box of one value.
pub struct MyBox<T>(pub T);

impl<T> MyBox<T> {
    /// The box that holds `x`.
    pub fn new(x: T) -> (b: MyBox<T>)
        ensures
            b.0 == x,
    {
        MyBox(x)
    }

    /// The value in the box.
    pub fn deref(&self) -> (x: &T)
        ensures
            *x == self.0,
    {
        &self.0
    }
}

/// A list of numbers: a number and the rest, or nothing.
pub enum List {
    Cons(i32, Box<List>),
    Nil,
}

impl List {
    /// What follows the first number, where there is one.
    pub fn tail(&self) -> (rest: Option<&List>)
        ensures
            match *self {
                List::Cons(_, item) => rest == Some(&*item),
                List::Nil => rest is None,
            },
    {
        match self {
            List::Cons(_, item) => Some(&**item),
            List::Nil => None,
        }
    }
}

} // verus!
