//! Shoes picked by size, and a counter that counts to five.

use vstd::prelude::*;

verus! {

/// A shoe of some size and style.
#[derive(PartialEq, Debug)]
pub struct Shoe {
    pub size: u32,
    pub style: String,
}

/// Those of `shoes` that have the size `shoe_size`, in their order.
pub fn shoes_in_my_size(shoes: Vec<Shoe>, shoe_size: u32) -> (fitting: Vec<Shoe>)
    ensures
        fitting@ == shoes@.filter(|s: Shoe| s.size == shoe_size),
{
    let mut fitting: Vec<Shoe> = Vec::new();
    let ghost pred = |s: Shoe| s.size == shoe_size;
    let mut i: usize = 0;
    proof {
        reveal(Seq::filter);
        assert(shoes@.take(0) =~= Seq::empty());
    }
    while i < shoes.len()
        invariant
            i <= shoes@.len(),
            pred == (|s: Shoe| s.size == shoe_size),
            fitting@ == shoes@.take(i as int).filter(pred),
        decreases shoes@.len() - i,
    {
        let shoe = &shoes[i];
        if shoe.size == shoe_size {
            fitting.push(Shoe { size: shoe.size, style: shoe.style.clone() });
        }
        proof {
            reveal(Seq::filter);
            let next = shoes@.take(i + 1);
            assert(next.drop_last() =~= shoes@.take(i as int));
            assert(next.last() == shoes@[i as int]);
        }
        i += 1;
    }
    proof {
        assert(shoes@.take(shoes@.len() as int) =~= shoes@);
    }
    fitting
}

/// A counter that yields 1, 2, 3, 4, 5 and then nothing more.
pub struct Counter {
    count: u32,
}

impl View for Counter {
    type V = u32;

    closed spec fn view(&self) -> u32 {
        self.count
    }
}

impl Counter {
    /// A counter that has yielded nothing yet.
    pub fn new() -> (c: Counter)
        ensures
            c@ == 0,
    {
        Counter { count: 0 }
    }

    /// Counts one up and yields the new count while it is below 6.
    pub fn next(&mut self) -> (item: Option<u32>)
        requires
            old(self)@ < u32::MAX,
        ensures
            final(self)@ == old(self)@ + 1,
            item == if final(self)@ < 6 {
                Some(final(self)@)
            } else {
                None
            },
    {
        self.count += 1;
        if self.count < 6 {
            Some(self.count)
        } else {
            None
        }
    }
}

} // verus!
