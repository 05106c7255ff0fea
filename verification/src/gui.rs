//! A screen of components that know how to draw themselves.

use vstd::prelude::*;
use vstd::string::*;

verus! {

/// Something that can be drawn. Drawing yields the text that stands for the
/// component on the screen.
pub trait Draw {
    /// The text that stands for the component.
    spec fn drawing(&self) -> Seq<char>;

    fn draw(&self) -> (text: String)
        ensures
            text@ == self.drawing(),
    ;
}

/// A list of components of one kind.
pub struct Screen<T: Draw> {
    pub components: Vec<T>,
}

impl<T: Draw> Screen<T> {
    /// Draws every component, in order.
    pub fn run(&self) -> (out: Vec<String>)
        ensures
            out@.len() == self.components@.len(),
            forall|i: int|
                0 <= i < out@.len() ==> (#[trigger] out@[i])@ == self.components@[i].drawing(),
    {
        let mut out: Vec<String> = Vec::new();
        let mut i: usize = 0;
        while i < self.components.len()
            invariant
                i <= self.components@.len(),
                out@.len() == i,
                forall|k: int|
                    0 <= k < i ==> (#[trigger] out@[k])@ == self.components@[k].drawing(),
            decreases self.components@.len() - i,
        {
            out.push(self.components[i].draw());
            i += 1;
        }
        out
    }
}

/// A button with a label.
pub struct Button {
    pub height: u32,
    pub width: u32,
    pub label: String,
}

impl Draw for Button {
    open spec fn drawing(&self) -> Seq<char> {
        "drawing a button!"@
    }

    fn draw(&self) -> (text: String) {
        String::from_str("drawing a button!")
    }
}

} // verus!
