//! One-line summaries of things worth reading.

use vstd::prelude::*;
use vstd::string::*;

verus! {

/// Something that can be summed up in a line.
pub trait Summary {
    /// The summary, as a text.
    spec fn summary(&self) -> Seq<char>;

    fn summarize(&self) -> (line: String)
        ensures
            line@ == self.summary(),
    ;
}

/// An article in a newspaper.
pub struct NewsArticle {
    pub headline: String,
    pub location: String,
    pub author: String,
    pub content: String,
}

impl Summary for NewsArticle {
    open spec fn summary(&self) -> Seq<char> {
        "News: "@ + self.headline@ + ", by "@ + self.author@ + " ("@ + self.location@ + ")"@
    }

    fn summarize(&self) -> (line: String) {
        String::from_str("News: ").concat(self.headline.as_str()).concat(", by ").concat(
            self.author.as_str(),
        ).concat(" (").concat(self.location.as_str()).concat(")")
    }
}

/// A short message.
pub struct Tweet {
    pub username: String,
    pub content: String,
    pub reply: bool,
    pub retweet: bool,
}

impl Summary for Tweet {
    open spec fn summary(&self) -> Seq<char> {
        "Tweet: "@ + self.username@ + ": "@ + self.content@
    }

    fn summarize(&self) -> (line: String) {
        String::from_str("Tweet: ").concat(self.username.as_str()).concat(": ").concat(
            self.content.as_str(),
        )
    }
}

/// The announcement of `item`: its summary behind the words "Breaking news!".
pub fn notify<T: Summary>(item: &T) -> (line: String)
    ensures
        line@ == "Breaking news! "@ + item.summary(),
{
    let summary = item.summarize();
    String::from_str("Breaking news! ").concat(summary.as_str())
}

} // verus!
