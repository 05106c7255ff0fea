//! A blog post that moves from draft through review to publication, and
//! shows its text only once it is published.

use vstd::prelude::*;
use vstd::string::*;

verus! {

/// Where a post stands on its way to publication.
#[derive(Clone, Copy, PartialEq, Eq, Debug, Structural)]
pub enum State {
    Draft,
    PendingReview,
    Published,
}

impl State {
    /// The state that a request for review leads to: a draft goes to review,
    /// every other state stays.
    pub open spec fn reviewed(self) -> State {
        match self {
            State::Draft => State::PendingReview,
            s => s,
        }
    }

    /// The state that an approval leads to: a post under review is published,
    /// every other state stays.
    pub open spec fn approved(self) -> State {
        match self {
            State::PendingReview => State::Published,
            s => s,
        }
    }

    /// What a post in this state shows of `text`.
    pub open spec fn shown(self, text: Seq<char>) -> Seq<char> {
        match self {
            State::Published => text,
            _ => Seq::empty(),
        }
    }

    fn request_review(self) -> (next: State)
        ensures
            next == self.reviewed(),
    {
        match self {
            State::Draft => State::PendingReview,
            s => s,
        }
    }

    fn approve(self) -> (next: State)
        ensures
            next == self.approved(),
    {
        match self {
            State::PendingReview => State::Published,
            s => s,
        }
    }

    fn content<'a>(self, text: &'a str) -> (shown: &'a str)
        ensures
            shown@ == self.shown(text@),
    {
        match self {
            State::Published => text,
            _ => {
                proof {
                    reveal_strlit("");
                }
                assert(""@ =~= Seq::<char>::empty());
                ""
            },
        }
    }
}

/// The mathematical value of a post.
pub struct PostView {
    pub state: State,
    pub text: Seq<char>,
}

/// A post: its text and its state.
pub struct Post {
    state: State,
    content: String,
}

impl View for Post {
    type V = PostView;

    closed spec fn view(&self) -> PostView {
        PostView { state: self.state, text: self.content@ }
    }
}

impl Post {
    /// An empty draft.
    pub fn new() -> (post: Post)
        ensures
            post@ == (PostView { state: State::Draft, text: Seq::empty() }),
    {
        Post { state: State::Draft, content: String::new() }
    }

    /// The state of the post.
    pub fn state(&self) -> (s: State)
        ensures
            s == self@.state,
    {
        self.state
    }

    /// What the post shows: its text once it is published, nothing before.
    pub fn content(&self) -> (shown: &str)
        ensures
            shown@ == self@.state.shown(self@.text),
    {
        self.state.content(self.content.as_str())
    }

    /// Appends `text` to the post's text, in whatever state the post is.
    pub fn add_text(&mut self, text: &str)
        ensures
            final(self)@ == (PostView { state: old(self)@.state, text: old(self)@.text + text@ }),
    {
        self.content.append(text);
    }

    /// Asks for a review: a draft goes to review, nothing else changes.
    pub fn request_review(&mut self)
        ensures
            final(self)@ == (PostView {
                state: old(self)@.state.reviewed(),
                text: old(self)@.text,
            }),
    {
        self.state = self.state.request_review();
    }

    /// Approves the post: a post under review is published, nothing else
    /// changes.
    pub fn approve(&mut self)
        ensures
            final(self)@ == (PostView {
                state: old(self)@.state.approved(),
                text: old(self)@.text,
            }),
    {
        self.state = self.state.approve();
    }
}

/// A post is published by a request for review followed by an approval, and
/// by no shorter way: an approval alone leaves a draft a draft.
pub proof fn law_review_before_approval(s: State)
    ensures
        State::Draft.reviewed().approved() == State::Published,
        State::Draft.approved() == State::Draft,
        s.reviewed().reviewed() == s.reviewed(),
        s.approved().approved() == s.approved(),
        State::Published.reviewed() == State::Published,
        State::Published.approved() == State::Published,
{
}

} // verus!
