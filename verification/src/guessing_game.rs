//! A game of guessing a secret number.

use rand::Rng;
use vstd::prelude::*;

verus! {

/// What a guess is, held against the secret.
#[derive(Clone, Copy, PartialEq, Eq, Debug, Structural)]
pub enum Verdict {
    TooSmall,
    TooBig,
    Win,
}

/// The verdict on `guess` where the secret is `secret`.
pub open spec fn verdict_of(guess: u32, secret: u32) -> Verdict {
    if guess < secret {
        Verdict::TooSmall
    } else if guess > secret {
        Verdict::TooBig
    } else {
        Verdict::Win
    }
}

/// The generator of random numbers that `rand` keeps for each thread.
#[verifier::external_type_specification]
#[verifier::external_body]
pub struct ExThreadRng(rand::rngs::ThreadRng);

/// `rand::thread_rng` hands out the calling thread's generator. Nothing is
/// claimed of it.
pub assume_specification[ rand::thread_rng ]() -> (rng: rand::rngs::ThreadRng);

/// Calls `Rng::gen_range` on the generator. The contract claims what the
/// crate documents of every outcome: the value is at least `low` and below
/// `high`. The crate panics where `low` is not below `high`, so that is
/// required.
#[verifier::external_body]
fn gen_range(rng: &mut rand::rngs::ThreadRng, low: u32, high: u32) -> (n: u32)
    requires
        low < high,
    ensures
        low <= n < high,
{
    rng.gen_range(low, high)
}

/// A game: the secret number, and whether it has been guessed.
pub struct Game {
    secret: u32,
    won: bool,
}

impl Game {
    /// The secret number.
    pub closed spec fn spec_secret(&self) -> u32 {
        self.secret
    }

    /// Whether the secret has been guessed.
    pub closed spec fn spec_won(&self) -> bool {
        self.won
    }

    /// A new game with a secret drawn at random from 1 to 9.
    pub fn start() -> (game: Game)
        ensures
            1 <= game.spec_secret() < 10,
            !game.spec_won(),
    {
        let mut rng = rand::thread_rng();
        let secret = gen_range(&mut rng, 1, 10);
        Game::with_secret(secret)
    }

    /// A new game with the given secret.
    pub fn with_secret(secret: u32) -> (game: Game)
        ensures
            game.spec_secret() == secret,
            !game.spec_won(),
    {
        Game { secret, won: false }
    }

    /// The secret number.
    pub fn secret(&self) -> (n: u32)
        ensures
            n == self.spec_secret(),
    {
        self.secret
    }

    /// Whether the secret has been guessed.
    pub fn is_won(&self) -> (won: bool)
        ensures
            won == self.spec_won(),
    {
        self.won
    }

    /// Judges a guess. The game is won with the first guess that meets the
    /// secret and stays won.
    pub fn guess(&mut self, guess: u32) -> (verdict: Verdict)
        ensures
            verdict == verdict_of(guess, old(self).spec_secret()),
            final(self).spec_secret() == old(self).spec_secret(),
            final(self).spec_won() == (old(self).spec_won() || guess == old(self).spec_secret()),
    {
        if guess < self.secret {
            Verdict::TooSmall
        } else if guess > self.secret {
            Verdict::TooBig
        } else {
            self.won = true;
            Verdict::Win
        }
    }
}

} // verus!
