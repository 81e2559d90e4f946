//! A validated guess for the number-guessing game, and the comparison that
//! drives one round of it.

use vstd::prelude::*;

verus! {

/// A guess, guaranteed to lie between 1 and 100.
pub struct Guess {
    value: i32,
}

impl Guess {
    /// The number this guess holds.
    pub closed spec fn spec_value(&self) -> i32 {
        self.value
    }

    /// Wraps a number as a guess. Values outside 1..=100 are not guesses:
    /// callers must validate first.
    pub fn new(value: i32) -> (g: Guess)
        requires
            1 <= value <= 100,
        ensures
            g.spec_value() == value,
            1 <= g.spec_value() <= 100,
    {
        Guess { value }
    }

    /// The guessed number.
    pub fn value(&self) -> (v: i32)
        ensures
            v == self.spec_value(),
    {
        self.value
    }
}

/// How one guess compares against the secret number.
#[derive(Debug, PartialEq, Eq, Structural)]
pub enum GuessOutcome {
    TooSmall,
    TooBig,
    Win,
}

/// One round of the game: compare the guess with the secret.
pub fn compare_guess(guess: i32, secret: i32) -> (o: GuessOutcome)
    ensures
        guess < secret ==> o == GuessOutcome::TooSmall,
        guess > secret ==> o == GuessOutcome::TooBig,
        guess == secret ==> o == GuessOutcome::Win,
{
    if guess < secret {
        GuessOutcome::TooSmall
    } else if guess > secret {
        GuessOutcome::TooBig
    } else {
        GuessOutcome::Win
    }
}

} // verus!
