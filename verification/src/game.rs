//! The decisions of the guessing game: how one guess compares to the
//! hidden target, and the sequence of feedback a scripted series of
//! guesses produces. The surrounding loop that reads lines and prints is
//! not part of the library.

use vstd::prelude::*;

verus! {

/// What the game tells the player about one guess.
#[derive(PartialEq, Eq, Structural, Clone, Copy, Debug)]
pub enum Feedback {
    TooLow,
    TooHigh,
    Correct,
}

/// The feedback a guess earns against a target.
pub open spec fn feedback_spec(guess: int, target: int) -> Feedback {
    if guess < target {
        Feedback::TooLow
    } else if guess > target {
        Feedback::TooHigh
    } else {
        Feedback::Correct
    }
}

/// The feedback sequence of a scripted series of guesses: one entry per
/// guess, stopping right after the first correct one.
pub open spec fn script_spec(guesses: Seq<i32>, target: int) -> Seq<Feedback>
    decreases guesses.len(),
{
    if guesses.len() == 0 {
        Seq::empty()
    } else {
        let f = feedback_spec(guesses[0] as int, target);
        if f == Feedback::Correct {
            seq![f]
        } else {
            seq![f] + script_spec(guesses.drop_first(), target)
        }
    }
}

impl Feedback {
    /// The fixed feedback text of this outcome.
    pub closed spec fn label_spec(self) -> Seq<char> {
        match self {
            Feedback::TooLow => "too low"@,
            Feedback::TooHigh => "too high"@,
            Feedback::Correct => "correct"@,
        }
    }

    /// Renders the feedback as its fixed text.
    pub fn label(&self) -> (r: String)
        ensures
            r@ == self.label_spec(),
    {
        match self {
            Feedback::TooLow => String::from_str("too low"),
            Feedback::TooHigh => String::from_str("too high"),
            Feedback::Correct => String::from_str("correct"),
        }
    }
}

/// Compares a guess to the hidden target: too low below it, too high
/// above it, correct exactly on it.
pub fn guess_feedback(guess: i32, target: i32) -> (r: Feedback)
    ensures
        r == feedback_spec(guess as int, target as int),
{
    if guess < target {
        Feedback::TooLow
    } else if guess > target {
        Feedback::TooHigh
    } else {
        Feedback::Correct
    }
}

/// Plays a scripted game: answers each guess in turn and stops right
/// after the first correct one, exactly as the interactive loop would.
pub fn run_guesses(target: i32, guesses: &Vec<i32>) -> (r: Vec<Feedback>)
    ensures
        r@ == script_spec(guesses@, target as int),
{
    let mut feedbacks: Vec<Feedback> = Vec::new();
    let mut i: usize = 0;
    proof {
        assert(guesses@.skip(0) =~= guesses@);
        assert(feedbacks@ + script_spec(guesses@.skip(0), target as int) =~= script_spec(
            guesses@,
            target as int,
        ));
    }
    while i < guesses.len()
        invariant
            i <= guesses@.len(),
            script_spec(guesses@, target as int) == feedbacks@ + script_spec(
                guesses@.skip(i as int),
                target as int,
            ),
        decreases guesses@.len() - i,
    {
        let f = guess_feedback(guesses[i], target);
        proof {
            let rest = guesses@.skip(i as int);
            assert(rest[0] == guesses@[i as int]);
            assert(rest.drop_first() =~= guesses@.skip(i as int + 1));
        }
        feedbacks.push(f);
        if f == Feedback::Correct {
            proof {
                let rest = guesses@.skip(i as int);
                assert(script_spec(rest, target as int) =~= seq![f]);
                assert(feedbacks@ =~= script_spec(guesses@, target as int));
            }
            return feedbacks;
        }
        i = i + 1;
        proof {
            assert(script_spec(guesses@, target as int) =~= feedbacks@ + script_spec(
                guesses@.skip(i as int),
                target as int,
            ));
        }
    }
    proof {
        assert(guesses@.skip(i as int) =~= Seq::<i32>::empty());
        assert(feedbacks@ =~= script_spec(guesses@, target as int));
    }
    feedbacks
}

} // verus!
