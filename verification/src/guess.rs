//! Guess the number: a secret between 1 and 100, and eight tries to find it.
//!
//! The game decides; its caller shows the texts and fetches the lines.

use crate::chance::random_between;
use crate::input::{bound, bounded, trimmed};
use crate::text::{clear_screen, decimal, decimal_text};
use vstd::prelude::*;
use vstd::string::*;

verus! {

/// Shown when a line holds no guess.
pub const INVALID_GUESS_MESSAGE: &'static str = "You must input a valid guess between 1 and 100";

/// The number of tries that a game starts with.
pub const TRIES: u8 = 8;

/// How a game of guessing stands.
#[derive(Copy, Clone, PartialEq, Eq, Debug, Structural)]
pub enum Progress {
    /// Tries are left and the secret is not found.
    Playing,
    /// The secret was guessed.
    Won,
    /// The last try was spent on a wrong guess.
    Lost,
}

/// A game of guessing as a value: the secret, the tries not yet spent, and
/// how the game stands.
pub struct Guessing {
    pub secret: u8,
    pub tries_left: nat,
    pub progress: Progress,
}

/// A game that has just begun.
pub open spec fn opening(secret: u8) -> Guessing {
    Guessing { secret, tries_left: TRIES as nat, progress: Progress::Playing }
}

/// The game after one guess. A guess spends a try; the right one wins, a
/// wrong one loses when it was the last try. A game that is over takes no
/// guess.
pub open spec fn guessed(g: Guessing, guess: u8) -> Guessing {
    if g.progress != Progress::Playing || g.tries_left == 0 {
        g
    } else {
        let tries_left = (g.tries_left - 1) as nat;
        if guess == g.secret {
            Guessing { secret: g.secret, tries_left, progress: Progress::Won }
        } else if tries_left == 0 {
            Guessing { secret: g.secret, tries_left, progress: Progress::Lost }
        } else {
            Guessing { secret: g.secret, tries_left, progress: Progress::Playing }
        }
    }
}

/// The game after a run of guesses, made in order.
pub open spec fn after_guesses(g: Guessing, guesses: Seq<u8>) -> Guessing
    decreases guesses.len(),
{
    if guesses.len() == 0 {
        g
    } else {
        guessed(after_guesses(g, guesses.drop_last()), guesses.last())
    }
}

/// What is said at the start of a game.
pub open spec fn welcome_text(tries_left: nat) -> Seq<char> {
    "\x1B[2J\x1B[H"@ + "Welcome to Guess The Number!\n"@ + "The number is between 1 and 100\n"@
        + "You have "@ + decimal_text(tries_left) + " tries to guess the number\n"@
        + "Have a guess: \n"@
}

/// How a guess compares with the secret, in words.
pub open spec fn comparison_text(secret: u8, guess: u8) -> Seq<char> {
    if guess < secret {
        decimal_text(guess as nat) + " is lower than the secret number.\n"@
    } else if guess > secret {
        decimal_text(guess as nat) + " is higher than the secret number.\n"@
    } else {
        decimal_text(guess as nat) + " is the correct number! You WIN!!!\n"@
    }
}

/// What is said in answer to a guess made in game `g`: the terminal wiped,
/// the comparison, and then the tries left with a call for the next guess,
/// or the words that end the game. A game that is over says nothing.
pub open spec fn reply_text(g: Guessing, guess: u8) -> Seq<char> {
    let after = guessed(g, guess);
    if g.progress != Progress::Playing || g.tries_left == 0 {
        Seq::empty()
    } else {
        "\x1B[2J\x1B[H"@ + comparison_text(g.secret, guess) + match after.progress {
            Progress::Won => "You guessed the number with "@ + decimal_text(after.tries_left)
                + " tries left\n"@ + "Press ENTER to return\n"@,
            Progress::Lost => "Unfortunately you failed to guess the numbes\n"@
                + "Better luck next time!\n"@ + "Press ENTER to return\n"@,
            Progress::Playing => "You have "@ + decimal_text(after.tries_left)
                + " tries left to guess the number\n"@ + "Have another guess: \n"@,
        }
    }
}

/// Reads a guess, a number from 1 to 100, from a typed line. `None` asks
/// for another line with `INVALID_GUESS_MESSAGE`, and spends no try.
pub fn read_guess(line: &str) -> (r: Option<u8>)
    ensures
        r == bounded(trimmed(line@), 1, 101),
        r matches Some(n) ==> 1 <= n <= 100,
{
    bound(line, 1, 101)
}

/// A game of guessing in progress.
pub struct GuessTheNumber {
    secret_number: u8,
    remaining_tries: u8,
    progress: Progress,
}

impl View for GuessTheNumber {
    type V = Guessing;

    closed spec fn view(&self) -> Guessing {
        Guessing {
            secret: self.secret_number,
            tries_left: self.remaining_tries as nat,
            progress: self.progress,
        }
    }
}

impl GuessTheNumber {
    /// What holds of every game in progress: the secret lies between 1 and
    /// 100, at most eight tries are left, and tries are left exactly while
    /// the game is neither won nor lost with none.
    pub open spec fn wf(&self) -> bool {
        &&& 1 <= self@.secret <= 100
        &&& self@.tries_left <= TRIES
        &&& self@.progress == Progress::Playing ==> self@.tries_left > 0
        &&& self@.progress == Progress::Lost ==> self@.tries_left == 0
    }

    /// A new game with a secret drawn at random between 1 and 100.
    pub fn start() -> (game: Self)
        ensures
            game.wf(),
            game@ == opening(game@.secret),
    {
        let secret_number = random_between(1, 100) as u8;
        GuessTheNumber { secret_number, remaining_tries: TRIES, progress: Progress::Playing }
    }

    /// A new game with the given secret, if that lies between 1 and 100.
    pub fn with_secret(secret: u8) -> (r: Option<Self>)
        ensures
            r is Some <==> 1 <= secret <= 100,
            r matches Some(game) ==> game.wf() && game@ == opening(secret),
    {
        if 1 <= secret && secret <= 100 {
            Some(
                GuessTheNumber {
                    secret_number: secret,
                    remaining_tries: TRIES,
                    progress: Progress::Playing,
                },
            )
        } else {
            None
        }
    }

    /// The tries not yet spent.
    pub fn remaining_tries(&self) -> (n: u8)
        ensures
            n == self@.tries_left,
    {
        self.remaining_tries
    }

    /// How the game stands.
    pub fn progress(&self) -> (p: Progress)
        ensures
            p == self@.progress,
    {
        self.progress
    }

    /// The text that opens the game.
    pub fn welcome(&self) -> (s: String)
        ensures
            s@ == welcome_text(self@.tries_left),
    {
        let mut s = String::from_str(clear_screen());
        s.append("Welcome to Guess The Number!\n");
        s.append("The number is between 1 and 100\n");
        s.append("You have ");
        s.append(decimal(self.remaining_tries).as_str());
        s.append(" tries to guess the number\n");
        s.append("Have a guess: \n");
        s
    }

    /// Takes a guess and answers it: the game moves on as `guessed` says,
    /// and the text to show comes back.
    pub fn guess(&mut self, guess: u8) -> (s: String)
        requires
            old(self).wf(),
        ensures
            final(self).wf(),
            final(self)@ == guessed(old(self)@, guess),
            s@ == reply_text(old(self)@, guess),
    {
        let mut s = String::new();
        if self.progress != Progress::Playing || self.remaining_tries == 0 {
            return s;
        }
        self.remaining_tries -= 1;
        s.append(clear_screen());
        s.append(decimal(guess).as_str());
        if guess < self.secret_number {
            s.append(" is lower than the secret number.\n");
        } else if guess > self.secret_number {
            s.append(" is higher than the secret number.\n");
        } else {
            s.append(" is the correct number! You WIN!!!\n");
            s.append("You guessed the number with ");
            s.append(decimal(self.remaining_tries).as_str());
            s.append(" tries left\n");
            s.append("Press ENTER to return\n");
            self.progress = Progress::Won;
            return s;
        }
        if self.remaining_tries == 0 {
            s.append("Unfortunately you failed to guess the numbes\n");
            s.append("Better luck next time!\n");
            s.append("Press ENTER to return\n");
            self.progress = Progress::Lost;
            return s;
        }
        s.append("You have ");
        s.append(decimal(self.remaining_tries).as_str());
        s.append(" tries left to guess the number\n");
        s.append("Have another guess: \n");
        s
    }
}

/// Whether one of the first `n` guesses, and of the first eight, is the
/// secret.
pub open spec fn hit_within(secret: u8, guesses: Seq<u8>, n: int) -> bool {
    exists|i: int| 0 <= i < n && i < TRIES && i < guesses.len() && guesses[i] == secret
}

/// Where a game stands after the first `n` of a run of guesses: won once
/// the secret was among the first eight, lost after eight misses, and open
/// before that with a try spent per guess.
proof fn lemma_after_prefix(secret: u8, guesses: Seq<u8>, n: int)
    requires
        0 <= n <= guesses.len(),
    ensures
        ({
            let g = after_guesses(opening(secret), guesses.take(n));
            &&& g.secret == secret
            &&& hit_within(secret, guesses, n) ==> g.progress == Progress::Won
            &&& !hit_within(secret, guesses, n) && n >= TRIES ==> g.progress == Progress::Lost
                && g.tries_left == 0
            &&& !hit_within(secret, guesses, n) && n < TRIES ==> g.progress == Progress::Playing
                && g.tries_left == TRIES - n
        }),
    decreases n,
{
    if n == 0 {
        assert(guesses.take(0) =~= Seq::empty());
    } else {
        lemma_after_prefix(secret, guesses, n - 1);
        assert(guesses.take(n).drop_last() =~= guesses.take(n - 1));
        assert(guesses.take(n).last() == guesses[n - 1]);
        if hit_within(secret, guesses, n - 1) {
            let i = choose|i: int|
                0 <= i < n - 1 && i < TRIES && i < guesses.len() && guesses[i] == secret;
            assert(0 <= i < n && i < TRIES && i < guesses.len() && guesses[i] == secret);
        } else if n - 1 < TRIES && guesses[n - 1] == secret {
            assert(0 <= n - 1 < n && n - 1 < TRIES && n - 1 < guesses.len() && guesses[n - 1]
                == secret);
        } else {
            assert forall|i: int|
                0 <= i < n && i < TRIES && i < guesses.len() implies guesses[i] != secret by {
                if i < n - 1 {
                    assert(!(0 <= i < n - 1 && i < TRIES && i < guesses.len() && guesses[i]
                        == secret));
                }
            }
        }
    }
}

/// A game is lost exactly when the player makes eight guesses that all
/// miss the secret: whatever is typed after them changes nothing.
pub proof fn law_lost_iff_eight_misses(secret: u8, guesses: Seq<u8>)
    ensures
        after_guesses(opening(secret), guesses).progress == Progress::Lost <==> guesses.len()
            >= TRIES && forall|i: int| 0 <= i < TRIES ==> guesses[i] != secret,
{
    lemma_after_prefix(secret, guesses, guesses.len() as int);
    assert(guesses.take(guesses.len() as int) =~= guesses);
    if hit_within(secret, guesses, guesses.len() as int) {
        let i = choose|i: int|
            0 <= i < guesses.len() && i < TRIES && i < guesses.len() && guesses[i] == secret;
        assert(guesses[i] == secret);
    }
}

/// A game is won exactly when the secret is among the first eight guesses.
pub proof fn law_won_iff_hit_in_eight(secret: u8, guesses: Seq<u8>)
    ensures
        after_guesses(opening(secret), guesses).progress == Progress::Won <==> exists|i: int|
            0 <= i < TRIES && i < guesses.len() && guesses[i] == secret,
{
    lemma_after_prefix(secret, guesses, guesses.len() as int);
    assert(guesses.take(guesses.len() as int) =~= guesses);
    if hit_within(secret, guesses, guesses.len() as int) {
        let i = choose|i: int|
            0 <= i < guesses.len() && i < TRIES && i < guesses.len() && guesses[i] == secret;
        assert(0 <= i < TRIES && i < guesses.len() && guesses[i] == secret);
    }
    if exists|i: int| 0 <= i < TRIES && i < guesses.len() && guesses[i] == secret {
        let i = choose|i: int| 0 <= i < TRIES && i < guesses.len() && guesses[i] == secret;
        assert(0 <= i < guesses.len() && i < TRIES && i < guesses.len() && guesses[i] == secret);
    }
}

} // verus!
