//! The turn logic: a word under guessing together with the running count
//! of incorrect guesses, and the rule that decides when the game is won
//! or lost.

use vstd::prelude::*;

use crate::word::{all_revealed, hidden_mask, render_of, step_mask, Word};

verus! {

/// How many incorrect guesses end the game in a loss.
pub const MAX_INCORRECT_GUESSES: i32 = 8;

/// Where a game stands: still being played, won, or lost.
#[derive(Clone, Copy, Debug, PartialEq, Eq, Structural)]
pub enum GameStatus {
    InProgress,
    Won,
    Lost,
}

/// One game: the word being guessed and the count of incorrect guesses
/// made so far.
pub struct Game {
    /// The word being guessed, with its revealed state.
    pub word: Word,
    /// How many guesses so far matched no position of the word.
    pub incorrect_guesses: i32,
}

impl Game {
    /// The counter starts at zero and never passes the limit.
    pub open spec fn wf(&self) -> bool {
        0 <= self.incorrect_guesses <= MAX_INCORRECT_GUESSES
    }

    /// The game is won as soon as every letter is revealed; failing
    /// that, it is lost once the incorrect-guess limit is reached;
    /// otherwise it is still in progress.
    pub open spec fn spec_status(&self) -> GameStatus {
        if all_revealed(self.word.mask()) {
            GameStatus::Won
        } else if self.incorrect_guesses >= MAX_INCORRECT_GUESSES {
            GameStatus::Lost
        } else {
            GameStatus::InProgress
        }
    }

    /// Starts a game over the given target word, every letter hidden and
    /// no incorrect guess made.
    ///
    /// An empty target gives a game that is won before any guess.
    pub fn new(target: &str) -> (g: Game)
        ensures
            g.word.chars() == target@,
            g.word.mask() == hidden_mask(target@.len()),
            g.incorrect_guesses == 0,
            g.wf(),
    {
        Game { word: Word::from(target), incorrect_guesses: 0 }
    }

    /// Starts a game over a word drawn at random from the wordlist.
    ///
    /// Whatever word is drawn, it is non-empty, every letter starts
    /// hidden, no incorrect guess has been made, and so the game starts
    /// in progress.
    pub fn new_random() -> (g: Game)
        ensures
            g.word.chars().len() > 0,
            g.word.mask() == hidden_mask(g.word.chars().len()),
            g.incorrect_guesses == 0,
            g.wf(),
            g.spec_status() == GameStatus::InProgress,
    {
        let target = pick_random_word();
        let g = Game { word: Word::from(target.as_str()), incorrect_guesses: 0 };
        proof {
            assert(!g.word.mask()[0]);
        }
        g
    }

    /// Reports where the game stands.
    pub fn status(&self) -> (s: GameStatus)
        ensures
            s == self.spec_status(),
    {
        if self.word.is_guessed() {
            GameStatus::Won
        } else if self.incorrect_guesses >= MAX_INCORRECT_GUESSES {
            GameStatus::Lost
        } else {
            GameStatus::InProgress
        }
    }

    /// Plays one turn: applies the guessed character to the word and,
    /// when it matches no position, counts one more incorrect guess.
    ///
    /// Returns whether the guessed character occurs in the word at all;
    /// repeating an already-revealed correct character still returns
    /// `true` and costs nothing.
    pub fn turn(&mut self, c: char) -> (was_correct: bool)
        requires
            old(self).wf(),
            old(self).spec_status() == GameStatus::InProgress,
        ensures
            final(self).word.chars() == old(self).word.chars(),
            final(self).word.mask() == step_mask(
                old(self).word.chars(),
                old(self).word.mask(),
                c,
            ),
            was_correct == old(self).word.chars().contains(c),
            final(self).incorrect_guesses == old(self).incorrect_guesses + (if was_correct {
                0int
            } else {
                1int
            }),
            final(self).wf(),
    {
        let result = self.word.guess(c);
        self.word = result.new_word;
        if !result.was_correct {
            self.incorrect_guesses = self.incorrect_guesses + 1;
        }
        result.was_correct
    }

    /// The live-progress view of the word: revealed letters shown,
    /// hidden ones as underscores.
    pub fn render(&self) -> (r: String)
        ensures
            r@ == render_of(self.word.chars(), self.word.mask()),
            r@.len() == self.word.chars().len(),
    {
        self.word.render()
    }

    /// The full target word, shown after a loss.
    pub fn revealed(&self) -> (r: String)
        ensures
            r@ == self.word.chars(),
    {
        self.word.revealed()
    }
}

/// The guessed character a typed line stands for: the line's first
/// character, or a space when the line is empty.
///
/// The empty-line-to-space coercion is deliberate: missing input is
/// silently taken as a guess of a space, never rejected.
pub fn guess_from_line(line: &str) -> (c: char)
    ensures
        c == (if line@.len() == 0 {
            ' '
        } else {
            line@[0]
        }),
{
    if line.unicode_len() == 0 {
        ' '
    } else {
        line.get_char(0)
    }
}

/// Relies on `eff_wordlist::large::random_word`: returns one word drawn
/// at random from its built-in wordlist. Which word comes back depends
/// on the random draw, so nothing is promised of it beyond what holds
/// of every entry in the list: none is empty.
#[verifier::external_body]
fn pick_random_word() -> (r: String)
    ensures
        r@.len() > 0,
{
    eff_wordlist::large::random_word().to_string()
}

} // verus!
