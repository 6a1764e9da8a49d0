//! The word model: a target word together with the per-letter record of
//! which positions have been revealed by the player's guesses.

use vstd::prelude::*;

verus! {

/// One letter of the target word: its character and whether the player
/// has guessed it.
#[derive(Clone, Copy)]
struct Letter {
    character: char,
    guessed: bool,
}

/// The revealed flags after guessing the character `c` against the word
/// `chars`, starting from the flags `mask`: a position becomes revealed
/// when it was already revealed or its character equals `c`.
pub open spec fn step_mask(chars: Seq<char>, mask: Seq<bool>, c: char) -> Seq<bool> {
    Seq::new(chars.len(), |i: int| mask[i] || chars[i] == c)
}

/// The revealed flags after guessing each character of `guesses` in
/// order against the word `chars`, starting from the flags `mask`.
pub open spec fn mask_after(chars: Seq<char>, mask: Seq<bool>, guesses: Seq<char>) -> Seq<bool>
    decreases guesses.len(),
{
    if guesses.len() == 0 {
        mask
    } else {
        mask_after(chars, step_mask(chars, mask, guesses[0]), guesses.drop_first())
    }
}

/// A mask with every position hidden, for a word of `len` letters.
pub open spec fn hidden_mask(len: nat) -> Seq<bool> {
    Seq::new(len, |i: int| false)
}

/// True when every position is revealed.
pub open spec fn all_revealed(mask: Seq<bool>) -> bool {
    forall|i: int| 0 <= i < mask.len() ==> mask[i]
}

/// The live-progress view of a word: each character where revealed, an
/// underscore where hidden.
pub open spec fn render_of(chars: Seq<char>, mask: Seq<bool>) -> Seq<char> {
    Seq::new(chars.len(), |i: int| if mask[i] { chars[i] } else { '_' })
}

/// A target word whose letters are revealed one guess at a time.
///
/// The character sequence is fixed at construction; a revealed flag only
/// ever moves from hidden to revealed.
pub struct Word(Vec<Letter>);

/// The result of one guess: the word with any matching letters revealed,
/// and whether the guessed character occurs in the word at all.
pub struct GuessResult {
    /// The word the guess was made on, with every letter equal to the
    /// guessed character revealed.
    pub new_word: Word,
    /// `true` when the guessed character occurs somewhere in the word,
    /// whether or not it was already revealed.
    pub was_correct: bool,
}

impl Word {
    /// The characters of the target word, in order.
    pub closed spec fn chars(&self) -> Seq<char> {
        Seq::new(self.0@.len(), |i: int| self.0@[i].character)
    }

    /// Which positions have been revealed, in the same order as `chars`.
    pub closed spec fn mask(&self) -> Seq<bool> {
        Seq::new(self.0@.len(), |i: int| self.0@[i].guessed)
    }

    /// Builds a word from the target string with every letter hidden.
    ///
    /// An empty target yields a word of no letters, which counts as
    /// already guessed: a game over it is won before any guess.
    pub fn from(string: &str) -> (w: Word)
        ensures
            w.chars() == string@,
            w.mask() == hidden_mask(string@.len()),
    {
        let n = string.unicode_len();
        let mut letters: Vec<Letter> = Vec::new();
        let mut k: usize = 0;
        while k < n
            invariant
                k <= n,
                n == string@.len(),
                letters@.len() == k,
                forall|i: int| 0 <= i < k ==> letters@[i].character == string@[i],
                forall|i: int| 0 <= i < k ==> !letters@[i].guessed,
            decreases n - k,
        {
            let c = string.get_char(k);
            letters.push(Letter { character: c, guessed: false });
            k = k + 1;
        }
        let w = Word(letters);
        proof {
            assert(w.chars() =~= string@);
            assert(w.mask() =~= hidden_mask(string@.len()));
        }
        w
    }

    /// `true` if all letters have been guessed, `false` otherwise.
    pub fn is_guessed(&self) -> (r: bool)
        ensures
            r == all_revealed(self.mask()),
    {
        let n = self.0.len();
        let mut k: usize = 0;
        while k < n
            invariant
                k <= n,
                n == self.0@.len(),
                forall|i: int| 0 <= i < k ==> self.mask()[i],
            decreases n - k,
        {
            if !self.0[k].guessed {
                assert(!self.mask()[k as int]);
                return false;
            }
            k = k + 1;
        }
        true
    }

    /// Performs a guess on this word, returning the [`GuessResult`].
    ///
    /// Comparison is case-sensitive and exact; `was_correct` reports
    /// presence of the character in the word, not whether this guess
    /// newly revealed anything.
    pub fn guess(&self, c: char) -> (res: GuessResult)
        ensures
            res.new_word.chars() == self.chars(),
            res.new_word.mask() == step_mask(self.chars(), self.mask(), c),
            res.was_correct == self.chars().contains(c),
    {
        let n = self.0.len();
        let mut new_letters: Vec<Letter> = Vec::new();
        let mut found = false;
        let mut k: usize = 0;
        while k < n
            invariant
                k <= n,
                n == self.0@.len(),
                new_letters@.len() == k,
                forall|i: int| 0 <= i < k ==> new_letters@[i].character == self.chars()[i],
                forall|i: int| 0 <= i < k
                    ==> new_letters@[i].guessed == (self.mask()[i] || self.chars()[i] == c),
                found == exists|i: int| 0 <= i < k && self.chars()[i] == c,
            decreases n - k,
        {
            let l = &self.0[k];
            let hit = l.character == c;
            new_letters.push(Letter { character: l.character, guessed: l.guessed || hit });
            if hit {
                assert(self.chars()[k as int] == c);
                found = true;
            }
            k = k + 1;
        }
        let new_word = Word(new_letters);
        proof {
            assert(new_word.chars() =~= self.chars());
            assert(new_word.mask() =~= step_mask(self.chars(), self.mask(), c));
        }
        GuessResult { new_word, was_correct: found }
    }

    /// Returns a [`String`] containing the word with all letters shown,
    /// exactly the original target word whatever has been guessed.
    pub fn revealed(&self) -> (r: String)
        ensures
            r@ == self.chars(),
    {
        let n = self.0.len();
        let mut shown: Vec<char> = Vec::new();
        let mut k: usize = 0;
        while k < n
            invariant
                k <= n,
                n == self.0@.len(),
                shown@.len() == k,
                forall|i: int| 0 <= i < k ==> shown@[i] == self.chars()[i],
            decreases n - k,
        {
            shown.push(self.0[k].character);
            k = k + 1;
        }
        proof {
            assert(shown@ =~= self.chars());
        }
        chars_to_string(shown)
    }

    /// The live-progress view: each revealed letter's character, an
    /// underscore for each hidden one, in original order.
    pub fn render(&self) -> (r: String)
        ensures
            r@ == render_of(self.chars(), self.mask()),
            r@.len() == self.chars().len(),
    {
        let n = self.0.len();
        let mut shown: Vec<char> = Vec::new();
        let mut k: usize = 0;
        while k < n
            invariant
                k <= n,
                n == self.0@.len(),
                shown@.len() == k,
                forall|i: int| 0 <= i < k
                    ==> shown@[i] == (if self.mask()[i] { self.chars()[i] } else { '_' }),
            decreases n - k,
        {
            let l = &self.0[k];
            let shown_char = if l.guessed { l.character } else { '_' };
            shown.push(shown_char);
            k = k + 1;
        }
        proof {
            assert(shown@ =~= render_of(self.chars(), self.mask()));
        }
        chars_to_string(shown)
    }
}

/// Every word carries exactly one revealed flag per character: its two
/// views have equal length, for every `Word` value whatever its history.
pub proof fn lemma_chars_mask_equal_len(w: Word)
    ensures
        w.chars().len() == w.mask().len(),
{
}

proof fn lemma_mask_after_len(chars: Seq<char>, mask: Seq<bool>, guesses: Seq<char>)
    requires
        mask.len() == chars.len(),
    ensures
        mask_after(chars, mask, guesses).len() == chars.len(),
    decreases guesses.len(),
{
    if guesses.len() > 0 {
        lemma_mask_after_len(chars, step_mask(chars, mask, guesses[0]), guesses.drop_first());
    }
}

proof fn lemma_mask_after_elem(chars: Seq<char>, mask: Seq<bool>, guesses: Seq<char>, i: int)
    requires
        mask.len() == chars.len(),
        0 <= i < chars.len(),
    ensures
        mask_after(chars, mask, guesses)[i] == (mask[i] || guesses.contains(chars[i])),
    decreases guesses.len(),
{
    let x = chars[i];
    if guesses.len() == 0 {
        assert(!guesses.contains(x));
    } else {
        let rest = guesses.drop_first();
        lemma_mask_after_elem(chars, step_mask(chars, mask, guesses[0]), rest, i);
        assert(guesses.contains(x) == (guesses[0] == x || rest.contains(x))) by {
            if guesses.contains(x) && guesses[0] != x {
                let j = choose|j: int| 0 <= j < guesses.len() && guesses[j] == x;
                assert(rest[j - 1] == x);
                assert(rest.contains(x));
            }
            if rest.contains(x) {
                let j = choose|j: int| 0 <= j < rest.len() && rest[j] == x;
                assert(guesses[j + 1] == x);
                assert(guesses.contains(x));
            }
        }
    }
}

/// For any target word and any sequence of guesses applied to it from
/// the fully hidden state, the word is fully guessed exactly when every
/// character of the word occurs somewhere in the guess sequence.
pub proof fn lemma_guessed_iff_every_char_guessed(chars: Seq<char>, guesses: Seq<char>)
    ensures
        all_revealed(mask_after(chars, hidden_mask(chars.len()), guesses)) <==> (forall|i: int|
            0 <= i < chars.len() ==> guesses.contains(chars[i])),
{
    let start = hidden_mask(chars.len());
    let m = mask_after(chars, start, guesses);
    lemma_mask_after_len(chars, start, guesses);
    assert forall|i: int| 0 <= i < chars.len() implies m[i] == guesses.contains(
        chars[i],
    ) by {
        lemma_mask_after_elem(chars, start, guesses, i);
    }
    if all_revealed(m) {
        assert forall|i: int| 0 <= i < chars.len() implies guesses.contains(chars[i]) by {
            assert(m[i]);
        }
    }
    if forall|i: int| 0 <= i < chars.len() ==> guesses.contains(chars[i]) {
        assert forall|i: int| 0 <= i < m.len() implies m[i] by {
            assert(guesses.contains(chars[i]));
        }
    }
}

/// Guessing the same character a second time changes nothing: the
/// revealed flags, and with them the rendering, stay exactly as after
/// the first guess, and the characters that the correctness flag is
/// computed from are the same, so a correct guess stays correct.
pub proof fn lemma_guess_idempotent(w: Word, c: char)
    ensures
        step_mask(w.chars(), step_mask(w.chars(), w.mask(), c), c) == step_mask(
            w.chars(),
            w.mask(),
            c,
        ),
        render_of(w.chars(), step_mask(w.chars(), step_mask(w.chars(), w.mask(), c), c))
            == render_of(w.chars(), step_mask(w.chars(), w.mask(), c)),
{
    assert(step_mask(w.chars(), step_mask(w.chars(), w.mask(), c), c) =~= step_mask(
        w.chars(),
        w.mask(),
        c,
    ));
}

/// Relies on `String`'s `FromIterator<char>` impl: collecting characters
/// yields the string holding exactly those characters, in order.
#[verifier::external_body]
fn chars_to_string(v: Vec<char>) -> (r: String)
    ensures
        r@ == v@,
{
    v.into_iter().collect()
}

} // verus!
