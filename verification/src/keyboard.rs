//! Cumulative best-known state per letter across the guesses of one round.

use vstd::prelude::*;
use crate::classify::LetterState;

verus! {

/// Number of letters the keyboard tracks.
pub const ALPHABET: usize = 26;

/// ASCII code of `a`.
pub const LOWER_A: u8 = 97;

/// ASCII code of `z`.
pub const LOWER_Z: u8 = 122;

/// True iff `c` is a lowercase ASCII letter.
pub open spec fn is_lower_letter(c: u8) -> bool {
    LOWER_A <= c <= LOWER_Z
}

/// Index of a lowercase letter within the keyboard table.
pub open spec fn letter_index(c: u8) -> int {
    c - LOWER_A
}

/// One merge step: fold the feedback for one guessed letter into the table.
/// `Correct` and `Incorrect` overwrite whatever was known; `Misplaced` never
/// downgrades a letter already known `Correct`; anything outside `a..=z`
/// leaves the table alone.
pub open spec fn merge_one(kb: Seq<LetterState>, c: u8, st: LetterState) -> Seq<LetterState> {
    if !is_lower_letter(c) {
        kb
    } else {
        let i = letter_index(c);
        match st {
            LetterState::Correct => kb.update(i, LetterState::Correct),
            LetterState::Misplaced => if kb[i] == LetterState::Correct {
                kb
            } else {
                kb.update(i, LetterState::Misplaced)
            },
            LetterState::Incorrect => kb.update(i, LetterState::Incorrect),
            LetterState::Unknown => kb,
        }
    }
}

/// The table after folding the feedback for the first `n` positions of a
/// guess, left to right.
pub open spec fn merge_prefix(
    kb: Seq<LetterState>,
    classification: Seq<LetterState>,
    guess: Seq<u8>,
    n: int,
) -> Seq<LetterState>
    decreases n,
{
    if n <= 0 {
        kb
    } else {
        merge_one(merge_prefix(kb, classification, guess, n - 1), guess[n - 1], classification[n - 1])
    }
}

/// The table after folding one guess's whole feedback into it.
pub open spec fn merge_spec(
    kb: Seq<LetterState>,
    classification: Seq<LetterState>,
    guess: Seq<u8>,
) -> Seq<LetterState> {
    merge_prefix(kb, classification, guess, guess.len() as int)
}

/// Cumulative best-known state per letter, `a` through `z`.
pub struct KeyboardState {
    pub states: Vec<LetterState>,
}

impl View for KeyboardState {
    type V = Seq<LetterState>;

    open spec fn view(&self) -> Seq<LetterState> {
        self.states@
    }
}

impl KeyboardState {
    /// The table always holds one entry per letter of the alphabet.
    pub open spec fn wf(&self) -> bool {
        self@.len() == ALPHABET
    }

    /// Fresh keyboard: every letter starts `Unknown`.
    pub fn new() -> (r: KeyboardState)
        ensures
            r.wf(),
            forall|i: int| 0 <= i < ALPHABET ==> r@[i] == LetterState::Unknown,
    {
        let mut states: Vec<LetterState> = Vec::new();
        let mut i: usize = 0;
        while i < ALPHABET
            invariant
                0 <= i <= ALPHABET,
                states@.len() == i,
                forall|k: int| 0 <= k < i ==> states@[k] == LetterState::Unknown,
            decreases ALPHABET - i,
        {
            states.push(LetterState::Unknown);
            i += 1;
        }
        KeyboardState { states }
    }

    /// Current best-known state of the letter `c`.
    pub fn get(&self, c: u8) -> (r: LetterState)
        requires
            self.wf(),
            is_lower_letter(c),
        ensures
            r == self@[letter_index(c)],
    {
        self.states[(c - LOWER_A) as usize]
    }

    /// Fold one guess's feedback into the table, position by position.
    pub fn merge(&mut self, classification: &[LetterState], guess: &[u8])
        requires
            old(self).wf(),
            classification@.len() == guess@.len(),
        ensures
            final(self).wf(),
            final(self)@ == merge_spec(old(self)@, classification@, guess@),
    {
        let ghost kb0 = self@;
        let mut i: usize = 0;
        while i < guess.len()
            invariant
                self.wf(),
                classification@.len() == guess@.len(),
                0 <= i <= guess@.len(),
                self@ == merge_prefix(kb0, classification@, guess@, i as int),
            decreases guess@.len() - i,
        {
            let c = guess[i];
            let st = classification[i];
            if c >= LOWER_A && c <= LOWER_Z {
                let idx = (c - LOWER_A) as usize;
                match st {
                    LetterState::Correct => {
                        self.states[idx] = LetterState::Correct;
                    },
                    LetterState::Misplaced => {
                        if !(self.states[idx] == LetterState::Correct) {
                            self.states[idx] = LetterState::Misplaced;
                        }
                    },
                    LetterState::Incorrect => {
                        self.states[idx] = LetterState::Incorrect;
                    },
                    LetterState::Unknown => {},
                }
            }
            i += 1;
        }
    }

    /// The letters currently in state `st`, in alphabetical order.
    pub fn letters_in_state(&self, st: LetterState) -> (r: Vec<u8>)
        requires
            self.wf(),
        ensures
            forall|k: int| 0 <= k < r@.len() ==> is_lower_letter(#[trigger] r@[k]) && self@[letter_index(r@[k])] == st,
            forall|k1: int, k2: int| 0 <= k1 < k2 < r@.len() ==> r@[k1] < r@[k2],
            forall|c: u8| is_lower_letter(c) && self@[letter_index(c)] == st ==> r@.contains(c),
    {
        let mut r: Vec<u8> = Vec::new();
        let mut i: usize = 0;
        while i < ALPHABET
            invariant
                self.wf(),
                0 <= i <= ALPHABET,
                forall|k: int| 0 <= k < r@.len() ==> is_lower_letter(#[trigger] r@[k]) && self@[letter_index(r@[k])] == st,
                forall|k: int| 0 <= k < r@.len() ==> #[trigger] r@[k] < LOWER_A + i,
                forall|k1: int, k2: int| 0 <= k1 < k2 < r@.len() ==> r@[k1] < r@[k2],
                forall|c: u8| is_lower_letter(c) && letter_index(c) < i && self@[letter_index(c)] == st
                    ==> r@.contains(c),
            decreases ALPHABET - i,
        {
            let c = LOWER_A + (i as u8);
            let ghost r0 = r@;
            if self.states[i] == st {
                r.push(c);
            }
            proof {
                assert forall|d: u8| r0.contains(d) implies r@.contains(d) by {
                    let k = choose|k: int| 0 <= k < r0.len() && r0[k] == d;
                    assert(r@[k] == d);
                }
                assert forall|c2: u8|
                    is_lower_letter(c2) && letter_index(c2) < i + 1 && self@[letter_index(c2)] == st
                    implies r@.contains(c2) by {
                    if letter_index(c2) < i {
                        assert(r0.contains(c2));
                    } else {
                        assert(c2 == c);
                        assert(r@[r@.len() - 1] == c);
                    }
                }
            }
            i += 1;
        }
        r
    }
}

} // verus!
