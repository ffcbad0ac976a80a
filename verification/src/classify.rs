//! Per-letter feedback for one guess against the solution.

use vstd::prelude::*;

verus! {

/// Feedback for one guessed letter; also the best-known status of a letter
/// on the on-screen keyboard.
#[derive(Clone, Copy, Debug, PartialEq, Eq, Structural)]
pub enum LetterState {
    /// The letter was never part of an evaluated guess.
    Unknown,
    /// The letter was guessed at a position where the solution does not
    /// contain it at all.
    Incorrect,
    /// The letter occurs in the solution, but not at the guessed position.
    Misplaced,
    /// The letter was guessed at a position where it matches the solution.
    Correct,
}

/// Number of letters in a puzzle word.
pub const WORD_LEN: usize = 5;

/// ASCII code of `A`.
pub const UPPER_A: u8 = 65;

/// ASCII code of `Z`.
pub const UPPER_Z: u8 = 90;

/// Distance between an ASCII uppercase letter and its lowercase form.
pub const CASE_GAP: u8 = 32;

/// ASCII lower-casing of a single byte.
pub open spec fn to_lower(b: u8) -> u8 {
    if UPPER_A <= b <= UPPER_Z {
        (b + CASE_GAP) as u8
    } else {
        b
    }
}

/// A byte string lower-cased position by position.
pub open spec fn lower_seq(s: Seq<u8>) -> Seq<u8> {
    Seq::new(s.len(), |i: int| to_lower(s[i]))
}

/// Case-insensitive (ASCII) equality of two byte strings.
pub open spec fn eq_ignore_case(a: Seq<u8>, b: Seq<u8>) -> bool {
    &&& a.len() == b.len()
    &&& forall|i: int| 0 <= i < a.len() ==> #[trigger] to_lower(a[i]) == to_lower(b[i])
}

/// What one position of a guess classifies to against the solution: `Correct`
/// on a positional match, `Misplaced` when the letter occurs anywhere else in
/// the solution, `Incorrect` when it does not occur at all.
pub open spec fn classify_at(guess: Seq<u8>, solution: Seq<u8>, i: int) -> LetterState {
    if guess[i] == solution[i] {
        LetterState::Correct
    } else if solution.contains(guess[i]) {
        LetterState::Misplaced
    } else {
        LetterState::Incorrect
    }
}

/// The whole per-position feedback for a guess.
pub open spec fn classify_spec(guess: Seq<u8>, solution: Seq<u8>) -> Seq<LetterState> {
    Seq::new(guess.len(), |i: int| classify_at(guess, solution, i))
}

/// ASCII lower-casing of a single byte.
pub fn lower_byte(b: u8) -> (r: u8)
    ensures
        r == to_lower(b),
{
    if b >= UPPER_A && b <= UPPER_Z {
        b + CASE_GAP
    } else {
        b
    }
}

/// True iff `needle` occurs anywhere in `haystack`.
pub fn contains_byte(haystack: &[u8], needle: u8) -> (r: bool)
    ensures
        r == haystack@.contains(needle),
{
    let mut j: usize = 0;
    while j < haystack.len()
        invariant
            0 <= j <= haystack@.len(),
            forall|k: int| 0 <= k < j ==> haystack@[k] != needle,
        decreases haystack@.len() - j,
    {
        if haystack[j] == needle {
            assert(haystack@[j as int] == needle);
            return true;
        }
        j += 1;
    }
    false
}

/// Case-insensitive (ASCII) comparison of two byte strings.
pub fn bytes_eq_ignore_case(a: &[u8], b: &[u8]) -> (r: bool)
    ensures
        r == eq_ignore_case(a@, b@),
{
    if a.len() != b.len() {
        return false;
    }
    let mut i: usize = 0;
    while i < a.len()
        invariant
            a@.len() == b@.len(),
            0 <= i <= a@.len(),
            forall|k: int| 0 <= k < i ==> #[trigger] to_lower(a@[k]) == to_lower(b@[k]),
        decreases a@.len() - i,
    {
        if lower_byte(a[i]) != lower_byte(b[i]) {
            return false;
        }
        i += 1;
    }
    true
}

/// Classify a guess against the solution, one state per position.
pub fn classify(guess: &[u8], solution: &[u8]) -> (r: Vec<LetterState>)
    requires
        guess@.len() == solution@.len(),
    ensures
        r@.len() == guess@.len(),
        forall|i: int| 0 <= i < guess@.len() ==> r@[i] == classify_at(guess@, solution@, i),
        r@ == classify_spec(guess@, solution@),
{
    let mut r: Vec<LetterState> = Vec::new();
    let mut i: usize = 0;
    while i < guess.len()
        invariant
            guess@.len() == solution@.len(),
            0 <= i <= guess@.len(),
            r@.len() == i,
            forall|k: int| 0 <= k < i ==> r@[k] == classify_at(guess@, solution@, k),
        decreases guess@.len() - i,
    {
        let g = guess[i];
        let st = if g == solution[i] {
            LetterState::Correct
        } else if contains_byte(solution, g) {
            LetterState::Misplaced
        } else {
            LetterState::Incorrect
        };
        r.push(st);
        i += 1;
    }
    proof {
        assert(r@ =~= classify_spec(guess@, solution@));
    }
    r
}

} // verus!
