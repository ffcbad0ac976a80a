//! One round of the game: attempt counting, win and loss detection, and the
//! keyboard summary kept across guesses.

use vstd::prelude::*;
use crate::classify::LetterState;
use crate::classify::WORD_LEN;
use crate::classify::bytes_eq_ignore_case;
use crate::classify::classify;
use crate::classify::classify_spec;
use crate::classify::eq_ignore_case;
use crate::keyboard::ALPHABET;
use crate::keyboard::KeyboardState;
use crate::keyboard::is_lower_letter;
use crate::keyboard::letter_index;
use crate::keyboard::merge_spec;
use crate::laws::lemma_merge_preserves_containment;

verus! {

/// Phase of one round. `Won` and `Lost` are terminal.
#[derive(Clone, Copy, Debug, PartialEq, Eq, Structural)]
pub enum RoundStatus {
    AwaitingGuess,
    Won,
    Lost,
}

/// Why a submitted guess was rejected without consuming an attempt.
#[derive(Clone, Copy, Debug, PartialEq, Eq, Structural)]
pub enum ValidationError {
    /// The guess does not have the solution's length.
    WrongLength,
    /// The dictionary check did not recognize the guess.
    NotAWord,
}

/// What one evaluated guess meant for the round.
#[derive(Debug)]
pub enum RoundOutcome {
    /// The round goes on: more attempts are available.
    Continue,
    /// The guess matched the solution; carries the attempt count used.
    Won(u32),
    /// The attempt budget is exhausted; carries the revealed solution.
    Lost(Vec<u8>),
}

/// Mathematical model of a round.
pub ghost struct RoundModel {
    pub attempt: int,
    pub max_attempts: int,
    pub solution: Seq<u8>,
    pub keyboard: Seq<LetterState>,
    pub status: RoundStatus,
}

/// A solution is a five-letter lowercase word.
pub open spec fn solution_wf(s: Seq<u8>) -> bool {
    &&& s.len() == WORD_LEN
    &&& forall|i: int| 0 <= i < s.len() ==> is_lower_letter(#[trigger] s[i])
}

impl RoundModel {
    /// Internal consistency of a round: a well-formed solution, a full
    /// keyboard table, a counter that starts at one and never passes the
    /// budget by more than the losing step, and a keyboard that only calls a
    /// letter `Correct` if the solution really contains it.
    pub open spec fn wf(self) -> bool {
        &&& solution_wf(self.solution)
        &&& self.keyboard.len() == ALPHABET
        &&& 1 <= self.attempt
        &&& 1 <= self.max_attempts
        &&& self.max_attempts < u32::MAX
        &&& self.attempt <= self.max_attempts + 1
        &&& (self.status == RoundStatus::AwaitingGuess ==> self.attempt <= self.max_attempts)
        &&& forall|c: u8|
            is_lower_letter(c) && #[trigger] self.keyboard[letter_index(c)] == LetterState::Correct
                ==> self.solution.contains(c)
    }
}

/// How one submitted guess transforms the model of a round: a rejected guess
/// (wrong length or not a word) changes nothing; a guess equal to the solution
/// up to ASCII case wins; any other accepted guess is classified, folded into
/// the keyboard, and costs one attempt, losing the round when the counter
/// passes the budget. Terminal states never change.
pub open spec fn round_step(m: RoundModel, guess: Seq<u8>, is_valid_word: bool) -> RoundModel {
    if m.status != RoundStatus::AwaitingGuess {
        m
    } else if guess.len() != m.solution.len() || !is_valid_word {
        m
    } else if eq_ignore_case(guess, m.solution) {
        RoundModel { status: RoundStatus::Won, ..m }
    } else {
        RoundModel {
            attempt: m.attempt + 1,
            keyboard: merge_spec(m.keyboard, classify_spec(guess, m.solution), guess),
            status: if m.attempt + 1 > m.max_attempts {
                RoundStatus::Lost
            } else {
                RoundStatus::AwaitingGuess
            },
            ..m
        }
    }
}

/// One round of the game.
pub struct RoundState {
    pub attempt: u32,
    pub max_attempts: u32,
    pub solution: Vec<u8>,
    pub keyboard: KeyboardState,
    pub status: RoundStatus,
}

impl View for RoundState {
    type V = RoundModel;

    open spec fn view(&self) -> RoundModel {
        RoundModel {
            attempt: self.attempt as int,
            max_attempts: self.max_attempts as int,
            solution: self.solution@,
            keyboard: self.keyboard@,
            status: self.status,
        }
    }
}

/// A copy of a byte string.
fn clone_bytes(v: &Vec<u8>) -> (r: Vec<u8>)
    ensures
        r@ == v@,
{
    let mut r: Vec<u8> = Vec::new();
    let mut i: usize = 0;
    while i < v.len()
        invariant
            0 <= i <= v@.len(),
            r@ == v@.subrange(0, i as int),
        decreases v@.len() - i,
    {
        r.push(v[i]);
        proof {
            assert(r@ =~= v@.subrange(0, i + 1));
        }
        i += 1;
    }
    proof {
        assert(r@ =~= v@);
    }
    r
}

impl RoundState {
    /// The round's data is internally consistent.
    pub open spec fn wf(&self) -> bool {
        self@.wf()
    }

    /// Start a round on a freshly fetched solution: first attempt, a budget of
    /// at least one guess, and a keyboard of all `Unknown`.
    pub fn new(solution: Vec<u8>, max_attempts: u32) -> (r: RoundState)
        requires
            solution_wf(solution@),
            1 <= max_attempts < u32::MAX,
        ensures
            r.wf(),
            r@.attempt == 1,
            r@.max_attempts == max_attempts as int,
            r@.solution == solution@,
            r@.status == RoundStatus::AwaitingGuess,
            forall|i: int| 0 <= i < ALPHABET ==> r@.keyboard[i] == LetterState::Unknown,
    {
        RoundState {
            attempt: 1,
            max_attempts,
            solution,
            keyboard: KeyboardState::new(),
            status: RoundStatus::AwaitingGuess,
        }
    }

    /// Evaluate one submitted guess. A guess of the wrong length or one the
    /// dictionary rejects costs nothing and leaves the round as it was; a
    /// guess equal to the solution up to ASCII case wins with the current
    /// attempt count; any other guess is classified against the solution,
    /// folded into the keyboard, and consumes one attempt, losing the round
    /// and revealing the solution when the budget runs out.
    pub fn advance_round(&mut self, guess: &[u8], is_valid_word: bool) -> (r: Result<
        (Option<Vec<LetterState>>, RoundOutcome),
        ValidationError,
    >)
        requires
            old(self).wf(),
            old(self)@.status == RoundStatus::AwaitingGuess,
        ensures
            final(self).wf(),
            final(self)@ == round_step(old(self)@, guess@, is_valid_word),
            guess@.len() != old(self)@.solution.len() ==> r == Err::<
                (Option<Vec<LetterState>>, RoundOutcome),
                ValidationError,
            >(ValidationError::WrongLength),
            guess@.len() == old(self)@.solution.len() && !is_valid_word ==> r == Err::<
                (Option<Vec<LetterState>>, RoundOutcome),
                ValidationError,
            >(ValidationError::NotAWord),
            guess@.len() == old(self)@.solution.len() && is_valid_word && eq_ignore_case(
                guess@,
                old(self)@.solution,
            ) ==> (r matches Ok((None::<Vec<LetterState>>, RoundOutcome::Won(a))) && a == old(
                self,
            ).attempt),
            guess@.len() == old(self)@.solution.len() && is_valid_word && !eq_ignore_case(
                guess@,
                old(self)@.solution,
            ) && old(self)@.attempt + 1 > old(self)@.max_attempts ==> (r matches Ok(
                (Some(cl), RoundOutcome::Lost(s)),
            ) && cl@ == classify_spec(guess@, old(self)@.solution) && s@ == old(self)@.solution),
            guess@.len() == old(self)@.solution.len() && is_valid_word && !eq_ignore_case(
                guess@,
                old(self)@.solution,
            ) && old(self)@.attempt + 1 <= old(self)@.max_attempts ==> (r matches Ok(
                (Some(cl), RoundOutcome::Continue),
            ) && cl@ == classify_spec(guess@, old(self)@.solution)),
    {
        if guess.len() != self.solution.len() {
            return Err(ValidationError::WrongLength);
        }
        if !is_valid_word {
            return Err(ValidationError::NotAWord);
        }
        if bytes_eq_ignore_case(guess, self.solution.as_slice()) {
            self.status = RoundStatus::Won;
            return Ok((None, RoundOutcome::Won(self.attempt)));
        }
        let classification = classify(guess, self.solution.as_slice());
        self.keyboard.merge(classification.as_slice(), guess);
        proof {
            lemma_merge_preserves_containment(
                old(self)@.keyboard,
                guess@,
                old(self)@.solution,
            );
        }
        self.attempt = self.attempt + 1;
        if self.attempt > self.max_attempts {
            self.status = RoundStatus::Lost;
            let revealed = clone_bytes(&self.solution);
            return Ok((Some(classification), RoundOutcome::Lost(revealed)));
        }
        Ok((Some(classification), RoundOutcome::Continue))
    }
}

} // verus!
