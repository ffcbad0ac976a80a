//! The guarantees the game engine gives, stated and proved once and for all.

use vstd::prelude::*;
use crate::classify::LetterState;
use crate::classify::classify_at;
use crate::classify::classify_spec;
use crate::classify::eq_ignore_case;
use crate::classify::lower_seq;
use crate::classify::to_lower;
use crate::keyboard::ALPHABET;
use crate::keyboard::is_lower_letter;
use crate::keyboard::letter_index;
use crate::keyboard::merge_one;
use crate::keyboard::merge_prefix;
use crate::keyboard::merge_spec;
use crate::round::RoundModel;
use crate::round::RoundStatus;
use crate::round::round_step;

verus! {

/// A position where the guessed letter equals the solution letter always
/// classifies `Correct`, whatever stands at the other positions.
pub proof fn lemma_exact_position_correct(guess: Seq<u8>, solution: Seq<u8>, i: int)
    requires
        guess.len() == solution.len(),
        0 <= i < guess.len(),
        guess[i] == solution[i],
    ensures
        classify_at(guess, solution, i) == LetterState::Correct,
        classify_spec(guess, solution)[i] == LetterState::Correct,
{
}

/// A guess equal to a lowercase solution up to ASCII case classifies
/// `Correct` at every position once the guess is lower-cased.
pub proof fn lemma_winning_guess_all_correct(guess: Seq<u8>, solution: Seq<u8>)
    requires
        eq_ignore_case(guess, solution),
        forall|i: int| 0 <= i < solution.len() ==> is_lower_letter(#[trigger] solution[i]),
    ensures
        forall|i: int| 0 <= i < guess.len() ==> classify_at(lower_seq(guess), solution, i)
            == LetterState::Correct,
{
    assert forall|i: int| 0 <= i < guess.len() implies classify_at(lower_seq(guess), solution, i)
        == LetterState::Correct by {
        assert(to_lower(guess[i]) == to_lower(solution[i]));
        assert(is_lower_letter(solution[i]));
        assert(to_lower(solution[i]) == solution[i]);
        assert(lower_seq(guess)[i] == solution[i]);
    }
}

/// Folding feedback never changes the table's length.
pub proof fn lemma_merge_prefix_len(
    kb: Seq<LetterState>,
    classification: Seq<LetterState>,
    guess: Seq<u8>,
    n: int,
)
    requires
        kb.len() == ALPHABET,
        0 <= n <= guess.len(),
        classification.len() == guess.len(),
    ensures
        merge_prefix(kb, classification, guess, n).len() == kb.len(),
    decreases n,
{
    if n > 0 {
        lemma_merge_prefix_len(kb, classification, guess, n - 1);
    }
}

proof fn lemma_merge_prefix_preserves_containment(
    kb: Seq<LetterState>,
    guess: Seq<u8>,
    solution: Seq<u8>,
    n: int,
)
    requires
        kb.len() == ALPHABET,
        guess.len() == solution.len(),
        0 <= n <= guess.len(),
        forall|c: u8|
            is_lower_letter(c) && #[trigger] kb[letter_index(c)] == LetterState::Correct
                ==> solution.contains(c),
    ensures
        forall|c: u8|
            is_lower_letter(c) && #[trigger] merge_prefix(
                kb,
                classify_spec(guess, solution),
                guess,
                n,
            )[letter_index(c)] == LetterState::Correct ==> solution.contains(c),
    decreases n,
{
    if n > 0 {
        lemma_merge_prefix_preserves_containment(kb, guess, solution, n - 1);
        lemma_merge_prefix_len(kb, classify_spec(guess, solution), guess, n - 1);
        let prev = merge_prefix(kb, classify_spec(guess, solution), guess, n - 1);
        let cur = merge_prefix(kb, classify_spec(guess, solution), guess, n);
        let g = guess[n - 1];
        let st = classify_spec(guess, solution)[n - 1];
        assert(cur == merge_one(prev, g, st));
        assert(st == classify_at(guess, solution, n - 1));
        assert forall|c: u8|
            is_lower_letter(c) && cur[letter_index(c)] == LetterState::Correct
            implies solution.contains(c) by {
            if is_lower_letter(g) && letter_index(c) == letter_index(g) {
                if prev[letter_index(c)] == LetterState::Correct {
                } else {
                    assert(st == LetterState::Correct);
                    assert(guess[n - 1] == solution[n - 1]);
                    assert(c == g);
                    assert(solution[n - 1] == c);
                }
            } else {
                assert(cur[letter_index(c)] == prev[letter_index(c)]);
            }
        }
    }
}

/// Folding the feedback for a guess computed against the solution keeps the
/// keyboard honest: every letter it calls `Correct` really occurs in the
/// solution.
pub proof fn lemma_merge_preserves_containment(
    kb: Seq<LetterState>,
    guess: Seq<u8>,
    solution: Seq<u8>,
)
    requires
        kb.len() == ALPHABET,
        guess.len() == solution.len(),
        forall|c: u8|
            is_lower_letter(c) && #[trigger] kb[letter_index(c)] == LetterState::Correct
                ==> solution.contains(c),
    ensures
        forall|c: u8|
            is_lower_letter(c) && #[trigger] merge_spec(
                kb,
                classify_spec(guess, solution),
                guess,
            )[letter_index(c)] == LetterState::Correct ==> solution.contains(c),
{
    lemma_merge_prefix_preserves_containment(kb, guess, solution, guess.len() as int);
}

proof fn lemma_correct_stable_prefix(
    kb: Seq<LetterState>,
    guess: Seq<u8>,
    solution: Seq<u8>,
    c: u8,
    n: int,
)
    requires
        kb.len() == ALPHABET,
        guess.len() == solution.len(),
        0 <= n <= guess.len(),
        is_lower_letter(c),
        kb[letter_index(c)] == LetterState::Correct,
        solution.contains(c),
    ensures
        merge_prefix(kb, classify_spec(guess, solution), guess, n)[letter_index(c)]
            == LetterState::Correct,
    decreases n,
{
    if n > 0 {
        lemma_correct_stable_prefix(kb, guess, solution, c, n - 1);
        lemma_merge_prefix_len(kb, classify_spec(guess, solution), guess, n - 1);
        let prev = merge_prefix(kb, classify_spec(guess, solution), guess, n - 1);
        let g = guess[n - 1];
        let st = classify_spec(guess, solution)[n - 1];
        assert(st == classify_at(guess, solution, n - 1));
        if is_lower_letter(g) && letter_index(g) == letter_index(c) {
            assert(g == c);
            assert(st != LetterState::Incorrect);
        }
    }
}

/// A letter the keyboard already knows `Correct` stays `Correct` when the
/// feedback for any further guess, computed against the same solution, is
/// folded in.
pub proof fn lemma_correct_is_stable(
    kb: Seq<LetterState>,
    guess: Seq<u8>,
    solution: Seq<u8>,
    c: u8,
)
    requires
        kb.len() == ALPHABET,
        guess.len() == solution.len(),
        is_lower_letter(c),
        kb[letter_index(c)] == LetterState::Correct,
        solution.contains(c),
    ensures
        merge_spec(kb, classify_spec(guess, solution), guess)[letter_index(c)]
            == LetterState::Correct,
{
    lemma_correct_stable_prefix(kb, guess, solution, c, guess.len() as int);
}

/// Within a round, no submitted guess whatsoever can move a letter off
/// `Correct` on the keyboard.
pub proof fn lemma_round_correct_is_stable(
    m: RoundModel,
    guess: Seq<u8>,
    is_valid_word: bool,
    c: u8,
)
    requires
        m.wf(),
        is_lower_letter(c),
        m.keyboard[letter_index(c)] == LetterState::Correct,
    ensures
        round_step(m, guess, is_valid_word).keyboard[letter_index(c)] == LetterState::Correct,
{
    if m.status == RoundStatus::AwaitingGuess && guess.len() == m.solution.len() && is_valid_word
        && !eq_ignore_case(guess, m.solution) {
        lemma_correct_is_stable(m.keyboard, guess, m.solution, c);
    }
}

/// One submitted guess together with the dictionary's verdict on it.
pub ghost struct SubmittedGuess {
    pub guess: Seq<u8>,
    pub is_valid_word: bool,
}

/// A submission the round rejects without consuming an attempt.
pub open spec fn rejected_input(solution: Seq<u8>, inp: SubmittedGuess) -> bool {
    inp.guess.len() != solution.len() || !inp.is_valid_word
}

/// A submission the round accepts and evaluates, and which does not win.
pub open spec fn accepted_non_winning_input(solution: Seq<u8>, inp: SubmittedGuess) -> bool {
    &&& inp.guess.len() == solution.len()
    &&& inp.is_valid_word
    &&& !eq_ignore_case(inp.guess, solution)
}

/// The model of a round after a whole sequence of submitted guesses.
pub open spec fn run_round(m: RoundModel, inputs: Seq<SubmittedGuess>) -> RoundModel
    decreases inputs.len(),
{
    if inputs.len() == 0 {
        m
    } else {
        run_round(round_step(m, inputs[0].guess, inputs[0].is_valid_word), inputs.drop_first())
    }
}

/// Running a round over two stretches of input one after the other is running
/// it over their concatenation.
pub proof fn lemma_run_round_append(m: RoundModel, a: Seq<SubmittedGuess>, b: Seq<SubmittedGuess>)
    ensures
        run_round(m, a + b) == run_round(run_round(m, a), b),
    decreases a.len(),
{
    if a.len() == 0 {
        assert(a + b =~= b);
    } else {
        assert((a + b)[0] == a[0]);
        assert((a + b).drop_first() =~= a.drop_first() + b);
        lemma_run_round_append(
            round_step(m, a[0].guess, a[0].is_valid_word),
            a.drop_first(),
            b,
        );
    }
}

/// Rejected submissions leave the round exactly as it was.
pub proof fn lemma_rejected_change_nothing(m: RoundModel, inputs: Seq<SubmittedGuess>)
    requires
        forall|k: int| 0 <= k < inputs.len() ==> rejected_input(m.solution, #[trigger] inputs[k]),
    ensures
        run_round(m, inputs) == m,
    decreases inputs.len(),
{
    if inputs.len() > 0 {
        assert(rejected_input(m.solution, inputs[0]));
        assert(round_step(m, inputs[0].guess, inputs[0].is_valid_word) == m);
        assert forall|k: int| 0 <= k < inputs.drop_first().len() implies rejected_input(
            m.solution,
            #[trigger] inputs.drop_first()[k],
        ) by {
            assert(inputs.drop_first()[k] == inputs[k + 1]);
        }
        lemma_rejected_change_nothing(m, inputs.drop_first());
    }
}

/// Each accepted, non-winning submission costs exactly one attempt.
pub proof fn lemma_accepted_count_attempts(m: RoundModel, inputs: Seq<SubmittedGuess>)
    requires
        m.status == RoundStatus::AwaitingGuess,
        m.attempt <= m.max_attempts,
        m.attempt + inputs.len() <= m.max_attempts + 1,
        forall|k: int|
            0 <= k < inputs.len() ==> accepted_non_winning_input(m.solution, #[trigger] inputs[k]),
    ensures
        run_round(m, inputs).attempt == m.attempt + inputs.len(),
    decreases inputs.len(),
{
    if inputs.len() > 0 {
        assert(accepted_non_winning_input(m.solution, inputs[0]));
        let m1 = round_step(m, inputs[0].guess, inputs[0].is_valid_word);
        assert(m1.attempt == m.attempt + 1);
        assert(m1.solution == m.solution);
        assert forall|k: int| 0 <= k < inputs.drop_first().len() implies accepted_non_winning_input(
            m.solution,
            #[trigger] inputs.drop_first()[k],
        ) by {
            assert(inputs.drop_first()[k] == inputs[k + 1]);
        }
        if m.attempt + 1 > m.max_attempts {
            assert(inputs.len() == 1);
            assert(run_round(m1, inputs.drop_first()) == m1);
        } else {
            lemma_accepted_count_attempts(m1, inputs.drop_first());
        }
    }
}

/// Rejected submissions never move the attempt counter: after any run of
/// rejected submissions followed by accepted non-winning ones, a counter that
/// started at one reads one plus the number of accepted submissions.
pub proof fn lemma_attempt_counter(
    m: RoundModel,
    rejects: Seq<SubmittedGuess>,
    accepts: Seq<SubmittedGuess>,
)
    requires
        m.status == RoundStatus::AwaitingGuess,
        m.attempt == 1,
        1 <= m.max_attempts,
        accepts.len() <= m.max_attempts,
        forall|k: int| 0 <= k < rejects.len() ==> rejected_input(m.solution, #[trigger] rejects[k]),
        forall|k: int|
            0 <= k < accepts.len() ==> accepted_non_winning_input(m.solution, #[trigger] accepts[k]),
    ensures
        run_round(m, rejects + accepts).attempt == 1 + accepts.len(),
{
    lemma_run_round_append(m, rejects, accepts);
    lemma_rejected_change_nothing(m, rejects);
    lemma_accepted_count_attempts(m, accepts);
}

} // verus!
