use wordle::classify::{bytes_eq_ignore_case, classify, contains_byte, lower_byte, LetterState};
use wordle::keyboard::KeyboardState;
use wordle::round::{RoundOutcome, RoundState, RoundStatus, ValidationError};

fn new_round(solution: &[u8], max_attempts: u32) -> RoundState {
    RoundState::new(solution.to_vec(), max_attempts)
}

#[test]
fn classify_crane_arose() {
    // "arose" against "crane": a occurs elsewhere, r matches its position,
    // o and s are absent, e matches its position.
    let r = classify(b"arose", b"crane");
    assert_eq!(
        r,
        vec![
            LetterState::Misplaced,
            LetterState::Correct,
            LetterState::Incorrect,
            LetterState::Incorrect,
            LetterState::Correct,
        ]
    );
}

#[test]
fn classify_smell_spell() {
    let r = classify(b"spell", b"smell");
    assert_eq!(
        r,
        vec![
            LetterState::Correct,
            LetterState::Incorrect,
            LetterState::Correct,
            LetterState::Correct,
            LetterState::Correct,
        ]
    );
}

#[test]
fn classify_all_misplaced() {
    // every letter of "nacre" occurs in "crane", only e at its own position
    let r = classify(b"nacre", b"crane");
    assert_eq!(
        r,
        vec![
            LetterState::Misplaced,
            LetterState::Misplaced,
            LetterState::Misplaced,
            LetterState::Misplaced,
            LetterState::Correct,
        ]
    );
}

#[test]
fn classify_length_matches_input() {
    let r = classify(b"spell", b"smell");
    assert_eq!(r.len(), 5);
}

#[test]
fn classify_exact_match_is_all_correct() {
    let r = classify(b"crane", b"crane");
    assert_eq!(r, vec![LetterState::Correct; 5]);
}

#[test]
fn classify_duplicate_letters_not_capped() {
    // "e" occurs once in "smelt", and that occurrence already matches at
    // position 2; the wrong-position e's are still marked Misplaced because
    // the rule does not track remaining letter counts.
    let r = classify(b"geese", b"smelt");
    assert_eq!(
        r,
        vec![
            LetterState::Incorrect,
            LetterState::Misplaced,
            LetterState::Correct,
            LetterState::Misplaced,
            LetterState::Misplaced,
        ]
    );
}

#[test]
fn helpers_fold_case_and_find_bytes() {
    assert_eq!(lower_byte(b'A'), b'a');
    assert_eq!(lower_byte(b'z'), b'z');
    assert_eq!(lower_byte(b'!'), b'!');
    assert!(bytes_eq_ignore_case(b"CRane", b"crane"));
    assert!(!bytes_eq_ignore_case(b"crane", b"crank"));
    assert!(!bytes_eq_ignore_case(b"cran", b"crane"));
    assert!(contains_byte(b"crane", b'n'));
    assert!(!contains_byte(b"crane", b'o'));
}

#[test]
fn keyboard_starts_all_unknown() {
    let kb = KeyboardState::new();
    for c in b'a'..=b'z' {
        assert_eq!(kb.get(c), LetterState::Unknown);
    }
}

#[test]
fn keyboard_merge_records_feedback() {
    let mut kb = KeyboardState::new();
    let cls = classify(b"arose", b"crane");
    kb.merge(&cls, b"arose");
    assert_eq!(kb.get(b'a'), LetterState::Misplaced);
    assert_eq!(kb.get(b'r'), LetterState::Correct);
    assert_eq!(kb.get(b'o'), LetterState::Incorrect);
    assert_eq!(kb.get(b's'), LetterState::Incorrect);
    assert_eq!(kb.get(b'e'), LetterState::Correct);
    assert_eq!(kb.get(b'q'), LetterState::Unknown);
}

#[test]
fn keyboard_incorrect_overwrites_misplaced() {
    // fed directly, a later Incorrect clobbers an earlier Misplaced
    let mut kb = KeyboardState::new();
    kb.merge(&[LetterState::Misplaced], b"r");
    assert_eq!(kb.get(b'r'), LetterState::Misplaced);
    kb.merge(&[LetterState::Incorrect], b"r");
    assert_eq!(kb.get(b'r'), LetterState::Incorrect);
}

#[test]
fn keyboard_misplaced_never_downgrades_correct() {
    let mut kb = KeyboardState::new();
    kb.merge(&[LetterState::Correct], b"c");
    kb.merge(&[LetterState::Misplaced], b"c");
    assert_eq!(kb.get(b'c'), LetterState::Correct);
}

#[test]
fn keyboard_ignores_bytes_outside_alphabet() {
    let mut kb = KeyboardState::new();
    kb.merge(&[LetterState::Incorrect, LetterState::Correct], b"!Z");
    for c in b'a'..=b'z' {
        assert_eq!(kb.get(c), LetterState::Unknown);
    }
}

#[test]
fn keyboard_lists_letters_in_state_sorted() {
    let mut kb = KeyboardState::new();
    let cls = classify(b"arose", b"crane");
    kb.merge(&cls, b"arose");
    assert_eq!(kb.letters_in_state(LetterState::Correct), b"er".to_vec());
    assert_eq!(kb.letters_in_state(LetterState::Misplaced), b"a".to_vec());
    assert_eq!(kb.letters_in_state(LetterState::Incorrect), b"os".to_vec());
    assert_eq!(kb.letters_in_state(LetterState::Unknown).len(), 21);
}

#[test]
fn round_won_on_matching_guess() {
    let mut round = new_round(b"crane", 6);
    let (cls, outcome) = round.advance_round(b"crane", true).unwrap();
    assert!(cls.is_none());
    assert!(matches!(outcome, RoundOutcome::Won(1)));
    assert_eq!(round.status, RoundStatus::Won);
}

#[test]
fn round_won_is_case_insensitive() {
    let mut round = new_round(b"crane", 6);
    let (cls, outcome) = round.advance_round(b"CRANE", true).unwrap();
    assert!(cls.is_none());
    assert!(matches!(outcome, RoundOutcome::Won(1)));
    assert_eq!(round.status, RoundStatus::Won);
}

#[test]
fn round_won_reports_attempts_used() {
    let mut round = new_round(b"crane", 6);
    let (_, o1) = round.advance_round(b"smell", true).unwrap();
    assert!(matches!(o1, RoundOutcome::Continue));
    let (_, o2) = round.advance_round(b"spell", true).unwrap();
    assert!(matches!(o2, RoundOutcome::Continue));
    let (_, o3) = round.advance_round(b"crane", true).unwrap();
    assert!(matches!(o3, RoundOutcome::Won(3)));
}

#[test]
fn round_lost_after_budget_spent() {
    // two accepted, non-matching guesses against a budget of two
    let mut round = new_round(b"crane", 2);
    let (cls, o1) = round.advance_round(b"smell", true).unwrap();
    assert!(cls.is_some());
    assert!(matches!(o1, RoundOutcome::Continue));
    assert_eq!(round.status, RoundStatus::AwaitingGuess);
    let (cls, o2) = round.advance_round(b"spell", true).unwrap();
    assert!(cls.is_some());
    match o2 {
        RoundOutcome::Lost(revealed) => assert_eq!(revealed, b"crane".to_vec()),
        _ => panic!("expected the round to be lost"),
    }
    assert_eq!(round.status, RoundStatus::Lost);
    assert_eq!(round.attempt, 3);
}

#[test]
fn round_rejects_wrong_length_without_cost() {
    let mut round = new_round(b"crane", 6);
    let r = round.advance_round(b"ab", true);
    assert_eq!(r.unwrap_err(), ValidationError::WrongLength);
    assert_eq!(round.attempt, 1);
    assert_eq!(round.status, RoundStatus::AwaitingGuess);
}

#[test]
fn round_rejects_unknown_word_without_cost() {
    let mut round = new_round(b"crane", 6);
    let r = round.advance_round(b"zzzzz", false);
    assert_eq!(r.unwrap_err(), ValidationError::NotAWord);
    assert_eq!(round.attempt, 1);
    assert_eq!(round.status, RoundStatus::AwaitingGuess);
}

#[test]
fn round_counts_only_accepted_guesses() {
    // two rejected guesses, then two accepted non-winning ones: counter 1 + 2
    let mut round = new_round(b"crane", 6);
    assert!(round.advance_round(b"ab", true).is_err());
    assert!(round.advance_round(b"zzzzz", false).is_err());
    assert_eq!(round.attempt, 1);
    assert!(round.advance_round(b"smell", true).is_ok());
    assert!(round.advance_round(b"spell", true).is_ok());
    assert_eq!(round.attempt, 3);
}

#[test]
fn round_keeps_correct_letters_across_guesses() {
    // c and e become Correct on the first guess; the second guess repeats c
    // at a wrong position, which must not downgrade it
    let mut round = new_round(b"crane", 6);
    round.advance_round(b"cable", true).unwrap();
    assert_eq!(round.keyboard.get(b'c'), LetterState::Correct);
    assert_eq!(round.keyboard.get(b'e'), LetterState::Correct);
    round.advance_round(b"cocoa", true).unwrap();
    assert_eq!(round.keyboard.get(b'c'), LetterState::Correct);
    assert_eq!(round.keyboard.get(b'e'), LetterState::Correct);
}

#[test]
fn round_classification_reaches_caller() {
    let mut round = new_round(b"smell", 6);
    let (cls, _) = round.advance_round(b"spell", true).unwrap();
    assert_eq!(
        cls.unwrap(),
        vec![
            LetterState::Correct,
            LetterState::Incorrect,
            LetterState::Correct,
            LetterState::Correct,
            LetterState::Correct,
        ]
    );
}

#[test]
fn round_rejects_empty_guess() {
    let mut round = new_round(b"crane", 6);
    let r = round.advance_round(b"", true);
    assert_eq!(r.unwrap_err(), ValidationError::WrongLength);
    assert_eq!(round.attempt, 1);
    assert_eq!(round.status, RoundStatus::AwaitingGuess);
}

#[test]
fn round_with_budget_of_one_loses_at_once() {
    let mut round = new_round(b"crane", 1);
    let (_, outcome) = round.advance_round(b"smell", true).unwrap();
    match outcome {
        RoundOutcome::Lost(revealed) => assert_eq!(revealed, b"crane".to_vec()),
        _ => panic!("expected the round to be lost"),
    }
    assert_eq!(round.status, RoundStatus::Lost);
}

#[test]
fn round_can_be_won_on_the_last_attempt() {
    let mut round = new_round(b"crane", 2);
    let (_, o1) = round.advance_round(b"smell", true).unwrap();
    assert!(matches!(o1, RoundOutcome::Continue));
    let (_, o2) = round.advance_round(b"crane", true).unwrap();
    assert!(matches!(o2, RoundOutcome::Won(2)));
    assert_eq!(round.status, RoundStatus::Won);
}
