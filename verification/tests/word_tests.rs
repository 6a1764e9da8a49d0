use hangman::word::Word;

#[test]
fn correct_guess_reveals_matching_positions() {
    let word = Word::from("hello");
    let result = word.guess('h');
    assert_eq!(true, result.was_correct);
    assert_eq!("h____", result.new_word.render());
}

#[test]
fn wrong_guess_reveals_nothing() {
    let word = Word::from("hello");
    let result = word.guess('z');
    assert_eq!(false, result.was_correct);
    assert_eq!("_____", result.new_word.render());
}

#[test]
fn guess_covering_repeated_letter_reveals_all_its_positions() {
    let word = Word::from("hello");
    let result = word.guess('l');
    assert_eq!(true, result.was_correct);
    assert_eq!("__ll_", result.new_word.render());
}

#[test]
fn four_distinct_guesses_reveal_hello() {
    let mut word = Word::from("hello");
    for c in ['h', 'e', 'l', 'o'] {
        assert!(!word.is_guessed());
        let result = word.guess(c);
        assert_eq!(true, result.was_correct);
        word = result.new_word;
    }
    assert_eq!("hello", word.render());
    assert!(word.is_guessed());
}

#[test]
fn repeated_correct_guess_changes_nothing() {
    let word = Word::from("hello");
    let first = word.guess('h');
    let second = first.new_word.guess('h');
    assert_eq!(true, first.was_correct);
    assert_eq!(true, second.was_correct);
    assert_eq!(first.new_word.render(), second.new_word.render());
}

#[test]
fn revealed_returns_original_word_after_any_guesses() {
    let word = Word::from("hello");
    assert_eq!("hello", word.revealed());
    let after_hit = word.guess('e').new_word;
    assert_eq!("hello", after_hit.revealed());
    let after_miss = after_hit.guess('z').new_word;
    assert_eq!("hello", after_miss.revealed());
}

#[test]
fn render_length_equals_word_length_at_every_state() {
    let mut word = Word::from("banana");
    assert_eq!(6, word.render().chars().count());
    for c in ['a', 'z', 'n', 'q', 'b'] {
        word = word.guess(c).new_word;
        assert_eq!(6, word.render().chars().count());
    }
}

#[test]
fn guesses_are_case_sensitive() {
    let word = Word::from("hello");
    let result = word.guess('H');
    assert_eq!(false, result.was_correct);
    assert_eq!("_____", result.new_word.render());
}

#[test]
fn empty_word_counts_as_already_guessed() {
    let word = Word::from("");
    assert!(word.is_guessed());
    assert_eq!("", word.render());
    assert_eq!("", word.revealed());
}
