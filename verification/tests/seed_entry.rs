use nockster_fw::gui::seed::{
    digit_for_char, mnemonic_from_entropy, t9_letters, word_matches_digits, SeedEntryState, SeedOrigin,
    SeedVerificationResult, DICE_ROLLS_FOR_256_BITS,
};

fn words(list: &[&str]) -> Vec<Vec<u8>> {
    list.iter().map(|w| w.as_bytes().to_vec()).collect()
}

fn numbered_wordlist() -> Vec<Vec<u8>> {
    (0..2048).map(|i| format!("w{:04}", i).into_bytes()).collect()
}

fn text(v: &[u8]) -> String {
    String::from_utf8(v.to_vec()).unwrap()
}

#[test]
fn t9_digits_spell_word_prefixes() {
    assert_eq!(digit_for_char(b'a'), Some(2));
    assert_eq!(digit_for_char(b's'), Some(7));
    assert_eq!(digit_for_char(b'z'), Some(9));
    assert_eq!(digit_for_char(b'A'), None);
    assert!(word_matches_digits(b"able", &[2, 2, 5]));
    assert!(!word_matches_digits(b"acid", &[2, 2, 5]));
    assert!(!word_matches_digits(b"ab", &[2, 2, 5]));
    assert_eq!(t9_letters(7), "PQRS");
    assert_eq!(t9_letters(1), "");
}

#[test]
fn typing_digits_suggests_matching_words_and_commits() {
    let wl = words(&["abandon", "able", "ablaze", "acid", "bad", "cab"]);
    let mut s = SeedEntryState::new();
    assert!(s.push_digit(2, &wl));
    assert!(s.push_digit(2, &wl));
    assert!(s.push_digit(5, &wl));
    assert!(!s.push_digit(1, &wl));
    assert_eq!(s.suggestion_position(), Some((1, 2)));
    assert_eq!(text(&s.current_suggestion().unwrap()), "able");
    assert!(s.next_suggestion());
    assert_eq!(text(&s.current_suggestion().unwrap()), "ablaze");
    assert!(s.next_suggestion());
    assert_eq!(text(&s.current_suggestion().unwrap()), "able");
    let committed = s.commit_current().unwrap();
    assert_eq!(text(&committed), "able");
    assert_eq!(s.words().len(), 1);
    assert!(s.digits().is_empty());
    assert!(s.current_suggestion().is_none());
    // With no digits typed, backspace removes the last word, handed back wiped.
    let removed = s.backspace(&wl);
    assert_eq!(removed, Some(Vec::new()));
    assert!(s.words().is_empty());
    assert_eq!(s.backspace(&wl), None);
}

#[test]
fn deleting_a_digit_restores_the_suggestions() {
    let wl = words(&["abandon", "able", "ablaze", "acid", "bad", "cab"]);
    let mut s = SeedEntryState::new();
    s.push_digit(2, &wl);
    s.push_digit(2, &wl);
    assert_eq!(s.suggestion_position(), Some((1, 6)));
    s.push_digit(4, &wl);
    assert_eq!(text(&s.current_suggestion().unwrap()), "acid");
    assert_eq!(s.backspace(&wl), None);
    assert_eq!(s.suggestion_position(), Some((1, 6)));
    assert_eq!(text(&s.current_suggestion().unwrap()), "abandon");
}

#[test]
fn dice_rolls_fill_up_to_the_needed_count() {
    let mut s = SeedEntryState::new();
    assert!(!s.push_dice_roll(0));
    assert!(!s.push_dice_roll(7));
    assert!(!s.pop_dice_roll());
    for _ in 0..DICE_ROLLS_FOR_256_BITS {
        assert!(s.push_dice_roll(6));
    }
    assert!(s.dice_rolls_complete());
    assert!(!s.push_dice_roll(1));
    assert!(s.pop_dice_roll());
    assert_eq!(s.dice_roll_count(), DICE_ROLLS_FOR_256_BITS - 1);
    assert!(!s.dice_rolls_complete());
}

#[test]
fn zero_entropy_gives_the_known_phrase_shape() {
    let wl = numbered_wordlist();
    let phrase = mnemonic_from_entropy(&[0u8; 32], &wl).unwrap();
    assert_eq!(phrase.len(), 24);
    for w in &phrase[..23] {
        assert_eq!(text(w), "w0000");
    }
    // The checksum is the first byte of SHA-256 of the entropy (0x66).
    assert_eq!(text(&phrase[23]), "w0102");
}

#[test]
fn a_short_word_list_yields_no_phrase() {
    let wl = words(&["only", "three", "words"]);
    assert!(mnemonic_from_entropy(&[0xffu8; 32], &wl).is_none());
    let mut s = SeedEntryState::new();
    assert!(!s.load_from_entropy(&[0xffu8; 32], SeedOrigin::Hardware, &wl));
    assert!(!s.is_generated());
}

#[test]
fn the_phrase_check_asks_three_words() {
    let wl = numbered_wordlist();
    let mut s = SeedEntryState::new();
    assert!(s.load_from_entropy(&[0u8; 32], SeedOrigin::Hardware, &wl));
    assert!(s.is_generated());
    assert!(s.is_complete());
    assert!(s.begin_verification_with(&[0u8; 32], &wl));
    assert_eq!(s.verification_prompt(), Some((1, 1)));
    assert_eq!(text(&s.verification_choice(0, &wl).unwrap()), "w0000");
    assert_eq!(text(&s.verification_choice(1, &wl).unwrap()), "w0001");
    assert_eq!(text(&s.verification_choice(2, &wl).unwrap()), "w0002");
    assert_eq!(s.verify_choice(0), SeedVerificationResult::More);
    assert_eq!(s.verification_prompt(), Some((2, 2)));
    assert_eq!(s.verify_choice(0), SeedVerificationResult::More);
    assert_eq!(s.verification_prompt(), Some((3, 3)));
    assert_eq!(s.verify_choice(0), SeedVerificationResult::Complete);
    assert_eq!(s.verification_prompt(), None);
    assert!(!s.verification_failed());
}

#[test]
fn a_wrong_pick_fails_the_check() {
    let wl = numbered_wordlist();
    let mut s = SeedEntryState::new();
    s.load_from_entropy(&[0u8; 32], SeedOrigin::Dice, &wl);
    assert!(s.is_dice_generated());
    assert!(s.begin_verification_with(&[0u8; 32], &wl));
    assert_eq!(s.verify_choice(1), SeedVerificationResult::Incorrect);
    assert!(s.verification_failed());
    assert_eq!(s.verification_prompt(), None);
}

#[test]
fn typed_phrases_are_not_checked() {
    let wl = numbered_wordlist();
    let mut s = SeedEntryState::new();
    assert!(!s.begin_verification_with(&[0u8; 32], &wl));
    let finished = s.take_finished();
    assert!(finished.is_none());
}

#[test]
fn a_finished_phrase_is_handed_over_once() {
    let wl = numbered_wordlist();
    let mut s = SeedEntryState::new();
    s.load_from_entropy(&[7u8; 32], SeedOrigin::Hardware, &wl);
    let phrase = s.take_finished().unwrap();
    assert_eq!(phrase.len(), 24);
    assert!(s.take_finished().is_none());
}
