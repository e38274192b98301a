//! Recovery-phrase entry: T9 word search over a word list, the 24-word
//! phrase being built, dice rolls, mnemonic generation from entropy and the
//! three-word check of a generated phrase.
//!
//! Every function that looks words up takes the word list as an argument,
//! one word per entry.
use vstd::prelude::*;
use crate::crypto::{random_bytes_32, sha256, sha256_digest, zeroize_array};

verus! {

pub const MAX_SEED_WORDS: usize = 24;
/// Longest word a phrase slot holds, in bytes.
pub const MAX_WORD_LEN: usize = 12;
/// Most keypad digits typed for one word.
pub const MAX_DIGITS: usize = 8;
/// Most suggestions kept for the typed digits.
pub const SUGGESTION_CAP: usize = 6;
/// Words the user is asked to pick back from a generated phrase.
pub const SEED_VERIFY_WORDS: usize = 3;
/// Six-sided rolls that carry 256 bits of entropy.
pub const DICE_ROLLS_FOR_256_BITS: usize = 100;
/// Words in the BIP-39 list an 11-bit index selects from.
pub const WORDLIST_SIZE: usize = 2048;

#[derive(Clone, Copy, Debug, PartialEq, Eq, Structural)]
pub enum SeedButton {
    EnterSeed,
    GenerateSeed,
    DiceSeed,
    DiceFace(u8),
    VerifyChoice(u8),
    Key(u8),
    Backspace,
    NextSuggestion,
    CommitWord,
    Finish,
    Cancel,
}

#[derive(Clone, Copy, Debug, PartialEq, Eq, Structural)]
pub enum SeedOrigin {
    Entered,
    Hardware,
    Dice,
}

#[derive(Clone, Copy, Debug, PartialEq, Eq, Structural)]
pub enum SeedVerificationResult {
    More,
    Complete,
    Incorrect,
}

/// The keypad digit a lowercase letter sits on.
pub open spec fn digit_of(b: u8) -> Option<u8> {
    if 97 <= b <= 99 {
        Some(2u8)
    } else if 100 <= b <= 102 {
        Some(3u8)
    } else if 103 <= b <= 105 {
        Some(4u8)
    } else if 106 <= b <= 108 {
        Some(5u8)
    } else if 109 <= b <= 111 {
        Some(6u8)
    } else if 112 <= b <= 115 {
        Some(7u8)
    } else if 116 <= b <= 118 {
        Some(8u8)
    } else if 119 <= b <= 122 {
        Some(9u8)
    } else {
        None
    }
}

pub fn digit_for_char(ch: u8) -> (r: Option<u8>)
    ensures
        r == digit_of(ch),
{
    if 97 <= ch && ch <= 99 {
        Some(2)
    } else if 100 <= ch && ch <= 102 {
        Some(3)
    } else if 103 <= ch && ch <= 105 {
        Some(4)
    } else if 106 <= ch && ch <= 108 {
        Some(5)
    } else if 109 <= ch && ch <= 111 {
        Some(6)
    } else if 112 <= ch && ch <= 115 {
        Some(7)
    } else if 116 <= ch && ch <= 118 {
        Some(8)
    } else if 119 <= ch && ch <= 122 {
        Some(9)
    } else {
        None
    }
}

pub open spec fn t9_letters_spec(digit: u8) -> Seq<char> {
    if digit == 2 {
        "ABC"@
    } else if digit == 3 {
        "DEF"@
    } else if digit == 4 {
        "GHI"@
    } else if digit == 5 {
        "JKL"@
    } else if digit == 6 {
        "MNO"@
    } else if digit == 7 {
        "PQRS"@
    } else if digit == 8 {
        "TUV"@
    } else if digit == 9 {
        "WXYZ"@
    } else {
        ""@
    }
}

/// The letters printed on a keypad digit.
pub fn t9_letters(digit: u8) -> (r: &'static str)
    ensures
        r@ == t9_letters_spec(digit),
{
    match digit {
        2 => "ABC",
        3 => "DEF",
        4 => "GHI",
        5 => "JKL",
        6 => "MNO",
        7 => "PQRS",
        8 => "TUV",
        9 => "WXYZ",
        _ => "",
    }
}

/// The keypad as printed: a lowercase letter sits on the digit whose
/// printed letters hold its capital, and on no other; other bytes sit on
/// no digit.
pub proof fn lemma_letters_on_printed_keys(c: u8, d: u8)
    ensures
        97 <= c <= 122 ==> (digit_of(c) == Some(d) <==> t9_letters_spec(d).contains(((c - 32) as u8) as char)),
        !(97 <= c <= 122) ==> digit_of(c) is None,
{
    reveal_strlit("ABC");
    reveal_strlit("DEF");
    reveal_strlit("GHI");
    reveal_strlit("JKL");
    reveal_strlit("MNO");
    reveal_strlit("PQRS");
    reveal_strlit("TUV");
    reveal_strlit("WXYZ");
    reveal_strlit("");
    if 97 <= c <= 122 {
        let up = ((c - 32) as u8) as char;
        let k = digit_of(c)->Some_0;
        let keys = t9_letters_spec(k);
        assert(2 <= k <= 9);
        let first: u8 = if k == 2 { 97 } else if k == 3 { 100 } else if k == 4 { 103 } else if k == 5 { 106 }
            else if k == 6 { 109 } else if k == 7 { 112 } else if k == 8 { 116 } else { 119 };
        assert(keys[c - first] == up);
        assert(keys.contains(up));
        if t9_letters_spec(d).contains(up) {
            let i = choose|i: int| 0 <= i < t9_letters_spec(d).len() && t9_letters_spec(d)[i] == up;
            assert(d == k);
        }
    }
}

/// The typed digits spell the start of `word`.
pub open spec fn t9_match(word: Seq<u8>, digits: Seq<u8>) -> bool {
    digits.len() <= word.len() && forall|i: int| 0 <= i < digits.len() ==> digit_of(#[trigger] word[i]) == Some(digits[i])
}

pub fn word_matches_digits(word: &[u8], digits: &[u8]) -> (r: bool)
    ensures
        r == t9_match(word@, digits@),
{
    if digits.len() > word.len() {
        return false;
    }
    let n = digits.len();
    let mut i: usize = 0;
    while i < n
        invariant
            n == digits@.len() <= word@.len(),
            i <= n,
            forall|j: int| 0 <= j < i ==> digit_of(#[trigger] word@[j]) == Some(digits@[j]),
        decreases n - i,
    {
        if digit_for_char(word[i]) != Some(digits[i]) {
            return false;
        }
        i = i + 1;
    }
    true
}

/// The words of the list that the digits spell the start of, in list order.
pub open spec fn t9_matches(wl: Seq<Seq<u8>>, digits: Seq<u8>) -> Seq<Seq<u8>>
    decreases wl.len(),
{
    if wl.len() == 0 {
        Seq::empty()
    } else {
        let prev = t9_matches(wl.drop_last(), digits);
        if t9_match(wl.last(), digits) {
            prev.push(wl.last())
        } else {
            prev
        }
    }
}

/// At most the first `n` entries of `s`.
pub open spec fn first_n<A>(s: Seq<A>, n: nat) -> Seq<A> {
    if s.len() <= n {
        s
    } else {
        s.take(n as int)
    }
}

pub open spec fn words_of(wl: Seq<Vec<u8>>) -> Seq<Seq<u8>> {
    wl.map_values(|w: Vec<u8>| w@)
}

/// The suggestion list for some typed digits: the first matches and how
/// many words match in all.
pub fn find_suggestions(wordlist: &[Vec<u8>], digits: &[u8]) -> (r: (Vec<Vec<u8>>, usize))
    ensures
        words_of(r.0@) == first_n(t9_matches(words_of(wordlist@), digits@), SUGGESTION_CAP as nat),
        r.1 == t9_matches(words_of(wordlist@), digits@).len(),
{
    let ghost wl = words_of(wordlist@);
    let n = wordlist.len();
    let mut found: Vec<Vec<u8>> = Vec::new();
    let mut total: usize = 0;
    let mut i: usize = 0;
    assert(wl.take(0) =~= Seq::<Seq<u8>>::empty());
    assert(words_of(found@) =~= Seq::<Seq<u8>>::empty());
    while i < n
        invariant
            n == wordlist@.len(),
            wl == words_of(wordlist@),
            i <= n,
            total == t9_matches(wl.take(i as int), digits@).len(),
            total <= i,
            words_of(found@) == first_n(t9_matches(wl.take(i as int), digits@), SUGGESTION_CAP as nat),
        decreases n - i,
    {
        let word = &wordlist[i];
        proof {
            assert(wl.take(i + 1).drop_last() =~= wl.take(i as int));
            assert(wl.take(i + 1).last() == word@);
        }
        if word_matches_digits(word.as_slice(), digits) {
            total = total + 1;
            if found.len() < SUGGESTION_CAP {
                let ghost prev = found@;
                found.push(word.clone());
                proof {
                    assert(words_of(found@) =~= words_of(prev).push(word@));
                }
            }
        }
        i = i + 1;
        proof {
            let m = t9_matches(wl.take(i as int), digits@);
            let pm = t9_matches(wl.take(i - 1), digits@);
            if m.len() > pm.len() {
                assert(m =~= pm.push(word@));
                if pm.len() < SUGGESTION_CAP {
                    assert(first_n(m, SUGGESTION_CAP as nat) =~= first_n(pm, SUGGESTION_CAP as nat).push(word@));
                } else {
                    assert(first_n(m, SUGGESTION_CAP as nat) =~= first_n(pm, SUGGESTION_CAP as nat));
                }
            }
        }
    }
    assert(wl.take(n as int) =~= wl);
    (found, total)
}

/// The abstract state of phrase entry.
pub struct SeedView {
    pub digits: Seq<u8>,
    pub suggestions: Seq<Seq<u8>>,
    pub suggestion_index: nat,
    pub total_matches: nat,
    pub words: Seq<Seq<u8>>,
    pub dice_rolls: Seq<u8>,
    pub origin: SeedOrigin,
    pub verification: VerifyView,
}

/// The abstract state of the three-word check.
pub struct VerifyView {
    pub targets: Seq<u8>,
    pub choices: Seq<Seq<u16>>,
    pub correct_choices: Seq<u8>,
    pub step: nat,
    pub active: bool,
    pub failed: bool,
}

pub open spec fn verify_reset() -> VerifyView {
    VerifyView {
        targets: seq![0u8, 0u8, 0u8],
        choices: seq![seq![0u16, 0u16, 0u16], seq![0u16, 0u16, 0u16], seq![0u16, 0u16, 0u16]],
        correct_choices: seq![0u8, 0u8, 0u8],
        step: 0,
        active: false,
        failed: false,
    }
}

pub open spec fn seed_wf(s: SeedView) -> bool {
    &&& s.digits.len() <= MAX_DIGITS
    &&& s.suggestions.len() <= SUGGESTION_CAP
    &&& (s.suggestions.len() == 0 ==> s.suggestion_index == 0)
    &&& (s.suggestions.len() > 0 ==> s.suggestion_index < s.suggestions.len())
    &&& s.words.len() <= MAX_SEED_WORDS
    &&& forall|i: int| 0 <= i < s.words.len() ==> (#[trigger] s.words[i]).len() <= MAX_WORD_LEN
    &&& s.dice_rolls.len() <= DICE_ROLLS_FOR_256_BITS
    &&& s.verification.step < SEED_VERIFY_WORDS
    &&& s.verification.targets.len() == SEED_VERIFY_WORDS
    &&& s.verification.correct_choices.len() == SEED_VERIFY_WORDS
    &&& s.verification.choices.len() == SEED_VERIFY_WORDS
    &&& forall|i: int| 0 <= i < SEED_VERIFY_WORDS ==> (#[trigger] s.verification.choices[i]).len() == 3
}

/// The suggestion fields after the typed digits change.
pub open spec fn refreshed(s: SeedView, wl: Seq<Seq<u8>>, digits: Seq<u8>) -> SeedView {
    if digits.len() == 0 {
        SeedView { digits, suggestions: Seq::empty(), suggestion_index: 0, total_matches: 0, ..s }
    } else {
        let sugg = first_n(t9_matches(wl, digits), SUGGESTION_CAP as nat);
        SeedView {
            digits,
            suggestions: sugg,
            suggestion_index: if sugg.len() == 0 || s.suggestion_index >= sugg.len() { 0 } else { s.suggestion_index },
            total_matches: t9_matches(wl, digits).len(),
            ..s
        }
    }
}

pub struct SeedVerificationState {
    targets: [u8; 3],
    choices: [[u16; 3]; 3],
    correct_choices: [u8; 3],
    step: usize,
    active: bool,
    failed: bool,
}

impl View for SeedVerificationState {
    type V = VerifyView;

    closed spec fn view(&self) -> VerifyView {
        VerifyView {
            targets: self.targets@,
            choices: self.choices@.map_values(|c: [u16; 3]| c@),
            correct_choices: self.correct_choices@,
            step: self.step as nat,
            active: self.active,
            failed: self.failed,
        }
    }
}

impl SeedVerificationState {
    pub fn new() -> (s: Self)
        ensures
            s@ == verify_reset(),
    {
        let s = SeedVerificationState {
            targets: [0; 3],
            choices: [[0; 3]; 3],
            correct_choices: [0; 3],
            step: 0,
            active: false,
            failed: false,
        };
        proof {
            assert(s@.targets =~= verify_reset().targets);
            assert(s@.correct_choices =~= verify_reset().correct_choices);
            assert(s@.choices[0] =~= seq![0u16, 0u16, 0u16]);
            assert(s@.choices[1] =~= seq![0u16, 0u16, 0u16]);
            assert(s@.choices[2] =~= seq![0u16, 0u16, 0u16]);
            assert(s@.choices =~= verify_reset().choices);
        }
        s
    }

    pub fn reset(&mut self)
        ensures
            final(self)@ == verify_reset(),
    {
        *self = SeedVerificationState::new();
    }
}

pub struct SeedEntryState {
    digits: Vec<u8>,
    suggestions: Vec<Vec<u8>>,
    suggestion_index: usize,
    total_matches: usize,
    words: Vec<Vec<u8>>,
    dice_rolls: Vec<u8>,
    origin: SeedOrigin,
    verification: SeedVerificationState,
}

impl View for SeedEntryState {
    type V = SeedView;

    closed spec fn view(&self) -> SeedView {
        SeedView {
            digits: self.digits@,
            suggestions: words_of(self.suggestions@),
            suggestion_index: self.suggestion_index as nat,
            total_matches: self.total_matches as nat,
            words: words_of(self.words@),
            dice_rolls: self.dice_rolls@,
            origin: self.origin,
            verification: self.verification@,
        }
    }
}

pub open spec fn fresh_seed_view() -> SeedView {
    SeedView {
        digits: Seq::empty(),
        suggestions: Seq::empty(),
        suggestion_index: 0,
        total_matches: 0,
        words: Seq::empty(),
        dice_rolls: Seq::empty(),
        origin: SeedOrigin::Entered,
        verification: verify_reset(),
    }
}

impl SeedEntryState {
    pub open spec fn wf(&self) -> bool {
        seed_wf(self@)
    }

    pub fn new() -> (s: Self)
        ensures
            s.wf(),
            s@ == fresh_seed_view(),
    {
        let s = SeedEntryState {
            digits: Vec::new(),
            suggestions: Vec::new(),
            suggestion_index: 0,
            total_matches: 0,
            words: Vec::new(),
            dice_rolls: Vec::new(),
            origin: SeedOrigin::Entered,
            verification: SeedVerificationState::new(),
        };
        proof {
            assert(s@.digits =~= Seq::<u8>::empty());
            assert(s@.suggestions =~= Seq::<Seq<u8>>::empty());
            assert(s@.words =~= Seq::<Seq<u8>>::empty());
            assert(s@.dice_rolls =~= Seq::<u8>::empty());
        }
        s
    }

    /// Forgets everything typed, generated or rolled.
    pub fn reset(&mut self)
        ensures
            final(self).wf(),
            final(self)@ == fresh_seed_view(),
    {
        *self = SeedEntryState::new();
    }

    pub fn is_generated(&self) -> (r: bool)
        ensures
            r == (self@.origin != SeedOrigin::Entered),
    {
        self.origin != SeedOrigin::Entered
    }

    pub fn is_dice_generated(&self) -> (r: bool)
        ensures
            r == (self@.origin == SeedOrigin::Dice),
    {
        self.origin == SeedOrigin::Dice
    }

    pub fn verification_failed(&self) -> (r: bool)
        ensures
            r == self@.verification.failed,
    {
        self.verification.failed
    }

    pub fn words(&self) -> (r: &Vec<Vec<u8>>)
        ensures
            words_of(r@) == self@.words,
    {
        &self.words
    }

    pub fn digits(&self) -> (r: &Vec<u8>)
        ensures
            r@ == self@.digits,
    {
        &self.digits
    }

    pub fn dice_roll_count(&self) -> (r: usize)
        ensures
            r == self@.dice_rolls.len(),
    {
        self.dice_rolls.len()
    }

    pub fn dice_rolls(&self) -> (r: &[u8])
        ensures
            r@ == self@.dice_rolls,
    {
        self.dice_rolls.as_slice()
    }

    /// Records a die face (1 to 6) while fewer than the needed rolls are in.
    pub fn push_dice_roll(&mut self, roll: u8) -> (r: bool)
        requires
            old(self).wf(),
        ensures
            final(self).wf(),
            r == (1 <= roll <= 6 && old(self)@.dice_rolls.len() < DICE_ROLLS_FOR_256_BITS),
            final(self)@ == if r {
                SeedView { dice_rolls: old(self)@.dice_rolls.push(roll), ..old(self)@ }
            } else {
                old(self)@
            },
    {
        if 1 <= roll && roll <= 6 && self.dice_rolls.len() < DICE_ROLLS_FOR_256_BITS {
            self.dice_rolls.push(roll);
            true
        } else {
            false
        }
    }

    /// Takes back the last roll; false when there is none.
    pub fn pop_dice_roll(&mut self) -> (r: bool)
        requires
            old(self).wf(),
        ensures
            final(self).wf(),
            r == (old(self)@.dice_rolls.len() > 0),
            final(self)@ == if r {
                SeedView { dice_rolls: old(self)@.dice_rolls.drop_last(), ..old(self)@ }
            } else {
                old(self)@
            },
    {
        if self.dice_rolls.len() == 0 {
            return false;
        }
        self.dice_rolls.pop();
        proof {
            assert(self@.dice_rolls =~= old(self)@.dice_rolls.drop_last());
        }
        true
    }

    pub fn dice_rolls_complete(&self) -> (r: bool)
        ensures
            r == (self@.dice_rolls.len() == DICE_ROLLS_FOR_256_BITS),
    {
        self.dice_rolls.len() == DICE_ROLLS_FOR_256_BITS
    }

    fn refresh_suggestions(&mut self, wordlist: &[Vec<u8>])
        requires
            old(self).wf(),
        ensures
            final(self).wf(),
            final(self)@ == refreshed(old(self)@, words_of(wordlist@), old(self)@.digits),
    {
        if self.digits.len() == 0 {
            self.suggestions = Vec::new();
            self.total_matches = 0;
            self.suggestion_index = 0;
            assert(self@.suggestions =~= Seq::<Seq<u8>>::empty());
            return;
        }
        let (found, total) = find_suggestions(wordlist, self.digits.as_slice());
        self.suggestions = found;
        self.total_matches = total;
        if self.suggestions.len() == 0 || self.suggestion_index >= self.suggestions.len() {
            self.suggestion_index = 0;
        }
    }

    /// Types a keypad digit (2 to 9) of the current word, up to the most
    /// digits a word takes.
    pub fn push_digit(&mut self, digit: u8, wordlist: &[Vec<u8>]) -> (r: bool)
        requires
            old(self).wf(),
        ensures
            final(self).wf(),
            r == (2 <= digit <= 9 && old(self)@.digits.len() < MAX_DIGITS),
            final(self)@ == if r {
                refreshed(old(self)@, words_of(wordlist@), old(self)@.digits.push(digit))
            } else {
                old(self)@
            },
    {
        if digit < 2 || digit > 9 || self.digits.len() >= MAX_DIGITS {
            return false;
        }
        self.digits.push(digit);
        self.refresh_suggestions(wordlist);
        true
    }

    /// Deletes the last typed digit, or, with none typed, the last committed
    /// word. A removed word is handed back wiped.
    pub fn backspace(&mut self, wordlist: &[Vec<u8>]) -> (r: Option<Vec<u8>>)
        requires
            old(self).wf(),
        ensures
            final(self).wf(),
            old(self)@.digits.len() > 0 ==> r is None && final(self)@ == refreshed(
                old(self)@,
                words_of(wordlist@),
                old(self)@.digits.drop_last(),
            ),
            old(self)@.digits.len() == 0 && old(self)@.words.len() > 0 ==> (r matches Some(w) && w@.len() == 0
                && final(self)@ == (SeedView { words: old(self)@.words.drop_last(), ..old(self)@ })),
            old(self)@.digits.len() == 0 && old(self)@.words.len() == 0 ==> r is None && final(self)@ == old(self)@,
    {
        if self.digits.len() > 0 {
            self.digits.pop();
            self.refresh_suggestions(wordlist);
            assert(self@.digits =~= old(self)@.digits.drop_last());
            return None;
        }
        match self.words.pop() {
            Some(mut word) => {
                proof {
                    assert(words_of(self.words@) =~= old(self)@.words.drop_last());
                }
                let n = word.len();
                let mut i: usize = 0;
                while i < n
                    invariant
                        i <= n == word@.len(),
                    decreases n - i,
                {
                    word.set(i, 0);
                    i = i + 1;
                }
                word.clear();
                Some(word)
            },
            None => None,
        }
    }

    /// Moves to the next suggestion, wrapping round; false when there are
    /// none.
    pub fn next_suggestion(&mut self) -> (r: bool)
        requires
            old(self).wf(),
        ensures
            final(self).wf(),
            r == (old(self)@.suggestions.len() > 0),
            final(self)@ == if r {
                SeedView {
                    suggestion_index: ((old(self)@.suggestion_index + 1) % old(self)@.suggestions.len()) as nat,
                    ..old(self)@
                }
            } else {
                old(self)@
            },
    {
        if self.suggestions.len() == 0 {
            return false;
        }
        self.suggestion_index = (self.suggestion_index + 1) % self.suggestions.len();
        true
    }

    pub fn current_suggestion(&self) -> (r: Option<Vec<u8>>)
        requires
            self.wf(),
        ensures
            match r {
                Some(w) => self@.suggestions.len() > 0 && w@ == self@.suggestions[self@.suggestion_index as int],
                None => self@.suggestions.len() == 0,
            },
    {
        if self.suggestions.len() == 0 {
            None
        } else {
            Some(self.suggestions[self.suggestion_index].clone())
        }
    }

    /// Where the current suggestion stands among all matches, counting from
    /// one.
    pub fn suggestion_position(&self) -> (r: Option<(usize, usize)>)
        requires
            self.wf(),
        ensures
            r == if self@.suggestions.len() == 0 || self@.total_matches == 0 {
                None::<(usize, usize)>
            } else {
                Some(((self@.suggestion_index + 1) as usize, self@.total_matches as usize))
            },
    {
        if self.suggestions.len() == 0 || self.total_matches == 0 {
            None
        } else {
            Some((self.suggestion_index + 1, self.total_matches))
        }
    }

    /// Adds the current suggestion to the phrase and starts the next word.
    /// A word too long for a phrase slot goes in empty.
    pub fn commit_current(&mut self) -> (r: Option<Vec<u8>>)
        requires
            old(self).wf(),
        ensures
            final(self).wf(),
            (old(self)@.suggestions.len() > 0 && old(self)@.words.len() < MAX_SEED_WORDS) ==> ({
                let w = old(self)@.suggestions[old(self)@.suggestion_index as int];
                let committed = if w.len() <= MAX_WORD_LEN { w } else { Seq::empty() };
                &&& r matches Some(c) && c@ == committed
                &&& final(self)@ == (SeedView {
                    words: old(self)@.words.push(committed),
                    digits: Seq::empty(),
                    suggestions: Seq::empty(),
                    suggestion_index: 0,
                    total_matches: 0,
                    ..old(self)@
                })
            }),
            !(old(self)@.suggestions.len() > 0 && old(self)@.words.len() < MAX_SEED_WORDS) ==> r is None
                && final(self)@ == old(self)@,
    {
        let word = match self.current_suggestion() {
            Some(w) => w,
            None => return None,
        };
        if self.words.len() >= MAX_SEED_WORDS {
            return None;
        }
        let committed = if word.len() <= MAX_WORD_LEN { word } else { Vec::new() };
        let ghost prev = self.words@;
        self.words.push(committed.clone());
        self.digits = Vec::new();
        self.suggestions = Vec::new();
        self.suggestion_index = 0;
        self.total_matches = 0;
        proof {
            assert(words_of(self.words@) =~= words_of(prev).push(committed@));
            assert(self@.digits =~= Seq::<u8>::empty());
            assert(self@.suggestions =~= Seq::<Seq<u8>>::empty());
        }
        Some(committed)
    }

    pub fn is_complete(&self) -> (r: bool)
        ensures
            r == (self@.words.len() == MAX_SEED_WORDS && self@.digits.len() == 0),
    {
        self.words.len() == MAX_SEED_WORDS && self.digits.len() == 0
    }

    /// Hands over the finished phrase, leaving the entry without words.
    pub fn take_finished(&mut self) -> (r: Option<Vec<Vec<u8>>>)
        requires
            old(self).wf(),
        ensures
            final(self).wf(),
            (old(self)@.words.len() == MAX_SEED_WORDS && old(self)@.digits.len() == 0) ==> (r matches Some(p)
                && words_of(p@) == old(self)@.words && final(self)@ == (SeedView { words: Seq::empty(), ..old(self)@ })),
            !(old(self)@.words.len() == MAX_SEED_WORDS && old(self)@.digits.len() == 0) ==> r is None
                && final(self)@ == old(self)@,
    {
        if !self.is_complete() {
            return None;
        }
        let mut taken: Vec<Vec<u8>> = Vec::new();
        std::mem::swap(&mut taken, &mut self.words);
        assert(words_of(self.words@) =~= Seq::<Seq<u8>>::empty());
        Some(taken)
    }
}

/// `2^n`.
pub open spec fn pow2(n: nat) -> nat
    decreases n,
{
    if n == 0 {
        1
    } else {
        2 * pow2((n - 1) as nat)
    }
}

/// Bit `k` of `bits`, counting from the most significant bit of the first
/// byte.
pub open spec fn bit_at(bits: Seq<u8>, k: int) -> nat {
    ((bits[k / 8] >> ((7 - k % 8) as u8)) & 1u8) as nat
}

/// The `n` bits of `bits` from bit `start` on, read as a number, most
/// significant first.
pub open spec fn bits_value(bits: Seq<u8>, start: int, n: nat) -> nat
    decreases n,
{
    if n == 0 {
        0
    } else {
        2 * bits_value(bits, start, (n - 1) as nat) + bit_at(bits, start + n - 1)
    }
}

/// Reads 11 bits, most significant first, from bit `start` of `bits`.
proof fn lemma_pow2_small(i: nat)
    requires
        i <= 11,
    ensures
        pow2(i) <= 2048,
    decreases 11 - i,
{
    if i < 11 {
        lemma_pow2_small(i + 1);
    } else {
        reveal_with_fuel(pow2, 12);
    }
}

pub fn extract_11_bits(bits: &[u8], start: usize) -> (r: usize)
    requires
        start + 11 <= bits@.len() * 8,
        start + 11 <= usize::MAX,
    ensures
        r == bits_value(bits@, start as int, 11),
        r < WORDLIST_SIZE,
{
    let mut value: usize = 0;
    let mut i: usize = 0;
    while i < 11
        invariant
            start + 11 <= bits@.len() * 8,
            start + 11 <= usize::MAX,
            i <= 11,
            value == bits_value(bits@, start as int, i as nat),
            value < pow2(i as nat),
        decreases 11 - i,
    {
        let bit = start + i;
        let byte = bits[bit / 8];
        let shift: u8 = (7 - bit % 8) as u8;
        let set: u8 = (byte >> shift) & 1;
        assert(set <= 1) by (bit_vector)
            requires set == (byte >> shift) & 1u8;
        proof {
            assert(bit_at(bits@, start + i) == set as nat);
            lemma_pow2_small(i as nat);
        }
        value = value * 2 + set as usize;
        i = i + 1;
    }
    assert(pow2(11) == 2048) by {
        reveal_with_fuel(pow2, 12);
    }
    value
}

/// The bits a 24-word phrase encodes: the entropy, then the first byte of
/// its SHA-256 digest as checksum.
pub open spec fn phrase_bits(entropy: Seq<u8>) -> Seq<u8> {
    entropy.push(sha256(entropy)[0])
}

/// The word-list index of word `i` of the phrase for `entropy`.
pub open spec fn phrase_index(entropy: Seq<u8>, i: int) -> nat {
    bits_value(phrase_bits(entropy), 11 * i, 11)
}

/// The BIP-39 phrase for 256 bits of entropy: each 11-bit group of the
/// entropy and checksum picks a word. There is none when an index falls
/// outside the list or a word is longer than a phrase slot holds.
pub open spec fn mnemonic_spec(entropy: Seq<u8>, wl: Seq<Seq<u8>>) -> Option<Seq<Seq<u8>>> {
    if forall|i: int| 0 <= i < MAX_SEED_WORDS ==> #[trigger] phrase_index(entropy, i) < wl.len()
        && wl[phrase_index(entropy, i) as int].len() <= MAX_WORD_LEN {
        Some(Seq::new(MAX_SEED_WORDS as nat, |i: int| wl[phrase_index(entropy, i) as int]))
    } else {
        None
    }
}

pub fn mnemonic_from_entropy(entropy: &[u8; 32], wordlist: &[Vec<u8>]) -> (r: Option<Vec<Vec<u8>>>)
    ensures
        match r {
            Some(p) => mnemonic_spec(entropy@, words_of(wordlist@)) == Some(words_of(p@)),
            None => mnemonic_spec(entropy@, words_of(wordlist@)) is None,
        },
{
    let ghost wl = words_of(wordlist@);
    let digest = sha256_digest(entropy.as_slice());
    let mut bits = [0u8; 33];
    let mut j: usize = 0;
    while j < 32
        invariant
            j <= 32,
            forall|k: int| 0 <= k < j ==> bits@[k] == entropy@[k],
        decreases 32 - j,
    {
        bits[j] = entropy[j];
        j = j + 1;
    }
    bits[32] = digest[0];
    assert(bits@ =~= phrase_bits(entropy@));
    let mut phrase: Vec<Vec<u8>> = Vec::new();
    let mut i: usize = 0;
    while i < MAX_SEED_WORDS
        invariant
            i <= MAX_SEED_WORDS,
            wl == words_of(wordlist@),
            bits@ == phrase_bits(entropy@),
            phrase@.len() == i,
            forall|k: int| 0 <= k < i ==> phrase_index(entropy@, k) < wl.len()
                && (#[trigger] phrase@[k])@ == wl[phrase_index(entropy@, k) as int]
                && wl[phrase_index(entropy@, k) as int].len() <= MAX_WORD_LEN,
        decreases MAX_SEED_WORDS - i,
    {
        let index = extract_11_bits(bits.as_slice(), i * 11);
        assert(index == phrase_index(entropy@, i as int));
        if index >= wordlist.len() {
            zeroize_array(&mut bits);
            return None;
        }
        let word = &wordlist[index];
        if word.len() > MAX_WORD_LEN {
            zeroize_array(&mut bits);
            return None;
        }
        let ghost prev = phrase@;
        phrase.push(word.clone());
        proof {
            assert(words_of(phrase@) =~= words_of(prev).push(word@));
            assert(wl[index as int] == word@);
            assert(words_of(phrase@)[i as int] == wl[phrase_index(entropy@, i as int) as int]);
            assert(wl[phrase_index(entropy@, i as int) as int].len() <= MAX_WORD_LEN);
            assert(phrase_index(entropy@, i as int) < wl.len());
            assert forall|k: int| 0 <= k < i implies #[trigger] phrase@[k] == prev[k] by {}
        }
        i = i + 1;
        assert forall|k: int| 0 <= k < i implies phrase_index(entropy@, k) < wl.len() by {
            if k < i - 1 {
                assert(phrase@[k] == prev[k]);
            }
        }
        assert forall|k: int| 0 <= k < i implies phrase@[k]@ == wl[phrase_index(entropy@, k) as int] by {
            if k < i - 1 {
                assert(phrase@[k] == prev[k]);
            }
        }
        assert forall|k: int| 0 <= k < i implies wl[phrase_index(entropy@, k) as int].len() <= MAX_WORD_LEN by {
            if k < i - 1 {
                assert(phrase@[k] == prev[k]);
            }
        }
    }
    zeroize_array(&mut bits);
    proof {
        assert forall|k: int| 0 <= k < MAX_SEED_WORDS implies #[trigger] phrase_index(entropy@, k) < wl.len()
            && wl[phrase_index(entropy@, k) as int].len() <= MAX_WORD_LEN by {
            assert(phrase@[k]@ == wl[phrase_index(entropy@, k) as int]);
        }
        assert(words_of(phrase@) =~= Seq::new(MAX_SEED_WORDS as nat, |k: int| wl[phrase_index(entropy@, k) as int]));
    }
    Some(phrase)
}

/// The position of the first copy of `word` in the list.
pub open spec fn first_index(wl: Seq<Seq<u8>>, word: Seq<u8>, i: nat) -> bool {
    i < wl.len() && wl[i as int] == word && forall|j: int| 0 <= j < i ==> wl[j] != word
}

pub fn word_index(wordlist: &[Vec<u8>], word: &[u8]) -> (r: Option<usize>)
    ensures
        match r {
            Some(i) => first_index(words_of(wordlist@), word@, i as nat),
            None => forall|j: int| 0 <= j < wordlist@.len() ==> #[trigger] words_of(wordlist@)[j] != word@,
        },
{
    let n = wordlist.len();
    let mut i: usize = 0;
    while i < n
        invariant
            n == wordlist@.len(),
            i <= n,
            forall|j: int| 0 <= j < i ==> #[trigger] words_of(wordlist@)[j] != word@,
        decreases n - i,
    {
        if crate::bytes::seq_eq(wordlist[i].as_slice(), word) {
            return Some(i);
        }
        i = i + 1;
    }
    None
}

/// Position `k` steps round a cycle of `m` values from `start`.
pub open spec fn cyc(start: int, k: int, m: int) -> int {
    (start + k) % m
}

/// `x` is one of the targets chosen before challenge `c`.
pub open spec fn target_taken(targets: Seq<u8>, c: int, x: int) -> bool {
    exists|i: int| 0 <= i < c && targets[i] as int == x
}

/// Target `c` is the first phrase position, counting round from
/// `random[c] mod 24`, that no earlier challenge took.
pub open spec fn target_picked(random: Seq<u8>, targets: Seq<u8>, c: int) -> bool {
    let start = (random[c] % 24) as int;
    exists|k: nat|
        #![trigger cyc(start, k as int, 24)]
        targets[c] as int == cyc(start, k as int, 24) && !target_taken(targets, c, targets[c] as int)
            && forall|j: int| 0 <= j < k ==> target_taken(targets, c, #[trigger] cyc(start, j, 24))
}

/// The start of the search for the decoy in `slot` of challenge `c`: two
/// random bytes, big-endian, as an 11-bit word index. Decoys read their bytes
/// in turn from offset `6 + 4c`, the correct word's slot skipped.
pub open spec fn decoy_start(random: Seq<u8>, c: int, correct_slot: int, slot: int) -> int {
    let before = if correct_slot < slot { slot - 1 } else { slot };
    let off = 6 + 4 * c + 2 * before;
    (random[off] * 256 + random[off + 1]) % 2048
}

/// `x` is the correct word's index or one of the choices before `slot`.
pub open spec fn decoy_taken(ch: Seq<u16>, slot: int, correct: u16, x: int) -> bool {
    x == correct as int || exists|i: int| 0 <= i < slot && ch[i] as int == x
}

/// The decoy in `slot` is the first word index, counting round from its
/// random start, that is neither the correct one nor an earlier choice.
pub open spec fn decoy_picked(random: Seq<u8>, c: int, correct_slot: int, correct: u16, ch: Seq<u16>, slot: int) -> bool {
    let start = decoy_start(random, c, correct_slot, slot);
    exists|k: nat|
        #![trigger cyc(start, k as int, 2048)]
        ch[slot] as int == cyc(start, k as int, 2048) && !decoy_taken(ch, slot, correct, ch[slot] as int)
            && forall|j: int| 0 <= j < k ==> decoy_taken(ch, slot, correct, #[trigger] cyc(start, j, 2048))
}

/// Challenge `c` asks for phrase word `targets[c]`, picked as above; the
/// correct word's list index sits at slot `random[3 + c] mod 3` and the
/// other slots hold decoys picked as above.
pub open spec fn challenge_ok(
    random: Seq<u8>,
    targets: Seq<u8>,
    ch: Seq<u16>,
    correct_slot: u8,
    words: Seq<Seq<u8>>,
    wl: Seq<Seq<u8>>,
    c: int,
) -> bool {
    &&& target_picked(random, targets, c)
    &&& correct_slot as int == (random[3 + c] % 3) as int
    &&& exists|ci: nat|
        #![trigger first_index(wl, words[targets[c] as int], ci)]
        first_index(wl, words[targets[c] as int], ci) && ch[correct_slot as int] == ci as u16
            && forall|s: int| 0 <= s < 3 && s != correct_slot ==> #[trigger] decoy_picked(random, c, correct_slot as int, ci as u16, ch, s)
}

/// Every word of the phrase is in the list.
pub open spec fn phrase_in_list(words: Seq<Seq<u8>>, wl: Seq<Seq<u8>>) -> bool {
    forall|t: int| 0 <= t < words.len() ==> exists|j: int| 0 <= j < wl.len() && #[trigger] wl[j] == #[trigger] words[t]
}

fn target_is_taken(targets: &[u8; 3], c: usize, x: u8) -> (r: bool)
    requires
        c <= 3,
    ensures
        r == target_taken(targets@, c as int, x as int),
{
    let mut i: usize = 0;
    while i < c
        invariant
            c <= 3,
            i <= c,
            forall|j: int| 0 <= j < i ==> targets@[j] != x,
        decreases c - i,
    {
        if targets[i] == x {
            return true;
        }
        i = i + 1;
    }
    false
}

fn decoy_is_taken(ch: &[u16; 3], slot: usize, correct: u16, x: u16) -> (r: bool)
    requires
        slot <= 3,
    ensures
        r == decoy_taken(ch@, slot as int, correct, x as int),
{
    if x == correct {
        return true;
    }
    let mut i: usize = 0;
    while i < slot
        invariant
            slot <= 3,
            i <= slot,
            forall|j: int| 0 <= j < i ==> ch@[j] != x,
        decreases slot - i,
    {
        if ch[i] == x {
            return true;
        }
        i = i + 1;
    }
    false
}

impl SeedEntryState {
    /// Loads the phrase for `entropy`, marking where it came from; false, with
    /// nothing changed, when the list yields no phrase.
    pub fn load_from_entropy(&mut self, entropy: &[u8; 32], origin: SeedOrigin, wordlist: &[Vec<u8>]) -> (r: bool)
        requires
            old(self).wf(),
        ensures
            final(self).wf(),
            r == mnemonic_spec(entropy@, words_of(wordlist@)) is Some,
            r ==> final(self)@ == (SeedView {
                words: mnemonic_spec(entropy@, words_of(wordlist@))->0,
                origin,
                ..fresh_seed_view()
            }),
            !r ==> final(self)@ == old(self)@,
    {
        match mnemonic_from_entropy(entropy, wordlist) {
            Some(words) => {
                self.reset();
                self.words = words;
                self.origin = origin;
                proof {
                    let p = mnemonic_spec(entropy@, words_of(wordlist@))->0;
                    assert forall|i: int| 0 <= i < self@.words.len() implies (#[trigger] self@.words[i]).len() <= MAX_WORD_LEN by {
                        assert(p[i] == words_of(wordlist@)[phrase_index(entropy@, i) as int]);
                    }
                }
                true
            },
            None => false,
        }
    }

    /// A fresh phrase from the hardware random generator; false, with the
    /// entry left reset, when no entropy came or the list yields no phrase.
    pub fn load_generated(&mut self, wordlist: &[Vec<u8>]) -> (r: bool)
        requires
            old(self).wf(),
        ensures
            final(self).wf(),
            r ==> exists|e: Seq<u8>| e.len() == 32 && #[trigger] mnemonic_spec(e, words_of(wordlist@)) is Some
                && final(self)@ == (SeedView {
                    words: mnemonic_spec(e, words_of(wordlist@))->0,
                    origin: SeedOrigin::Hardware,
                    ..fresh_seed_view()
                }),
            !r ==> final(self)@ == fresh_seed_view(),
    {
        let mut entropy = match random_bytes_32() {
            Ok(e) => e,
            Err(_) => {
                self.reset();
                return false;
            },
        };
        let r = self.load_from_entropy(&entropy, SeedOrigin::Hardware, wordlist);
        zeroize_array(&mut entropy);
        if !r {
            self.reset();
        }
        r
    }

    /// Loads the phrase for the entropy distilled from the dice rolls, when
    /// there is one.
    pub fn load_dice_generated(&mut self, dice_entropy: Option<[u8; 32]>, wordlist: &[Vec<u8>]) -> (r: bool)
        requires
            old(self).wf(),
        ensures
            final(self).wf(),
            match dice_entropy {
                Some(e) => {
                    &&& r == mnemonic_spec(e@, words_of(wordlist@)) is Some
                    &&& r ==> final(self)@ == (SeedView {
                        words: mnemonic_spec(e@, words_of(wordlist@))->0,
                        origin: SeedOrigin::Dice,
                        ..fresh_seed_view()
                    })
                },
                None => !r,
            },
            !r ==> final(self)@ == old(self)@,
    {
        match dice_entropy {
            Some(mut e) => {
                let r = self.load_from_entropy(&e, SeedOrigin::Dice, wordlist);
                zeroize_array(&mut e);
                r
            },
            None => false,
        }
    }

    pub fn verification_prompt(&self) -> (r: Option<(usize, usize)>)
        requires
            self.wf(),
        ensures
            r == if self@.verification.active {
                Some(((self@.verification.step + 1) as usize, (self@.verification.targets[self@.verification.step as int] + 1) as usize))
            } else {
                None::<(usize, usize)>
            },
    {
        if self.verification.active {
            let step = self.verification.step;
            Some((step + 1, self.verification.targets[step] as usize + 1))
        } else {
            None
        }
    }

    /// The word shown on choice button `choice` of the current step.
    pub fn verification_choice(&self, choice: usize, wordlist: &[Vec<u8>]) -> (r: Option<Vec<u8>>)
        requires
            self.wf(),
        ensures
            ({
                let v = self@.verification;
                if !v.active || choice >= 3 {
                    r is None
                } else {
                    let idx = v.choices[v.step as int][choice as int] as int;
                    match r {
                        Some(w) => idx < wordlist@.len() && w@ == wordlist@[idx]@,
                        None => idx >= wordlist@.len(),
                    }
                }
            }),
    {
        if !self.verification.active || choice >= 3 {
            return None;
        }
        let idx = self.verification.choices[self.verification.step][choice] as usize;
        if idx < wordlist.len() {
            Some(wordlist[idx].clone())
        } else {
            None
        }
    }

    /// Checks the user's pick for the current step.
    pub fn verify_choice(&mut self, choice: usize) -> (r: SeedVerificationResult)
        requires
            old(self).wf(),
        ensures
            final(self).wf(),
            (final(self)@.verification, r) == verify_step(old(self)@.verification, choice as int),
            final(self)@ == (SeedView { verification: final(self)@.verification, ..old(self)@ }),
    {
        if !self.verification.active || choice >= 3
            || choice != self.verification.correct_choices[self.verification.step] as usize {
            self.verification.reset();
            self.verification.failed = true;
            return SeedVerificationResult::Incorrect;
        }
        self.verification.step = self.verification.step + 1;
        if self.verification.step == SEED_VERIFY_WORDS {
            self.verification.reset();
            SeedVerificationResult::Complete
        } else {
            SeedVerificationResult::More
        }
    }

    pub fn cancel_verification(&mut self)
        requires
            old(self).wf(),
        ensures
            final(self).wf(),
            final(self)@ == (SeedView { verification: verify_reset(), ..old(self)@ }),
    {
        self.verification.reset();
    }
}

impl SeedEntryState {
    /// Sets up the three-word check of a generated, complete phrase from 32
    /// random bytes: which words to ask for, and the three words offered for
    /// each. False when the phrase was typed in or is not complete, or when a
    /// phrase word asked for is not in the list.
    pub fn begin_verification_with(&mut self, random: &[u8; 32], wordlist: &[Vec<u8>]) -> (r: bool)
        requires
            old(self).wf(),
        ensures
            final(self).wf(),
            !(old(self)@.origin != SeedOrigin::Entered && old(self)@.words.len() == MAX_SEED_WORDS
                && old(self)@.digits.len() == 0) ==> !r && final(self)@ == old(self)@,
            (old(self)@.origin != SeedOrigin::Entered && old(self)@.words.len() == MAX_SEED_WORDS
                && old(self)@.digits.len() == 0 && phrase_in_list(old(self)@.words, words_of(wordlist@))) ==> r,
            r ==> ({
                let v = final(self)@.verification;
                &&& v.active && v.step == 0 && !v.failed
                &&& forall|c: int| 0 <= c < SEED_VERIFY_WORDS ==> #[trigger] challenge_ok(
                    random@,
                    v.targets,
                    v.choices[c],
                    v.correct_choices[c],
                    old(self)@.words,
                    words_of(wordlist@),
                    c,
                )
                &&& final(self)@ == (SeedView { verification: v, ..old(self)@ })
            }),
            !r ==> final(self)@ == (SeedView {
                verification: VerifyView {
                    choices: final(self)@.verification.choices,
                    correct_choices: final(self)@.verification.correct_choices,
                    ..old(self)@.verification
                },
                ..old(self)@
            }),
    {
        if !self.is_generated() || !self.is_complete() {
            return false;
        }
        let ghost wl = words_of(wordlist@);
        let ghost words = self@.words;
        let mut targets: [u8; 3] = [0; 3];
        let mut c: usize = 0;
        while c < SEED_VERIFY_WORDS
            invariant
                old(self).wf(),
                self.wf(),
                wl == words_of(wordlist@),
                words == old(self)@.words,
                words.len() == MAX_SEED_WORDS,
                c <= SEED_VERIFY_WORDS,
                old(self)@.origin != SeedOrigin::Entered && old(self)@.words.len() == MAX_SEED_WORDS
                    && old(self)@.digits.len() == 0,
                self@ == (SeedView {
                    verification: VerifyView {
                        choices: self@.verification.choices,
                        correct_choices: self@.verification.correct_choices,
                        ..old(self)@.verification
                    },
                    ..old(self)@
                }),
                forall|i: int| 0 <= i < c ==> targets@[i] < 24,
                forall|i: int| 0 <= i < c ==> #[trigger] challenge_ok(
                    random@,
                    targets@,
                    self@.verification.choices[i],
                    self@.verification.correct_choices[i],
                    words,
                    wl,
                    i,
                ),
            decreases SEED_VERIFY_WORDS - c,
        {
            let ghost prev_targets = targets@;
            let start: u8 = random[c] % 24;
            let mut target: u8 = start;
            let ghost mut k: nat = 0;
            while target_is_taken(&targets, c, target)
                invariant
                    c < 3,
                    target < 24,
                    target as int == cyc(start as int, k as int, 24),
                    k <= c,
                    forall|j: int| 0 <= j < k ==> target_taken(targets@, c as int, #[trigger] cyc(start as int, j, 24)),
                decreases c - k,
            {
                proof {
                    assert(target_taken(targets@, c as int, cyc(start as int, k as int, 24)));
                    if k == c {
                        assert(target_taken(targets@, c as int, cyc(start as int, 0, 24)));
                        if c >= 1 {
                            assert(target_taken(targets@, c as int, cyc(start as int, 1, 24)));
                        }
                        assert(false);
                    }
                }
                target = (target + 1) % 24;
                proof {
                    k = k + 1;
                }
            }
            targets[c] = target;
            proof {
                assert(forall|j: int| 0 <= j < c ==> targets@[j] == prev_targets[j]);
                assert forall|x: int| target_taken(targets@, c as int, x) == target_taken(prev_targets, c as int, x) by {
                    if target_taken(prev_targets, c as int, x) {
                        let i = choose|i: int| 0 <= i < c && prev_targets[i] as int == x;
                        assert(targets@[i] as int == x);
                    }
                }
                assert(target_picked(random@, targets@, c as int));
            }
            let correct_word = &self.words[target as usize];
            let correct_index = match word_index(wordlist, correct_word.as_slice()) {
                Some(i) => i,
                None => {
                    proof {
                        assert(words[target as int] == correct_word@);
                    }
                    return false;
                },
            };
            let ci16: u16 = correct_index as u16;
            let correct_slot: u8 = random[3 + c] % 3;
            let mut choices: [u16; 3] = [0; 3];
            choices[correct_slot as usize] = ci16;
            let mut random_offset: usize = 6 + c * 4;
            let mut slot: usize = 0;
            while slot < 3
                invariant
                    c < 3,
                    correct_slot < 3,
                    slot <= 3,
                    choices@[correct_slot as int] == ci16,
                    random_offset == 6 + 4 * c + 2 * (if (correct_slot as int) < slot { slot - 1 } else { slot as int }),
                    forall|s: int| 0 <= s < slot && s != correct_slot ==> #[trigger] decoy_picked(
                        random@,
                        c as int,
                        correct_slot as int,
                        ci16,
                        choices@,
                        s,
                    ),
                decreases 3 - slot,
            {
                if slot == correct_slot as usize {
                    slot = slot + 1;
                    continue;
                }
                let ghost before_choices = choices@;
                let hi: u16 = random[random_offset] as u16;
                let lo: u16 = random[random_offset + 1] as u16;
                let raw: u16 = hi * 256 + lo;
                let begin: u16 = raw & 0x07ff;
                assert(begin == raw % 2048) by (bit_vector)
                    requires begin == raw & 0x07ffu16;
                let ghost dstart = decoy_start(random@, c as int, correct_slot as int, slot as int);
                assert(begin as int == dstart);
                random_offset = random_offset + 2;
                let mut candidate: u16 = begin;
                let ghost mut k: nat = 0;
                while decoy_is_taken(&choices, slot, ci16, candidate)
                    invariant
                        slot < 3,
                        candidate < 2048,
                        candidate as int == cyc(dstart, k as int, 2048),
                        0 <= dstart < 2048,
                        k <= slot + 1,
                        forall|j: int| 0 <= j < k ==> decoy_taken(choices@, slot as int, ci16, #[trigger] cyc(dstart, j, 2048)),
                    decreases slot + 1 - k,
                {
                    proof {
                        assert(decoy_taken(choices@, slot as int, ci16, cyc(dstart, k as int, 2048)));
                        if k == slot + 1 {
                            assert(decoy_taken(choices@, slot as int, ci16, cyc(dstart, 0, 2048)));
                            if slot >= 1 {
                                assert(decoy_taken(choices@, slot as int, ci16, cyc(dstart, 1, 2048)));
                            }
                            if slot >= 2 {
                                assert(decoy_taken(choices@, slot as int, ci16, cyc(dstart, 2, 2048)));
                            }
                            assert(false);
                        }
                    }
                    let next: u16 = (candidate + 1) & 0x07ff;
                    assert(next == (candidate + 1) % 2048) by (bit_vector)
                        requires next == ((candidate + 1) as u16) & 0x07ffu16, candidate < 2048u16;
                    candidate = next;
                    proof {
                        k = k + 1;
                    }
                }
                choices[slot] = candidate;
                proof {
                    assert(forall|j: int| 0 <= j < slot ==> choices@[j] == before_choices[j]);
                    assert forall|x: int| decoy_taken(choices@, slot as int, ci16, x) == decoy_taken(before_choices, slot as int, ci16, x) by {
                        if decoy_taken(before_choices, slot as int, ci16, x) && x != ci16 as int {
                            let i = choose|i: int| 0 <= i < slot && before_choices[i] as int == x;
                            assert(choices@[i] as int == x);
                        }
                    }
                    assert(decoy_picked(random@, c as int, correct_slot as int, ci16, choices@, slot as int));
                    assert forall|s: int| 0 <= s < slot + 1 && s != correct_slot implies #[trigger] decoy_picked(
                        random@,
                        c as int,
                        correct_slot as int,
                        ci16,
                        choices@,
                        s,
                    ) by {
                        if s < slot {
                            assert(decoy_picked(random@, c as int, correct_slot as int, ci16, before_choices, s));
                            assert forall|x: int| decoy_taken(choices@, s, ci16, x) == decoy_taken(before_choices, s, ci16, x) by {
                                if decoy_taken(before_choices, s, ci16, x) && x != ci16 as int {
                                    let i = choose|i: int| 0 <= i < s && before_choices[i] as int == x;
                                    assert(choices@[i] as int == x);
                                }
                            }
                            assert(choices@[s] == before_choices[s]);
                        }
                    }
                }
                slot = slot + 1;
            }
            let ghost before_v = self@.verification;
            self.verification.choices[c] = choices;
            self.verification.correct_choices[c] = correct_slot;
            proof {
                assert(self@.verification.choices[c as int] == choices@);
                assert(words[targets@[c as int] as int] == correct_word@);
                assert(first_index(wl, words[targets@[c as int] as int], correct_index as nat));
                assert(ci16 == (correct_index as nat) as u16);
                assert(challenge_ok(random@, targets@, choices@, correct_slot, words, wl, c as int));
                assert forall|i: int| 0 <= i < c + 1 implies #[trigger] challenge_ok(
                    random@,
                    targets@,
                    self@.verification.choices[i],
                    self@.verification.correct_choices[i],
                    words,
                    wl,
                    i,
                ) by {
                    if i < c {
                        assert(self@.verification.choices[i] == before_v.choices[i]);
                        assert(challenge_ok(random@, prev_targets, before_v.choices[i], before_v.correct_choices[i], words, wl, i));
                        assert forall|x: int| target_taken(targets@, i, x) == target_taken(prev_targets, i, x) by {
                            if target_taken(prev_targets, i, x) {
                                let j = choose|j: int| 0 <= j < i && prev_targets[j] as int == x;
                                assert(targets@[j] as int == x);
                            }
                        }
                        assert(targets@[i] == prev_targets[i]);
                    }
                }
            }
            c = c + 1;
        }
        self.verification.targets = targets;
        self.verification.step = 0;
        self.verification.active = true;
        self.verification.failed = false;
        true
    }

    /// The three-word check with fresh bytes from the hardware random
    /// generator; false when none came.
    pub fn begin_verification(&mut self, wordlist: &[Vec<u8>]) -> (r: bool)
        requires
            old(self).wf(),
        ensures
            final(self).wf(),
            !(old(self)@.origin != SeedOrigin::Entered && old(self)@.words.len() == MAX_SEED_WORDS
                && old(self)@.digits.len() == 0) ==> !r && final(self)@ == old(self)@,
            r ==> exists|random: Seq<u8>| random.len() == 32 && ({
                let v = final(self)@.verification;
                &&& v.active && v.step == 0 && !v.failed
                &&& forall|c: int| 0 <= c < SEED_VERIFY_WORDS ==> #[trigger] challenge_ok(
                    random,
                    v.targets,
                    v.choices[c],
                    v.correct_choices[c],
                    old(self)@.words,
                    words_of(wordlist@),
                    c,
                )
                &&& final(self)@ == (SeedView { verification: v, ..old(self)@ })
            }),
            !r ==> final(self)@ == (SeedView {
                verification: VerifyView {
                    choices: final(self)@.verification.choices,
                    correct_choices: final(self)@.verification.correct_choices,
                    ..old(self)@.verification
                },
                ..old(self)@
            }),
            !r && phrase_in_list(old(self)@.words, words_of(wordlist@)) ==> final(self)@ == old(self)@,
    {
        if !self.is_generated() || !self.is_complete() {
            return false;
        }
        let mut random = match random_bytes_32() {
            Ok(r) => r,
            Err(_) => return false,
        };
        let ghost bytes = random@;
        let r = self.begin_verification_with(&random, wordlist);
        zeroize_array(&mut random);
        proof {
            if r {
                assert(bytes.len() == 32);
            }
        }
        r
    }
}

/// One pick in the three-word check: a wrong pick, or any pick while no
/// check runs, ends the check as failed; the right one moves on, and the
/// last right one completes it.
pub open spec fn verify_step(v: VerifyView, choice: int) -> (VerifyView, SeedVerificationResult) {
    if !v.active || choice < 0 || choice >= 3 || choice != v.correct_choices[v.step as int] {
        (VerifyView { failed: true, ..verify_reset() }, SeedVerificationResult::Incorrect)
    } else if v.step + 1 == SEED_VERIFY_WORDS {
        (verify_reset(), SeedVerificationResult::Complete)
    } else {
        (VerifyView { step: v.step + 1, ..v }, SeedVerificationResult::More)
    }
}

/// Picking the right word at each of the three steps of a fresh check
/// completes it, after two `More`s.
pub proof fn lemma_right_picks_complete(v: VerifyView)
    requires
        v.active,
        v.step == 0,
        v.correct_choices.len() == SEED_VERIFY_WORDS,
        forall|c: int| 0 <= c < 3 ==> #[trigger] v.correct_choices[c] < 3,
    ensures
        ({
            let a = verify_step(v, v.correct_choices[0] as int);
            let b = verify_step(a.0, v.correct_choices[1] as int);
            let c = verify_step(b.0, v.correct_choices[2] as int);
            &&& a.1 == SeedVerificationResult::More
            &&& b.1 == SeedVerificationResult::More
            &&& c.1 == SeedVerificationResult::Complete
            &&& !c.0.active && !c.0.failed
        }),
{
}

/// A wrong pick always ends the check, marked failed.
pub proof fn lemma_wrong_pick_fails(v: VerifyView, choice: int)
    requires
        v.active ==> choice != v.correct_choices[v.step as int],
    ensures
        verify_step(v, choice).1 == SeedVerificationResult::Incorrect,
        verify_step(v, choice).0.failed,
        !verify_step(v, choice).0.active,
{
}

/// Typing a digit and deleting it again leaves the digits and suggestions
/// as they were, unless the longer digits moved the suggestion cursor back
/// to the first match.
pub proof fn lemma_digit_then_backspace(s: SeedView, wl: Seq<Seq<u8>>, digit: u8)
    requires
        seed_wf(s),
        s == refreshed(s, wl, s.digits),
        2 <= digit <= 9,
        s.digits.len() < MAX_DIGITS,
        s.suggestion_index == 0
            || s.suggestion_index < first_n(t9_matches(wl, s.digits.push(digit)), SUGGESTION_CAP as nat).len(),
    ensures
        ({
            let t = refreshed(s, wl, s.digits.push(digit));
            refreshed(t, wl, t.digits.drop_last()) == s
        }),
{
    let t = refreshed(s, wl, s.digits.push(digit));
    assert(t.digits.drop_last() =~= s.digits);
}

} // verus!
