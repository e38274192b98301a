//! Wallet-label entry with a phone-style multi-tap keypad.
//!
//! Pressing the same key again within the multi-tap timeout replaces the last
//! character with the next letter on that key; any other key, or a pause,
//! appends a new character. Labels are bytes; the keypad only ever produces
//! ASCII.
use vstd::prelude::*;
use crate::limits::MAX_SEED_LABEL_LEN;
use super::my_nockster::elapsed;
use crate::bytes::copy_range;

verus! {

pub const MULTITAP_TIMEOUT_MS: u64 = 900;
/// Longest label shown in full in the preview panel.
pub const PREVIEW_MAX_CHARS: usize = 14;

#[derive(Clone, Copy, Debug, PartialEq, Eq, Structural)]
pub enum LabelEntryContext {
    WalletMenu,
    AddedSeed,
    FirstSeed,
}

#[derive(Clone, Copy, Debug, PartialEq, Eq, Structural)]
pub enum LabelButton {
    Key(u8),
    Cancel,
    Backspace,
    Save,
}

#[derive(Clone, Debug)]
pub enum LabelInteraction {
    Saved { slot: u8, label: Vec<u8>, context: LabelEntryContext },
    Cancelled { context: LabelEntryContext },
}

/// The characters a keypad digit cycles through, in order.
pub open spec fn key_chars_spec(digit: u8) -> Option<Seq<u8>> {
    if digit == 0 {
        Some(seq![32u8, 48u8])
    } else if digit == 2 {
        Some(seq![97u8, 98u8, 99u8, 50u8])
    } else if digit == 3 {
        Some(seq![100u8, 101u8, 102u8, 51u8])
    } else if digit == 4 {
        Some(seq![103u8, 104u8, 105u8, 52u8])
    } else if digit == 5 {
        Some(seq![106u8, 107u8, 108u8, 53u8])
    } else if digit == 6 {
        Some(seq![109u8, 110u8, 111u8, 54u8])
    } else if digit == 7 {
        Some(seq![112u8, 113u8, 114u8, 115u8, 55u8])
    } else if digit == 8 {
        Some(seq![116u8, 117u8, 118u8, 56u8])
    } else if digit == 9 {
        Some(seq![119u8, 120u8, 121u8, 122u8, 57u8])
    } else {
        None
    }
}

pub fn key_chars(digit: u8) -> (r: Option<Vec<u8>>)
    ensures
        match r {
            Some(v) => key_chars_spec(digit) == Some(v@),
            None => key_chars_spec(digit).is_none(),
        },
{
    let r = match digit {
        0 => Some(vec![32u8, 48u8]),
        2 => Some(vec![97u8, 98u8, 99u8, 50u8]),
        3 => Some(vec![100u8, 101u8, 102u8, 51u8]),
        4 => Some(vec![103u8, 104u8, 105u8, 52u8]),
        5 => Some(vec![106u8, 107u8, 108u8, 53u8]),
        6 => Some(vec![109u8, 110u8, 111u8, 54u8]),
        7 => Some(vec![112u8, 113u8, 114u8, 115u8, 55u8]),
        8 => Some(vec![116u8, 117u8, 118u8, 56u8]),
        9 => Some(vec![119u8, 120u8, 121u8, 122u8, 57u8]),
        _ => None,
    };
    proof {
        if r is Some {
            assert(r->0@ =~= key_chars_spec(digit)->0);
        }
    }
    r
}

pub open spec fn key_label_spec(digit: u8) -> Seq<char> {
    if digit == 0 {
        "space"@
    } else if digit == 2 {
        "ABC"@
    } else if digit == 3 {
        "DEF"@
    } else if digit == 4 {
        "GHI"@
    } else if digit == 5 {
        "JKL"@
    } else if digit == 6 {
        "MNO"@
    } else if digit == 7 {
        "PQRS"@
    } else if digit == 8 {
        "TUV"@
    } else if digit == 9 {
        "WXYZ"@
    } else {
        ""@
    }
}

/// The letters printed under a keypad digit.
pub fn key_label(digit: u8) -> (r: &'static str)
    ensures
        r@ == key_label_spec(digit),
{
    match digit {
        0 => "space",
        2 => "ABC",
        3 => "DEF",
        4 => "GHI",
        5 => "JKL",
        6 => "MNO",
        7 => "PQRS",
        8 => "TUV",
        9 => "WXYZ",
        _ => "",
    }
}

/// Screen title for each way of reaching label entry.
pub fn label_header(context: LabelEntryContext) -> (r: &'static str)
    ensures
        r@ == (match context {
            LabelEntryContext::WalletMenu => "Rename"@,
            _ => "Name Wallet"@,
        }),
{
    match context {
        LabelEntryContext::WalletMenu => "Rename",
        LabelEntryContext::AddedSeed | LabelEntryContext::FirstSeed => "Name Wallet",
    }
}

/// Caption of the cancel key: leaving the rename screen goes back, leaving
/// the naming of a new wallet skips it.
pub fn cancel_caption(context: LabelEntryContext) -> (r: &'static str)
    ensures
        r@ == (match context {
            LabelEntryContext::WalletMenu => "BACK"@,
            _ => "SKIP"@,
        }),
{
    match context {
        LabelEntryContext::WalletMenu => "BACK",
        LabelEntryContext::AddedSeed | LabelEntryContext::FirstSeed => "SKIP",
    }
}

/// Whether byte offset `i` of a UTF-8 string falls between two characters.
pub open spec fn is_char_boundary(s: Seq<u8>, i: int) -> bool {
    i == 0 || i == s.len() || (0 < i < s.len() && !(0x80 <= s[i] < 0xC0))
}

/// The abstract label-entry state.
pub struct LabelView {
    pub slot: u8,
    pub context: LabelEntryContext,
    pub label: Seq<u8>,
    pub last_key: Option<u8>,
    pub last_key_at: Option<u64>,
    pub last_key_index: nat,
}

pub open spec fn label_wf(s: LabelView) -> bool {
    s.label.len() <= MAX_SEED_LABEL_LEN && s.last_key_index < 5
}

pub open spec fn multitap_cleared(s: LabelView) -> LabelView {
    LabelView { last_key: None, last_key_at: None, last_key_index: 0, ..s }
}

/// A press of `digit` at `now` replaces the last character rather than
/// appending one.
pub open spec fn is_cycling(s: LabelView, digit: u8, now: u64) -> bool {
    &&& s.last_key == Some(digit)
    &&& match s.last_key_at {
        Some(t) => elapsed(now, t) <= MULTITAP_TIMEOUT_MS,
        None => false,
    }
    &&& s.label.len() > 0
}

/// The state after a keypad press, and whether the label changed.
pub open spec fn after_push_key(s: LabelView, digit: u8, now: u64) -> (LabelView, bool) {
    match key_chars_spec(digit) {
        None => (s, false),
        Some(cs) => {
            if cs.len() == 0 {
                (s, false)
            } else if is_cycling(s, digit, now) {
                let idx = ((s.last_key_index + 1) % cs.len()) as nat;
                (
                    LabelView {
                        label: s.label.drop_last().push(cs[idx as int]),
                        last_key: Some(digit),
                        last_key_at: Some(now),
                        last_key_index: idx,
                        ..s
                    },
                    true,
                )
            } else if s.label.len() >= MAX_SEED_LABEL_LEN {
                (multitap_cleared(s), false)
            } else {
                (
                    LabelView {
                        label: s.label.push(cs[0]),
                        last_key: Some(digit),
                        last_key_at: Some(now),
                        last_key_index: 0,
                        ..s
                    },
                    true,
                )
            }
        },
    }
}

pub open spec fn after_backspace(s: LabelView) -> LabelView {
    LabelView {
        label: if s.label.len() > 0 { s.label.drop_last() } else { s.label },
        ..multitap_cleared(s)
    }
}

pub struct LabelEntryState {
    slot: u8,
    context: LabelEntryContext,
    label: Vec<u8>,
    last_key: Option<u8>,
    last_key_at: Option<u64>,
    last_key_index: usize,
}

impl View for LabelEntryState {
    type V = LabelView;

    closed spec fn view(&self) -> LabelView {
        LabelView {
            slot: self.slot,
            context: self.context,
            label: self.label@,
            last_key: self.last_key,
            last_key_at: self.last_key_at,
            last_key_index: self.last_key_index as nat,
        }
    }
}

impl LabelEntryState {
    pub open spec fn wf(&self) -> bool {
        label_wf(self@)
    }

    pub fn new() -> (s: Self)
        ensures
            s.wf(),
            s@ == (LabelView {
                slot: 0,
                context: LabelEntryContext::WalletMenu,
                label: Seq::empty(),
                last_key: None,
                last_key_at: None,
                last_key_index: 0,
            }),
    {
        let s = LabelEntryState {
            slot: 0,
            context: LabelEntryContext::WalletMenu,
            label: Vec::new(),
            last_key: None,
            last_key_at: None,
            last_key_index: 0,
        };
        assert(s@.label =~= Seq::<u8>::empty());
        s
    }

    /// Starts editing `current` (cut to the longest label) for `slot`.
    pub fn begin(&mut self, slot: u8, current: &[u8], context: LabelEntryContext)
        requires
            current@.len() > MAX_SEED_LABEL_LEN ==> is_char_boundary(current@, MAX_SEED_LABEL_LEN as int),
        ensures
            final(self).wf(),
            final(self)@ == (LabelView {
                slot,
                context,
                label: current@.take(
                    if current@.len() < MAX_SEED_LABEL_LEN { current@.len() as int } else { MAX_SEED_LABEL_LEN as int },
                ),
                last_key: None,
                last_key_at: None,
                last_key_index: 0,
            }),
    {
        self.slot = slot;
        self.context = context;
        let take: usize = if current.len() < MAX_SEED_LABEL_LEN { current.len() } else { MAX_SEED_LABEL_LEN };
        let mut label: Vec<u8> = Vec::new();
        let mut i: usize = 0;
        while i < take
            invariant
                take <= current.len(),
                i <= take,
                label@ =~= current@.take(i as int),
            decreases take - i,
        {
            label.push(current[i]);
            i = i + 1;
        }
        self.label = label;
        self.clear_multitap();
    }

    pub fn slot(&self) -> (r: u8)
        ensures
            r == self@.slot,
    {
        self.slot
    }

    pub fn context(&self) -> (r: LabelEntryContext)
        ensures
            r == self@.context,
    {
        self.context
    }

    pub fn label(&self) -> (r: &Vec<u8>)
        ensures
            r@ == self@.label,
    {
        &self.label
    }

    /// A keypad press at `now` (milliseconds); returns whether the label
    /// changed.
    pub fn push_key(&mut self, digit: u8, now: u64) -> (changed: bool)
        requires
            old(self).wf(),
        ensures
            final(self).wf(),
            (final(self)@, changed) == after_push_key(old(self)@, digit, now),
    {
        let chars = match key_chars(digit) {
            Some(c) => c,
            None => return false,
        };
        if chars.len() == 0 {
            return false;
        }
        let ghost cs = chars@;
        let recent = match self.last_key_at {
            Some(last) => (if now >= last { now - last } else { 0 }) <= MULTITAP_TIMEOUT_MS,
            None => false,
        };
        let cycling = self.last_key == Some(digit) && recent && self.label.len() > 0;
        assert(cycling == is_cycling(old(self)@, digit, now));
        if cycling {
            self.label.pop();
            self.last_key_index = (self.last_key_index + 1) % chars.len();
        } else {
            if self.label.len() >= MAX_SEED_LABEL_LEN {
                self.clear_multitap();
                return false;
            }
            self.last_key_index = 0;
        }
        let ch = chars[self.last_key_index];
        self.label.push(ch);
        self.last_key = Some(digit);
        self.last_key_at = Some(now);
        proof {
            assert(cs.len() <= 5);
            if cycling {
                assert(self@.label =~= old(self)@.label.drop_last().push(cs[self.last_key_index as int]));
            } else {
                assert(self@.label =~= old(self)@.label.push(cs[0]));
            }
        }
        true
    }

    /// Deletes the last character; returns whether there was one.
    pub fn backspace(&mut self) -> (removed: bool)
        requires
            old(self).wf(),
        ensures
            final(self).wf(),
            final(self)@ == after_backspace(old(self)@),
            removed == (old(self)@.label.len() > 0),
    {
        self.clear_multitap();
        let removed = self.label.pop().is_some();
        proof {
            if removed {
                assert(self@.label =~= old(self)@.label.drop_last());
            }
        }
        removed
    }

    pub fn clear_multitap(&mut self)
        ensures
            final(self)@ == multitap_cleared(old(self)@),
    {
        self.last_key = None;
        self.last_key_at = None;
        self.last_key_index = 0;
    }
}

/// Pressing a fresh key and then deleting gives back the label as it was.
pub proof fn lemma_backspace_undoes_fresh_key(s: LabelView, digit: u8, now: u64)
    requires
        label_wf(s),
        !is_cycling(s, digit, now),
        after_push_key(s, digit, now).1,
    ensures
        after_backspace(after_push_key(s, digit, now).0).label == s.label,
{
    let t = after_push_key(s, digit, now).0;
    assert(t.label.drop_last() =~= s.label);
}

/// A second press of the same key within the timeout replaces the character
/// the first press added with the next one on the key, so the label does not
/// grow.
pub proof fn lemma_multitap_replaces(s: LabelView, digit: u8, now: u64, later: u64)
    requires
        label_wf(s),
        after_push_key(s, digit, now).1,
        elapsed(later, now) <= MULTITAP_TIMEOUT_MS,
    ensures
        ({
            let t = after_push_key(s, digit, now).0;
            let u = after_push_key(t, digit, later);
            let cs = key_chars_spec(digit)->0;
            &&& u.1
            &&& u.0.label.len() == t.label.len()
            &&& u.0.label.last() == cs[((t.last_key_index + 1) % cs.len()) as int]
            &&& u.0.label.drop_last() == t.label.drop_last()
        }),
{
    let t = after_push_key(s, digit, now).0;
    let cs = key_chars_spec(digit)->0;
    assert(is_cycling(t, digit, later));
    let u = after_push_key(t, digit, later).0;
    assert(u.label.drop_last() =~= t.label.drop_last());
}

/// The label shown in the preview panel: a placeholder when empty, otherwise
/// the label cut to fit.
pub open spec fn preview_label_spec(label: Seq<u8>) -> Seq<u8> {
    if label.len() == 0 {
        "(unnamed)"@.map_values(|c: char| c as u8)
    } else {
        truncated_spec(label, PREVIEW_MAX_CHARS as int)
    }
}

/// `value` if it fits in `max_chars` bytes, otherwise its first
/// `max_chars - 2` bytes (dropped when they end inside a character) followed
/// by `..`.
pub open spec fn truncated_spec(value: Seq<u8>, max_chars: int) -> Seq<u8> {
    if value.len() <= max_chars {
        value
    } else {
        let take = if max_chars >= 2 { max_chars - 2 } else { 0 };
        let head = if is_char_boundary(value, take) { value.take(take) } else { Seq::empty() };
        head + seq![46u8, 46u8]
    }
}

pub fn push_truncated(value: &[u8], max_chars: usize) -> (r: Vec<u8>)
    ensures
        r@ == truncated_spec(value@, max_chars as int),
{
    if value.len() <= max_chars {
        let r = copy_range(value, 0, value.len());
        assert(r@ =~= value@);
        return r;
    }
    let take: usize = if max_chars >= 2 { max_chars - 2 } else { 0 };
    let mut out: Vec<u8> = Vec::new();
    let boundary = take == 0 || !(0x80 <= value[take] && value[take] < 0xC0);
    if boundary {
        let mut i: usize = 0;
        while i < take
            invariant
                take < value.len(),
                i <= take,
                out@ =~= value@.take(i as int),
            decreases take - i,
        {
            out.push(value[i]);
            i = i + 1;
        }
    }
    out.push(46u8);
    out.push(46u8);
    proof {
        let head = if is_char_boundary(value@, take as int) { value@.take(take as int) } else { Seq::empty() };
        assert(boundary == is_char_boundary(value@, take as int));
        assert(out@ =~= head + seq![46u8, 46u8]);
    }
    out
}

pub fn preview_label(label: &[u8]) -> (r: Vec<u8>)
    ensures
        r@ == preview_label_spec(label@),
{
    if label.len() == 0 {
        let r = vec![40u8, 117u8, 110u8, 110u8, 97u8, 109u8, 101u8, 100u8, 41u8];
        proof {
            reveal_strlit("(unnamed)");
            assert(r@ =~= "(unnamed)"@.map_values(|c: char| c as u8));
        }
        return r;
    }
    push_truncated(label, PREVIEW_MAX_CHARS)
}

} // verus!
