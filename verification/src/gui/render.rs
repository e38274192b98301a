//! The text of the transaction-review and confirmation screens: amounts in
//! nocks, shortened recipients, warnings, the summary block, which outputs of
//! a scrolled list are on screen, and how a long recipient wraps.
use vstd::prelude::*;
use vstd::string::StringSliceAdditionalSpecFns;
use super::label::is_char_boundary;
use super::state::{
    TxReviewSummary, TX_REVIEW_FLAG_HIGH_FEE, TX_REVIEW_FLAG_MULTIPLE_RECIPIENTS,
    TX_REVIEW_FLAG_NO_REFUND,
};

verus! {

/// Nicks in one nock.
pub const NICKS_PER_NOCK: u64 = 65536;
/// Whole-nock amounts from this size on are shown without hundredths in the
/// short form.
pub const SHORT_WHOLE_LIMIT: u64 = 1_000_000;
/// Bytes of a recipient kept at each end when it is shortened.
pub const RECIPIENT_HEAD: usize = 4;
pub const RECIPIENT_TAIL: usize = 4;

pub open spec fn digit_byte(d: int) -> u8 {
    (48 + d) as u8
}

/// The decimal digits of `n`, most significant first.
pub open spec fn dec_digits(n: nat) -> Seq<u8>
    decreases n,
{
    if n < 10 {
        seq![digit_byte(n as int)]
    } else {
        dec_digits(n / 10).push(digit_byte((n % 10) as int))
    }
}

/// `n` (below 100) as exactly two digits.
pub open spec fn two_digits(n: nat) -> Seq<u8> {
    seq![digit_byte((n / 10) as int), digit_byte((n % 10) as int)]
}

pub fn append(out: &mut Vec<u8>, s: &[u8])
    ensures
        final(out)@ == old(out)@ + s@,
{
    let n = s.len();
    let mut i: usize = 0;
    while i < n
        invariant
            n == s@.len(),
            i <= n,
            out@ == old(out)@ + s@.take(i as int),
        decreases n - i,
    {
        out.push(s[i]);
        proof {
            assert(s@.take(i + 1) =~= s@.take(i as int).push(s@[i as int]));
        }
        i = i + 1;
    }
    assert(s@.take(n as int) =~= s@);
}

pub fn push_decimal(out: &mut Vec<u8>, n: u64)
    ensures
        final(out)@ == old(out)@ + dec_digits(n as nat),
    decreases n,
{
    if n >= 10 {
        push_decimal(out, n / 10);
    }
    let d: u8 = (n % 10) as u8;
    out.push(48 + d);
    proof {
        if n >= 10 {
            assert(dec_digits(n as nat) == dec_digits((n / 10) as nat).push(digit_byte((n % 10) as int)));
        }
    }
    assert(out@ =~= old(out)@ + dec_digits(n as nat));
}

/// Whole nocks and hundredths of `gift` nicks, rounded half up to the
/// nearest hundredth.
pub open spec fn nock_parts(gift: u64) -> (nat, nat) {
    let whole = gift / NICKS_PER_NOCK;
    let rem = gift % NICKS_PER_NOCK;
    let frac = (rem * 100 + NICKS_PER_NOCK / 2) / (NICKS_PER_NOCK as int);
    if frac >= 100 {
        ((whole + 1) as nat, 0)
    } else {
        (whole as nat, frac as nat)
    }
}

pub fn nock_amount_parts(gift: u64) -> (r: (u64, u64))
    ensures
        r.0 == nock_parts(gift).0,
        r.1 == nock_parts(gift).1,
        r.1 < 100,
{
    let whole = gift / NICKS_PER_NOCK;
    let rem = gift % NICKS_PER_NOCK;
    let frac = (rem * 100 + NICKS_PER_NOCK / 2) / NICKS_PER_NOCK;
    assert(whole <= 0xffff_ffff_ffff) by (nonlinear_arith)
        requires whole == gift / 65536;
    assert(frac <= 100) by (nonlinear_arith)
        requires rem < 65536, frac == (rem * 100 + 32768) / 65536;
    if frac >= 100 {
        (whole + 1, 0)
    } else {
        (whole, frac)
    }
}

/// An output amount: `W.FF N` from one nock on, otherwise `n n` in nicks.
pub open spec fn amount_text(gift: u64) -> Seq<u8> {
    if gift >= NICKS_PER_NOCK {
        dec_digits(nock_parts(gift).0) + ".".spec_bytes() + two_digits(nock_parts(gift).1) + " N".spec_bytes()
    } else {
        dec_digits(gift as nat) + " n".spec_bytes()
    }
}

/// The compact amount of the summary block; very large amounts drop the
/// hundredths.
pub open spec fn amount_short_text(gift: u64) -> Seq<u8> {
    if gift >= NICKS_PER_NOCK {
        if nock_parts(gift).0 >= SHORT_WHOLE_LIMIT {
            dec_digits(nock_parts(gift).0) + "N".spec_bytes()
        } else {
            dec_digits(nock_parts(gift).0) + ".".spec_bytes() + two_digits(nock_parts(gift).1) + "N".spec_bytes()
        }
    } else {
        dec_digits(gift as nat) + "n".spec_bytes()
    }
}

fn push_two_digits(out: &mut Vec<u8>, n: u64)
    requires
        n < 100,
    ensures
        final(out)@ == old(out)@ + two_digits(n as nat),
{
    let hi: u8 = (n / 10) as u8;
    let lo: u8 = (n % 10) as u8;
    out.push(48 + hi);
    out.push(48 + lo);
    assert(out@ =~= old(out)@ + two_digits(n as nat));
}

pub fn write_amount(gift: u64) -> (r: Vec<u8>)
    ensures
        r@ == amount_text(gift),
{
    let mut out: Vec<u8> = Vec::new();
    if gift >= NICKS_PER_NOCK {
        let (whole, frac) = nock_amount_parts(gift);
        push_decimal(&mut out, whole);
        append(&mut out, ".".as_bytes());
        push_two_digits(&mut out, frac);
        append(&mut out, " N".as_bytes());
    } else {
        push_decimal(&mut out, gift);
        append(&mut out, " n".as_bytes());
    }
    assert(out@ =~= amount_text(gift));
    out
}

pub fn write_amount_short(gift: u64) -> (r: Vec<u8>)
    ensures
        r@ == amount_short_text(gift),
{
    let mut out: Vec<u8> = Vec::new();
    if gift >= NICKS_PER_NOCK {
        let (whole, frac) = nock_amount_parts(gift);
        push_decimal(&mut out, whole);
        if whole >= SHORT_WHOLE_LIMIT {
            append(&mut out, "N".as_bytes());
        } else {
            append(&mut out, ".".as_bytes());
            push_two_digits(&mut out, frac);
            append(&mut out, "N".as_bytes());
        }
    } else {
        push_decimal(&mut out, gift);
        append(&mut out, "n".as_bytes());
    }
    assert(out@ =~= amount_short_text(gift));
    out
}

/// `r` whole when it is at most `whole_max` bytes; otherwise its first
/// `head` and last `tail` bytes around `...`, an end that would split a
/// character being left out.
pub open spec fn shortened(r: Seq<u8>, head: int, tail: int, whole_max: int) -> Seq<u8> {
    if r.len() <= whole_max {
        r
    } else {
        let h = if is_char_boundary(r, head) { r.take(head) } else { Seq::empty() };
        let cut = r.len() - tail;
        let t = if is_char_boundary(r, cut) { r.skip(cut) } else { Seq::empty() };
        h + "...".spec_bytes() + t
    }
}

pub fn write_shortened(value: &[u8], head: usize, tail: usize, whole_max: usize) -> (r: Vec<u8>)
    requires
        head + tail <= whole_max,
    ensures
        r@ == shortened(value@, head as int, tail as int, whole_max as int),
{
    let n = value.len();
    let mut out: Vec<u8> = Vec::new();
    if n <= whole_max {
        append(&mut out, value);
        assert(out@ =~= value@);
        return out;
    }
    let head_ok = head == 0 || !(0x80 <= value[head] && value[head] < 0xC0);
    if head_ok {
        let h = crate::bytes::copy_range(value, 0, head);
        append(&mut out, h.as_slice());
    }
    append(&mut out, "...".as_bytes());
    let cut = n - tail;
    let tail_ok = cut == n || !(0x80 <= value[cut] && value[cut] < 0xC0);
    if tail_ok {
        let t = crate::bytes::copy_range(value, cut, tail);
        append(&mut out, t.as_slice());
    }
    proof {
        let r = value@;
        assert(head_ok == is_char_boundary(r, head as int));
        assert(tail_ok == is_char_boundary(r, cut as int));
        assert(r.subrange(0, head as int) =~= r.take(head as int));
        assert(r.subrange(cut as int, cut + tail) =~= r.skip(cut as int));
        let h = if head_ok { r.take(head as int) } else { Seq::empty() };
        let t = if tail_ok { r.skip(cut as int) } else { Seq::empty() };
        assert(out@ =~= h + "...".spec_bytes() + t);
    }
    out
}

/// A review recipient: whole up to eleven bytes, otherwise its first and
/// last four bytes around `...`.
pub open spec fn truncated_recipient(r: Seq<u8>) -> Seq<u8> {
    shortened(r, RECIPIENT_HEAD as int, RECIPIENT_TAIL as int, (RECIPIENT_HEAD + 3 + RECIPIENT_TAIL) as int)
}

pub fn write_truncated_recipient(recipient: &[u8]) -> (r: Vec<u8>)
    ensures
        r@ == truncated_recipient(recipient@),
{
    write_shortened(recipient, RECIPIENT_HEAD, RECIPIENT_TAIL, RECIPIENT_HEAD + 3 + RECIPIENT_TAIL)
}

/// The warning the summary shows in place of the input/output counts: the
/// most serious flag raised, if any.
pub open spec fn warning_text(flags: u8) -> Option<&'static str> {
    if flags & TX_REVIEW_FLAG_HIGH_FEE != 0 {
        Some("WARN high fee")
    } else if flags & TX_REVIEW_FLAG_NO_REFUND != 0 {
        Some("WARN no chg")
    } else if flags & TX_REVIEW_FLAG_MULTIPLE_RECIPIENTS != 0 {
        Some("WARN multi out")
    } else {
        None
    }
}

pub fn write_warning(flags: u8) -> (r: Option<&'static str>)
    ensures
        r == warning_text(flags),
{
    if flags & TX_REVIEW_FLAG_HIGH_FEE != 0 {
        Some("WARN high fee")
    } else if flags & TX_REVIEW_FLAG_NO_REFUND != 0 {
        Some("WARN no chg")
    } else if flags & TX_REVIEW_FLAG_MULTIPLE_RECIPIENTS != 0 {
        Some("WARN multi out")
    } else {
        None
    }
}

/// The four lines of the summary block: what leaves, the fee, the change,
/// then either a warning or the input and output counts.
pub open spec fn summary_lines_spec(s: TxReviewSummary) -> Seq<Seq<u8>> {
    seq![
        "OUT ".spec_bytes() + amount_short_text(s.external_total),
        "FEE ".spec_bytes() + amount_short_text(s.fee_total),
        "CHG ".spec_bytes() + amount_short_text(s.refund_total),
        match warning_text(s.flags) {
            Some(w) => w.spec_bytes(),
            None => "IN ".spec_bytes() + dec_digits(s.input_count as nat) + " OUT ".spec_bytes()
                + dec_digits(s.external_output_count as nat),
        },
    ]
}

fn labelled_amount(label: &str, gift: u64) -> (r: Vec<u8>)
    ensures
        r@ == label.spec_bytes() + amount_short_text(gift),
{
    let mut line: Vec<u8> = Vec::new();
    append(&mut line, label.as_bytes());
    let amount = write_amount_short(gift);
    append(&mut line, amount.as_slice());
    line
}

pub fn summary_lines(summary: TxReviewSummary) -> (r: Vec<Vec<u8>>)
    ensures
        r@.len() == 4,
        forall|i: int| 0 <= i < 4 ==> #[trigger] r@[i]@ == summary_lines_spec(summary)[i],
{
    let mut lines: Vec<Vec<u8>> = Vec::new();
    lines.push(labelled_amount("OUT ", summary.external_total));
    lines.push(labelled_amount("FEE ", summary.fee_total));
    lines.push(labelled_amount("CHG ", summary.refund_total));
    let last = match write_warning(summary.flags) {
        Some(w) => {
            let mut line: Vec<u8> = Vec::new();
            append(&mut line, w.as_bytes());
            line
        },
        None => {
            let mut line: Vec<u8> = Vec::new();
            append(&mut line, "IN ".as_bytes());
            push_decimal(&mut line, summary.input_count as u64);
            append(&mut line, " OUT ".as_bytes());
            push_decimal(&mut line, summary.external_output_count as u64);
            line
        },
    };
    lines.push(last);
    lines
}

/// Top of output `i` in the scrolled list.
pub open spec fn item_top(output_top: int, scroll_y: int, item_h: int, i: int) -> int {
    output_top - scroll_y + i * item_h
}

/// Output `i` is drawn: its bottom reaches the list and its top is above the
/// panel's bottom edge.
pub open spec fn item_visible(output_top: int, inner_bottom: int, scroll_y: int, item_h: int, i: int) -> bool {
    item_top(output_top, scroll_y, item_h, i) + item_h >= output_top
        && item_top(output_top, scroll_y, item_h, i) <= inner_bottom
}

/// The line shown in place of the output list of a review: "No external"
/// when the transaction pays nobody outside the wallet, none otherwise.
pub fn review_list_placeholder(output_count: usize) -> (r: Option<&'static str>)
    ensures
        output_count == 0 <==> r is Some,
        r matches Some(t) ==> t@ == "No external"@,
{
    if output_count == 0 {
        Some("No external")
    } else {
        None
    }
}

/// The outputs of the review list that are on screen, as the half-open range
/// `first .. end`, scanning from the first and stopping at the first one
/// below the panel.
pub fn visible_output_range(count: usize, output_top: i32, inner_bottom: i32, scroll_y: i32, item_h: i32) -> (r: (
    usize,
    usize,
))
    requires
        item_h >= 0,
        output_top <= inner_bottom,
        i32::MIN <= output_top - scroll_y,
        output_top - scroll_y + (count + 1) * item_h <= i32::MAX,
    ensures
        r.0 <= r.1 <= count,
        forall|i: int|
            0 <= i < count ==> ((r.0 <= i < r.1) <==> item_visible(
                output_top as int,
                inner_bottom as int,
                scroll_y as int,
                item_h as int,
                i,
            )),
{
    let mut y: i32 = output_top - scroll_y;
    let mut first: usize = 0;
    let mut end: usize = 0;
    let mut i: usize = 0;
    while i < count
        invariant
            item_h >= 0,
            output_top <= inner_bottom,
            i32::MIN <= output_top - scroll_y,
            output_top - scroll_y + (count + 1) * item_h <= i32::MAX,
            i <= count,
            y == item_top(output_top as int, scroll_y as int, item_h as int, i as int),
            first <= end,
            end == i,
            forall|j: int|
                0 <= j < i ==> ((first <= j < end) <==> item_visible(
                    output_top as int,
                    inner_bottom as int,
                    scroll_y as int,
                    item_h as int,
                    j,
                )),
        decreases count - i,
    {
        assert(item_top(output_top as int, scroll_y as int, item_h as int, i as int) + item_h <= output_top - scroll_y + (count + 1) * item_h) by (nonlinear_arith)
            requires i < count, item_h >= 0;
        if y + item_h < output_top {
            proof {
                assert forall|j: int| 0 <= j < i implies !item_visible(
                    output_top as int,
                    inner_bottom as int,
                    scroll_y as int,
                    item_h as int,
                    j,
                ) by {
                    assert(item_top(output_top as int, scroll_y as int, item_h as int, j) <= item_top(output_top as int, scroll_y as int, item_h as int, i as int)) by (nonlinear_arith)
                        requires j <= i, item_h >= 0;
                }
            }
            y = y + item_h;
            i = i + 1;
            first = i;
            end = i;
            proof {
                assert(y == item_top(output_top as int, scroll_y as int, item_h as int, i as int)) by (nonlinear_arith)
                    requires y == item_top(output_top as int, scroll_y as int, item_h as int, (i - 1) as int) + item_h;
            }
        } else if y > inner_bottom {
            proof {
                assert forall|j: int| i <= j < count implies !item_visible(
                    output_top as int,
                    inner_bottom as int,
                    scroll_y as int,
                    item_h as int,
                    j,
                ) by {
                    assert(item_top(output_top as int, scroll_y as int, item_h as int, j) >= item_top(output_top as int, scroll_y as int, item_h as int, i as int)) by (nonlinear_arith)
                        requires i <= j, item_h >= 0;
                }
            }
            return (first, end);
        } else {
            y = y + item_h;
            i = i + 1;
            end = i;
            proof {
                assert(y == item_top(output_top as int, scroll_y as int, item_h as int, i as int)) by (nonlinear_arith)
                    requires y == item_top(output_top as int, scroll_y as int, item_h as int, (i - 1) as int) + item_h;
            }
        }
    }
    (first, end)
}

/// Whether byte `b` continues a multi-byte UTF-8 character.
pub open spec fn is_continuation(b: u8) -> bool {
    0x80 <= b < 0xC0
}

/// A long recipient broken into pieces of `width` bytes, in order; a piece
/// whose ends would split a character is shown empty.
pub open spec fn wrap_pieces(t: Seq<u8>, width: nat) -> Seq<Seq<u8>>
    decreases t.len(),
{
    if t.len() == 0 || width == 0 {
        Seq::empty()
    } else {
        let k = if t.len() < width { t.len() } else { width };
        let piece = if !is_continuation(t[0]) && (k == t.len() || !is_continuation(t[k as int])) {
            t.take(k as int)
        } else {
            Seq::empty()
        };
        seq![piece] + wrap_pieces(t.skip(k as int), width)
    }
}

/// The first `max_lines` pieces of the wrapped recipient.
pub fn wrap_recipient(text: &[u8], width: usize, max_lines: usize) -> (r: Vec<Vec<u8>>)
    requires
        width >= 1,
    ensures
        r@.len() == if wrap_pieces(text@, width as nat).len() < max_lines { wrap_pieces(text@, width as nat).len() } else { max_lines as nat },
        forall|i: int| 0 <= i < r@.len() ==> #[trigger] r@[i]@ == wrap_pieces(text@, width as nat)[i],
{
    let n = text.len();
    let mut lines: Vec<Vec<u8>> = Vec::new();
    let mut pos: usize = 0;
    assert(text@.skip(0) =~= text@);
    assert(lines@.map_values(|l: Vec<u8>| l@) =~= Seq::<Seq<u8>>::empty());
    while pos < n && lines.len() < max_lines
        invariant
            n == text@.len(),
            width >= 1,
            pos <= n,
            lines@.len() <= max_lines,
            wrap_pieces(text@, width as nat) =~= lines@.map_values(|l: Vec<u8>| l@) + wrap_pieces(text@.skip(pos as int), width as nat),
        decreases n - pos,
    {
        let rest_len = n - pos;
        let k: usize = if rest_len < width { rest_len } else { width };
        let end = pos + k;
        let start_ok = !(0x80 <= text[pos] && text[pos] < 0xC0);
        let end_ok = end == n || !(0x80 <= text[end] && text[end] < 0xC0);
        let piece = if start_ok && end_ok { crate::bytes::copy_range(text, pos, k) } else { Vec::new() };
        proof {
            let t = text@.skip(pos as int);
            assert(t.len() == rest_len);
            assert(t[0] == text@[pos as int]);
            if end < n {
                assert(t[k as int] == text@[end as int]);
            }
            assert(t.skip(k as int) =~= text@.skip(end as int));
            if start_ok && end_ok {
                assert(piece@ =~= t.take(k as int));
            } else {
                assert(piece@ =~= Seq::<u8>::empty());
            }
            assert(wrap_pieces(t, width as nat) =~= seq![piece@] + wrap_pieces(text@.skip(end as int), width as nat));
        }
        lines.push(piece);
        pos = end;
        proof {
            let prev = lines@.drop_last();
            assert(lines@.map_values(|l: Vec<u8>| l@) =~= prev.map_values(|l: Vec<u8>| l@).push(piece@));
        }
    }
    proof {
        let m = lines@.map_values(|l: Vec<u8>| l@);
        if pos >= n {
            assert(text@.skip(pos as int) =~= Seq::<u8>::empty());
            assert(wrap_pieces(text@, width as nat) =~= m);
        } else {
            assert(lines@.len() == max_lines);
        }
        assert forall|i: int| 0 <= i < lines@.len() implies #[trigger] lines@[i]@ == wrap_pieces(text@, width as nat)[i] by {
            assert(m[i] == lines@[i]@);
        }
    }
    lines
}

} // verus!

verus! {

/// A screen rectangle: top-left corner and size in pixels.
#[derive(Clone, Copy, Debug, PartialEq, Eq, Structural)]
pub struct Rect {
    pub x: i32,
    pub y: i32,
    pub width: u32,
    pub height: u32,
}

/// Margin around the confirmation panel.
pub const CONFIRM_MARGIN: i32 = 6;
/// The confirmation panel is never shorter than this.
pub const CONFIRM_MIN_PANEL_HEIGHT: i32 = 40;

/// The confirmation panel: below the header, above the buttons, at least
/// `CONFIRM_MIN_PANEL_HEIGHT` tall, across the screen inside the margins.
pub open spec fn confirm_panel_spec(header_h: int, buttons_top: int) -> Rect {
    let top = header_h + CONFIRM_MARGIN;
    let bottom = if buttons_top - CONFIRM_MARGIN > top + CONFIRM_MIN_PANEL_HEIGHT {
        buttons_top - CONFIRM_MARGIN
    } else {
        top + CONFIRM_MIN_PANEL_HEIGHT
    };
    Rect {
        x: CONFIRM_MARGIN,
        y: top as i32,
        width: (super::constants::SCREEN_WIDTH - 2 * CONFIRM_MARGIN) as u32,
        height: (bottom - top) as u32,
    }
}

pub fn confirm_panel(header_h: i32, buttons_top: i32) -> (r: Rect)
    requires
        -10_000 <= header_h <= 10_000,
        -10_000 <= buttons_top <= 10_000,
    ensures
        r == confirm_panel_spec(header_h as int, buttons_top as int),
{
    let top = header_h + CONFIRM_MARGIN;
    let bottom = if buttons_top - CONFIRM_MARGIN > top + CONFIRM_MIN_PANEL_HEIGHT {
        buttons_top - CONFIRM_MARGIN
    } else {
        top + CONFIRM_MIN_PANEL_HEIGHT
    };
    let width: i32 = super::constants::SCREEN_WIDTH as i32 - 2 * CONFIRM_MARGIN;
    Rect { x: CONFIRM_MARGIN, y: top, width: width as u32, height: (bottom - top) as u32 }
}

/// `line` without one trailing carriage return.
pub open spec fn strip_cr(line: Seq<u8>) -> Seq<u8> {
    if line.len() > 0 && line.last() == 13 {
        line.drop_last()
    } else {
        line
    }
}

/// The lines of `t` that have text, in order: `t` is split at line feeds,
/// a carriage return before a line feed is dropped, and empty lines are
/// skipped. `cur` is the part of the current line already read.
pub open spec fn text_lines(t: Seq<u8>, cur: Seq<u8>) -> Seq<Seq<u8>>
    decreases t.len(),
{
    if t.len() == 0 {
        if strip_cr(cur).len() == 0 { Seq::empty() } else { seq![strip_cr(cur)] }
    } else if t[0] == 10 {
        let rest = text_lines(t.skip(1), Seq::empty());
        if strip_cr(cur).len() == 0 { rest } else { seq![strip_cr(cur)] + rest }
    } else {
        text_lines(t.skip(1), cur.push(t[0]))
    }
}

/// Most subtitle lines shown under a confirmation prompt.
pub const CONFIRM_SUBTITLE_LINES: usize = 3;

/// The subtitle lines of a confirmation: the first three non-empty lines.
pub fn confirm_subtitle_lines(details: &[u8]) -> (r: Vec<Vec<u8>>)
    ensures
        r@.len() == if text_lines(details@, Seq::empty()).len() < CONFIRM_SUBTITLE_LINES {
            text_lines(details@, Seq::empty()).len()
        } else {
            CONFIRM_SUBTITLE_LINES as nat
        },
        forall|i: int| 0 <= i < r@.len() ==> #[trigger] r@[i]@ == text_lines(details@, Seq::empty())[i],
{
    let n = details.len();
    let mut out: Vec<Vec<u8>> = Vec::new();
    let mut cur: Vec<u8> = Vec::new();
    let mut i: usize = 0;
    assert(details@.skip(0) =~= details@);
    assert(out@.map_values(|l: Vec<u8>| l@) =~= Seq::<Seq<u8>>::empty());
    while i < n && out.len() < CONFIRM_SUBTITLE_LINES
        invariant
            n == details@.len(),
            i <= n,
            out@.len() <= CONFIRM_SUBTITLE_LINES,
            text_lines(details@, Seq::empty()) =~= out@.map_values(|l: Vec<u8>| l@) + text_lines(details@.skip(i as int), cur@),
        decreases n - i,
    {
        let b = details[i];
        proof {
            let t = details@.skip(i as int);
            assert(t[0] == b);
            assert(t.skip(1) =~= details@.skip(i + 1));
        }
        if b == 10 {
            let mut line = cur;
            let l = line.len();
            if l > 0 && line[l - 1] == 13 {
                line.pop();
            }
            assert(line@ =~= strip_cr(cur@));
            cur = Vec::new();
            if line.len() > 0 {
                let ghost prev = out@;
                out.push(line);
                proof {
                    assert(out@.map_values(|l: Vec<u8>| l@) =~= prev.map_values(|l: Vec<u8>| l@).push(line@));
                }
            }
        } else {
            cur.push(b);
        }
        i = i + 1;
    }
    if i >= n && out.len() < CONFIRM_SUBTITLE_LINES {
        let mut line = cur;
        let l = line.len();
        if l > 0 && line[l - 1] == 13 {
            line.pop();
        }
        assert(line@ =~= strip_cr(cur@));
        assert(details@.skip(i as int) =~= Seq::<u8>::empty());
        if line.len() > 0 {
            let ghost prev = out@;
            out.push(line);
            proof {
                assert(out@.map_values(|l: Vec<u8>| l@) =~= prev.map_values(|l: Vec<u8>| l@).push(line@));
            }
        }
    }
    proof {
        let m = out@.map_values(|l: Vec<u8>| l@);
        assert forall|k: int| 0 <= k < out@.len() implies #[trigger] out@[k]@ == text_lines(details@, Seq::empty())[k] by {
            assert(m[k] == out@[k]@);
        }
        if out@.len() < CONFIRM_SUBTITLE_LINES {
            assert(text_lines(details@, Seq::empty()) =~= m);
        }
    }
    out
}

} // verus!

verus! {

/// Bytes `u8::is_ascii_whitespace` accepts.
pub open spec fn is_ascii_ws(b: u8) -> bool {
    b == 32 || b == 9 || b == 10 || b == 12 || b == 13
}

/// ASCII bytes `str::trim` removes.
pub open spec fn is_trim_ws(b: u8) -> bool {
    is_ascii_ws(b) || b == 11
}

/// The largest `e` in `1..=k` with a space just before it, or 0.
pub open spec fn back_to_space(t: Seq<u8>, k: int) -> int
    decreases k,
{
    if k <= 0 {
        0
    } else if is_ascii_ws(t[k - 1]) {
        k
    } else {
        back_to_space(t, k - 1)
    }
}

/// Number of leading bytes `pred` accepts.
pub open spec fn lead_ws(t: Seq<u8>) -> nat
    decreases t.len(),
{
    if t.len() > 0 && is_ascii_ws(t[0]) {
        1 + lead_ws(t.skip(1))
    } else {
        0
    }
}

pub open spec fn trim_start(t: Seq<u8>) -> Seq<u8>
    decreases t.len(),
{
    if t.len() > 0 && is_trim_ws(t[0]) {
        trim_start(t.skip(1))
    } else {
        t
    }
}

pub open spec fn trim_end(t: Seq<u8>) -> Seq<u8>
    decreases t.len(),
{
    if t.len() > 0 && is_trim_ws(t.last()) {
        trim_end(t.drop_last())
    } else {
        t
    }
}

/// Text broken into lines of at most `w` bytes: a rest that fits is the
/// last line as it stands; otherwise the line ends after the last space
/// within the width (or at the width when there is none), trimmed, and the
/// spaces after the break are skipped.
pub open spec fn split_text_spec(t: Seq<u8>, w: nat) -> Seq<Seq<u8>>
    decreases t.len(),
{
    if t.len() == 0 || w == 0 {
        Seq::empty()
    } else if t.len() <= w {
        seq![t]
    } else {
        let e0 = back_to_space(t, w as int);
        let e = if e0 == 0 { w as int } else { e0 };
        let rest = t.skip(e);
        proof {
            lemma_back_to_space_range(t, w as int);
            lemma_lead_ws_range(rest);
        }
        seq![trim_end(trim_start(t.take(e)))] + split_text_spec(rest.skip(lead_ws(rest) as int), w)
    }
}

/// Backing up to a space from `k` stays within `[0, k]`.
pub proof fn lemma_back_to_space_range(t: Seq<u8>, k: int)
    ensures
        0 <= back_to_space(t, k) <= if k > 0 { k } else { 0 },
    decreases k,
{
    if k > 0 {
        lemma_back_to_space_range(t, k - 1);
    }
}

/// The leading whitespace of `t` is no longer than `t`.
pub proof fn lemma_lead_ws_range(t: Seq<u8>)
    ensures
        lead_ws(t) <= t.len(),
    decreases t.len(),
{
    if t.len() > 0 && is_ascii_ws(t[0]) {
        lemma_lead_ws_range(t.skip(1));
    }
}

fn trim_bytes(t: &[u8], start: usize, end: usize) -> (r: Vec<u8>)
    requires
        start <= end <= t@.len(),
    ensures
        r@ == trim_end(trim_start(t@.subrange(start as int, end as int))),
{
    let mut a = start;
    while a < end && (t[a] == 32 || t[a] == 9 || t[a] == 10 || t[a] == 11 || t[a] == 12 || t[a] == 13)
        invariant
            start <= a <= end <= t@.len(),
            trim_start(t@.subrange(start as int, end as int)) == trim_start(t@.subrange(a as int, end as int)),
        decreases end - a,
    {
        proof {
            assert(t@.subrange(a as int, end as int).skip(1) =~= t@.subrange(a + 1, end as int));
        }
        a = a + 1;
    }
    let ghost ts = t@.subrange(a as int, end as int);
    assert(trim_start(ts) == ts);
    let mut b = end;
    while b > a && (t[b - 1] == 32 || t[b - 1] == 9 || t[b - 1] == 10 || t[b - 1] == 11 || t[b - 1] == 12 || t[b - 1] == 13)
        invariant
            start <= a <= b <= end <= t@.len(),
            trim_end(ts) == trim_end(t@.subrange(a as int, b as int)),
            ts == t@.subrange(a as int, end as int),
        decreases b - a,
    {
        proof {
            assert(t@.subrange(a as int, b as int).drop_last() =~= t@.subrange(a as int, b - 1));
        }
        b = b - 1;
    }
    crate::bytes::copy_range(t, a, b - a)
}

/// Breaks text into lines of at most `max_width` bytes at spaces.
pub fn split_text(text: &[u8], max_width: usize) -> (r: Vec<Vec<u8>>)
    requires
        max_width >= 1,
    ensures
        r@.map_values(|l: Vec<u8>| l@) == split_text_spec(text@, max_width as nat),
{
    let n = text.len();
    let mut lines: Vec<Vec<u8>> = Vec::new();
    let mut pos: usize = 0;
    assert(text@.skip(0) =~= text@);
    assert(lines@.map_values(|l: Vec<u8>| l@) =~= Seq::<Seq<u8>>::empty());
    while pos < n
        invariant
            n == text@.len(),
            max_width >= 1,
            pos <= n,
            split_text_spec(text@, max_width as nat) =~= lines@.map_values(|l: Vec<u8>| l@)
                + split_text_spec(text@.skip(pos as int), max_width as nat),
        decreases n - pos,
    {
        let ghost t = text@.skip(pos as int);
        let ghost prev = lines@;
        if n - pos <= max_width {
            let rest = crate::bytes::copy_range(text, pos, n - pos);
            assert(rest@ =~= t);
            lines.push(rest);
            proof {
                assert(lines@.map_values(|l: Vec<u8>| l@) =~= prev.map_values(|l: Vec<u8>| l@).push(t));
                assert(text@.skip(n as int) =~= Seq::<u8>::empty());
            }
            pos = n;
        } else {
            let mut end = pos + max_width;
            while end > pos && !(text[end - 1] == 32 || text[end - 1] == 9 || text[end - 1] == 10 || text[end - 1] == 12
                || text[end - 1] == 13)
                invariant
                    n == text@.len(),
                    pos < end <= pos + max_width < n || (pos == end),
                    pos <= end,
                    t == text@.skip(pos as int),
                    back_to_space(t, max_width as int) == back_to_space(t, (end - pos) as int),
                decreases end - pos,
            {
                end = end - 1;
            }
            proof {
                lemma_back_to_space_range(t, max_width as int);
            }
            if end == pos {
                end = pos + max_width;
            }
            let e = end - pos;
            proof {
                assert(e == if back_to_space(t, max_width as int) == 0 { max_width as int } else { back_to_space(t, max_width as int) });
            }
            let line = trim_bytes(text, pos, end);
            assert(text@.subrange(pos as int, end as int) =~= t.take(e as int));
            pos = end;
            let ghost rest = t.skip(e as int);
            assert(rest =~= text@.skip(end as int));
            let ghost skip_start = pos;
            while pos < n && (text[pos] == 32 || text[pos] == 9 || text[pos] == 10 || text[pos] == 12 || text[pos] == 13)
                invariant
                    n == text@.len(),
                    skip_start <= pos <= n,
                    rest == text@.skip(skip_start as int),
                    lead_ws(rest) == (pos - skip_start) + lead_ws(text@.skip(pos as int)),
                decreases n - pos,
            {
                proof {
                    assert(text@.skip(pos as int).skip(1) =~= text@.skip(pos + 1));
                }
                pos = pos + 1;
            }
            proof {
                if pos < n {
                    assert(text@.skip(pos as int)[0] == text@[pos as int]);
                }
                assert(rest.skip(lead_ws(rest) as int) =~= text@.skip(pos as int));
            }
            lines.push(line);
            proof {
                assert(lines@.map_values(|l: Vec<u8>| l@) =~= prev.map_values(|l: Vec<u8>| l@).push(line@));
            }
        }
    }
    proof {
        assert(text@.skip(pos as int) =~= Seq::<u8>::empty());
    }
    lines
}

/// Centre of the settings gear: near the header's right end, halfway down it.
pub fn settings_gear_center(header_h: i32) -> (p: (i32, i32))
    requires
        0 <= header_h <= 10_000,
    ensures
        p == ((crate::gui::constants::SCREEN_WIDTH - 28) as i32, (header_h / 2) as i32),
{
    (crate::gui::constants::SCREEN_WIDTH as i32 - 28, header_h / 2)
}

} // verus!
