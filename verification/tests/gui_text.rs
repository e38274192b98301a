use nockster_fw::gui::label::{key_label, preview_label, LabelEntryContext, LabelEntryState};
use nockster_fw::gui::render::{
    confirm_panel, confirm_subtitle_lines, split_text, summary_lines, visible_output_range, wrap_recipient,
    write_amount, write_amount_short, write_truncated_recipient, write_warning, Rect,
};
use nockster_fw::gui::state::{button_label, confirm_button_label, Button, TxReviewSummary};

fn text(v: &[u8]) -> String {
    String::from_utf8(v.to_vec()).unwrap()
}

#[test]
fn amounts_in_nocks_round_half_up_to_hundredths() {
    assert_eq!(text(&write_amount(65_536)), "1.00 N");
    assert_eq!(text(&write_amount(98_304)), "1.50 N");
    assert_eq!(text(&write_amount(65_535)), "65535 n");
    assert_eq!(text(&write_amount(0)), "0 n");
    // 1 nock and 65535 nicks rounds up to two whole nocks.
    assert_eq!(text(&write_amount(131_071)), "2.00 N");
}

#[test]
fn short_amounts_drop_hundredths_for_large_values() {
    assert_eq!(text(&write_amount_short(5)), "5n");
    assert_eq!(text(&write_amount_short(65_536 * 3 + 655)), "3.01N");
    assert_eq!(text(&write_amount_short(65_536 * 1_000_000)), "1000000N");
    assert_eq!(text(&write_amount_short(65_536 * 999_999 + 65_535)), "1000000N");
}

#[test]
fn recipients_are_shortened_around_an_ellipsis() {
    assert_eq!(text(&write_truncated_recipient(b"abcdefghijk")), "abcdefghijk");
    assert_eq!(text(&write_truncated_recipient(b"abcdefghijkl")), "abcd...ijkl");
    assert_eq!(text(&write_truncated_recipient(b"")), "");
}

#[test]
fn the_most_serious_warning_wins() {
    assert_eq!(write_warning(1 | 2 | 4), Some("WARN high fee"));
    assert_eq!(write_warning(2 | 4), Some("WARN no chg"));
    assert_eq!(write_warning(4), Some("WARN multi out"));
    assert_eq!(write_warning(8), None);
}

#[test]
fn summary_block_lists_totals_then_counts_or_warning() {
    let mut s = TxReviewSummary {
        input_count: 2,
        external_output_count: 1,
        external_total: 65_536,
        refund_total: 0,
        fee_total: 10,
        flags: 0,
        multisig_m: 0,
        multisig_present: 0,
        multisig_we_must_sign: false,
    };
    let lines: Vec<String> = summary_lines(s).iter().map(|l| text(l)).collect();
    assert_eq!(lines, vec!["OUT 1.00N", "FEE 10n", "CHG 0n", "IN 2 OUT 1"]);
    s.flags = 2;
    let lines: Vec<String> = summary_lines(s).iter().map(|l| text(l)).collect();
    assert_eq!(lines[3], "WARN no chg");
}

#[test]
fn only_outputs_inside_the_panel_are_drawn() {
    assert_eq!(visible_output_range(5, 100, 200, 0, 44), (0, 3));
    assert_eq!(visible_output_range(5, 100, 200, 60, 44), (1, 4));
    assert_eq!(visible_output_range(0, 100, 200, 0, 44), (0, 0));
}

#[test]
fn long_recipients_wrap_in_fixed_width_pieces() {
    let lines: Vec<String> = wrap_recipient(b"abcdefghij", 4, 2).iter().map(|l| text(l)).collect();
    assert_eq!(lines, vec!["abcd", "efgh"]);
    let lines: Vec<String> = wrap_recipient(b"abcdefghij", 4, 5).iter().map(|l| text(l)).collect();
    assert_eq!(lines, vec!["abcd", "efgh", "ij"]);
}

#[test]
fn confirmation_subtitles_keep_three_nonempty_lines() {
    let lines: Vec<String> =
        confirm_subtitle_lines(b"one\r\n\ntwo\nthree\nfour").iter().map(|l| text(l)).collect();
    assert_eq!(lines, vec!["one", "two", "three"]);
    assert!(confirm_subtitle_lines(b"\n\n").is_empty());
}

#[test]
fn confirmation_panel_sits_between_header_and_buttons() {
    assert_eq!(confirm_panel(40, 250), Rect { x: 6, y: 46, width: 160, height: 198 });
    // Buttons too high up still leave a panel of the minimum height.
    assert_eq!(confirm_panel(40, 60), Rect { x: 6, y: 46, width: 160, height: 40 });
}

#[test]
fn text_breaks_at_the_last_space_that_fits() {
    let lines: Vec<String> = split_text(b"hello world foo", 11).iter().map(|l| text(l)).collect();
    assert_eq!(lines, vec!["hello", "world foo"]);
    let lines: Vec<String> = split_text(b"abcdefgh", 3).iter().map(|l| text(l)).collect();
    assert_eq!(lines, vec!["abc", "def", "gh"]);
}

#[test]
fn button_captions() {
    assert_eq!(button_label(Button::Digit(7)), "7");
    assert_eq!(button_label(Button::Digit(12)), "?");
    assert_eq!(button_label(Button::Clear), "X");
    assert_eq!(button_label(Button::Accept), "OK");
    assert_eq!(button_label(Button::Back), "");
    assert_eq!(confirm_button_label(Button::Accept), "Approve");
    assert_eq!(confirm_button_label(Button::Clear), "Deny");
    assert_eq!(key_label(7), "PQRS");
    assert_eq!(key_label(0), "space");
}

#[test]
fn multitap_cycles_letters_on_quick_repeats() {
    let mut s = LabelEntryState::new();
    s.begin(2, b"", LabelEntryContext::AddedSeed);
    assert!(s.push_key(2, 1_000));
    assert_eq!(text(s.label()), "a");
    assert!(s.push_key(2, 1_500));
    assert_eq!(text(s.label()), "b");
    // After the timeout the same key starts a new character.
    assert!(s.push_key(2, 3_000));
    assert_eq!(text(s.label()), "ba");
    assert!(s.push_key(3, 3_100));
    assert_eq!(text(s.label()), "bad");
    // Keys without letters do nothing.
    assert!(!s.push_key(1, 3_200));
    assert!(s.backspace());
    assert_eq!(text(s.label()), "ba");
    assert_eq!(s.slot(), 2);
    assert_eq!(s.context(), LabelEntryContext::AddedSeed);
}

#[test]
fn a_fresh_key_then_backspace_restores_the_label() {
    let mut s = LabelEntryState::new();
    s.begin(0, b"ab", LabelEntryContext::WalletMenu);
    assert!(s.push_key(9, 10));
    assert_eq!(text(s.label()), "abw");
    assert!(s.backspace());
    assert_eq!(text(s.label()), "ab");
}

#[test]
fn labels_stop_at_the_longest_allowed() {
    let mut s = LabelEntryState::new();
    s.begin(1, &[b'x'; 40], LabelEntryContext::WalletMenu);
    assert_eq!(s.label().len(), 32);
    assert!(!s.push_key(2, 0));
    assert_eq!(s.label().len(), 32);
}

#[test]
fn preview_shows_placeholder_or_cut_label() {
    assert_eq!(text(&preview_label(b"")), "(unnamed)");
    assert_eq!(text(&preview_label(b"short")), "short");
    assert_eq!(text(&preview_label(b"abcdefghijklmnop")), "abcdefghijkl..");
}
