use nockster_fw::gui::label::LabelButton;
use nockster_fw::gui::layout::{
    button_from_point_label_entry, button_from_point_seed_dice, button_from_point_seed_entry,
    button_from_point_seed_verify, label_buttons,
};
use nockster_fw::gui::menu::{
    button_from_point_menu, button_from_point_wallet_detail, menu_label, menu_viewport, push_hex_bytes,
    push_short_ascii, wallet_row_hit, wallet_row_text, wallet_summary, wallets_viewport, wrapped_address_lines,
    WalletRow,
};
use nockster_fw::gui::my_nockster::{button_from_point as pet_button, NocksterButton};
use nockster_fw::gui::render::Rect;
use nockster_fw::gui::scroll::{DragState, DragUpdate, ScrollState};
use nockster_fw::gui::seed::SeedButton;
use nockster_fw::gui::state::{Button, MenuItem};

fn text(v: &[u8]) -> String {
    String::from_utf8(v.to_vec()).unwrap()
}

#[test]
fn menu_touches_map_through_the_scroll_offset() {
    let scroll = ScrollState::new(menu_viewport(40));
    assert_eq!(scroll.viewport(), Rect { x: 0, y: 44, width: 172, height: 276 });
    let hit = button_from_point_menu(50, 58, &scroll).unwrap();
    assert_eq!(hit.button, Button::Menu(MenuItem::Wallets));
    assert_eq!(hit.rect, Rect { x: 16, y: 48, width: 140, height: 40 });
    let hit = button_from_point_menu(50, 58 + 50, &scroll).unwrap();
    assert_eq!(hit.button, Button::Menu(MenuItem::AddSeed));
    assert!(button_from_point_menu(50, 10, &scroll).is_none());
    assert_eq!(menu_label(MenuItem::Calibrate), "Calibrate");
}

#[test]
fn wallet_rows_are_found_by_height() {
    let scroll = ScrollState::new(wallets_viewport(40));
    let rows = vec![
        WalletRow { index: 3, active: true, label: b"main".to_vec(), pkh: Vec::new() },
        WalletRow { index: 5, active: false, label: Vec::new(), pkh: Vec::new() },
    ];
    let hit = wallet_row_hit(20, 88 + 50, &rows, &scroll).unwrap();
    assert_eq!(hit.button, Button::WalletRow(5));
    assert_eq!(hit.rect, Rect { x: 6, y: 130, width: 160, height: 42 });
    assert!(wallet_row_hit(20, 88 + 90, &rows, &scroll).is_none());
}

#[test]
fn wallet_row_text_shortens_names_and_addresses() {
    let row = WalletRow {
        index: 3,
        active: true,
        label: b"My main wallet!".to_vec(),
        pkh: b"123456789ABCDEFGHJKLMNPQRSTUVW".to_vec(),
    };
    let t = wallet_row_text(&row);
    assert_eq!(text(&t.slot), "3");
    assert_eq!(text(&t.name), "My main ..");
    assert_eq!(text(&t.address), "12345678...PQRSTUVW");
    let row = WalletRow { index: 12, active: false, label: Vec::new(), pkh: Vec::new() };
    let t = wallet_row_text(&row);
    assert_eq!(text(&t.slot), "12");
    assert_eq!(text(&t.name), "Wallet");
    assert_eq!(text(&t.address), "address unavailable");
    assert_eq!(text(&wallet_summary(2)), "2 of 8 slots");
}

#[test]
fn detail_buttons_need_a_slot() {
    assert_eq!(button_from_point_wallet_detail(20, 280, Some(4)).unwrap().button, Button::WalletEdit(4));
    assert_eq!(button_from_point_wallet_detail(100, 280, Some(4)).unwrap().button, Button::WalletDelete(4));
    assert!(button_from_point_wallet_detail(20, 280, None).is_none());
}

#[test]
fn small_text_helpers() {
    assert_eq!(text(&push_hex_bytes(&[0xab, 0x01])), "ab01");
    assert_eq!(text(&push_short_ascii(b"a\x01b", 10)), "a?b");
    assert_eq!(text(&push_short_ascii(b"abcdef", 3)), "abc");
    let lines: Vec<String> = wrapped_address_lines(&[b'x'; 50]).iter().map(|l| text(l)).collect();
    assert_eq!(lines.len(), 3);
    assert_eq!(lines[0].len(), 23);
    assert_eq!(lines[2].len(), 4);
}

#[test]
fn keypads_answer_touches() {
    let keys = label_buttons(40);
    assert_eq!(keys.len(), 12);
    assert_eq!(keys[0].button, Button::Label(LabelButton::Key(2)));
    assert_eq!(keys[0].rect, Rect { x: 6, y: 106, width: 50, height: 35 });
    assert_eq!(keys[8].button, Button::Label(LabelButton::Key(0)));
    assert_eq!(button_from_point_label_entry(40, 31, 123).unwrap().button, Button::Label(LabelButton::Key(2)));
    assert_eq!(button_from_point_label_entry(40, 150, 250).unwrap().button, Button::Label(LabelButton::Save));
    assert_eq!(button_from_point_seed_entry(40, 10, 290).unwrap().button, Button::Seed(SeedButton::Backspace));
    assert_eq!(button_from_point_seed_entry(40, 20, 60).unwrap().button, Button::Seed(SeedButton::Key(2)));
    assert_eq!(button_from_point_seed_verify(40, 50, 90).unwrap().button, Button::Seed(SeedButton::VerifyChoice(0)));
}

#[test]
fn finishing_the_dice_needs_every_roll() {
    assert!(button_from_point_seed_dice(40, 120, 280, false).is_none());
    assert_eq!(
        button_from_point_seed_dice(40, 120, 280, true).unwrap().button,
        Button::Seed(SeedButton::Finish)
    );
    assert_eq!(
        button_from_point_seed_dice(40, 10, 120, false).unwrap().button,
        Button::Seed(SeedButton::DiceFace(1))
    );
}

#[test]
fn pet_screen_touches() {
    assert_eq!(pet_button(40, 10, 290), Some(NocksterButton::Feed));
    assert_eq!(pet_button(40, 120, 290), Some(NocksterButton::Nap));
    assert_eq!(pet_button(40, 60, 100), Some(NocksterButton::Pet));
    assert_eq!(pet_button(40, 2, 2), None);
}

#[test]
fn dragging_moves_the_list_and_back() {
    let mut scroll = ScrollState::new(Rect { x: 0, y: 50, width: 172, height: 200 });
    scroll.set_content_height(500);
    let mut drag = DragState::new();
    assert_eq!(drag.update(50, 200, &mut scroll), DragUpdate::Tracking);
    // Small movements are still a tap.
    assert_eq!(drag.update(52, 197, &mut scroll), DragUpdate::Tracking);
    assert_eq!(drag.update(52, 150, &mut scroll), DragUpdate::Dragging { moved: true });
    assert_eq!(scroll.offset_y(), 50);
    assert_eq!(drag.update(52, 200, &mut scroll), DragUpdate::Dragging { moved: true });
    assert_eq!(scroll.offset_y(), 0);
    assert_eq!(drag.update(52, 60, &mut scroll), DragUpdate::Dragging { moved: true });
    assert_eq!(scroll.offset_y(), 140);
    // The list does not scroll past its top.
    assert_eq!(drag.update(52, 249, &mut scroll), DragUpdate::Dragging { moved: true });
    assert_eq!(scroll.offset_y(), 0);
    assert_eq!(drag.update(52, 249, &mut scroll), DragUpdate::Dragging { moved: false });
    assert_eq!(drag.update(500, 0, &mut scroll), DragUpdate::Outside);
}
