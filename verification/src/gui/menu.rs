//! The settings menu, the theme list and the wallet screens: where their
//! buttons sit, what a touch lands on, and the text of each wallet row.
use vstd::prelude::*;
use vstd::string::StringSliceAdditionalSpecFns;
use crate::limits::MAX_SEED_SLOTS;
use super::constants::{SCREEN_HEIGHT, SCREEN_WIDTH};
use super::label::{push_truncated, truncated_spec};
use super::palette::{themes, Theme};
use super::render::{append, dec_digits, push_decimal, shortened, wrap_pieces, wrap_recipient, write_shortened, Rect};
use super::scroll::{rect_contains, ScrollState};
use super::state::{find_hit, first_hit, Button, ButtonHit, MenuItem};

verus! {

pub const MENU_MARGIN: i32 = 16;
pub const MENU_BUTTON_HEIGHT: i32 = 40;
pub const MENU_BUTTON_GAP: i32 = 10;
pub const MENU_CONTENT_TOP: i32 = 4;
pub const THEME_BUTTON_HEIGHT: i32 = 34;
pub const THEME_BUTTON_GAP: i32 = 2;
pub const WALLET_ROW_HEIGHT: i32 = 42;
/// Pixels around a button that still count as touching it.
pub const HIT_SLACK: i32 = 6;
/// Width of the menu and theme buttons.
pub const MENU_BUTTON_WIDTH: i32 = 140;
/// Bytes of address per line on the wallet detail card.
pub const ADDRESS_LINE_BYTES: usize = 23;
pub const ADDRESS_LINES: usize = 3;

/// The settings menu, top to bottom.
pub open spec fn menu_items_spec() -> Seq<MenuItem> {
    seq![
        MenuItem::Wallets,
        MenuItem::AddSeed,
        MenuItem::Vault,
        MenuItem::Theme,
        MenuItem::Calibrate,
        MenuItem::Diagnostics,
        MenuItem::About,
    ]
}

pub fn menu_items() -> (r: Vec<MenuItem>)
    ensures
        r@ == menu_items_spec(),
{
    let r = vec![
        MenuItem::Wallets,
        MenuItem::AddSeed,
        MenuItem::Vault,
        MenuItem::Theme,
        MenuItem::Calibrate,
        MenuItem::Diagnostics,
        MenuItem::About,
    ];
    assert(r@ =~= menu_items_spec());
    r
}

pub open spec fn menu_label_spec(item: MenuItem) -> Seq<char> {
    match item {
        MenuItem::Wallets => "Wallets"@,
        MenuItem::AddSeed => "Add Seed"@,
        MenuItem::Vault => "Vault"@,
        MenuItem::Theme => "Theme"@,
        MenuItem::Calibrate => "Calibrate"@,
        MenuItem::Diagnostics => "Diagnostics"@,
        MenuItem::About => "About"@,
    }
}

pub fn menu_label(item: MenuItem) -> (r: &'static str)
    ensures
        r@ == menu_label_spec(item),
{
    match item {
        MenuItem::Wallets => "Wallets",
        MenuItem::AddSeed => "Add Seed",
        MenuItem::Vault => "Vault",
        MenuItem::Theme => "Theme",
        MenuItem::Calibrate => "Calibrate",
        MenuItem::Diagnostics => "Diagnostics",
        MenuItem::About => "About",
    }
}

/// Menu entry `index`, in the coordinates of the scrolled menu content.
pub open spec fn menu_button_spec(index: int, item: MenuItem) -> ButtonHit {
    ButtonHit {
        button: Button::Menu(item),
        rect: Rect {
            x: MENU_MARGIN,
            y: (MENU_CONTENT_TOP + index * (MENU_BUTTON_HEIGHT + MENU_BUTTON_GAP)) as i32,
            width: MENU_BUTTON_WIDTH as u32,
            height: MENU_BUTTON_HEIGHT as u32,
        },
    }
}

pub fn menu_buttons() -> (r: Vec<ButtonHit>)
    ensures
        r@ == Seq::new(7, |i: int| menu_button_spec(i, menu_items_spec()[i])),
{
    let items = menu_items();
    let mut out: Vec<ButtonHit> = Vec::new();
    let mut i: usize = 0;
    while i < 7
        invariant
            items@ == menu_items_spec(),
            i <= 7,
            out@ =~= Seq::new(i as nat, |k: int| menu_button_spec(k, menu_items_spec()[k])),
        decreases 7 - i,
    {
        let y: i32 = MENU_CONTENT_TOP + (i as i32) * (MENU_BUTTON_HEIGHT + MENU_BUTTON_GAP);
        out.push(ButtonHit {
            button: Button::Menu(items[i]),
            rect: Rect { x: MENU_MARGIN, y, width: MENU_BUTTON_WIDTH as u32, height: MENU_BUTTON_HEIGHT as u32 },
        });
        i = i + 1;
    }
    out
}

/// The menu's scrolling area: below the header to the bottom of the screen.
pub open spec fn menu_viewport_spec(header_h: int) -> Rect {
    let top = header_h + 4;
    Rect {
        x: 0,
        y: top as i32,
        width: SCREEN_WIDTH as u32,
        height: if SCREEN_HEIGHT - top > 0 { (SCREEN_HEIGHT - top) as u32 } else { 0 },
    }
}

pub fn menu_viewport(header_h: i32) -> (r: Rect)
    requires
        -10_000 <= header_h <= 10_000,
    ensures
        r == menu_viewport_spec(header_h as int),
{
    let top = header_h + 4;
    let h: i32 = SCREEN_HEIGHT as i32 - top;
    Rect { x: 0, y: top, width: SCREEN_WIDTH as u32, height: if h > 0 { h as u32 } else { 0 } }
}

/// A hit in scrolled content moved to where it shows on screen.
pub open spec fn to_screen(hit: ButtonHit, viewport: Rect, offset_y: int) -> ButtonHit {
    ButtonHit {
        button: hit.button,
        rect: Rect { x: (viewport.x + hit.rect.x) as i32, y: (viewport.y + hit.rect.y - offset_y) as i32, ..hit.rect },
    }
}

/// The menu entry under a touch on the scrolled menu, placed on screen.
pub open spec fn menu_touch(x: int, y: int, viewport: Rect, offset_y: int) -> Option<ButtonHit> {
    if !rect_contains(viewport, x, y) {
        None
    } else {
        match first_hit(
            Seq::new(7, |i: int| menu_button_spec(i, menu_items_spec()[i])),
            x - viewport.x,
            y - viewport.y + offset_y,
            HIT_SLACK as int,
        ) {
            Some(hit) => Some(to_screen(hit, viewport, offset_y)),
            None => None,
        }
    }
}

pub fn button_from_point_menu(x: i32, y: i32, scroll: &ScrollState) -> (r: Option<ButtonHit>)
    requires
        scroll.wf(),
        -1_000_000 <= scroll@.viewport.x <= 1_000_000,
        -1_000_000 <= scroll@.viewport.y <= 1_000_000,
        scroll@.offset_y <= 1_000_000,
        i32::MIN <= x - scroll@.viewport.x <= i32::MAX,
        i32::MIN <= y - scroll@.viewport.y + scroll@.offset_y <= i32::MAX,
    ensures
        r == menu_touch(x as int, y as int, scroll@.viewport, scroll@.offset_y),
{
    let viewport = scroll.viewport();
    if !scroll.contains(x, y) {
        return None;
    }
    let offset = scroll.offset_y();
    let cx: i32 = x - viewport.x;
    let cy: i32 = y - viewport.y + offset;
    let buttons = menu_buttons();
    match find_hit(buttons.as_slice(), cx, cy, HIT_SLACK) {
        Some(hit) => {
            assert(0 <= hit.rect.y <= 400) by {
                assert(buttons@.contains(hit)) by {
                    lemma_first_hit_in(buttons@, cx as int, cy as int, HIT_SLACK as int);
                }
            }
            assert(hit.rect.x == MENU_MARGIN) by {
                lemma_first_hit_in(buttons@, cx as int, cy as int, HIT_SLACK as int);
            }
            Some(ButtonHit {
                button: hit.button,
                rect: Rect { x: viewport.x + hit.rect.x, y: viewport.y + hit.rect.y - offset, ..hit.rect },
            })
        },
        None => None,
    }
}

/// What `first_hit` returns is one of the buttons it was given.
pub proof fn lemma_first_hit_in(hits: Seq<ButtonHit>, x: int, y: int, slack: int)
    ensures
        first_hit(hits, x, y, slack) matches Some(h) ==> hits.contains(h),
    decreases hits.len(),
{
    if hits.len() > 0 {
        lemma_first_hit_in(hits.skip(1), x, y, slack);
        let rest = first_hit(hits.skip(1), x, y, slack);
        if rest is Some {
            let h = rest->0;
            let i = choose|i: int| 0 <= i < hits.skip(1).len() && hits.skip(1)[i] == h;
            assert(hits[i + 1] == h);
        }
        assert(hits[0] == hits[0]);
    }
}

/// Theme entry `index`, below the header.
pub open spec fn theme_button_spec(index: int, theme: Theme, header_h: int) -> ButtonHit {
    ButtonHit {
        button: Button::Theme(theme),
        rect: Rect {
            x: MENU_MARGIN,
            y: (header_h + 3 + index * (THEME_BUTTON_HEIGHT + THEME_BUTTON_GAP)) as i32,
            width: MENU_BUTTON_WIDTH as u32,
            height: THEME_BUTTON_HEIGHT as u32,
        },
    }
}

pub open spec fn themes_spec() -> Seq<Theme> {
    seq![Theme::Nockster, Theme::Solarized, Theme::Nord, Theme::Dracula, Theme::Mono, Theme::Paper]
}

pub fn theme_buttons(header_h: i32) -> (r: Vec<ButtonHit>)
    requires
        -10_000 <= header_h <= 10_000,
    ensures
        r@ == Seq::new(6, |i: int| theme_button_spec(i, themes_spec()[i], header_h as int)),
{
    let list = themes();
    let mut out: Vec<ButtonHit> = Vec::new();
    let mut i: usize = 0;
    while i < 6
        invariant
            -10_000 <= header_h <= 10_000,
            list@ == themes_spec(),
            i <= 6,
            out@ =~= Seq::new(i as nat, |k: int| theme_button_spec(k, themes_spec()[k], header_h as int)),
        decreases 6 - i,
    {
        let y: i32 = header_h + 3 + (i as i32) * (THEME_BUTTON_HEIGHT + THEME_BUTTON_GAP);
        out.push(ButtonHit {
            button: Button::Theme(list[i]),
            rect: Rect { x: MENU_MARGIN, y, width: MENU_BUTTON_WIDTH as u32, height: THEME_BUTTON_HEIGHT as u32 },
        });
        i = i + 1;
    }
    out
}

pub fn button_from_point_themes(header_h: i32, x: i32, y: i32) -> (r: Option<ButtonHit>)
    requires
        -10_000 <= header_h <= 10_000,
    ensures
        r == first_hit(
            Seq::new(6, |i: int| theme_button_spec(i, themes_spec()[i], header_h as int)),
            x as int,
            y as int,
            HIT_SLACK as int,
        ),
{
    let buttons = theme_buttons(header_h);
    find_hit(buttons.as_slice(), x, y, HIT_SLACK)
}

/// The two buttons along the bottom of the wallet detail and delete screens.
pub open spec fn bottom_pair(left: Button, right: Button) -> Seq<ButtonHit> {
    seq![
        ButtonHit { button: left, rect: Rect { x: 8, y: (SCREEN_HEIGHT - 50) as i32, width: 74, height: 42 } },
        ButtonHit { button: right, rect: Rect { x: 90, y: (SCREEN_HEIGHT - 50) as i32, width: 74, height: 42 } },
    ]
}

fn bottom_buttons(left: Button, right: Button) -> (r: Vec<ButtonHit>)
    ensures
        r@ == bottom_pair(left, right),
{
    let margin: i32 = 8;
    let gap: i32 = 8;
    let top: i32 = SCREEN_HEIGHT as i32 - 50;
    let height: i32 = 42;
    let width: i32 = (SCREEN_WIDTH as i32 - margin * 2 - gap) / 2;
    let r = vec![
        ButtonHit { button: left, rect: Rect { x: margin, y: top, width: width as u32, height: height as u32 } },
        ButtonHit { button: right, rect: Rect { x: margin + width + gap, y: top, width: width as u32, height: height as u32 } },
    ];
    assert(r@ =~= bottom_pair(left, right));
    r
}

pub fn wallet_detail_buttons(slot: u8) -> (r: Vec<ButtonHit>)
    ensures
        r@ == bottom_pair(Button::WalletEdit(slot), Button::WalletDelete(slot)),
{
    bottom_buttons(Button::WalletEdit(slot), Button::WalletDelete(slot))
}

pub fn wallet_delete_buttons(slot: u8) -> (r: Vec<ButtonHit>)
    ensures
        r@ == bottom_pair(Button::WalletDeleteCancel(slot), Button::WalletDeleteConfirm(slot)),
{
    bottom_buttons(Button::WalletDeleteCancel(slot), Button::WalletDeleteConfirm(slot))
}

pub fn button_from_point_wallet_detail(x: i32, y: i32, slot: Option<u8>) -> (r: Option<ButtonHit>)
    ensures
        r == match slot {
            Some(s) => first_hit(bottom_pair(Button::WalletEdit(s), Button::WalletDelete(s)), x as int, y as int, HIT_SLACK as int),
            None => None,
        },
{
    match slot {
        Some(s) => {
            let buttons = wallet_detail_buttons(s);
            find_hit(buttons.as_slice(), x, y, HIT_SLACK)
        },
        None => None,
    }
}

pub fn button_from_point_wallet_delete(x: i32, y: i32, slot: Option<u8>) -> (r: Option<ButtonHit>)
    ensures
        r == match slot {
            Some(s) => first_hit(
                bottom_pair(Button::WalletDeleteCancel(s), Button::WalletDeleteConfirm(s)),
                x as int,
                y as int,
                HIT_SLACK as int,
            ),
            None => None,
        },
{
    match slot {
        Some(s) => {
            let buttons = wallet_delete_buttons(s);
            find_hit(buttons.as_slice(), x, y, HIT_SLACK)
        },
        None => None,
    }
}

/// The caption of a wallet detail or delete button.
pub fn wallet_button_label(button: Button) -> (r: &'static str)
    ensures
        r@ == (match button {
            Button::WalletEdit(_) => "Edit Nick"@,
            Button::WalletDelete(_) => "Delete"@,
            Button::WalletDeleteCancel(_) => "Cancel"@,
            Button::WalletDeleteConfirm(_) => "Delete"@,
            _ => ""@,
        }),
{
    match button {
        Button::WalletEdit(_) => "Edit Nick",
        Button::WalletDelete(_) => "Delete",
        Button::WalletDeleteCancel(_) => "Cancel",
        Button::WalletDeleteConfirm(_) => "Delete",
        _ => "",
    }
}

/// The wallet list's scrolling area, below the slot-count line.
pub open spec fn wallets_viewport_spec(header_h: int) -> Rect {
    let top = header_h + 48;
    let bottom = SCREEN_HEIGHT - 7;
    Rect {
        x: 6,
        y: top as i32,
        width: (SCREEN_WIDTH - 12) as u32,
        height: if bottom - top > 0 { (bottom - top) as u32 } else { 0 },
    }
}

pub fn wallets_viewport(header_h: i32) -> (r: Rect)
    requires
        -10_000 <= header_h <= 10_000,
    ensures
        r == wallets_viewport_spec(header_h as int),
{
    let top = header_h + 48;
    let bottom: i32 = SCREEN_HEIGHT as i32 - 7;
    let h = bottom - top;
    Rect { x: 6, y: top, width: (SCREEN_WIDTH - 12) as u32, height: if h > 0 { h as u32 } else { 0 } }
}

/// One row of the wallet list: a seed slot.
#[derive(Clone, Debug)]
pub struct WalletRow {
    pub index: u8,
    pub active: bool,
    pub label: Vec<u8>,
    pub pkh: Vec<u8>,
}

/// Height of the wallet list's content: a screenful for the empty-list
/// card, otherwise one row height per wallet.
pub fn wallet_list_content_height(row_count: usize, viewport_height: u32) -> (r: i32)
    requires
        row_count <= MAX_SEED_SLOTS,
        viewport_height <= i32::MAX,
    ensures
        r == if row_count == 0 { viewport_height as int } else { row_count * WALLET_ROW_HEIGHT },
{
    if row_count == 0 {
        viewport_height as i32
    } else {
        row_count as i32 * WALLET_ROW_HEIGHT
    }
}

/// The wallet row under a touch on the scrolled list, placed on screen.
pub open spec fn wallet_touch(x: int, y: int, rows: Seq<u8>, viewport: Rect, offset_y: int) -> Option<ButtonHit> {
    let content_y = y - viewport.y + offset_y;
    if !rect_contains(viewport, x, y) || rows.len() == 0 || content_y < 0 {
        None
    } else {
        let index = content_y / (WALLET_ROW_HEIGHT as int);
        if index >= rows.len() {
            None
        } else {
            Some(ButtonHit {
                button: Button::WalletRow(rows[index]),
                rect: Rect {
                    x: viewport.x,
                    y: (viewport.y + index * WALLET_ROW_HEIGHT - offset_y) as i32,
                    width: viewport.width,
                    height: WALLET_ROW_HEIGHT as u32,
                },
            })
        }
    }
}

pub open spec fn row_slots(rows: Seq<WalletRow>) -> Seq<u8> {
    rows.map_values(|r: WalletRow| r.index)
}

pub fn wallet_row_hit(x: i32, y: i32, rows: &[WalletRow], scroll: &ScrollState) -> (r: Option<ButtonHit>)
    requires
        scroll.wf(),
        -1_000_000 <= scroll@.viewport.y <= 1_000_000,
        scroll@.offset_y <= 1_000_000,
        rows@.len() <= MAX_SEED_SLOTS,
        i32::MIN <= y - scroll@.viewport.y + scroll@.offset_y <= i32::MAX,
    ensures
        r == wallet_touch(x as int, y as int, row_slots(rows@), scroll@.viewport, scroll@.offset_y),
{
    let viewport = scroll.viewport();
    if !scroll.contains(x, y) || rows.len() == 0 {
        return None;
    }
    let offset = scroll.offset_y();
    let content_y: i32 = y - viewport.y + offset;
    if content_y < 0 {
        return None;
    }
    let index: usize = (content_y / WALLET_ROW_HEIGHT) as usize;
    if index >= rows.len() {
        return None;
    }
    let row_top: i32 = viewport.y + (index as i32) * WALLET_ROW_HEIGHT - offset;
    Some(ButtonHit {
        button: Button::WalletRow(rows[index].index),
        rect: Rect { x: viewport.x, y: row_top, width: viewport.width, height: WALLET_ROW_HEIGHT as u32 },
    })
}

/// A touch on the wallet list: the row under it, if any.
pub fn button_from_point_wallets(x: i32, y: i32, rows: &[WalletRow], scroll: &ScrollState) -> (r: Option<ButtonHit>)
    requires
        scroll.wf(),
        -1_000_000 <= scroll@.viewport.y <= 1_000_000,
        scroll@.offset_y <= 1_000_000,
        rows@.len() <= MAX_SEED_SLOTS,
        i32::MIN <= y - scroll@.viewport.y + scroll@.offset_y <= i32::MAX,
    ensures
        r == wallet_touch(x as int, y as int, row_slots(rows@), scroll@.viewport, scroll@.offset_y),
{
    wallet_row_hit(x, y, rows, scroll)
}

/// The about screen has no buttons.
pub fn button_from_point_about(x: i32, y: i32) -> (r: Option<ButtonHit>)
    ensures
        r is None,
{
    None
}

/// The text of one wallet row: its slot number, its name (the label cut
/// shorter when the ACTIVE tag shares the line, or "Wallet" when unnamed),
/// and its shortened address.
pub struct WalletRowText {
    pub slot: Vec<u8>,
    pub name: Vec<u8>,
    pub address: Vec<u8>,
    pub active: bool,
}

pub open spec fn row_name(label: Seq<u8>, active: bool) -> Seq<u8> {
    if label.len() == 0 {
        "Wallet".spec_bytes()
    } else {
        truncated_spec(label, if active { 10 } else { 15 })
    }
}

pub open spec fn row_address(pkh: Seq<u8>) -> Seq<u8> {
    if pkh.len() == 0 {
        "address unavailable".spec_bytes()
    } else {
        shortened(pkh, 8, 8, 20)
    }
}

pub fn wallet_row_text(row: &WalletRow) -> (r: WalletRowText)
    ensures
        r.slot@ == dec_digits(row.index as nat),
        r.name@ == row_name(row.label@, row.active),
        r.address@ == row_address(row.pkh@),
        r.active == row.active,
{
    let mut slot: Vec<u8> = Vec::new();
    push_decimal(&mut slot, row.index as u64);
    let name = if row.label.len() == 0 {
        let mut n: Vec<u8> = Vec::new();
        append(&mut n, "Wallet".as_bytes());
        n
    } else {
        push_truncated(row.label.as_slice(), if row.active { 10 } else { 15 })
    };
    let address = if row.pkh.len() == 0 {
        let mut a: Vec<u8> = Vec::new();
        append(&mut a, "address unavailable".as_bytes());
        a
    } else {
        write_shortened(row.pkh.as_slice(), 8, 8, 20)
    };
    assert(slot@ =~= dec_digits(row.index as nat));
    WalletRowText { slot, name, address, active: row.active }
}

/// The line above the wallet list.
pub fn wallet_summary(count: usize) -> (r: Vec<u8>)
    ensures
        r@ == dec_digits(count as nat) + " of ".spec_bytes() + dec_digits(MAX_SEED_SLOTS as nat) + " slots".spec_bytes(),
{
    let mut out: Vec<u8> = Vec::new();
    push_decimal(&mut out, count as u64);
    append(&mut out, " of ".as_bytes());
    push_decimal(&mut out, MAX_SEED_SLOTS as u64);
    append(&mut out, " slots".as_bytes());
    out
}

/// The address on the wallet detail card, in up to three lines.
pub fn wrapped_address_lines(value: &[u8]) -> (r: Vec<Vec<u8>>)
    ensures
        r@.len() == if wrap_pieces(value@, ADDRESS_LINE_BYTES as nat).len() < ADDRESS_LINES {
            wrap_pieces(value@, ADDRESS_LINE_BYTES as nat).len()
        } else {
            ADDRESS_LINES as nat
        },
        forall|i: int| 0 <= i < r@.len() ==> #[trigger] r@[i]@ == wrap_pieces(value@, ADDRESS_LINE_BYTES as nat)[i],
{
    wrap_recipient(value, ADDRESS_LINE_BYTES, ADDRESS_LINES)
}

/// A byte shown as itself when it is printable ASCII, otherwise as `?`.
pub open spec fn printable(b: u8) -> u8 {
    if (0x21 <= b <= 0x7e) || b == 0x20 { b } else { 0x3f }
}

/// At most `max` bytes of `value`, unprintable ones replaced by `?`.
pub fn push_short_ascii(value: &[u8], max: usize) -> (r: Vec<u8>)
    ensures
        r@ == (if value@.len() < max { value@ } else { value@.take(max as int) }).map_values(|b: u8| printable(b)),
{
    let n: usize = if value.len() < max { value.len() } else { max };
    let mut out: Vec<u8> = Vec::new();
    let mut i: usize = 0;
    while i < n
        invariant
            n <= value@.len(),
            i <= n,
            out@ =~= value@.take(i as int).map_values(|b: u8| printable(b)),
        decreases n - i,
    {
        let b = value[i];
        let shown: u8 = if (0x21 <= b && b <= 0x7e) || b == 0x20 { b } else { 0x3f };
        out.push(shown);
        i = i + 1;
        assert(value@.take(i as int) =~= value@.take(i - 1).push(b));
    }
    assert(value@.take(n as int) =~= (if value@.len() < max { value@ } else { value@.take(max as int) }));
    out
}

pub open spec fn hex_digit(n: int) -> u8 {
    if n < 10 { (48 + n) as u8 } else { (87 + n) as u8 }
}

/// Bytes as lowercase hexadecimal, two digits each.
pub open spec fn hex_text(bytes: Seq<u8>) -> Seq<u8>
    decreases bytes.len(),
{
    if bytes.len() == 0 {
        Seq::empty()
    } else {
        hex_text(bytes.drop_last()) + seq![hex_digit((bytes.last() / 16) as int), hex_digit((bytes.last() % 16) as int)]
    }
}

pub fn push_hex_bytes(bytes: &[u8]) -> (r: Vec<u8>)
    ensures
        r@ == hex_text(bytes@),
{
    let n = bytes.len();
    let mut out: Vec<u8> = Vec::new();
    let mut i: usize = 0;
    assert(bytes@.take(0) =~= Seq::<u8>::empty());
    while i < n
        invariant
            n == bytes@.len(),
            i <= n,
            out@ == hex_text(bytes@.take(i as int)),
        decreases n - i,
    {
        let b = bytes[i];
        let hi: u8 = b / 16;
        let lo: u8 = b % 16;
        let h: u8 = if hi < 10 { 48 + hi } else { 87 + hi };
        let l: u8 = if lo < 10 { 48 + lo } else { 87 + lo };
        out.push(h);
        out.push(l);
        proof {
            let t = bytes@.take(i + 1);
            assert(t.drop_last() =~= bytes@.take(i as int));
            assert(t.last() == b);
            assert(out@ =~= hex_text(t));
        }
        i = i + 1;
    }
    assert(bytes@.take(n as int) =~= bytes@);
    out
}

} // verus!
