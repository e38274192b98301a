//! Where the buttons of the phrase-entry, dice, check and label screens
//! sit, and which of them a touch lands on. Layouts below the header take
//! the header's height.
use vstd::prelude::*;
use super::constants::{SCREEN_HEIGHT, SCREEN_WIDTH};
use super::label::LabelButton;
use super::render::Rect;
use super::seed::SeedButton;
use super::state::{find_hit, first_hit, Button, ButtonHit};

verus! {

/// Gap around the phrase keypad's keys.
pub const KEYPAD_MARGIN: i32 = 3;

pub open spec fn hit(button: Button, x: int, y: int, w: int, h: int) -> ButtonHit {
    ButtonHit { button, rect: Rect { x: x as i32, y: y as i32, width: w as u32, height: h as u32 } }
}

fn make_hit(button: Button, x: i32, y: i32, w: i32, h: i32) -> (r: ButtonHit)
    requires
        w >= 0,
        h >= 0,
    ensures
        r == hit(button, x as int, y as int, w as int, h as int),
{
    ButtonHit { button, rect: Rect { x, y, width: w as u32, height: h as u32 } }
}

pub open spec fn max_int(a: int, b: int) -> int {
    if a > b { a } else { b }
}

/// The keys of the phrase keypad, row by row.
pub open spec fn keypad_key(row: int, col: int) -> SeedButton {
    if row == 2 && col == 2 {
        SeedButton::NextSuggestion
    } else {
        SeedButton::Key((2 + 3 * row + col) as u8)
    }
}

/// Height of a phrase keypad key: three rows share what the header and the
/// corner buttons leave, but a key is never shorter than 28 pixels.
pub open spec fn keypad_key_height(header_h: int) -> int {
    let top = header_h + KEYPAD_MARGIN * 2;
    let available = max_int(0, SCREEN_HEIGHT - top - 36 - KEYPAD_MARGIN * 2);
    max_int(28, (available - KEYPAD_MARGIN * 2) / 3)
}

pub open spec fn keypad_hit(header_h: int, row: int, col: int) -> ButtonHit {
    let top = header_h + KEYPAD_MARGIN * 2;
    let kh = keypad_key_height(header_h);
    hit(
        Button::Seed(keypad_key(row, col)),
        KEYPAD_MARGIN + col * (53 + KEYPAD_MARGIN),
        top + row * (kh + KEYPAD_MARGIN),
        53,
        kh,
    )
}

/// The phrase keypad, row by row.
pub open spec fn keypad_hits(header_h: int) -> Seq<ButtonHit> {
    Seq::new(9, |i: int| keypad_hit(header_h, i / 3, i % 3))
}

/// Delete (bottom left) and add-word (bottom right) on the phrase keypad.
pub open spec fn corner_hits() -> Seq<ButtonHit> {
    seq![
        hit(Button::Seed(SeedButton::Backspace), 4, SCREEN_HEIGHT - 40, 50, 36),
        hit(Button::Seed(SeedButton::CommitWord), SCREEN_WIDTH - 54, SCREEN_HEIGHT - 40, 50, 36),
    ]
}

pub fn corner_buttons() -> (r: Vec<ButtonHit>)
    ensures
        r@ == corner_hits(),
{
    let y: i32 = SCREEN_HEIGHT as i32 - 36 - 4;
    let r = vec![
        make_hit(Button::Seed(SeedButton::Backspace), 4, y, 50, 36),
        make_hit(Button::Seed(SeedButton::CommitWord), SCREEN_WIDTH as i32 - 50 - 4, y, 50, 36),
    ];
    assert(r@ =~= corner_hits());
    r
}

pub fn keypad_buttons(header_h: i32) -> (r: Vec<ButtonHit>)
    requires
        -10_000 <= header_h <= 10_000,
    ensures
        r@ == keypad_hits(header_h as int),
{
    let top: i32 = header_h + KEYPAD_MARGIN * 2;
    let rest: i32 = SCREEN_HEIGHT as i32 - top - 36 - KEYPAD_MARGIN * 2;
    let available: i32 = if rest > 0 { rest } else { 0 };
    let per_row: i32 = (available - KEYPAD_MARGIN * 2) / 3;
    let kh: i32 = if per_row > 28 { per_row } else { 28 };
    assert(kh == keypad_key_height(header_h as int));
    let mut out: Vec<ButtonHit> = Vec::new();
    let mut i: usize = 0;
    while i < 9
        invariant
            -10_000 <= header_h <= 10_000,
            top == header_h + KEYPAD_MARGIN * 2,
            kh == keypad_key_height(header_h as int),
            28 <= kh <= 4000,
            i <= 9,
            out@ =~= keypad_hits(header_h as int).take(i as int),
        decreases 9 - i,
    {
        let row: i32 = (i / 3) as i32;
        let col: i32 = (i % 3) as i32;
        let key = if row == 2 && col == 2 { SeedButton::NextSuggestion } else { SeedButton::Key((2 + 3 * row + col) as u8) };
        assert(0 <= row * (kh + KEYPAD_MARGIN) <= 2 * 4003) by (nonlinear_arith)
            requires
                0 <= row <= 2,
                28 <= kh <= 4000;
        out.push(make_hit(Button::Seed(key), KEYPAD_MARGIN + col * 56, top + row * (kh + KEYPAD_MARGIN), 53, kh));
        proof {
            assert(keypad_hits(header_h as int).take(i + 1) =~= keypad_hits(header_h as int).take(i as int).push(
                keypad_hit(header_h as int, (i / 3) as int, (i % 3) as int),
            ));
        }
        i = i + 1;
    }
    assert(keypad_hits(header_h as int).take(9) =~= keypad_hits(header_h as int));
    out
}

/// A touch on the phrase keypad screen: the corner buttons first, with a
/// little slack, then the keys with more.
pub open spec fn seed_entry_touch(header_h: int, x: int, y: int) -> Option<ButtonHit> {
    match first_hit(corner_hits(), x, y, 4) {
        Some(h) => Some(h),
        None => first_hit(keypad_hits(header_h), x, y, 10),
    }
}

pub fn button_from_point_seed_entry(header_h: i32, x: i32, y: i32) -> (r: Option<ButtonHit>)
    requires
        -10_000 <= header_h <= 10_000,
    ensures
        r == seed_entry_touch(header_h as int, x as int, y as int),
{
    let corners = corner_buttons();
    match find_hit(corners.as_slice(), x, y, 4) {
        Some(h) => Some(h),
        None => {
            let keys = keypad_buttons(header_h);
            find_hit(keys.as_slice(), x, y, 10)
        },
    }
}

/// The six die faces, three to a row.
pub open spec fn dice_face_hits(header_h: int) -> Seq<ButtonHit> {
    Seq::new(
        6,
        |i: int| hit(Button::Seed(SeedButton::DiceFace((i + 1) as u8)), 4 + (i % 3) * 56, header_h + 70 + (i / 3) * 62, 52, 58),
    )
}

/// Back, delete-roll and finish along the bottom of the dice screen.
pub open spec fn dice_control_hits() -> Seq<ButtonHit> {
    seq![
        hit(Button::Seed(SeedButton::Cancel), 4, SCREEN_HEIGHT - 50, 52, 46),
        hit(Button::Seed(SeedButton::Backspace), 60, SCREEN_HEIGHT - 50, 52, 46),
        hit(Button::Seed(SeedButton::Finish), 116, SCREEN_HEIGHT - 50, 52, 46),
    ]
}

pub fn dice_buttons(header_h: i32) -> (r: Vec<ButtonHit>)
    requires
        -10_000 <= header_h <= 10_000,
    ensures
        r@ == dice_face_hits(header_h as int) + dice_control_hits(),
{
    let width: i32 = (SCREEN_WIDTH as i32 - 4 * 2 - 4 * 2) / 3;
    let top: i32 = header_h + 70;
    let mut out: Vec<ButtonHit> = Vec::new();
    let mut face: u8 = 1;
    while face <= 6
        invariant
            -10_000 <= header_h <= 10_000,
            width == 52,
            top == header_h + 70,
            1 <= face <= 7,
            out@ =~= dice_face_hits(header_h as int).take(face - 1),
        decreases 7 - face,
    {
        let index: i32 = face as i32 - 1;
        let row = index / 3;
        let col = index % 3;
        out.push(make_hit(Button::Seed(SeedButton::DiceFace(face)), 4 + col * (width + 4), top + row * (58 + 4), width, 58));
        proof {
            assert(dice_face_hits(header_h as int).take(face as int) =~= dice_face_hits(header_h as int).take(face - 1).push(
                dice_face_hits(header_h as int)[face - 1],
            ));
        }
        face = face + 1;
    }
    let bottom_y: i32 = SCREEN_HEIGHT as i32 - 50;
    let cw: i32 = (SCREEN_WIDTH as i32 - 8 - 4 * 2) / 3;
    out.push(make_hit(Button::Seed(SeedButton::Cancel), 4, bottom_y, cw, 46));
    out.push(make_hit(Button::Seed(SeedButton::Backspace), 4 + (cw + 4), bottom_y, cw, 46));
    out.push(make_hit(Button::Seed(SeedButton::Finish), 4 + 2 * (cw + 4), bottom_y, cw, 46));
    assert(dice_face_hits(header_h as int).take(6) =~= dice_face_hits(header_h as int));
    assert(out@ =~= dice_face_hits(header_h as int) + dice_control_hits());
    out
}

/// A touch on the dice screen: the first button within a little slack;
/// finish answers only once every roll is in.
pub fn button_from_point_seed_dice(header_h: i32, x: i32, y: i32, rolls_complete: bool) -> (r: Option<ButtonHit>)
    requires
        -10_000 <= header_h <= 10_000,
    ensures
        r == first_hit(
            if rolls_complete { dice_face_hits(header_h as int) + dice_control_hits() } else { dice_face_hits(header_h as int)
                + dice_control_hits().take(2) },
            x as int,
            y as int,
            4,
        ),
{
    let mut all = dice_buttons(header_h);
    if !rolls_complete {
        all.pop();
        assert(all@ =~= dice_face_hits(header_h as int) + dice_control_hits().take(2));
    }
    find_hit(all.as_slice(), x, y, 4)
}

/// The three word choices and cancel on the phrase-check screen.
pub open spec fn verify_hits(header_h: int) -> Seq<ButtonHit> {
    seq![
        hit(Button::Seed(SeedButton::VerifyChoice(0)), 10, header_h + 46, SCREEN_WIDTH - 20, 40),
        hit(Button::Seed(SeedButton::VerifyChoice(1)), 10, header_h + 92, SCREEN_WIDTH - 20, 40),
        hit(Button::Seed(SeedButton::VerifyChoice(2)), 10, header_h + 138, SCREEN_WIDTH - 20, 40),
        hit(Button::Seed(SeedButton::Cancel), 46, SCREEN_HEIGHT - 42, SCREEN_WIDTH - 92, 36),
    ]
}

pub fn verify_buttons(header_h: i32) -> (r: Vec<ButtonHit>)
    requires
        -10_000 <= header_h <= 10_000,
    ensures
        r@ == verify_hits(header_h as int),
{
    let width: i32 = SCREEN_WIDTH as i32 - 20;
    let top: i32 = header_h + 46;
    let r = vec![
        make_hit(Button::Seed(SeedButton::VerifyChoice(0)), 10, top, width, 40),
        make_hit(Button::Seed(SeedButton::VerifyChoice(1)), 10, top + 46, width, 40),
        make_hit(Button::Seed(SeedButton::VerifyChoice(2)), 10, top + 92, width, 40),
        make_hit(Button::Seed(SeedButton::Cancel), 46, SCREEN_HEIGHT as i32 - 42, SCREEN_WIDTH as i32 - 92, 36),
    ];
    assert(r@ =~= verify_hits(header_h as int));
    r
}

pub fn button_from_point_seed_verify(header_h: i32, x: i32, y: i32) -> (r: Option<ButtonHit>)
    requires
        -10_000 <= header_h <= 10_000,
    ensures
        r == first_hit(verify_hits(header_h as int), x as int, y as int, 4),
{
    let buttons = verify_buttons(header_h);
    find_hit(buttons.as_slice(), x, y, 4)
}

/// Deny (bottom left) and approve (bottom right) along the bottom of a
/// confirmation or review screen.
pub open spec fn confirm_hits() -> Seq<ButtonHit> {
    seq![
        hit(Button::Clear, 8, SCREEN_HEIGHT - 48, 70, 40),
        hit(Button::Accept, SCREEN_WIDTH - 78, SCREEN_HEIGHT - 48, 70, 40),
    ]
}

pub fn confirm_buttons() -> (r: Vec<ButtonHit>)
    ensures
        r@ == confirm_hits(),
{
    let y0: i32 = SCREEN_HEIGHT as i32 - 40 - 8;
    let buttons = vec![
        make_hit(Button::Clear, 8, y0, 70, 40),
        make_hit(Button::Accept, SCREEN_WIDTH as i32 - 70 - 8, y0, 70, 40),
    ];
    assert(buttons@ =~= confirm_hits());
    buttons
}

/// Cancel (bottom left) and finish (bottom right) under the phrase read-back.
pub open spec fn seed_confirm_hits() -> Seq<ButtonHit> {
    seq![
        hit(Button::Seed(SeedButton::Cancel), 8, SCREEN_HEIGHT - 48, 70, 40),
        hit(Button::Seed(SeedButton::Finish), SCREEN_WIDTH - 78, SCREEN_HEIGHT - 48, 70, 40),
    ]
}

pub fn button_from_point_seed_confirm(x: i32, y: i32) -> (r: Option<ButtonHit>)
    ensures
        r == first_hit(seed_confirm_hits(), x as int, y as int, 4),
{
    let y0: i32 = SCREEN_HEIGHT as i32 - 40 - 8;
    let buttons = vec![
        make_hit(Button::Seed(SeedButton::Cancel), 8, y0, 70, 40),
        make_hit(Button::Seed(SeedButton::Finish), SCREEN_WIDTH as i32 - 70 - 8, y0, 70, 40),
    ];
    assert(buttons@ =~= seed_confirm_hits());
    find_hit(buttons.as_slice(), x, y, 4)
}

/// The three ways to set up a phrase: hardware random, dice, or typing one.
pub open spec fn setup_hits(header_h: int) -> Seq<ButtonHit> {
    seq![
        hit(Button::Seed(SeedButton::GenerateSeed), 20, header_h + 100, 132, 42),
        hit(Button::Seed(SeedButton::DiceSeed), 20, header_h + 152, 132, 42),
        hit(Button::Seed(SeedButton::EnterSeed), 20, header_h + 204, 132, 42),
    ]
}

pub fn setup_buttons(header_h: i32) -> (r: Vec<ButtonHit>)
    requires
        -10_000 <= header_h <= 10_000,
    ensures
        r@ == setup_hits(header_h as int),
{
    let width: i32 = SCREEN_WIDTH as i32 - 2 * 20;
    let x: i32 = (SCREEN_WIDTH as i32 - width) / 2;
    let y0: i32 = header_h + 100;
    let r = vec![
        make_hit(Button::Seed(SeedButton::GenerateSeed), x, y0, width, 42),
        make_hit(Button::Seed(SeedButton::DiceSeed), x, y0 + 42 + 10, width, 42),
        make_hit(Button::Seed(SeedButton::EnterSeed), x, y0 + (42 + 10) * 2, width, 42),
    ];
    assert(r@ =~= setup_hits(header_h as int));
    r
}

/// A touch on the phrase setup screen: the header's back button when it is
/// shown and was hit (`back` is that button where the touch falls in it),
/// else one of the three setup choices.
pub fn button_from_point_seed_setup(header_h: i32, x: i32, y: i32, show_back: bool, back: Option<ButtonHit>) -> (r: Option<ButtonHit>)
    requires
        -10_000 <= header_h <= 10_000,
    ensures
        r == (if show_back && back is Some { back } else { first_hit(setup_hits(header_h as int), x as int, y as int, 4) }),
{
    if show_back {
        if let Some(b) = back {
            return Some(b);
        }
    }
    let buttons = setup_buttons(header_h);
    find_hit(buttons.as_slice(), x, y, 4)
}

pub fn setup_button_label(button: SeedButton) -> (r: &'static str)
    ensures
        r@ == (match button {
            SeedButton::GenerateSeed => "Hardware RNG"@,
            SeedButton::DiceSeed => "4 Dice x 25"@,
            SeedButton::Cancel => "Back to menu"@,
            _ => "Enter Seed"@,
        }),
{
    match button {
        SeedButton::GenerateSeed => "Hardware RNG",
        SeedButton::DiceSeed => "4 Dice x 25",
        SeedButton::Cancel => "Back to menu",
        _ => "Enter Seed",
    }
}

/// The label keypad's keys, row by row: three rows of letter keys, then
/// cancel, delete and save.
pub open spec fn label_key(row: int, col: int) -> LabelButton {
    if row == 3 {
        if col == 0 {
            LabelButton::Cancel
        } else if col == 1 {
            LabelButton::Backspace
        } else {
            LabelButton::Save
        }
    } else if row == 2 && col == 2 {
        LabelButton::Key(0)
    } else {
        LabelButton::Key((2 + 3 * row + col) as u8)
    }
}

pub open spec fn label_hits(header_h: int) -> Seq<ButtonHit> {
    Seq::new(12, |i: int| hit(Button::Label(label_key(i / 3, i % 3)), 6 + (i % 3) * 55, header_h + 66 + (i / 3) * 41, 50, 35))
}

pub fn label_buttons(header_h: i32) -> (r: Vec<ButtonHit>)
    requires
        -10_000 <= header_h <= 10_000,
    ensures
        r@ == label_hits(header_h as int),
{
    let margin: i32 = 6;
    let gap: i32 = 5;
    let per: i32 = (SCREEN_WIDTH as i32 - margin * 2 - gap * 2) / 3;
    let button_w: i32 = if per > 36 { per } else { 36 };
    let button_h: i32 = 35;
    let top: i32 = header_h + 66;
    let row_gap: i32 = 6;
    let mut out: Vec<ButtonHit> = Vec::new();
    let mut idx: usize = 0;
    while idx < 12
        invariant
            -10_000 <= header_h <= 10_000,
            button_w == 50,
            button_h == 35,
            margin == 6,
            top == header_h + 66,
            idx <= 12,
            out@ =~= label_hits(header_h as int).take(idx as int),
        decreases 12 - idx,
    {
        let row: i32 = (idx / 3) as i32;
        let col: i32 = (idx % 3) as i32;
        let key = if row == 3 {
            if col == 0 { LabelButton::Cancel } else if col == 1 { LabelButton::Backspace } else { LabelButton::Save }
        } else if row == 2 && col == 2 {
            LabelButton::Key(0)
        } else {
            LabelButton::Key((2 + 3 * row + col) as u8)
        };
        out.push(make_hit(Button::Label(key), margin + col * 55, top + row * 41, button_w, button_h));
        proof {
            assert(label_hits(header_h as int).take(idx + 1) =~= label_hits(header_h as int).take(idx as int).push(
                label_hits(header_h as int)[idx as int],
            ));
        }
        idx = idx + 1;
    }
    assert(label_hits(header_h as int).take(12) =~= label_hits(header_h as int));
    out
}

pub fn button_from_point_label_entry(header_h: i32, x: i32, y: i32) -> (r: Option<ButtonHit>)
    requires
        -10_000 <= header_h <= 10_000,
    ensures
        r == first_hit(label_hits(header_h as int), x as int, y as int, 5),
{
    let buttons = label_buttons(header_h);
    find_hit(buttons.as_slice(), x, y, 5)
}

} // verus!
