//! Screen modes, menu items, the transaction-review summary and the touch
//! diagnostics counters.
use vstd::prelude::*;
use super::touch::{Coordinates, ScreenPoint};
use super::label::LabelButton;
use super::palette::Theme;
use super::render::Rect;
use super::seed::SeedButton;

verus! {

#[derive(Clone, Copy, Debug, PartialEq, Eq, Structural)]
pub enum GuiMode {
    Splash,
    Locked,
    Confirm,
    TxReview,
    Unlocking,
    Unlocked,
    Error,
    SeedFirstBoot,
    SeedEntry,
    SeedConfirm,
    Diagnostics,
    TouchCalibration,
    Menu,
    About,
    Themes,
    Wallets,
    WalletDetail,
    WalletDeleteConfirm,
    Vault,
    VaultDetail,
    VaultDeleteConfirm,
    LabelEntry,
}

/// Items on the settings menu reachable from the unlocked header menu icon.
#[derive(Clone, Copy, Debug, PartialEq, Eq, Structural)]
pub enum MenuItem {
    Wallets,
    AddSeed,
    Vault,
    Theme,
    About,
    Calibrate,
    Diagnostics,
}

pub const TX_REVIEW_MAX_OUTPUTS: usize = 24;
pub const TX_REVIEW_FLAG_HIGH_FEE: u8 = 1;
pub const TX_REVIEW_FLAG_NO_REFUND: u8 = 2;
pub const TX_REVIEW_FLAG_MULTIPLE_RECIPIENTS: u8 = 4;
/// An output's claimed lock did not hash to its committed lock-root.
pub const TX_REVIEW_FLAG_LOCK_UNVERIFIED: u8 = 8;
/// An output is timelocked.
pub const TX_REVIEW_FLAG_TIMELOCK: u8 = 16;
/// An output requires a hash preimage.
pub const TX_REVIEW_FLAG_HASHLOCK: u8 = 32;
/// An output is a bridge deposit (leaving the chain).
pub const TX_REVIEW_FLAG_BRIDGE: u8 = 64;
/// An output pays an M-of-N multisig (M < N).
pub const TX_REVIEW_FLAG_MULTISIG: u8 = 128;

#[derive(Clone, Copy, Debug, PartialEq, Eq, Structural)]
pub struct TxReviewSummary {
    pub input_count: u32,
    pub external_output_count: u32,
    pub external_total: u64,
    pub refund_total: u64,
    pub fee_total: u64,
    pub flags: u8,
    /// Multisig coordination for the input the device is authorized on (0 if
    /// none): signatures required, signatures already collected, and whether
    /// the device still needs to add its own.
    pub multisig_m: u8,
    pub multisig_present: u8,
    pub multisig_we_must_sign: bool,
}

#[derive(Clone, Copy, Debug, PartialEq, Eq, Structural)]
pub enum Button {
    Back,
    Digit(u8),
    Clear,
    Accept,
    Seed(SeedButton),
    Menu(MenuItem),
    Theme(Theme),
    WalletRow(u8),
    WalletEdit(u8),
    WalletDelete(u8),
    WalletDeleteCancel(u8),
    WalletDeleteConfirm(u8),
    Label(LabelButton),
}

/// A button and the screen rectangle it answers to.
#[derive(Clone, Copy, Debug, PartialEq, Eq, Structural)]
pub struct ButtonHit {
    pub button: Button,
    pub rect: Rect,
}

/// The point is on the button, or within `slack` pixels of it.
pub open spec fn hit_within(hit: ButtonHit, x: int, y: int, slack: int) -> bool {
    &&& hit.rect.x - slack <= x < hit.rect.x + hit.rect.width + slack
    &&& hit.rect.y - slack <= y < hit.rect.y + hit.rect.height + slack
}

pub fn within_hit(hit: &ButtonHit, x: i32, y: i32, slack: i32) -> (r: bool)
    ensures
        r == hit_within(*hit, x as int, y as int, slack as int),
{
    let left: i64 = hit.rect.x as i64 - slack as i64;
    let right: i64 = hit.rect.x as i64 + hit.rect.width as i64 + slack as i64;
    let top: i64 = hit.rect.y as i64 - slack as i64;
    let bottom: i64 = hit.rect.y as i64 + hit.rect.height as i64 + slack as i64;
    x as i64 >= left && (x as i64) < right && y as i64 >= top && (y as i64) < bottom
}

/// The first button, in order, that the point falls on (with slack).
pub open spec fn first_hit(hits: Seq<ButtonHit>, x: int, y: int, slack: int) -> Option<ButtonHit>
    decreases hits.len(),
{
    if hits.len() == 0 {
        None
    } else if hit_within(hits[0], x, y, slack) {
        Some(hits[0])
    } else {
        first_hit(hits.skip(1), x, y, slack)
    }
}

pub fn find_hit(hits: &[ButtonHit], x: i32, y: i32, slack: i32) -> (r: Option<ButtonHit>)
    ensures
        r == first_hit(hits@, x as int, y as int, slack as int),
{
    let n = hits.len();
    let mut i: usize = 0;
    assert(hits@.skip(0) =~= hits@);
    while i < n
        invariant
            n == hits@.len(),
            i <= n,
            first_hit(hits@, x as int, y as int, slack as int) == first_hit(hits@.skip(i as int), x as int, y as int, slack as int),
        decreases n - i,
    {
        assert(hits@.skip(i as int)[0] == hits@[i as int]);
        assert(hits@.skip(i as int).skip(1) =~= hits@.skip(i + 1));
        if within_hit(&hits[i], x, y, slack) {
            return Some(hits[i]);
        }
        i = i + 1;
    }
    None
}

/// The caption of a keypad button.
pub open spec fn button_label_spec(button: Button) -> Seq<char> {
    match button {
        Button::Digit(d) => if d <= 9 { seq![(48 + d) as char] } else { "?"@ },
        Button::Clear => "X"@,
        Button::Accept => "OK"@,
        _ => ""@,
    }
}

pub fn button_label(button: Button) -> (r: &'static str)
    ensures
        r@ == button_label_spec(button),
{
    proof {
        reveal_strlit("0");
        reveal_strlit("1");
        reveal_strlit("2");
        reveal_strlit("3");
        reveal_strlit("4");
        reveal_strlit("5");
        reveal_strlit("6");
        reveal_strlit("7");
        reveal_strlit("8");
        reveal_strlit("9");
    }
    match button {
        Button::Digit(0) => "0",
        Button::Digit(1) => "1",
        Button::Digit(2) => "2",
        Button::Digit(3) => "3",
        Button::Digit(4) => "4",
        Button::Digit(5) => "5",
        Button::Digit(6) => "6",
        Button::Digit(7) => "7",
        Button::Digit(8) => "8",
        Button::Digit(9) => "9",
        Button::Digit(_) => "?",
        Button::Clear => "X",
        Button::Accept => "OK",
        _ => "",
    }
}

/// The caption of a confirmation button: approve on OK, deny on clear.
pub fn confirm_button_label(button: Button) -> (r: &'static str)
    ensures
        r@ == (match button {
            Button::Accept => "Approve"@,
            Button::Clear => "Deny"@,
            _ => ""@,
        }),
{
    match button {
        Button::Accept => "Approve",
        Button::Clear => "Deny",
        _ => "",
    }
}

#[derive(Clone, Copy, Debug, PartialEq, Eq, Structural)]
pub enum WalletInteraction {
    DeleteConfirmed { slot: u8 },
}

#[derive(Clone, Copy, Debug, PartialEq, Eq, Structural)]
pub enum VaultInteraction {
    DeleteConfirmed { slot: u8 },
}

/// Live counters shown on the touch diagnostics screen.
#[derive(Clone, Copy, Debug, PartialEq, Eq, Structural)]
pub struct TouchDiagnostics {
    pub touching: bool,
    pub raw: Coordinates,
    pub screen: ScreenPoint,
    pub count: u8,
    pub status: u8,
    pub pressure: u8,
    pub samples: u32,
    pub frames: u32,
    pub errors: u32,
}

pub open spec fn sat_inc(n: u32) -> u32 {
    if n == u32::MAX { n } else { (n + 1) as u32 }
}

impl TouchDiagnostics {
    pub fn new() -> (d: Self)
        ensures
            d == (TouchDiagnostics {
                touching: false,
                raw: Coordinates { x: 0, y: 0 },
                screen: ScreenPoint { x: 0, y: 0 },
                count: 0,
                status: 0,
                pressure: 0,
                samples: 0,
                frames: 0,
                errors: 0,
            }),
    {
        TouchDiagnostics {
            touching: false,
            raw: Coordinates { x: 0, y: 0 },
            screen: ScreenPoint { x: 0, y: 0 },
            count: 0,
            status: 0,
            pressure: 0,
            samples: 0,
            frames: 0,
            errors: 0,
        }
    }

    /// A finger is down: keep the reading and count the sample (saturating).
    pub fn record_sample(&mut self, raw: Coordinates, screen: ScreenPoint, count: u8, status: u8, pressure: u8)
        ensures
            *final(self) == (TouchDiagnostics {
                touching: true,
                raw,
                screen,
                count,
                status,
                pressure,
                samples: sat_inc(old(self).samples),
                ..*old(self)
            }),
    {
        self.touching = true;
        self.raw = raw;
        self.screen = screen;
        self.count = count;
        self.status = status;
        self.pressure = pressure;
        self.samples = self.samples.saturating_add(1);
    }

    /// No finger: clear the live reading, keep the coordinates and counters.
    pub fn record_no_touch(&mut self)
        ensures
            *final(self) == (TouchDiagnostics { touching: false, count: 0, status: 0, pressure: 0, ..*old(self) }),
    {
        self.touching = false;
        self.count = 0;
        self.status = 0;
        self.pressure = 0;
    }

    /// A failed read: no finger, and the error counter goes up (saturating).
    pub fn record_error(&mut self)
        ensures
            *final(self) == (TouchDiagnostics {
                touching: false,
                count: 0,
                errors: sat_inc(old(self).errors),
                ..*old(self)
            }),
    {
        self.touching = false;
        self.count = 0;
        self.errors = self.errors.saturating_add(1);
    }
}

} // verus!
