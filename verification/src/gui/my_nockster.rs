//! A tiny, deliberately low-stakes virtual pet hidden in the About screen.
//!
//! The state is RAM-only and has no connection to wallet storage, signing or
//! entropy generation. Needs decay only while this screen is open. Instants
//! are milliseconds on a monotonic clock.
use vstd::prelude::*;

verus! {

pub const MAX_NEED: u8 = 5;
pub const FATAL_OVERFEED: u8 = 8;
pub const DECAY_INTERVAL_MS: u64 = 24_000;
pub const ANIMATION_INTERVAL_MS: u64 = 900;

#[derive(Clone, Copy, Debug, PartialEq, Eq, Structural)]
pub enum NocksterButton {
    Feed,
    Play,
    Nap,
    Pet,
}

#[derive(Clone, Copy, Debug, PartialEq, Eq, Structural)]
pub enum Pose {
    Idle,
    Eating,
    Playing,
    Sleeping,
    Petted,
    Dead,
}

/// What the pet says under its room.
#[derive(Clone, Copy, Debug, PartialEq, Eq, Structural)]
pub enum PetMood {
    Yum,
    Wheee,
    Snoring,
    Happy,
    Rip,
    TooFull,
    GettingRound,
    Hungry,
    Sleepy,
    Bored,
    DoingGreat,
    Hello,
}

/// The abstract pet.
#[derive(Clone, Copy, Debug, PartialEq, Eq, Structural)]
pub struct PetView {
    pub food: u8,
    pub fun: u8,
    pub energy: u8,
    pub overfed: u8,
    pub decay_cursor: u8,
    pub pose: Pose,
    pub frame: bool,
    pub last_decay: u64,
    pub last_frame: u64,
}

pub struct NocksterState {
    food: u8,
    fun: u8,
    energy: u8,
    overfed: u8,
    decay_cursor: u8,
    pose: Pose,
    frame: bool,
    last_decay: u64,
    last_frame: u64,
}

pub open spec fn sat_add(a: u8, b: u8) -> u8 {
    if a + b > 255 { 255 } else { (a + b) as u8 }
}

pub open spec fn sat_sub(a: u8, b: u8) -> u8 {
    if a < b { 0 } else { (a - b) as u8 }
}

pub open spec fn min_u8(a: u8, b: u8) -> u8 {
    if a < b { a } else { b }
}

/// Needs never exceed their maximum.
pub open spec fn pet_bounded(p: PetView) -> bool {
    p.food <= MAX_NEED && p.fun <= MAX_NEED && p.energy <= MAX_NEED
}

pub open spec fn fresh_pet(now: u64) -> PetView {
    PetView {
        food: 4,
        fun: 4,
        energy: 4,
        overfed: 0,
        decay_cursor: 0,
        pose: Pose::Idle,
        frame: false,
        last_decay: now,
        last_frame: now,
    }
}

/// The effect of pressing `button` at `now`.
pub open spec fn pet_after_act(p: PetView, button: NocksterButton, now: u64) -> PetView {
    if p.pose == Pose::Dead {
        if button == NocksterButton::Pet {
            PetView { pose: Pose::Petted, ..fresh_pet(now) }
        } else {
            p
        }
    } else {
        let q = match button {
            NocksterButton::Feed => {
                let overfed = if p.food == MAX_NEED { sat_add(p.overfed, 1) } else { p.overfed };
                PetView {
                    overfed,
                    food: min_u8(sat_add(p.food, 2), MAX_NEED),
                    fun: sat_sub(p.fun, 1),
                    pose: if overfed >= FATAL_OVERFEED { Pose::Dead } else { Pose::Eating },
                    ..p
                }
            },
            NocksterButton::Play => PetView {
                fun: min_u8(sat_add(p.fun, 2), MAX_NEED),
                food: sat_sub(p.food, 1),
                energy: sat_sub(p.energy, 1),
                overfed: sat_sub(p.overfed, 1),
                pose: Pose::Playing,
                ..p
            },
            NocksterButton::Nap => PetView {
                energy: min_u8(sat_add(p.energy, 2), MAX_NEED),
                food: sat_sub(p.food, 1),
                pose: Pose::Sleeping,
                ..p
            },
            NocksterButton::Pet => PetView { fun: min_u8(sat_add(p.fun, 1), MAX_NEED), pose: Pose::Petted, ..p },
        };
        PetView { last_frame: now, ..q }
    }
}

pub open spec fn elapsed(now: u64, then: u64) -> int {
    if now >= then { now - then } else { 0 }
}

/// One animation step, if its interval has passed.
pub open spec fn pet_after_frame(p: PetView, now: u64) -> PetView {
    if elapsed(now, p.last_frame) >= ANIMATION_INTERVAL_MS {
        PetView {
            last_frame: now,
            frame: !p.frame,
            pose: if p.pose != Pose::Idle && p.pose != Pose::Dead { Pose::Idle } else { p.pose },
            ..p
        }
    } else {
        p
    }
}

/// One need decays, in turn, if its interval has passed.
pub open spec fn pet_after_decay(p: PetView, now: u64) -> PetView {
    if elapsed(now, p.last_decay) >= DECAY_INTERVAL_MS {
        let q = if p.decay_cursor % 3 == 0 {
            PetView { food: sat_sub(p.food, 1), ..p }
        } else if p.decay_cursor % 3 == 1 {
            PetView { fun: sat_sub(p.fun, 1), ..p }
        } else {
            PetView { energy: sat_sub(p.energy, 1), ..p }
        };
        PetView {
            last_decay: now,
            decay_cursor: if p.decay_cursor == 255 { 0 } else { (p.decay_cursor + 1) as u8 },
            ..q
        }
    } else {
        p
    }
}

pub open spec fn pet_mood(p: PetView) -> PetMood {
    match p.pose {
        Pose::Eating => PetMood::Yum,
        Pose::Playing => PetMood::Wheee,
        Pose::Sleeping => PetMood::Snoring,
        Pose::Petted => PetMood::Happy,
        Pose::Dead => PetMood::Rip,
        Pose::Idle => if p.overfed >= 5 {
            PetMood::TooFull
        } else if p.overfed >= 2 {
            PetMood::GettingRound
        } else if p.food == 0 {
            PetMood::Hungry
        } else if p.energy == 0 {
            PetMood::Sleepy
        } else if p.fun == 0 {
            PetMood::Bored
        } else if p.food == MAX_NEED && p.fun == MAX_NEED && p.energy == MAX_NEED {
            PetMood::DoingGreat
        } else {
            PetMood::Hello
        },
    }
}

/// Horizontal sprite scale: the pet gets wider as it is overfed.
pub open spec fn pet_width_scale(overfed: u8) -> i32 {
    if overfed <= 1 { 4 } else if overfed <= 4 { 5 } else { 6 }
}

impl View for NocksterState {
    type V = PetView;

    closed spec fn view(&self) -> PetView {
        PetView {
            food: self.food,
            fun: self.fun,
            energy: self.energy,
            overfed: self.overfed,
            decay_cursor: self.decay_cursor,
            pose: self.pose,
            frame: self.frame,
            last_decay: self.last_decay,
            last_frame: self.last_frame,
        }
    }
}

impl NocksterState {
    pub fn new(now: u64) -> (s: Self)
        ensures
            s@ == fresh_pet(now),
            pet_bounded(s@),
    {
        NocksterState {
            food: 4,
            fun: 4,
            energy: 4,
            overfed: 0,
            decay_cursor: 0,
            pose: Pose::Idle,
            frame: false,
            last_decay: now,
            last_frame: now,
        }
    }

    pub fn food(&self) -> (r: u8)
        ensures
            r == self@.food,
    {
        self.food
    }

    pub fn fun(&self) -> (r: u8)
        ensures
            r == self@.fun,
    {
        self.fun
    }

    pub fn energy(&self) -> (r: u8)
        ensures
            r == self@.energy,
    {
        self.energy
    }

    pub fn overfed(&self) -> (r: u8)
        ensures
            r == self@.overfed,
    {
        self.overfed
    }

    pub fn pose(&self) -> (r: Pose)
        ensures
            r == self@.pose,
    {
        self.pose
    }

    pub fn frame(&self) -> (r: bool)
        ensures
            r == self@.frame,
    {
        self.frame
    }

    /// Resume without charging the pet for time spent outside the easter egg.
    pub fn resume(&mut self, now: u64)
        ensures
            final(self)@ == (PetView {
                last_decay: now,
                last_frame: now,
                pose: if old(self)@.pose != Pose::Dead { Pose::Idle } else { Pose::Dead },
                ..old(self)@
            }),
    {
        self.last_decay = now;
        self.last_frame = now;
        if self.pose != Pose::Dead {
            self.pose = Pose::Idle;
        }
    }

    /// Advance animation and at most one need. Returns true when a redraw is
    /// due. A clock reading earlier than the last one counts as no time.
    pub fn advance(&mut self, now: u64) -> (dirty: bool)
        ensures
            final(self)@ == pet_after_decay(pet_after_frame(old(self)@, now), now),
            dirty == (elapsed(now, old(self)@.last_frame) >= ANIMATION_INTERVAL_MS
                || elapsed(now, old(self)@.last_decay) >= DECAY_INTERVAL_MS),
    {
        let mut dirty = false;
        if now.saturating_sub(self.last_frame) >= ANIMATION_INTERVAL_MS {
            self.last_frame = now;
            self.frame = !self.frame;
            if self.pose != Pose::Idle && self.pose != Pose::Dead {
                self.pose = Pose::Idle;
            }
            dirty = true;
        }
        if now.saturating_sub(self.last_decay) >= DECAY_INTERVAL_MS {
            self.last_decay = now;
            let turn = self.decay_cursor % 3;
            if turn == 0 {
                self.food = self.food.saturating_sub(1);
            } else if turn == 1 {
                self.fun = self.fun.saturating_sub(1);
            } else {
                self.energy = self.energy.saturating_sub(1);
            }
            self.decay_cursor = self.decay_cursor.wrapping_add(1);
            dirty = true;
        }
        dirty
    }

    pub fn act(&mut self, button: NocksterButton, now: u64)
        ensures
            final(self)@ == pet_after_act(old(self)@, button, now),
    {
        if self.pose == Pose::Dead {
            if button == NocksterButton::Pet {
                *self = NocksterState::new(now);
                self.pose = Pose::Petted;
            }
            return;
        }
        match button {
            NocksterButton::Feed => {
                if self.food == MAX_NEED {
                    self.overfed = self.overfed.saturating_add(1);
                }
                let food = self.food.saturating_add(2);
                self.food = if food < MAX_NEED { food } else { MAX_NEED };
                self.fun = self.fun.saturating_sub(1);
                self.pose = if self.overfed >= FATAL_OVERFEED { Pose::Dead } else { Pose::Eating };
            },
            NocksterButton::Play => {
                let fun = self.fun.saturating_add(2);
                self.fun = if fun < MAX_NEED { fun } else { MAX_NEED };
                self.food = self.food.saturating_sub(1);
                self.energy = self.energy.saturating_sub(1);
                self.overfed = self.overfed.saturating_sub(1);
                self.pose = Pose::Playing;
            },
            NocksterButton::Nap => {
                let energy = self.energy.saturating_add(2);
                self.energy = if energy < MAX_NEED { energy } else { MAX_NEED };
                self.food = self.food.saturating_sub(1);
                self.pose = Pose::Sleeping;
            },
            NocksterButton::Pet => {
                let fun = self.fun.saturating_add(1);
                self.fun = if fun < MAX_NEED { fun } else { MAX_NEED };
                self.pose = Pose::Petted;
            },
        }
        self.last_frame = now;
    }

    /// What the pet says now.
    pub fn mood(&self) -> (m: PetMood)
        ensures
            m == pet_mood(self@),
    {
        match self.pose {
            Pose::Eating => PetMood::Yum,
            Pose::Playing => PetMood::Wheee,
            Pose::Sleeping => PetMood::Snoring,
            Pose::Petted => PetMood::Happy,
            Pose::Dead => PetMood::Rip,
            Pose::Idle => if self.overfed >= 5 {
                PetMood::TooFull
            } else if self.overfed >= 2 {
                PetMood::GettingRound
            } else if self.food == 0 {
                PetMood::Hungry
            } else if self.energy == 0 {
                PetMood::Sleepy
            } else if self.fun == 0 {
                PetMood::Bored
            } else if self.food == MAX_NEED && self.fun == MAX_NEED && self.energy == MAX_NEED {
                PetMood::DoingGreat
            } else {
                PetMood::Hello
            },
        }
    }

    /// Horizontal sprite scale in pixels per sprite column.
    pub fn width_scale(&self) -> (s: i32)
        ensures
            s == pet_width_scale(self@.overfed),
    {
        if self.overfed <= 1 { 4 } else if self.overfed <= 4 { 5 } else { 6 }
    }
}

/// Every action and every clock tick keeps all three needs within their
/// maximum.
pub proof fn lemma_pet_stays_bounded(p: PetView, button: NocksterButton, now: u64)
    requires
        pet_bounded(p),
    ensures
        pet_bounded(pet_after_act(p, button, now)),
        pet_bounded(pet_after_decay(pet_after_frame(p, now), now)),
{
}

/// A dead pet ignores everything but a pet, which restarts it from scratch.
pub proof fn lemma_dead_pet_restarts(p: PetView, button: NocksterButton, now: u64)
    requires
        p.pose == Pose::Dead,
    ensures
        button != NocksterButton::Pet ==> pet_after_act(p, button, now) == p,
        button == NocksterButton::Pet ==> pet_after_act(p, button, now) == (PetView { pose: Pose::Petted, ..fresh_pet(now) }),
{
}

/// Feeding a full pet that has already been overfed to one short of the
/// fatal count kills it.
pub proof fn lemma_overfeeding_kills(p: PetView, now: u64)
    requires
        p.pose != Pose::Dead,
        p.food == MAX_NEED,
        p.overfed == FATAL_OVERFEED - 1,
    ensures
        pet_after_act(p, NocksterButton::Feed, now).pose == Pose::Dead,
{
}

impl PetMood {
    /// The message shown for the mood.
    pub fn text(self) -> (s: &'static str)
        ensures
            s@ == mood_text(self),
    {
        match self {
            PetMood::Yum => { proof { reveal_strlit("yum!"); } "yum!" },
            PetMood::Wheee => { proof { reveal_strlit("wheee!"); } "wheee!" },
            PetMood::Snoring => { proof { reveal_strlit("z z z..."); } "z z z..." },
            PetMood::Happy => { proof { reveal_strlit("happy!"); } "happy!" },
            PetMood::Rip => { proof { reveal_strlit("tap RIP to restart"); } "tap RIP to restart" },
            PetMood::TooFull => { proof { reveal_strlit("too full..."); } "too full..." },
            PetMood::GettingRound => { proof { reveal_strlit("getting round..."); } "getting round..." },
            PetMood::Hungry => { proof { reveal_strlit("i'm hungry"); } "i'm hungry" },
            PetMood::Sleepy => { proof { reveal_strlit("i'm sleepy"); } "i'm sleepy" },
            PetMood::Bored => { proof { reveal_strlit("let's play"); } "let's play" },
            PetMood::DoingGreat => { proof { reveal_strlit("doing great!"); } "doing great!" },
            PetMood::Hello => { proof { reveal_strlit("hello!"); } "hello!" },
        }
    }
}

pub open spec fn mood_text(m: PetMood) -> Seq<char> {
    match m {
        PetMood::Yum => seq!['y', 'u', 'm', '!'],
        PetMood::Wheee => seq!['w', 'h', 'e', 'e', 'e', '!'],
        PetMood::Snoring => seq!['z', ' ', 'z', ' ', 'z', '.', '.', '.'],
        PetMood::Happy => seq!['h', 'a', 'p', 'p', 'y', '!'],
        PetMood::Rip => seq!['t', 'a', 'p', ' ', 'R', 'I', 'P', ' ', 't', 'o', ' ', 'r', 'e', 's', 't', 'a', 'r', 't'],
        PetMood::TooFull => seq!['t', 'o', 'o', ' ', 'f', 'u', 'l', 'l', '.', '.', '.'],
        PetMood::GettingRound => seq!['g', 'e', 't', 't', 'i', 'n', 'g', ' ', 'r', 'o', 'u', 'n', 'd', '.', '.', '.'],
        PetMood::Hungry => seq!['i', '\'', 'm', ' ', 'h', 'u', 'n', 'g', 'r', 'y'],
        PetMood::Sleepy => seq!['i', '\'', 'm', ' ', 's', 'l', 'e', 'e', 'p', 'y'],
        PetMood::Bored => seq!['l', 'e', 't', '\'', 's', ' ', 'p', 'l', 'a', 'y'],
        PetMood::DoingGreat => seq!['d', 'o', 'i', 'n', 'g', ' ', 'g', 'r', 'e', 'a', 't', '!'],
        PetMood::Hello => seq!['h', 'e', 'l', 'l', 'o', '!'],
    }
}

} // verus!

verus! {

/// A touch target on the pet screen.
#[derive(Clone, Copy, Debug, PartialEq, Eq, Structural)]
pub struct PetTarget {
    pub button: NocksterButton,
    pub rect: super::render::Rect,
}

pub open spec fn pet_target(button: NocksterButton, x: int, y: int, w: int, h: int) -> PetTarget {
    PetTarget { button, rect: super::render::Rect { x: x as i32, y: y as i32, width: w as u32, height: h as u32 } }
}

/// Feed, play and nap along the bottom of the screen.
pub open spec fn action_targets() -> Seq<PetTarget> {
    seq![
        pet_target(NocksterButton::Feed, 7, super::constants::SCREEN_HEIGHT - 47, 49, 40),
        pet_target(NocksterButton::Play, 61, super::constants::SCREEN_HEIGHT - 47, 49, 40),
        pet_target(NocksterButton::Nap, 115, super::constants::SCREEN_HEIGHT - 47, 49, 40),
    ]
}

pub fn action_buttons() -> (r: Vec<PetTarget>)
    ensures
        r@ == action_targets(),
{
    let margin: i32 = 7;
    let gap: i32 = 5;
    let width: i32 = (super::constants::SCREEN_WIDTH as i32 - margin * 2 - gap * 2) / 3;
    let top: i32 = super::constants::SCREEN_HEIGHT as i32 - 47;
    let r = vec![
        PetTarget {
            button: NocksterButton::Feed,
            rect: super::render::Rect { x: margin, y: top, width: width as u32, height: 40 },
        },
        PetTarget {
            button: NocksterButton::Play,
            rect: super::render::Rect { x: margin + width + gap, y: top, width: width as u32, height: 40 },
        },
        PetTarget {
            button: NocksterButton::Nap,
            rect: super::render::Rect { x: margin + (width + gap) * 2, y: top, width: width as u32, height: 40 },
        },
    ];
    assert(r@ =~= action_targets());
    r
}

/// The pet itself, below the header: tapping it pets it.
pub open spec fn pet_area(header_h: int) -> super::render::Rect {
    super::render::Rect { x: 38, y: (header_h + 45) as i32, width: 96, height: 90 }
}

pub open spec fn expanded_contains(t: PetTarget, x: int, y: int, slack: int) -> bool {
    t.rect.x - slack <= x < t.rect.x + t.rect.width + slack && t.rect.y - slack <= y < t.rect.y + t.rect.height + slack
}

/// A touch on the pet screen: an action button (with a little slack), else
/// the pet.
pub open spec fn pet_touch(header_h: int, x: int, y: int) -> Option<NocksterButton> {
    if expanded_contains(action_targets()[0], x, y, 5) {
        Some(NocksterButton::Feed)
    } else if expanded_contains(action_targets()[1], x, y, 5) {
        Some(NocksterButton::Play)
    } else if expanded_contains(action_targets()[2], x, y, 5) {
        Some(NocksterButton::Nap)
    } else if super::scroll::rect_contains(pet_area(header_h), x, y) {
        Some(NocksterButton::Pet)
    } else {
        None
    }
}

pub fn button_from_point(header_h: i32, x: i32, y: i32) -> (r: Option<NocksterButton>)
    requires
        -10_000 <= header_h <= 10_000,
    ensures
        r == pet_touch(header_h as int, x as int, y as int),
{
    let targets = action_buttons();
    let mut i: usize = 0;
    while i < 3
        invariant
            targets@ == action_targets(),
            i <= 3,
            forall|k: int| 0 <= k < i ==> !expanded_contains(#[trigger] action_targets()[k], x as int, y as int, 5),
        decreases 3 - i,
    {
        let t = targets[i];
        let left: i64 = t.rect.x as i64 - 5;
        let right: i64 = t.rect.x as i64 + t.rect.width as i64 + 5;
        let top: i64 = t.rect.y as i64 - 5;
        let bottom: i64 = t.rect.y as i64 + t.rect.height as i64 + 5;
        if x as i64 >= left && (x as i64) < right && y as i64 >= top && (y as i64) < bottom {
            return Some(t.button);
        }
        i = i + 1;
    }
    let pet = super::render::Rect { x: 38, y: header_h + 45, width: 96, height: 90 };
    if super::scroll::contains_point(pet, x, y) {
        Some(NocksterButton::Pet)
    } else {
        None
    }
}

} // verus!
