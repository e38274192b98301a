use nockster_fw::gui::my_nockster::{NocksterButton, NocksterState, Pose, FATAL_OVERFEED, MAX_NEED};

#[test]
fn actions_have_deliberate_tradeoffs_and_stay_bounded() {
    let now = 1_000u64;
    let mut pet = NocksterState::new(now);
    pet.act(NocksterButton::Play, now);
    assert_eq!((pet.food(), pet.fun(), pet.energy()), (3, 5, 3));
    for _ in 0..8 {
        pet.act(NocksterButton::Feed, now);
    }
    assert_eq!(pet.food(), MAX_NEED);
    assert_eq!(pet.fun(), 0);
}

#[test]
fn repeated_overfeeding_gets_wider_then_kills_and_pet_restarts() {
    let now = 1_000u64;
    let mut pet = NocksterState::new(now);
    pet.act(NocksterButton::Feed, now);
    for _ in 0..FATAL_OVERFEED {
        pet.act(NocksterButton::Feed, now);
    }
    assert_eq!(pet.pose(), Pose::Dead);
    pet.act(NocksterButton::Pet, now);
    assert_eq!(pet.pose(), Pose::Petted);
    assert_eq!(pet.overfed(), 0);
}

#[test]
fn needs_decay_one_at_a_time_on_the_decay_interval() {
    let mut pet = NocksterState::new(0);
    assert!(!pet.advance(100));
    assert!(pet.advance(24_000));
    assert_eq!((pet.food(), pet.fun(), pet.energy()), (3, 4, 4));
    assert!(pet.advance(48_000));
    assert_eq!((pet.food(), pet.fun(), pet.energy()), (3, 3, 4));
}

#[test]
fn overfeeding_widens_the_sprite() {
    let mut pet = NocksterState::new(0);
    assert_eq!(pet.width_scale(), 4);
    for _ in 0..4 {
        pet.act(NocksterButton::Feed, 0);
    }
    assert_eq!(pet.overfed(), 3);
    assert_eq!(pet.width_scale(), 5);
}
