use nockster_fw::dispatch::{
    answer_confirmation, hold_for_confirmation, refuse_direct_request, route_request, vault_gate, ConfirmAction, FrameKind, PendingConfirmation,
    RequestKind, RequestRoute, VaultOp,
};
use nockster_fw::fragments::{FragKind, FragmentState};
use nockster_fw::frames::{handle_fragment_frame, FragFrame, FrameStep};
use nockster_fw::gui::layout::confirm_buttons;
use nockster_fw::gui::render::review_list_placeholder;
use nockster_fw::gui::state::Button;
use nockster_fw::jobs::{ChangePinOutcome, SeedOp, SeedOpOutcome, SeedOpRequest, UnlockOutcome};
use nockster_fw::limits::ErrCode;
use nockster_fw::nvs_store::keys::SoftwareNvsPepper;
use nockster_fw::nvs_store::store::{NvsError, NvsStore};
use nockster_fw::outcomes::{handle_change_pin_outcome, handle_unlock_outcome};
use nockster_fw::protocol::Response;
use nockster_fw::seed_store::{apply_seed_op_outcome, compute_seed_op_outcome, SeedOpUiEffect};
use nockster_fw::session::{is_locked, seed_slots_copy, Session};
use nockster_fw::types::SeedSlotLabel;

fn root_pub(seed: &[u8; 64]) -> ([u64; 6], [u64; 6]) {
    ([seed[0] as u64; 6], [seed[1] as u64; 6])
}

fn is_err(r: &Response, code: ErrCode) -> bool {
    matches!(r, Response::Error { code: c } if *c == code)
}

fn store_with_pin(seed: &[u8; 64]) -> (NvsStore, [u8; 32]) {
    let mut nvs = NvsStore::new();
    let (key, _) = nvs.initialize_pin("1234", seed, root_pub(seed)).unwrap();
    (nvs, key)
}

#[test]
fn a_rejected_part_keeps_the_payload_for_the_right_one() {
    let mut frags = FragmentState::new();
    let mut session = Session::new();
    let begin = FragFrame::Begin { id: 9, total_len: 64, kind: FragKind::SetSeed };
    assert!(matches!(handle_fragment_frame(&mut frags, &mut session, begin, false), FrameStep::Reply(Response::Done)));
    let wrong = FragFrame::Part { id: 9, offset: 32, chunk: vec![7u8; 64], last: true };
    match handle_fragment_frame(&mut frags, &mut session, wrong, false) {
        FrameStep::Reply(r) => assert!(is_err(&r, ErrCode::BadCobsOrPostcard)),
        _ => panic!("expected a reply"),
    }
    let right = FragFrame::Part { id: 9, offset: 0, chunk: vec![7u8; 64], last: true };
    assert!(matches!(handle_fragment_frame(&mut frags, &mut session, right, false), FrameStep::Reply(Response::Done)));
    assert_eq!(seed_slots_copy(&session), vec![[7u8; 64]]);
    assert!(!is_locked(&session));
}

#[test]
fn a_wrong_pin_in_an_unlock_is_charged_in_the_marks() {
    let seed = [4u8; 64];
    let (mut nvs, _) = store_with_pin(&seed);
    let mut session = Session::new();
    let before = nvs.get_attempts_remaining();
    let header_before = nvs.image()[..64].to_vec();
    let (r, _) = handle_unlock_outcome(UnlockOutcome::WrongPin, &mut nvs, &mut session);
    assert!(is_err(&r, ErrCode::WrongPin));
    assert_eq!(nvs.get_attempts_remaining(), before - 1);
    assert_eq!(nvs.image()[..64].to_vec(), header_before);
}

#[test]
fn the_key_derivation_counts_the_attempt_marks() {
    let seed = [5u8; 64];
    let (mut nvs, key) = store_with_pin(&seed);
    let header_before = nvs.image()[..64].to_vec();
    // A wrong PIN is charged in the marks, the header stays.
    assert!(matches!(nvs.derive_master_key_for_pin("0000", &root_pub), Err(NvsError::WrongPin)));
    assert_eq!(nvs.get_attempts_remaining(), 9);
    assert_eq!(nvs.image()[..64].to_vec(), header_before);
    // The right PIN clears every charged attempt.
    assert_eq!(nvs.derive_master_key_for_pin("1234", &root_pub).unwrap(), key);
    assert_eq!(nvs.get_attempts_remaining(), 10);
    // Ten marks lock out, though the header counter is still zero.
    for _ in 0..10 {
        nvs.begin_pin_attempt().unwrap();
    }
    assert!(matches!(nvs.derive_master_key_for_pin("1234", &root_pub), Err(NvsError::LockedOut)));
}

#[test]
fn a_pin_change_answers_done_only_when_the_rewrite_is_committed() {
    let seed = [6u8; 64];
    let (mut nvs, _) = store_with_pin(&seed);
    let mut session = Session::new();
    let mut pepper = SoftwareNvsPepper;
    let (mut prepared, key) =
        nvs.prepare_rewrite_seed_storage("5678", &[seed], &[], None, None, &mut pepper, &root_pub).unwrap();
    prepared.labels = vec![SeedSlotLabel { slot: 0, label: vec![0x01] }];
    let before = nvs.image().to_vec();
    let outcome = ChangePinOutcome::Prepared { msg_id: 3, seeds: vec![seed], master_key: key, prepared };
    let (id, r, _) = handle_change_pin_outcome(outcome, &mut nvs, &mut session);
    assert_eq!(id, 3);
    assert!(is_err(&r, ErrCode::Flash));
    assert_eq!(nvs.image().to_vec(), before);
    let (prepared, key) =
        nvs.prepare_rewrite_seed_storage("5678", &[seed], &[], None, None, &mut pepper, &root_pub).unwrap();
    let outcome = ChangePinOutcome::Prepared { msg_id: 4, seeds: vec![seed], master_key: key, prepared };
    let (id, r, _) = handle_change_pin_outcome(outcome, &mut nvs, &mut session);
    assert_eq!(id, 4);
    assert!(matches!(r, Response::Done));
    assert!(nvs.unlock_with_pepper("5678", &mut pepper, &root_pub).is_ok());
}

#[test]
fn seed_operations_carry_their_message_id_and_store_result() {
    let seed = [8u8; 64];
    let (mut nvs, key) = store_with_pin(&seed);
    let added = compute_seed_op_outcome(
        &mut nvs,
        SeedOpRequest { msg_id: 21, op: SeedOp::Add { seed64: [9u8; 64], master_key: [0u8; 32] } },
        &root_pub,
    );
    assert!(matches!(added, SeedOpOutcome::WrongPin { msg_id: 21 }));
    let added = compute_seed_op_outcome(
        &mut nvs,
        SeedOpRequest { msg_id: 22, op: SeedOp::Add { seed64: [9u8; 64], master_key: key } },
        &root_pub,
    );
    assert!(matches!(added, SeedOpOutcome::Added { msg_id: 22, .. }));
    let deleted = compute_seed_op_outcome(
        &mut nvs,
        SeedOpRequest { msg_id: 23, op: SeedOp::Delete { slot: 5, master_key: key } },
        &root_pub,
    );
    assert!(matches!(deleted, SeedOpOutcome::InvalidSlot { msg_id: 23 }));
}

#[test]
fn a_full_store_reply_leaves_the_session_and_says_so() {
    let mut session = Session::new();
    let a = apply_seed_op_outcome(&mut session, SeedOpOutcome::Full { msg_id: 7 });
    assert_eq!(a.msg_id, 7);
    assert!(is_err(&a.response, ErrCode::Overflow));
    assert_eq!(a.ui_effect, SeedOpUiEffect::NoChange);
    assert_eq!(a.debug, "seed op full\r\n");
    assert!(seed_slots_copy(&session).is_empty());
    let a = apply_seed_op_outcome(&mut session, SeedOpOutcome::Added { msg_id: 8, seed64: [3u8; 64] });
    assert_eq!(a.debug, "seed added\r\n");
    assert_eq!(seed_slots_copy(&session), vec![[3u8; 64]]);
}

#[test]
fn seed_store_requests_sent_directly_are_refused() {
    for k in [RequestKind::InitializePin, RequestKind::AddSeed, RequestKind::DeleteSeed, RequestKind::Unlock, RequestKind::Reset] {
        assert_eq!(route_request(k), RequestRoute::Refused);
    }
    assert_eq!(route_request(RequestKind::Hello), RequestRoute::Metadata);
    assert_eq!(route_request(RequestKind::SignDigest), RequestRoute::Signing);
    assert_eq!(route_request(RequestKind::VaultReveal), RequestRoute::Vault);
}

#[test]
fn vault_requests_need_an_unlocked_device_and_a_sized_preimage() {
    assert!(matches!(vault_gate(VaultOp::List, true, 512), Some(Response::Error { code: ErrCode::DeviceLocked })));
    assert!(vault_gate(VaultOp::List, false, 512).is_none());
    assert!(matches!(vault_gate(VaultOp::Store { preimage_len: 0 }, false, 512), Some(Response::Error { code: ErrCode::Overflow })));
    assert!(matches!(vault_gate(VaultOp::Store { preimage_len: 513 }, false, 512), Some(Response::Error { code: ErrCode::Overflow })));
    assert!(vault_gate(VaultOp::Store { preimage_len: 512 }, false, 512).is_none());
}

#[test]
fn an_empty_review_list_says_no_external() {
    assert_eq!(review_list_placeholder(0), Some("No external"));
    assert_eq!(review_list_placeholder(2), None);
    let b = confirm_buttons();
    assert_eq!(b.len(), 2);
    assert_eq!(b[0].button, Button::Clear);
    assert_eq!(b[1].button, Button::Accept);
    assert_eq!((b[0].rect.x, b[0].rect.y, b[0].rect.width, b[0].rect.height), (8, 272, 70, 40));
    assert_eq!(b[1].rect.x, 94);
}

#[test]
fn a_held_request_waits_for_the_users_answer() {
    let mut pending = None;
    let del = PendingConfirmation { msg_id: 5, kind: FrameKind::One(RequestKind::DeleteSeed), slot: 2 };
    assert_eq!(hold_for_confirmation(&mut pending, del), Ok(()));
    let other = PendingConfirmation { msg_id: 6, kind: FrameKind::One(RequestKind::Reset), slot: 0 };
    assert_eq!(hold_for_confirmation(&mut pending, other), Err(ErrCode::Busy));
    assert!(matches!(answer_confirmation(&mut pending, true, true), Some(ConfirmAction::DeleteSeed { msg_id: 5, slot: 2 })));
    assert!(pending.is_none());
    assert!(answer_confirmation(&mut pending, true, true).is_none());
    hold_for_confirmation(&mut pending, other).unwrap();
    match answer_confirmation(&mut pending, false, true) {
        Some(ConfirmAction::Reply { msg_id: 6, response }) => assert!(is_err(&response, ErrCode::RejectedByUser)),
        _ => panic!("expected a rejection"),
    }
    hold_for_confirmation(&mut pending, del).unwrap();
    match answer_confirmation(&mut pending, true, false) {
        Some(ConfirmAction::Reply { msg_id: 5, response }) => assert!(is_err(&response, ErrCode::DeviceLocked)),
        _ => panic!("expected a locked reply"),
    }
    let sign = PendingConfirmation { msg_id: 9, kind: FrameKind::One(RequestKind::SignDigest), slot: 0 };
    hold_for_confirmation(&mut pending, sign).unwrap();
    assert!(matches!(answer_confirmation(&mut pending, true, true), Some(ConfirmAction::DirectSign { msg_id: 9 })));
}

#[test]
fn device_only_requests_are_answered_unsupported() {
    for k in [RequestKind::InitializePin, RequestKind::AddSeed, RequestKind::DeleteSeed, RequestKind::Unlock, RequestKind::ResetPin,
        RequestKind::ChangePinOnDevice, RequestKind::StartTouchCalibration, RequestKind::Reset, RequestKind::GetAddressBook] {
        match refuse_direct_request(k) {
            Some(r) => assert!(is_err(&r, ErrCode::UnsupportedVersion)),
            None => panic!("expected a refusal"),
        }
    }
    assert!(refuse_direct_request(RequestKind::Ping).is_none());
    assert!(refuse_direct_request(RequestKind::GetFingerprint).is_none());
}

#[test]
fn thirty_two_bytes_read_back_from_their_hex() {
    let bytes: Vec<u8> = (0..32u8).map(|i| i.wrapping_mul(37).wrapping_add(11)).collect();
    let lower: String = bytes.iter().map(|b| format!("{:02x}", b)).collect();
    let upper: String = bytes.iter().map(|b| format!("{:02X}", b)).collect();
    assert_eq!(nockster_fw::update_auth::parse_hex_32(lower.as_bytes()).map(|a| a.to_vec()), Some(bytes.clone()));
    assert_eq!(nockster_fw::update_auth::parse_hex_32(upper.as_bytes()).map(|a| a.to_vec()), Some(bytes));
    assert!(nockster_fw::update_auth::parse_hex_32(b"zz").is_none());
}

#[test]
fn a_right_pin_unlocks_every_seed_and_a_wrong_one_is_refused() {
    let seed = [2u8; 64];
    let second = [3u8; 64];
    let (mut nvs, key) = store_with_pin(&seed);
    nvs.add_seed_with_key(&key, &second, root_pub(&second), &root_pub).unwrap();
    let mut pepper = SoftwareNvsPepper;
    let (seeds, key2, clear) = nvs.unlock_with_pepper_readonly("1234", &mut pepper, &root_pub).unwrap();
    assert_eq!(seeds, vec![seed, second]);
    assert_eq!(key2, key);
    assert!(!clear);
    assert!(matches!(nvs.unlock_with_pepper_readonly("4321", &mut pepper, &root_pub), Err(NvsError::WrongPin)));
    // A precharged attempt is not locked out by its own charge.
    for _ in 0..10 {
        let _ = nvs.begin_pin_attempt();
    }
    assert!(matches!(nvs.unlock_with_pepper_readonly("1234", &mut pepper, &root_pub), Err(NvsError::LockedOut)));
    let (seeds, _, clear) = nvs.unlock_with_pepper_precharged("1234", &mut pepper, &root_pub).unwrap();
    assert_eq!(seeds.len(), 2);
    assert!(clear);
}
