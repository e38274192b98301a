use nockster_fw::nvs_store::flash::FlashOp;
use nockster_fw::nvs_store::layout::NVS_BASE_ADDR;
use nockster_fw::confirm::{spend_review_outputs, tx_review_summary_from_draft, DraftFigures, SpendOutput};
use nockster_fw::frames::{handle_fragment_frame, FragFrame, FrameStep};
use nockster_fw::fragments::{FragKind, FragmentState};
use nockster_fw::identity::{production_identity_ready_for_initialization, provisioned_serial_timestamp, usb_serial};
use nockster_fw::jobs::{ChangePinOutcome, InitPinOutcome, UnlockOutcome};
use nockster_fw::limits::ErrCode;
use nockster_fw::nvs_store::keys::SoftwareNvsPepper;
use nockster_fw::nvs_store::store::{NvsError, NvsStore};
use nockster_fw::outcomes::{
    handle_change_pin_outcome, handle_initpin_outcome, handle_unlock_outcome, ChangeMessage, InitPinProgress,
    PinScreen,
};
use nockster_fw::protocol::Response;
use nockster_fw::session::{is_locked, master_key_copy, seed_slot_count, seed_slots_copy, set_locked, Session};
use nockster_fw::types::DeviceAddressBookEntry;

fn root_pub(seed: &[u8; 64]) -> ([u64; 6], [u64; 6]) {
    ([seed[0] as u64; 6], [seed[1] as u64; 6])
}

fn is_err(r: &Response, code: ErrCode) -> bool {
    matches!(r, Response::Error { code: c } if *c == code)
}

#[test]
fn a_seed_set_up_with_a_pin_unlocks_with_that_pin() {
    let mut nvs = NvsStore::new();
    let mut seed = [0u8; 64];
    seed[0] = 7;
    seed[1] = 9;
    let (key, slot) = nvs.initialize_pin("1234", &seed, root_pub(&seed)).unwrap();
    assert_eq!(slot, 0);
    assert!(nvs.is_initialized());
    let mut pepper = SoftwareNvsPepper;
    let (seeds, key2) = nvs.unlock_with_pepper("1234", &mut pepper, &root_pub).unwrap();
    assert_eq!(seeds, vec![seed]);
    assert_eq!(key, key2);
    // A second setup is refused.
    assert!(matches!(nvs.initialize_pin("1234", &seed, root_pub(&seed)), Err(NvsError::AlreadyInitialized)));
}

#[test]
fn a_wrong_pin_is_counted() {
    let mut nvs = NvsStore::new();
    let seed = [3u8; 64];
    nvs.initialize_pin("1234", &seed, root_pub(&seed)).unwrap();
    let before = nvs.get_attempts_remaining();
    let mut pepper = SoftwareNvsPepper;
    // A plain unlock does not charge an attempt by itself.
    assert!(matches!(nvs.unlock_with_pepper("9999", &mut pepper, &root_pub), Err(NvsError::WrongPin)));
    assert_eq!(nvs.get_attempts_remaining(), before);
    // The attempt is charged before the check and stays charged when the PIN is wrong.
    nvs.begin_pin_attempt().unwrap();
    assert!(matches!(
        nvs.unlock_with_pepper_precharged("9999", &mut pepper, &root_pub),
        Err(NvsError::WrongPin)
    ));
    assert_eq!(nvs.get_attempts_remaining(), before - 1);
    // A right PIN opens the store; the charge is then cleared explicitly.
    nvs.unlock_with_pepper("1234", &mut pepper, &root_pub).unwrap();
    assert_eq!(nvs.get_attempts_remaining(), before - 1);
    nvs.clear_pin_attempts().unwrap();
    assert_eq!(nvs.get_attempts_remaining(), before);
}

#[test]
fn the_address_book_reads_back_as_written() {
    let mut nvs = NvsStore::new();
    let entries = vec![
        DeviceAddressBookEntry { label: b"Alice".to_vec(), pkh: b"3yZe7d".to_vec() },
        DeviceAddressBookEntry { label: b"Bob's cold wallet".to_vec(), pkh: b"9fKmnPQ".to_vec() },
    ];
    nvs.write_device_address_book(&entries).unwrap();
    let back = nvs.read_device_address_book().unwrap();
    assert_eq!(back.len(), 2);
    assert_eq!(back[0].label, b"Alice".to_vec());
    assert_eq!(back[1].pkh, b"9fKmnPQ".to_vec());
    // An invalid key hash (0 is not base58) is refused and nothing changes.
    let bad = vec![DeviceAddressBookEntry { label: b"x".to_vec(), pkh: b"0OIl".to_vec() }];
    assert!(matches!(nvs.write_device_address_book(&bad), Err(NvsError::InvalidLabel)));
    assert_eq!(nvs.read_device_address_book().unwrap().len(), 2);
}

#[test]
fn unlock_outcomes_update_the_session_and_screen() {
    let mut nvs = NvsStore::new();
    let mut session = Session::new();
    let seed = [5u8; 64];
    let key = [8u8; 32];
    let (resp, screen) = handle_unlock_outcome(
        UnlockOutcome::Success { seeds: vec![seed], master_key: key, clear_attempts: false },
        &mut nvs,
        &mut session,
    );
    assert!(matches!(resp, Response::Done));
    assert_eq!(screen, PinScreen::UnlockSuccess);
    assert!(!is_locked(&session));
    assert_eq!(seed_slots_copy(&session), vec![seed]);
    assert_eq!(master_key_copy(&session), Some(key));

    let (resp, screen) = handle_unlock_outcome(UnlockOutcome::LockedOut, &mut nvs, &mut session);
    assert!(is_err(&resp, ErrCode::PinLockedOut));
    assert_eq!(screen, PinScreen::LockedOut);
    let (resp, screen) = handle_unlock_outcome(UnlockOutcome::NotInitialized, &mut nvs, &mut session);
    assert!(is_err(&resp, ErrCode::NoSeed));
    assert_eq!(screen, PinScreen::NotInitialized);
    // Counting a wrong PIN on an empty store fails, which reads as a flash error.
    let (resp, screen) = handle_unlock_outcome(UnlockOutcome::WrongPin, &mut nvs, &mut session);
    assert!(is_err(&resp, ErrCode::Flash));
    assert_eq!(screen, PinScreen::PinFailure(None));
    // Clearing attempts on an empty store fails the unlock.
    let mut other = Session::new();
    let (resp, _) = handle_unlock_outcome(
        UnlockOutcome::Success { seeds: vec![seed], master_key: key, clear_attempts: true },
        &mut nvs,
        &mut other,
    );
    assert!(is_err(&resp, ErrCode::Flash));
    assert_eq!(seed_slot_count(&other), 0);
}

#[test]
fn pin_setup_and_change_refusals() {
    let mut nvs = NvsStore::new();
    let mut session = Session::new();
    let (resp, screen, progress) = handle_initpin_outcome(InitPinOutcome::AlreadyInitialized, &mut nvs, &mut session);
    assert!(is_err(&resp, ErrCode::AlreadyInitialized));
    assert_eq!(screen, PinScreen::BeginUnlock);
    assert_eq!(progress, InitPinProgress::Idle);
    let (_, screen, _) = handle_initpin_outcome(InitPinOutcome::Crypto, &mut nvs, &mut session);
    assert_eq!(screen, PinScreen::SeedSetup);

    set_locked(&mut session, false);
    let (id, resp, screen) = handle_change_pin_outcome(ChangePinOutcome::Crypto { msg_id: 42 }, &mut nvs, &mut session);
    assert_eq!(id, 42);
    assert!(is_err(&resp, ErrCode::Crypto));
    assert_eq!(screen, PinScreen::Message(ChangeMessage::CryptoError));
    assert_eq!(ChangeMessage::CryptoError.text(), "Crypto error");
    set_locked(&mut session, true);
    let (_, _, screen) = handle_change_pin_outcome(ChangePinOutcome::Failed { msg_id: 1 }, &mut nvs, &mut session);
    assert_eq!(screen, PinScreen::PinFailure(None));
    assert_eq!(InitPinProgress::from_u8(16), InitPinProgress::NvsWriteFlash);
    assert_eq!(InitPinProgress::from_u8(200), InitPinProgress::Idle);
    assert_eq!(InitPinProgress::NvsWriteFlash.label(), Some("Seed: flash"));
    assert_eq!(InitPinProgress::Complete.code(), 17);
}

#[test]
fn fragments_reassemble_a_seed() {
    let mut frags = FragmentState::new();
    let mut session = Session::new();
    let step = handle_fragment_frame(&mut frags, &mut session, FragFrame::Begin { id: 9, total_len: 64, kind: FragKind::SetSeed }, false);
    assert!(matches!(step, FrameStep::Reply(Response::Done)));
    let part = |offset: u32, fill: u8, last: bool| FragFrame::Part { id: 9, offset, chunk: vec![fill; 32], last };
    assert!(matches!(handle_fragment_frame(&mut frags, &mut session, part(0, 1, false), false), FrameStep::Reply(Response::Done)));
    // A part out of order is refused.
    match handle_fragment_frame(&mut frags, &mut session, part(0, 1, false), false) {
        FrameStep::Reply(r) => assert!(is_err(&r, ErrCode::BadCobsOrPostcard)),
        _ => panic!("expected a reply"),
    }
    assert!(matches!(handle_fragment_frame(&mut frags, &mut session, part(32, 2, true), false), FrameStep::Reply(Response::Done)));
    let seeds = seed_slots_copy(&session);
    assert_eq!(seeds.len(), 1);
    assert_eq!(seeds[0][0], 1);
    assert_eq!(seeds[0][63], 2);
    // While an update streams, fragments are answered busy.
    match handle_fragment_frame(&mut frags, &mut session, FragFrame::Begin { id: 1, total_len: 8, kind: FragKind::SignDraft }, true) {
        FrameStep::Reply(r) => assert!(is_err(&r, ErrCode::Busy)),
        _ => panic!("expected a reply"),
    }
}

#[test]
fn spend_reviews_list_the_largest_outputs_first() {
    let mut outputs = Vec::new();
    outputs.push(SpendOutput { gift: 0, is_refund: false, recipient: b"zero".to_vec() });
    outputs.push(SpendOutput { gift: 500, is_refund: true, recipient: b"change".to_vec() });
    for i in 0..30u64 {
        outputs.push(SpendOutput { gift: 10 + i, is_refund: false, recipient: format!("r{}", i).into_bytes() });
    }
    let list = spend_review_outputs(&outputs);
    assert_eq!(list.len(), 24);
    assert_eq!(list[0].gift, 39);
    assert_eq!(list[23].gift, 16);
    assert_eq!(list[0].recipient, b"r29".to_vec());
    for w in list.windows(2) {
        assert!(w[0].gift >= w[1].gift);
    }
}

#[test]
fn draft_flags_mark_fee_change_and_recipients() {
    let d = DraftFigures {
        input_count: 1,
        external_output_count: 2,
        external_total: 100,
        refund_total: 0,
        fee_total: 20,
        minimum_fee: 10,
    };
    let s = tx_review_summary_from_draft(&d);
    assert_eq!(s.flags, 1 | 2 | 4);
    let d = DraftFigures { external_output_count: 1, refund_total: 5, fee_total: 10, ..d };
    assert_eq!(tx_review_summary_from_draft(&d).flags, 0);
}

#[test]
fn usb_serial_prefers_the_provisioned_timestamp() {
    assert_eq!(provisioned_serial_timestamp(0xffff_ffff_ffff_ffff), None);
    assert_eq!(provisioned_serial_timestamp(1_700_000_000), Some(1_700_000_000));
    assert_eq!(provisioned_serial_timestamp(1_000), None);
    assert_eq!(usb_serial(Some(1_700_000_000), [0; 6]), b"1700000000".to_vec());
    assert_eq!(usb_serial(None, [0xde, 0xad, 0xbe, 0xef, 0x00, 0x01]), b"deadbeef0001".to_vec());
    assert!(production_identity_ready_for_initialization());
}

#[test]
fn a_changed_pin_unlocks_the_same_seed() {
    let mut nvs = NvsStore::new();
    let mut seed = [0u8; 64];
    seed[0] = 5;
    seed[1] = 6;
    seed[63] = 0xAB;
    nvs.initialize_pin("1234", &seed, root_pub(&seed)).unwrap();
    let mut pepper = SoftwareNvsPepper;
    nvs.change_pin_with_pepper("1234", "987654", &mut pepper, &root_pub).unwrap();
    let (seeds, _key) = nvs.unlock_with_pepper("987654", &mut pepper, &root_pub).unwrap();
    assert_eq!(seeds, vec![seed]);
    assert!(matches!(nvs.unlock_with_pepper("1234", &mut pepper, &root_pub), Err(NvsError::WrongPin)));
    // A wrong old PIN changes nothing and is charged.
    let before = nvs.get_attempts_remaining();
    assert!(matches!(nvs.change_pin_with_pepper("0000", "1111", &mut pepper, &root_pub), Err(NvsError::WrongPin)));
    assert_eq!(nvs.get_attempts_remaining(), before - 1);
    assert!(nvs.unlock_with_pepper("987654", &mut pepper, &root_pub).is_ok());
}

fn apply(image: &mut Vec<u8>, op: &FlashOp) {
    let base = NVS_BASE_ADDR as usize;
    match op {
        FlashOp::Erase { start, end } => {
            for b in &mut image[*start as usize - base..*end as usize - base] {
                *b = 0xFF;
            }
        }
        FlashOp::Write { addr, bytes } => {
            let at = *addr as usize - base;
            image[at..at + bytes.len()].copy_from_slice(bytes);
        }
    }
}

#[test]
fn an_interrupted_pin_change_never_shows_a_half_written_store() {
    let mut nvs = NvsStore::new();
    let mut seed = [0u8; 64];
    seed[0] = 11;
    seed[1] = 12;
    nvs.initialize_pin("1234", &seed, root_pub(&seed)).unwrap();
    let _ = nvs.take_pending_ops();
    let flash = nvs.image().to_vec();
    let mut pepper = SoftwareNvsPepper;
    nvs.change_pin_with_pepper("1234", "5678", &mut pepper, &root_pub).unwrap();
    let ops = nvs.take_pending_ops();
    assert!(ops.len() > 2);
    let mut image = flash.clone();
    let final_image = nvs.image().to_vec();
    let mut saw_blank = false;
    for (m, op) in ops.iter().enumerate() {
        apply(&mut image, op);
        let state = NvsStore::from_image(image.clone()).unwrap();
        if !state.is_initialized() {
            saw_blank = true;
        } else {
            // A readable header only comes back with the whole new seed area.
            assert!(saw_blank, "the old header survived operation {}", m + 1);
            assert_eq!(&image[..4096], &final_image[..4096], "state after {} operations", m + 1);
        }
    }
    assert!(saw_blank);
    let mut done = NvsStore::from_image(image.clone()).unwrap();
    let (seeds, _) = done.unlock_with_pepper("5678", &mut pepper, &root_pub).unwrap();
    assert_eq!(seeds, vec![seed]);
    assert_eq!(image, nvs.image().to_vec());
}
