use nockster_fw::usb_hid::{output_payload, TxState, REPORT_ID, TX_QUEUE_LEN};
use nockster_fw::raw_flash::{patch_sector, RawFlashError, RawFlashStorage, ReadPiece};
use nockster_fw::signing::{handle_request, SigningRequest};
use k256::ecdsa::signature::hazmat::PrehashVerifier;
use k256::ecdsa::{Signature, VerifyingKey};
use nockster_fw::jobs::SeedOpOutcome;
use nockster_fw::seed_store::{handle_seed_op_outcome, SeedOpScreen};
use nockster_fw::derivation::{
    collect_info_pubs_from_ram, derive_signing_key_active, derive_signing_key_for_slot, get_xpub,
    master_fingerprint_for_active, path_to_derivation,
};
use nockster_fw::dispatch::{is_direct_sign_frame, FrameKind, RequestKind};
use nockster_fw::frames::{handle_fragment_frame, FragFrame, FrameStep};
use nockster_fw::fragments::{FragKind, FragmentState};
use nockster_fw::gui::layout::button_from_point_seed_setup;
use nockster_fw::gui::menu::button_from_point_about;
use nockster_fw::gui::palette::{
    btn_disabled_dark, keypad_idle, panel_border, set_theme, text, Color565, Theme, ThemeSetting,
};
use nockster_fw::gui::render::{settings_gear_center, Rect};
use nockster_fw::gui::seed::SeedButton;
use nockster_fw::gui::state::{Button, ButtonHit};
use nockster_fw::limits::ErrCode;
use nockster_fw::protocol::{frame_message, Response};
use nockster_fw::session::{append_seed_slot, set_active_slot, set_locked, set_seed, Session};
use nockster_fw::update_auth::{valid_hex_32, valid_update_anchor_env};

fn hex(s: &str) -> Vec<u8> {
    (0..s.len()).step_by(2).map(|i| u8::from_str_radix(&s[i..i + 2], 16).unwrap()).collect()
}

fn counting_seed() -> [u8; 64] {
    let mut seed = [0u8; 64];
    for (i, b) in seed.iter_mut().enumerate() {
        *b = i as u8;
    }
    seed
}

#[test]
fn path_elements_split_into_index_and_hardened_bit() {
    let steps = path_to_derivation(&[0x8000_002C, 7, 0xFFFF_FFFF]);
    assert_eq!(steps, vec![(44, true), (7, false), (0x7FFF_FFFF, true)]);
    assert!(path_to_derivation(&[]).is_empty());
}

#[test]
fn the_root_xpub_carries_the_seed_hmac_and_public_key() {
    let mut session = Session::new();
    set_seed(&mut session, &counting_seed());
    let x = get_xpub(&session, &[]).unwrap();
    assert_eq!(x.depth, 0);
    assert_eq!(x.child, 0);
    assert_eq!(x.fp4, [0u8; 4]);
    assert_eq!(x.chain_code.to_vec(), hex("d550c10bdf6867ad4eac65f60f8f7a3d4ef37e77a9502e10e594cc3e6b66aed0"));
    assert_eq!(x.pubkey33.to_vec(), hex("02b8d1bb0f59a7dd44d4a148607418b327234c6870db2e5d85e7349591aaa427c6"));
}

#[test]
fn a_hardened_child_reports_its_parent_fingerprint() {
    let mut session = Session::new();
    set_seed(&mut session, &counting_seed());
    let fp = master_fingerprint_for_active(&session).unwrap();
    assert_eq!(fp, [220, 44, 164, 178]);
    let child = get_xpub(&session, &[0x8000_0000]).unwrap();
    assert_eq!(child.depth, 1);
    assert_eq!(child.child, 0x8000_0000);
    assert_eq!(child.fp4, fp);
    assert_eq!(child.chain_code.to_vec(), hex("5d3d902238b0891ba10949a60262e1313d8ae12266052e37d74b054f49bff1dc"));
    assert_eq!(child.pubkey33.to_vec(), hex("03336bef8f333f0b8495f115abd7fd3fe0b7b614ea35010e957f3bcaedff250ea8"));
}

#[test]
fn signing_secrets_follow_the_slot_and_path() {
    let mut session = Session::new();
    set_seed(&mut session, &counting_seed());
    append_seed_slot(&mut session, &[9u8; 64]);
    assert_eq!(
        derive_signing_key_for_slot(&session, &[], 0).unwrap().to_vec(),
        hex("d39334c77f6f46233b80b4d06e982a3de4635de11923af076ebf8aa42fc2ef4f")
    );
    assert_eq!(
        derive_signing_key_for_slot(&session, &[0x8000_0000], 0).unwrap().to_vec(),
        hex("6a9090d0a26fecb949f4ea383fabd5a45a745b65874daeff4239bb7fd2d2039e")
    );
    assert_eq!(
        derive_signing_key_for_slot(&session, &[1], 0).unwrap().to_vec(),
        hex("fe56697c07a294c697da10812af73f6eeb357e4ed2ec4a154b9024e1377a090f")
    );
    assert!(derive_signing_key_for_slot(&session, &[], 2).is_err());
    set_active_slot(&mut session, 0).unwrap();
    assert_eq!(
        derive_signing_key_active(&session, &[]).unwrap(),
        derive_signing_key_for_slot(&session, &[], 0).unwrap()
    );
    set_active_slot(&mut session, 1).unwrap();
    assert_ne!(
        derive_signing_key_active(&session, &[]).unwrap(),
        derive_signing_key_for_slot(&session, &[], 0).unwrap()
    );
}

#[test]
fn no_seed_no_keys() {
    let session = Session::new();
    assert!(get_xpub(&session, &[]).is_err());
    assert!(master_fingerprint_for_active(&session).is_err());
    assert!(derive_signing_key_active(&session, &[]).is_err());
}

#[test]
fn info_pubs_list_every_slot_in_order() {
    let mut session = Session::new();
    set_seed(&mut session, &[1u8; 64]);
    append_seed_slot(&mut session, &[2u8; 64]);
    let pubs = collect_info_pubs_from_ram(&session, &|s: &[u8; 64]| ([s[0] as u64; 6], [s[1] as u64 + 1; 6]));
    assert_eq!(pubs.len(), 2);
    assert_eq!(pubs[1].slot, 1);
    assert_eq!(pubs[1].x, [2u64; 6]);
    assert_eq!(pubs[0].y, [2u64; 6]);
}

#[test]
fn a_message_is_cobs_framed_and_zero_terminated() {
    assert_eq!(frame_message(&[0x11, 0x00, 0x22]), vec![0x02, 0x11, 0x02, 0x22, 0x00]);
    assert_eq!(frame_message(&[0x00]), vec![0x01, 0x01, 0x00]);
    let framed = frame_message(&[0x05; 300]);
    assert_eq!(framed.last(), Some(&0));
    assert!(framed[..framed.len() - 1].iter().all(|b| *b != 0));
}

#[test]
fn trust_anchor_hex_is_checked() {
    let good = "00112233445566778899aabbccddeeffAABBCCDDEEFF00112233445566778899";
    assert!(valid_hex_32(good.as_bytes()));
    assert!(!valid_hex_32(&good.as_bytes()[..63]));
    let mut bad = good.as_bytes().to_vec();
    bad[10] = b'g';
    assert!(!valid_hex_32(&bad));
    assert!(valid_update_anchor_env(Some(good.as_bytes())));
    assert!(!valid_update_anchor_env(None));
}

#[test]
fn only_signing_requests_are_direct() {
    assert!(is_direct_sign_frame(FrameKind::One(RequestKind::SignDigest)));
    assert!(is_direct_sign_frame(FrameKind::One(RequestKind::SignSpendHashFor)));
    assert!(!is_direct_sign_frame(FrameKind::One(RequestKind::GetXpub)));
    assert!(!is_direct_sign_frame(FrameKind::FragPart));
}

#[test]
fn an_address_book_upload_needs_an_unlocked_device() {
    let mut frags = FragmentState::new();
    let mut session = Session::new();
    set_seed(&mut session, &[4u8; 64]);
    set_locked(&mut session, true);
    let begin = FragFrame::Begin { id: 3, total_len: 2, kind: FragKind::AddressBook };
    assert!(matches!(handle_fragment_frame(&mut frags, &mut session, begin, false), FrameStep::Reply(Response::Done)));
    let part = FragFrame::Part { id: 3, offset: 0, chunk: vec![1, 2], last: true };
    match handle_fragment_frame(&mut frags, &mut session, part, false) {
        FrameStep::Reply(Response::Error { code }) => assert_eq!(code, ErrCode::DeviceLocked),
        _ => panic!("a locked device took the address book"),
    }
    set_locked(&mut session, false);
    let begin = FragFrame::Begin { id: 4, total_len: 2, kind: FragKind::AddressBook };
    handle_fragment_frame(&mut frags, &mut session, begin, false);
    let part = FragFrame::Part { id: 4, offset: 0, chunk: vec![1, 2], last: true };
    match handle_fragment_frame(&mut frags, &mut session, part, false) {
        FrameStep::AddressBook(p) => assert_eq!(p, vec![1, 2]),
        _ => panic!("the address book was not handed on"),
    }
}

#[test]
fn drawing_roles_map_to_palette_entries() {
    let mut setting = ThemeSetting::new();
    assert_eq!(text(&setting), Color565 { r: 30, g: 61, b: 29 });
    assert_eq!(keypad_idle(&setting), Color565 { r: 4, g: 7, b: 9 });
    set_theme(&mut setting, Theme::Paper);
    assert_eq!(btn_disabled_dark(&setting), Color565 { r: 30, g: 61, b: 30 });
    assert_eq!(panel_border(&setting), Color565 { r: 26, g: 53, b: 26 });
}

#[test]
fn setup_screen_touches() {
    let header_h = 30;
    let back = ButtonHit { button: Button::Back, rect: Rect { x: 0, y: 0, width: 30, height: 30 } };
    let first = button_from_point_seed_setup(header_h, 80, header_h + 110, false, None).unwrap();
    assert_eq!(first.button, Button::Seed(SeedButton::GenerateSeed));
    let third = button_from_point_seed_setup(header_h, 80, header_h + 210, false, None).unwrap();
    assert_eq!(third.button, Button::Seed(SeedButton::EnterSeed));
    assert_eq!(button_from_point_seed_setup(header_h, 80, header_h + 110, true, Some(back)), Some(back));
    assert_eq!(button_from_point_seed_setup(header_h, 80, header_h + 110, false, Some(back)), Some(first));
    assert_eq!(button_from_point_seed_setup(header_h, 80, 5, false, None), None);
    assert_eq!(button_from_point_about(10, 10), None);
    assert_eq!(settings_gear_center(30), (144, 15));
}

#[test]
fn seed_operations_pick_the_next_screen() {
    let mut session = Session::new();
    set_seed(&mut session, &[1u8; 64]);
    let (id, resp, screen) = handle_seed_op_outcome(&mut session, SeedOpOutcome::Added { msg_id: 7, seed64: [2u8; 64] });
    assert_eq!((id, screen), (7, SeedOpScreen::SeedAdded));
    assert!(matches!(resp, Response::Done));
    let (_, _, screen) = handle_seed_op_outcome(&mut session, SeedOpOutcome::Deleted { msg_id: 8, slot: 0 });
    assert_eq!(screen, SeedOpScreen::SeedDeleted);
    let (_, _, screen) = handle_seed_op_outcome(&mut session, SeedOpOutcome::Deleted { msg_id: 9, slot: 0 });
    assert_eq!(screen, SeedOpScreen::SeedSetup);
    let (id, resp, screen) = handle_seed_op_outcome(&mut session, SeedOpOutcome::WrongPin { msg_id: 10 });
    assert_eq!((id, screen), (10, SeedOpScreen::Unchanged));
    assert!(matches!(resp, Response::Error { code: ErrCode::WrongPin }));
}

#[test]
fn secp256k1_requests_answer_from_the_active_seed() {
    let mut session = Session::new();
    set_seed(&mut session, &counting_seed());
    match handle_request(&session, &SigningRequest::GetFingerprint, false) {
        Response::OkFingerprint { fp4 } => assert_eq!(fp4, [220, 44, 164, 178]),
        _ => panic!("no fingerprint"),
    }
    match handle_request(&session, &SigningRequest::GetPubkey { path: vec![], compressed: true }, false) {
        Response::OkPubkeyCompressed { compressed } => assert_eq!(
            compressed.to_vec(),
            hex("02b8d1bb0f59a7dd44d4a148607418b327234c6870db2e5d85e7349591aaa427c6")
        ),
        _ => panic!("no compressed key"),
    }
    let uncompressed = match handle_request(&session, &SigningRequest::GetPubkey { path: vec![], compressed: false }, false) {
        Response::OkPubkey { uncompressed } => uncompressed,
        _ => panic!("no key"),
    };
    assert_eq!(
        uncompressed.to_vec(),
        hex("04b8d1bb0f59a7dd44d4a148607418b327234c6870db2e5d85e7349591aaa427c6b58c02a527ff23cace1654a5ee90476d3e9395debb5414f3a8e67b1fe4ec1f26")
    );
    match handle_request(&session, &SigningRequest::GetXpub { path: vec![0x8000_0000] }, false) {
        Response::OkXpub(x) => assert_eq!(x.depth, 1),
        _ => panic!("no xpub"),
    }
    let digest = [0x42u8; 32];
    let sig64 = match handle_request(&session, &SigningRequest::SignDigest { path: vec![], digest32: digest }, false) {
        Response::OkSig { sig64 } => sig64,
        _ => panic!("no signature"),
    };
    let vk = VerifyingKey::from_sec1_bytes(&uncompressed).unwrap();
    let sig = Signature::from_slice(&sig64).unwrap();
    assert!(sig.normalize_s().is_none());
    assert!(vk.verify_prehash(&digest, &sig).is_ok());
    // The nonce is deterministic: the same request signs the same way.
    match handle_request(&session, &SigningRequest::SignDigest { path: vec![], digest32: digest }, false) {
        Response::OkSig { sig64: again } => assert_eq!(again, sig64),
        _ => panic!("no signature"),
    }
}

#[test]
fn signing_needs_an_unlocked_device_with_a_seed() {
    let mut session = Session::new();
    let req = SigningRequest::SignDigest { path: vec![], digest32: [1u8; 32] };
    assert!(matches!(handle_request(&session, &req, false), Response::Error { code: ErrCode::NoSeed }));
    assert!(matches!(handle_request(&session, &SigningRequest::GetFingerprint, false), Response::Error { code: ErrCode::NoSeed }));
    set_seed(&mut session, &counting_seed());
    assert!(matches!(handle_request(&session, &req, true), Response::Error { code: ErrCode::DeviceLocked }));
}

#[test]
fn unaligned_flash_reads_go_by_whole_words() {
    let flash = RawFlashStorage::new();
    let pieces = flash.read(5, 8192).unwrap();
    assert_eq!(
        pieces,
        vec![
            ReadPiece { address: 4, read_len: 4096, skip: 1, take: 4095 },
            ReadPiece { address: 4100, read_len: 4096, skip: 0, take: 4096 },
            ReadPiece { address: 8196, read_len: 4, skip: 0, take: 1 },
        ]
    );
    assert_eq!(flash.read(0, 0).unwrap(), vec![]);
    assert!(matches!(flash.read(16_777_215, 2), Err(RawFlashError::OutOfBounds)));
}

#[test]
fn byte_writes_patch_each_sector_they_touch() {
    let mut flash = RawFlashStorage::new();
    let data: Vec<u8> = (1..=10).collect();
    let (unlock, patches) = flash.write(4090, &data).unwrap();
    assert!(unlock);
    assert_eq!(patches.len(), 2);
    assert_eq!((patches[0].address, patches[0].data_offset), (0, 4090));
    assert_eq!(patches[0].data, vec![1, 2, 3, 4, 5, 6]);
    assert_eq!((patches[1].address, patches[1].data_offset), (4096, 0));
    assert_eq!(patches[1].data, vec![7, 8, 9, 10]);
    // The protection is lifted once.
    let (unlock_again, _) = flash.write(0, &[1]).unwrap();
    assert!(!unlock_again);
    assert_eq!(patch_sector(&[0xFF; 8], 2, &[1, 2]), vec![0xFF, 0xFF, 1, 2, 0xFF, 0xFF, 0xFF, 0xFF]);
}

#[test]
fn queued_bytes_leave_in_reports_in_order() {
    let mut tx = TxState::new();
    let data: Vec<u8> = (0..100u8).collect();
    assert!(tx.enqueue(&data));
    let mut report = [0u8; 64];
    assert_eq!(tx.prepare_next_report(&mut report), Some(62));
    assert_eq!((report[0], report[1]), (REPORT_ID, 62));
    assert_eq!(&report[2..64], &data[..62]);
    assert_eq!(output_payload(&report, 64).unwrap(), &data[..62]);
    tx.mark_report_sent(62);
    assert_eq!(tx.prepare_next_report(&mut report), Some(38));
    assert_eq!(&report[2..40], &data[62..]);
    assert!(report[40..].iter().all(|b| *b == 0));
    tx.mark_report_sent(38);
    assert_eq!(tx.prepare_next_report(&mut report), None);
    // More than the queue holds is refused.
    assert!(!tx.enqueue(&vec![7u8; TX_QUEUE_LEN + 1]));
}
