use nockster_fw::nvs_store::flash::FlashOp;
use nockster_fw::nvs_store::keys::{nvs_v2_pepper_or_software, SoftwareNvsPepper};
use nockster_fw::nvs_store::store::{NvsError, NvsStore};
use nockster_fw::types::{SeedSlotLabel, TouchCalibration};
use nockster_fw::update_auth::{OtaSlot, OtaTarget, OtaWriter, UpdateFlashError};

fn root_pub(seed: &[u8; 64]) -> ([u64; 6], [u64; 6]) {
    ([seed[0] as u64; 6], [seed[1] as u64; 6])
}

fn writer(len: u32) -> OtaWriter {
    OtaWriter::new(OtaTarget { slot: OtaSlot::Slot0, offset: 0x10000, len }, 10, [0u8; 32])
}

#[test]
fn a_chunk_across_a_sector_boundary_queues_each_sector() {
    let mut w = writer(0x2000);
    let chunk: Vec<u8> = (1..=10).collect();
    w.write_chunk(4090, &chunk).unwrap();
    // The first sector filled up and went out: erase, then its bytes.
    assert_eq!(w.ops.len(), 2);
    assert!(matches!(w.ops[0], FlashOp::Erase { start: 0x10000, end: 0x11000 }));
    match &w.ops[1] {
        FlashOp::Write { addr, bytes } => {
            assert_eq!(*addr, 0x10000);
            assert_eq!(bytes.len(), 4096);
            assert_eq!(&bytes[4090..], &chunk[..6]);
            assert!(bytes[..4090].iter().all(|b| *b == 0xFF));
        }
        _ => panic!("expected a write"),
    }
    // The second sector is buffered until flushed.
    assert_eq!(w.sector_base, Some(4096));
    assert!(w.sector_dirty);
    w.flush_sector().unwrap();
    assert!(!w.sector_dirty);
    assert_eq!(w.ops.len(), 4);
    assert!(matches!(w.ops[2], FlashOp::Erase { start: 0x11000, end: 0x12000 }));
    match &w.ops[3] {
        FlashOp::Write { addr, bytes } => {
            assert_eq!(*addr, 0x11000);
            assert_eq!(&bytes[..4], &chunk[6..]);
            assert!(bytes[4..].iter().all(|b| *b == 0xFF));
        }
        _ => panic!("expected a write"),
    }
    // Nothing more to flush.
    w.flush_sector().unwrap();
    assert_eq!(w.ops.len(), 4);
}

#[test]
fn the_last_sector_is_cut_at_the_end_of_the_slot() {
    let mut w = writer(0x1800);
    w.write_chunk(0x1000, &[7u8; 3]).unwrap();
    w.flush_sector().unwrap();
    assert!(matches!(w.ops[0], FlashOp::Erase { start: 0x11000, end: 0x11800 }));
    match &w.ops[1] {
        FlashOp::Write { addr, bytes } => {
            assert_eq!(*addr, 0x11000);
            assert_eq!(bytes.len(), 0x800);
        }
        _ => panic!("expected a write"),
    }
}

#[test]
fn a_sector_outside_the_slot_is_refused_and_nothing_is_queued() {
    let mut w = writer(0x1000);
    w.sector_base = Some(0x2000);
    w.sector_dirty = true;
    assert_eq!(w.flush_sector(), Err(UpdateFlashError::OutOfBounds));
    assert!(w.ops.is_empty());
    assert!(w.sector_dirty);
    // Switching sectors flushes first, so it is refused too.
    assert_eq!(w.ensure_sector(0), Err(UpdateFlashError::OutOfBounds));
    assert_eq!(w.sector_base, Some(0x2000));
    // Staying on the same sector needs no flush.
    assert_eq!(w.ensure_sector(0x2000), Ok(()));
}

#[test]
fn switching_sectors_starts_from_an_erased_buffer() {
    let mut w = writer(0x2000);
    w.write_chunk(0, &[1u8, 2, 3]).unwrap();
    w.ensure_sector(0x1000).unwrap();
    assert_eq!(w.sector_base, Some(0x1000));
    assert!(!w.sector_dirty);
    assert!(w.sector.iter().all(|b| *b == 0xFF));
    assert_eq!(w.ops.len(), 2);
}

#[test]
fn the_software_source_gives_the_software_pepper() {
    let mut source = SoftwareNvsPepper;
    let a = nvs_v2_pepper_or_software(&[1u8; 32], &mut source).unwrap();
    let b = nvs_v2_pepper_or_software(&[2u8; 32], &mut source).unwrap();
    assert_eq!(a, b);
    assert_ne!(a, [0u8; 32]);
}

fn initialized_store(seed: &[u8; 64]) -> NvsStore {
    let mut nvs = NvsStore::new();
    nvs.initialize_pin("1234", seed, root_pub(seed)).unwrap();
    nvs
}

#[test]
fn a_committed_rewrite_holds_its_labels_calibration_and_theme() {
    let mut seed = [0u8; 64];
    seed[0] = 4;
    seed[1] = 5;
    let mut nvs = initialized_store(&seed);
    let mut pepper = SoftwareNvsPepper;
    let labels = vec![SeedSlotLabel { slot: 0, label: b"Main".to_vec() }];
    let cal = TouchCalibration { raw_x_min: 100, raw_x_max: 3900, raw_y_min: 200, raw_y_max: 3800, mirror_x: true, mirror_y: false };
    let (prepared, _key) = nvs
        .prepare_rewrite_seed_storage("1234", &[seed], &labels, Some(cal), Some(2), &mut pepper, &root_pub)
        .unwrap();
    nvs.commit_prepared_seed_rewrite(prepared).unwrap();
    let read = nvs.read_seed_labels().unwrap();
    assert_eq!(read.len(), 1);
    assert_eq!(read[0].slot, 0);
    assert_eq!(read[0].label, b"Main".to_vec());
    assert_eq!(nvs.read_touch_calibration().unwrap(), Some(cal));
    assert_eq!(nvs.read_gui_theme().unwrap(), Some(2));
    let (seeds, _) = nvs.unlock_with_pepper("1234", &mut pepper, &root_pub).unwrap();
    assert_eq!(seeds, vec![seed]);
}

#[test]
fn a_rewrite_without_calibration_or_theme_erases_them() {
    let seed = [9u8; 64];
    let mut nvs = initialized_store(&seed);
    let mut pepper = SoftwareNvsPepper;
    let (prepared, _key) = nvs
        .prepare_rewrite_seed_storage("1234", &[seed], &[], None, None, &mut pepper, &root_pub)
        .unwrap();
    nvs.commit_prepared_seed_rewrite(prepared).unwrap();
    assert_eq!(nvs.read_touch_calibration().unwrap(), None);
    assert_eq!(nvs.read_gui_theme().unwrap(), None);
    assert!(nvs.image()[1600..1664].iter().all(|b| *b == 0xFF));
}

#[test]
fn a_rewrite_with_a_bad_label_or_calibration_changes_nothing() {
    let seed = [6u8; 64];
    let mut nvs = initialized_store(&seed);
    let mut pepper = SoftwareNvsPepper;
    let before = nvs.image().to_vec();
    let (mut prepared, _key) = nvs
        .prepare_rewrite_seed_storage("1234", &[seed], &[], None, None, &mut pepper, &root_pub)
        .unwrap();
    prepared.labels = vec![SeedSlotLabel { slot: 0, label: vec![0x01, 0x02] }];
    assert!(matches!(nvs.commit_prepared_seed_rewrite(prepared), Err(NvsError::InvalidLabel)));
    assert_eq!(nvs.image().to_vec(), before);
    let (mut prepared, _key) = nvs
        .prepare_rewrite_seed_storage("1234", &[seed], &[], None, None, &mut pepper, &root_pub)
        .unwrap();
    prepared.calibration =
        Some(TouchCalibration { raw_x_min: 10, raw_x_max: 5, raw_y_min: 0, raw_y_max: 9, mirror_x: false, mirror_y: false });
    assert!(matches!(nvs.commit_prepared_seed_rewrite(prepared), Err(NvsError::InvalidCalibration)));
    assert_eq!(nvs.image().to_vec(), before);
}

#[test]
fn a_seed_label_reads_back_and_leaves_the_other_slots() {
    let seed = [1u8; 64];
    let second = [2u8; 64];
    let mut nvs = NvsStore::new();
    let (key, _) = nvs.initialize_pin("1234", &seed, root_pub(&seed)).unwrap();
    assert_eq!(nvs.add_seed_with_key(&key, &second, root_pub(&second), &root_pub).unwrap(), 1);
    nvs.write_seed_label(0, b"Savings").unwrap();
    nvs.write_seed_label(1, b"Daily").unwrap();
    let read = nvs.read_seed_labels().unwrap();
    assert_eq!(read.len(), 2);
    assert_eq!((read[0].slot, read[0].label.clone()), (0, b"Savings".to_vec()));
    assert_eq!((read[1].slot, read[1].label.clone()), (1, b"Daily".to_vec()));
    // Clearing one label keeps the other.
    nvs.write_seed_label(0, b"").unwrap();
    let read = nvs.read_seed_labels().unwrap();
    assert_eq!(read.len(), 1);
    assert_eq!((read[0].slot, read[0].label.clone()), (1, b"Daily".to_vec()));
    // Refusals change nothing.
    let before = nvs.image().to_vec();
    assert!(matches!(nvs.write_seed_label(2, b"x"), Err(NvsError::InvalidSlot)));
    assert!(matches!(nvs.write_seed_label(1, &[0x07u8]), Err(NvsError::InvalidLabel)));
    assert!(matches!(nvs.write_seed_label(1, &[b'a'; 33]), Err(NvsError::InvalidLabel)));
    assert_eq!(nvs.image().to_vec(), before);
}

#[test]
fn a_label_needs_an_initialized_store() {
    let mut nvs = NvsStore::new();
    assert!(matches!(nvs.write_seed_label(0, b"x"), Err(NvsError::NotInitialized)));
}
