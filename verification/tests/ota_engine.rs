//! End-to-end exercises of the OTA engine over an in-memory flash medium.

use sha2::Digest;
use telemetry_gateway::crc32::calc_crc32;
use telemetry_gateway::flashdev::{FlashMedia, RamFlash};
use telemetry_gateway::otadata::{is_crc_seq_correct, EspOtaSelectEntry};
use telemetry_gateway::ota::{Ota, PART_OFFSET};
use telemetry_gateway::otadata::OtaImgState;
use telemetry_gateway::partitions::OtaError;

const FLASH_SIZE: usize = 4 * 1024 * 1024;
const OTA0_OFF: u32 = 0x10000;
const OTA1_OFF: u32 = 0x110000;
const PART_SIZE_EACH: u32 = 0x100000;
const OTADATA_OFF: u32 = 0xD000;
const OTADATA_SIZE: u32 = 0x2000;

fn table_entry(p_type: u8, p_subtype: u8, offset: u32, size: u32, name: &str) -> Vec<u8> {
    let mut e = vec![0xAAu8, 0x50, p_type, p_subtype];
    e.extend_from_slice(&offset.to_le_bytes());
    e.extend_from_slice(&size.to_le_bytes());
    let mut nm = [0u8; 16];
    nm[..name.len()].copy_from_slice(name.as_bytes());
    e.extend_from_slice(&nm);
    e.extend_from_slice(&0u32.to_le_bytes());
    e
}

fn flash_with_table(entries: &[Vec<u8>]) -> RamFlash {
    let mut mem = vec![0xFFu8; FLASH_SIZE];
    let mut off = PART_OFFSET as usize;
    for e in entries {
        mem[off..off + 32].copy_from_slice(e);
        off += 32;
    }
    RamFlash::from_vec(mem)
}

fn standard_flash() -> RamFlash {
    flash_with_table(&[
        table_entry(1, 0, OTADATA_OFF, OTADATA_SIZE, "otadata"),
        table_entry(0, 0x10, OTA0_OFF, PART_SIZE_EACH, "ota_0"),
        table_entry(0, 0x11, OTA1_OFF, PART_SIZE_EACH, "ota_1"),
    ])
}

fn hex_of(digest: &[u8]) -> String {
    digest.iter().map(|b| format!("{:02x}", b)).collect()
}

#[test]
fn ota_happy_path_full_cycle() {
    // Two 1 MiB OTA partitions, booted from slot 0; stream a 512 KiB image
    // in 2048 chunks of 256 bytes; the final write reports completion and
    // the flush verifies both the streamed and the read-back hash.
    let image: Vec<u8> = (0..524288u32).map(|i| (i % 251) as u8).collect();
    let digest = sha2::Sha256::digest(&image);
    let chksum = hex_of(&digest);

    let mut ota = Ota::new(standard_flash(), Some(0)).expect("engine");
    assert_eq!(ota.get_currently_booted_partition(), Some(0));
    assert_eq!(ota.get_next_ota_partition(), Some(1));

    ota.ota_begin(image.len() as u32, chksum.as_bytes()).expect("begin");
    let mut done = false;
    for chunk in image.chunks(256) {
        done = ota.ota_write_chunk(chunk, chunk.len() as u32).expect("write");
    }
    assert!(done, "final write must report completion");
    assert_eq!(ota.ota_verify().expect("verify"), true);
    ota.ota_flush(true).expect("flush with verify");

    // The image must be on flash at the target partition base.
    assert_eq!(
        &ota.flash.bytes()[OTA1_OFF as usize..OTA1_OFF as usize + image.len()],
        &image[..]
    );

    // Activate: slot 1 gets seq 2 with state New, slot 2 keeps the old
    // image as seq 1, Valid.
    ota.ota_set_pending_image(true).expect("set pending");
    let od = OTADATA_OFF as usize;
    let slot1 = &ota.flash.bytes()[od..od + 32];
    assert_eq!(&slot1[0..4], &2u32.to_le_bytes());
    assert_eq!(&slot1[24..28], &0u32.to_le_bytes()); // New
    let od2 = od + (OTADATA_SIZE / 2) as usize;
    let slot2 = &ota.flash.bytes()[od2..od2 + 32];
    assert_eq!(&slot2[0..4], &1u32.to_le_bytes());
    assert_eq!(&slot2[24..28], &2u32.to_le_bytes()); // Valid

    // Writing the same pending target again must be byte-identical.
    let before: Vec<u8> = ota.flash.bytes().clone();
    ota.ota_set_pending_image(true).expect("set pending again");
    assert_eq!(ota.flash.bytes(), &before, "set_pending must be idempotent");

    // Reboot: the bootloader picks the higher valid sequence -> partition 1.
    let (s1, s2) = ota.get_ota_boot_entries().expect("entries");
    assert_eq!(s1.seq, 2);
    assert_eq!(s2.seq, 1);
    let mem = ota.flash.bytes().clone();
    let mut rebooted = Ota::new(RamFlash::from_vec(mem), Some(1)).expect("reboot");
    assert_eq!(rebooted.get_ota_image_state().expect("state"), OtaImgState::EspOtaImgNew);

    // Confirming the image flips only the state word of slot 1.
    rebooted.ota_mark_app_valid().expect("mark valid");
    assert_eq!(rebooted.get_ota_image_state().expect("state"), OtaImgState::EspOtaImgValid);
    let slot1 = &rebooted.flash.bytes()[od..od + 32];
    assert_eq!(&slot1[0..4], &2u32.to_le_bytes(), "sequence unchanged");
}

#[test]
fn ota_bit_flip_fails_flush() {
    // As the happy path, but one byte of one chunk is flipped: the streamed
    // hash no longer matches and flush(true) reports WrongCRC.
    let image: Vec<u8> = (0..524288u32).map(|i| (i % 251) as u8).collect();
    let digest = sha2::Sha256::digest(&image);
    let chksum = hex_of(&digest);

    let mut corrupted = image.clone();
    corrupted[100_000] ^= 0x01;

    let mut ota = Ota::new(standard_flash(), Some(0)).expect("engine");
    ota.ota_begin(image.len() as u32, chksum.as_bytes()).expect("begin");
    for chunk in corrupted.chunks(256) {
        ota.ota_write_chunk(chunk, chunk.len() as u32).expect("write");
    }
    assert_eq!(ota.ota_flush(true), Err(OtaError::WrongCRC));
    assert_eq!(ota.ota_flush(false), Err(OtaError::WrongCRC));
    assert_eq!(ota.ota_verify(), Ok(false));
}

#[test]
fn ota_wrong_partition_order_rejected() {
    // ota_0 at subtype 0x10 followed by ota_2 at 0x12: the table scan must
    // fail with the partition-order error.
    let flash = flash_with_table(&[
        table_entry(1, 0, OTADATA_OFF, OTADATA_SIZE, "otadata"),
        table_entry(0, 0x10, OTA0_OFF, PART_SIZE_EACH, "ota_0"),
        table_entry(0, 0x12, OTA1_OFF, PART_SIZE_EACH, "ota_2"),
    ]);
    match Ota::new(flash, Some(0)) {
        Err(OtaError::WrongOTAPArtitionOrder) => {},
        other => panic!("expected WrongOTAPArtitionOrder, got {:?}", other.is_ok()),
    }
}

#[test]
fn ota_begin_rejects_bad_checksum() {
    let mut ota = Ota::new(standard_flash(), Some(0)).expect("engine");
    assert_eq!(ota.ota_begin(16, b"zz"), Err(OtaError::InvalidChecksum));
    let bad = "g".repeat(64);
    assert_eq!(ota.ota_begin(16, bad.as_bytes()), Err(OtaError::InvalidChecksum));
}

#[test]
fn ota_single_partition_rejected() {
    let flash = flash_with_table(&[
        table_entry(1, 0, OTADATA_OFF, OTADATA_SIZE, "otadata"),
        table_entry(0, 0x10, OTA0_OFF, PART_SIZE_EACH, "ota_0"),
    ]);
    match Ota::new(flash, Some(0)) {
        Err(OtaError::NotEnoughPartitions) => {},
        _ => panic!("expected NotEnoughPartitions"),
    }
}

#[test]
fn mark_invalid_writes_even_a_confirmed_slot() {
    // Walk to an activated-and-confirmed image, then reject it: the state
    // word must read Invalid afterwards, with the sequence untouched.
    let image: Vec<u8> = (0..1024u32).map(|i| i as u8).collect();
    let digest = sha2::Sha256::digest(&image);
    let chksum = hex_of(&digest);
    let mut ota = Ota::new(standard_flash(), Some(0)).expect("engine");
    ota.ota_begin(image.len() as u32, chksum.as_bytes()).expect("begin");
    ota.ota_write_chunk(&image, image.len() as u32).expect("write");
    ota.ota_flush(true).expect("flush");
    ota.ota_set_pending_image(true).expect("pending");

    let mem = ota.flash.bytes().clone();
    let mut rebooted = Ota::new(RamFlash::from_vec(mem), Some(1)).expect("reboot");
    rebooted.ota_mark_app_valid().expect("confirm");
    assert_eq!(rebooted.get_ota_image_state().expect("state"), OtaImgState::EspOtaImgValid);
    rebooted.ota_mark_app_invalid_rollback().expect("reject");
    assert_eq!(
        rebooted.get_ota_image_state().expect("state"),
        OtaImgState::EspOtaImgInvalid,
        "rejecting writes Invalid even over a confirmed slot"
    );
    let (s1, _) = rebooted.get_ota_boot_entries().expect("entries");
    assert_eq!(s1.seq, 2, "sequence survives the state rewrite");
}

#[test]
fn crc_is_canonical_for_slots() {
    // A slot is valid exactly when its CRC is the seeded CRC-32 of the
    // little-endian sequence bytes.
    for seq in [0u32, 1, 2, 3, 0xFFFF_FFFF] {
        let crc = calc_crc32(&seq.to_le_bytes(), 0xFFFF_FFFF);
        assert!(is_crc_seq_correct(seq, crc));
        assert!(!is_crc_seq_correct(seq, crc ^ 1));
        let mut entry = EspOtaSelectEntry { seq, ota_state: OtaImgState::EspOtaImgNew, crc };
        entry.check_crc();
        assert_eq!(entry.seq, seq);
        let mut bad = EspOtaSelectEntry { seq, ota_state: OtaImgState::EspOtaImgNew, crc: crc ^ 1 };
        bad.check_crc();
        assert_eq!(bad.seq, 0, "a bad CRC forces the sequence to zero");
    }
    // The erased pattern never validates: an all-ones slot reads as seq 0.
    assert!(!is_crc_seq_correct(0xFFFF_FFFF, 0xFFFF_FFFF));
}
