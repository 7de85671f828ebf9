use doukutsu_save_editor::layout::{read_i32, read_u32, write_i16, write_i32};
use doukutsu_save_editor::profile::{
    check_header, decode, encode, FormatError, GameProfile, Position, Profile, Weapon,
    HEALTH_OFFSET, PROFILE_MIN_LEN, WEAPON_OFFSET,
};
use doukutsu_save_editor::slots::{count_active_items, count_active_weapons};

const FILE_LEN: usize = 0x604;

fn blank_profile() -> Vec<u8> {
    let mut b = vec![0u8; FILE_LEN];
    b[..8].copy_from_slice(b"Do041220");
    b
}

fn put_i32(b: &mut [u8], off: usize, v: i32) {
    b[off..off + 4].copy_from_slice(&v.to_le_bytes());
}

fn example_profile() -> Vec<u8> {
    let mut b = blank_profile();
    b[0x20..0x22].copy_from_slice(&3i16.to_le_bytes());
    put_i32(&mut b, 0x38, 2);
    put_i32(&mut b, 0x3C, 1);
    put_i32(&mut b, 0x40, 0);
    put_i32(&mut b, 0x44, 50);
    put_i32(&mut b, 0x48, 50);
    b
}

fn patterned_profile() -> Vec<u8> {
    let mut b: Vec<u8> = (0..FILE_LEN).map(|i| (i * 37 % 251) as u8).collect();
    b[..8].copy_from_slice(b"Do041220");
    b
}

#[test]
fn little_endian_reads() {
    let b = vec![1u8, 2, 3, 4, 0xFE, 0xFF, 0xFF, 0xFF];
    assert_eq!(read_u32(&b, 0), 0x0403_0201);
    assert_eq!(read_i32(&b, 4), -2);
}

#[test]
fn little_endian_writes_touch_only_their_bytes() {
    let mut b = vec![9u8; 8];
    write_i32(&mut b, 2, -2);
    assert_eq!(b, vec![9, 9, 0xFE, 0xFF, 0xFF, 0xFF, 9, 9]);
    write_i16(&mut b, 0, 0x1234);
    assert_eq!(&b[..2], &[0x34, 0x12]);
}

#[test]
fn decode_reads_example_fields() {
    let b = example_profile();
    let p = decode(&b).unwrap();
    assert_eq!(p.health, 3);
    assert_eq!(
        p.weapon[0],
        Weapon { classification: 2, level: 1, exp: 0, max_ammo: 50, ammo: 50 }
    );
    assert_eq!(p.weapon.len(), 7);
    assert_eq!(p.inventory.len(), 31);
    assert_eq!(p.teleporter.len(), 8);
    assert_eq!(count_active_weapons(&p.weapon), 1);
    assert_eq!(count_active_items(&p.inventory), 0);
}

#[test]
fn decode_reads_every_header_field() {
    let mut b = blank_profile();
    put_i32(&mut b, 0x08, 12);
    put_i32(&mut b, 0x0C, 7);
    put_i32(&mut b, 0x10, -4096);
    put_i32(&mut b, 0x14, 8192);
    b[0x1C..0x1E].copy_from_slice(&50i16.to_le_bytes());
    b[0x20..0x22].copy_from_slice(&(-5i16).to_le_bytes());
    put_i32(&mut b, 0x2C, 0b1_0000_0101);
    put_i32(&mut b, 0xD8, 35);
    put_i32(&mut b, 0x158, 1);
    put_i32(&mut b, 0x15C, 6001);
    let p = decode(&b).unwrap();
    assert_eq!(p.map, 12);
    assert_eq!(p.music, 7);
    assert_eq!(p.position, Position { x: -4096, y: 8192 });
    assert_eq!(p.max_health, 50);
    assert_eq!(p.health, -5);
    assert_eq!(p.equipment.bits, 0b1_0000_0101);
    assert!(p.equipment.check(0));
    assert!(!p.equipment.check(1));
    assert!(p.equipment.check(8));
    assert_eq!(p.inventory[0], 35);
    assert_eq!(p.teleporter[0].menu, 1);
    assert_eq!(p.teleporter[0].location, 6001);
}

#[test]
fn round_trip_keeps_every_byte() {
    let b = patterned_profile();
    let p = decode(&b).unwrap();
    let mut copy = b.clone();
    encode(&p, &mut copy);
    assert_eq!(copy, b);
}

#[test]
fn round_trip_through_raw_profile() {
    let b = patterned_profile();
    let raw = Profile::from_raw(b.clone()).unwrap();
    let gp = GameProfile::dump(&raw);
    let mut copy = raw.duplicate();
    gp.write(&mut copy);
    assert_eq!(copy.into_bytes(), b);
    assert_eq!(raw.as_bytes(), &b);
}

#[test]
fn round_trip_keeps_trailing_bytes_of_a_longer_file() {
    let mut b = patterned_profile();
    b.extend_from_slice(&[1, 2, 3, 4, 5]);
    let p = decode(&b).unwrap();
    let mut copy = b.clone();
    encode(&p, &mut copy);
    assert_eq!(copy, b);
}

#[test]
fn bad_magic_whatever_follows() {
    let mut b = example_profile();
    b[0] = b'd';
    assert!(matches!(decode(&b), Err(FormatError::BadMagic)));
    let mut b = patterned_profile();
    b[7] = b'1';
    assert!(matches!(decode(&b), Err(FormatError::BadMagic)));
    assert!(matches!(decode(&b"Do04".to_vec()), Err(FormatError::BadMagic)));
    assert!(matches!(decode(&Vec::new()), Err(FormatError::BadMagic)));
    let mut short = vec![0u8; 20];
    short[0] = b'X';
    assert!(matches!(decode(&short), Err(FormatError::BadMagic)));
}

#[test]
fn truncated_after_good_header() {
    let b = example_profile();
    let short = b[..PROFILE_MIN_LEN - 1].to_vec();
    assert!(matches!(decode(&short), Err(FormatError::Truncated)));
    assert!(matches!(decode(&b"Do041220".to_vec()), Err(FormatError::Truncated)));
    assert!(matches!(check_header(&short), Err(FormatError::Truncated)));
    let exact = b[..PROFILE_MIN_LEN].to_vec();
    assert!(decode(&exact).is_ok());
    assert!(check_header(&exact).is_ok());
}

#[test]
fn from_raw_reports_each_error() {
    assert!(matches!(Profile::from_raw(vec![0u8; FILE_LEN]), Err(FormatError::BadMagic)));
    assert!(matches!(Profile::from_raw(b"Do041220xx".to_vec()), Err(FormatError::Truncated)));
    assert!(Profile::from_raw(example_profile()).is_ok());
}

#[test]
fn encode_edit_changes_only_that_field() {
    let b = example_profile();
    let mut p = decode(&b).unwrap();
    p.health = 10;
    let mut out = b.clone();
    encode(&p, &mut out);
    for i in 0..FILE_LEN {
        if i == HEALTH_OFFSET || i == HEALTH_OFFSET + 1 {
            continue;
        }
        assert_eq!(out[i], b[i], "byte {i}");
    }
    assert_eq!(&out[HEALTH_OFFSET..HEALTH_OFFSET + 2], &[10, 0]);
}

#[test]
fn encode_writes_negative_and_slot_values() {
    let b = blank_profile();
    let mut p = decode(&b).unwrap();
    p.max_health = -1;
    p.weapon[1] = Weapon { classification: 5, level: 3, exp: 100, max_ammo: -1, ammo: 7 };
    p.inventory[30] = 40;
    let mut out = b.clone();
    encode(&p, &mut out);
    assert_eq!(&out[0x1C..0x1E], &[0xFF, 0xFF]);
    let base = WEAPON_OFFSET + 20;
    assert_eq!(&out[base..base + 4], &[5, 0, 0, 0]);
    assert_eq!(&out[base + 8..base + 12], &[100, 0, 0, 0]);
    assert_eq!(&out[base + 12..base + 16], &[0xFF, 0xFF, 0xFF, 0xFF]);
    assert_eq!(&out[0xD8 + 120..0xD8 + 124], &[40, 0, 0, 0]);
    let back = decode(&out).unwrap();
    assert_eq!(back.weapon[1], p.weapon[1]);
    assert_eq!(back.max_health, -1);
}

#[test]
fn gap_in_slots_is_kept_and_count_stops_at_first_empty() {
    let mut b = blank_profile();
    put_i32(&mut b, WEAPON_OFFSET, 2);
    put_i32(&mut b, WEAPON_OFFSET + 40, 3);
    put_i32(&mut b, 0xD8, 5);
    put_i32(&mut b, 0xD8 + 8, 6);
    let p = decode(&b).unwrap();
    assert_eq!(count_active_weapons(&p.weapon), 1);
    assert_eq!(p.weapon[2].classification, 3);
    assert_eq!(count_active_items(&p.inventory), 1);
    assert_eq!(p.inventory[2], 6);
}

#[test]
fn full_slots_count_to_capacity() {
    let items = vec![1i32; 31];
    assert_eq!(count_active_items(&items), 31);
    let weapons = vec![Weapon { classification: 4, level: 1, exp: 0, max_ammo: 0, ammo: 0 }; 7];
    assert_eq!(count_active_weapons(&weapons), 7);
    assert_eq!(count_active_items(&Vec::new()), 0);
}
