use doukutsu_save_editor::editor::MainApp;
use doukutsu_save_editor::equipment::EQUIPMENT_KINDS;
use doukutsu_save_editor::profile::{FormatError, Position, Weapon, HEALTH_OFFSET};
use doukutsu_save_editor::storage::IoTask;

const FILE_LEN: usize = 0x604;

fn put_i32(b: &mut [u8], off: usize, v: i32) {
    b[off..off + 4].copy_from_slice(&v.to_le_bytes());
}

fn example_profile() -> Vec<u8> {
    let mut b = vec![0u8; FILE_LEN];
    b[..8].copy_from_slice(b"Do041220");
    b[0x20..0x22].copy_from_slice(&3i16.to_le_bytes());
    put_i32(&mut b, 0x38, 2);
    put_i32(&mut b, 0x3C, 1);
    put_i32(&mut b, 0x40, 0);
    put_i32(&mut b, 0x44, 50);
    put_i32(&mut b, 0x48, 50);
    put_i32(&mut b, 0x2C, 0b10);
    b
}

fn weapon(classification: i32) -> Weapon {
    Weapon { classification, level: 1, exp: 0, max_ammo: 0, ammo: 0 }
}

fn loaded() -> MainApp {
    let mut app = MainApp::new();
    app.verify_and_init(example_profile()).unwrap();
    app
}

#[test]
fn end_to_end_edit_save_and_undo() {
    let original = example_profile();
    let mut app = MainApp::new();
    assert!(app.verify_and_init(original.clone()).is_ok());
    assert_eq!(app.weapon_num(), 1);
    assert!(app.set_health(10));
    let bytes = app.encoded_bytes().unwrap();
    assert_eq!(bytes.len(), original.len());
    for i in 0..original.len() {
        if i != HEALTH_OFFSET && i != HEALTH_OFFSET + 1 {
            assert_eq!(bytes[i], original[i], "byte {i}");
        }
    }
    assert_eq!(&bytes[HEALTH_OFFSET..HEALTH_OFFSET + 2], &[10, 0]);
    assert_eq!(app.raw_profile().unwrap().as_bytes(), &original);
    app.undo_all();
    assert_eq!(app.game_profile().unwrap().health, 3);
    assert_eq!(app.weapon_num(), 1);
}

#[test]
fn nothing_loaded_refuses_edits() {
    let mut app = MainApp::new();
    assert!(app.game_profile().is_none());
    assert!(app.count_weapon().is_none());
    assert!(app.count_inventory().is_none());
    assert!(app.detect_equip().is_none());
    assert!(app.update_state().is_none());
    assert!(!app.set_health(1));
    assert!(!app.add_weapon(weapon(2)));
    assert!(!app.remove_weapon());
    assert!(!app.add_item(3));
    assert!(!app.set_equip(0, true));
    assert!(!app.show_save_button());
    assert!(app.encoded_bytes().is_none());
    assert!(app.next_task().is_none());
    app.undo_all();
    assert!(app.game_profile().is_none());
}

#[test]
fn failed_load_keeps_previous_profile_and_queues_notice() {
    let mut app = loaded();
    assert!(app.set_health(42));
    let mut bad = example_profile();
    bad[1] = 0;
    assert_eq!(app.verify_and_init(bad), Err(FormatError::BadMagic));
    assert_eq!(app.game_profile().unwrap().health, 42);
    assert_eq!(app.next_task(), Some(IoTask::Notify(FormatError::BadMagic)));
    assert_eq!(app.verify_and_init(b"Do041220".to_vec()), Err(FormatError::Truncated));
    assert_eq!(app.next_task(), Some(IoTask::Notify(FormatError::Truncated)));
    assert_eq!(app.next_task(), None);
}

#[test]
fn weapon_slots_grow_and_shrink_at_the_end() {
    let mut app = loaded();
    assert!(!app.add_weapon(weapon(0)));
    assert!(app.add_weapon(weapon(5)));
    assert_eq!(app.weapon_num(), 2);
    assert_eq!(app.game_profile().unwrap().weapon[1].classification, 5);
    for c in 3..8 {
        assert!(app.add_weapon(weapon(c)));
    }
    assert_eq!(app.weapon_num(), 7);
    assert!(!app.add_weapon(weapon(9)));
    assert!(app.remove_weapon());
    assert_eq!(app.weapon_num(), 6);
    assert_eq!(app.game_profile().unwrap().weapon[6], weapon_default());
    assert!(app.set_weapon(0, weapon(12)));
    assert_eq!(app.game_profile().unwrap().weapon[0].classification, 12);
    assert!(!app.set_weapon(6, weapon(12)));
    assert!(!app.set_weapon(0, weapon(0)));
    assert_eq!(app.count_weapon(), Some(6));
}

fn weapon_default() -> Weapon {
    Weapon { classification: 0, level: 0, exp: 0, max_ammo: 0, ammo: 0 }
}

#[test]
fn reset_weapons_empties_all_at_once() {
    let mut app = loaded();
    assert!(app.add_weapon(weapon(3)));
    assert!(app.reset_weapons());
    assert_eq!(app.weapon_num(), 0);
    assert!(app.game_profile().unwrap().weapon.iter().all(|w| *w == weapon_default()));
    assert!(!app.remove_weapon());
}

#[test]
fn inventory_slots_follow_the_same_rules() {
    let mut app = loaded();
    assert_eq!(app.inventory_num(), 0);
    assert!(!app.remove_item());
    assert!(!app.add_item(0));
    for item in 1..=31 {
        assert!(app.add_item(item));
    }
    assert_eq!(app.inventory_num(), 31);
    assert!(!app.add_item(32));
    assert!(app.remove_item());
    assert_eq!(app.inventory_num(), 30);
    assert_eq!(app.game_profile().unwrap().inventory[30], 0);
    assert!(app.set_item(29, 99));
    assert!(!app.set_item(30, 99));
    assert_eq!(app.game_profile().unwrap().inventory[29], 99);
    assert!(app.reset_inventory());
    assert_eq!(app.inventory_num(), 0);
    assert!(app.game_profile().unwrap().inventory.iter().all(|i| *i == 0));
    assert_eq!(app.count_inventory(), Some(0));
}

#[test]
fn equipment_mirror_follows_flags() {
    let mut app = loaded();
    let checked = app.equip_checked();
    assert_eq!(checked.len(), EQUIPMENT_KINDS);
    assert_eq!(checked, [false, true, false, false, false, false, false, false, false]);
    assert!(app.set_equip(8, true));
    assert!(app.set_equip(1, false));
    assert!(!app.set_equip(9, true));
    assert_eq!(app.game_profile().unwrap().equipment.bits, 0b1_0000_0000);
    assert_eq!(app.detect_equip(), Some(app.equip_checked()));
    assert!(app.equip_checked()[8]);
    let bytes = app.encoded_bytes().unwrap();
    assert_eq!(&bytes[0x2C..0x30], &[0, 1, 0, 0]);
}

#[test]
fn basic_fields_are_encoded() {
    let mut app = loaded();
    assert!(app.set_max_health(-2));
    assert!(app.set_position(Position { x: 1, y: -1 }));
    assert!(app.set_music(24));
    assert!(app.set_map(13));
    let bytes = app.encoded_bytes().unwrap();
    assert_eq!(&bytes[0x08..0x0C], &[13, 0, 0, 0]);
    assert_eq!(&bytes[0x0C..0x10], &[24, 0, 0, 0]);
    assert_eq!(&bytes[0x10..0x14], &[1, 0, 0, 0]);
    assert_eq!(&bytes[0x14..0x18], &[0xFF, 0xFF, 0xFF, 0xFF]);
    assert_eq!(&bytes[0x1C..0x1E], &[0xFE, 0xFF]);
}

#[test]
fn undo_recomputes_counts() {
    let mut app = loaded();
    assert!(app.add_weapon(weapon(4)));
    assert!(app.add_item(7));
    assert!(app.set_equip(0, true));
    app.undo_all();
    assert_eq!(app.weapon_num(), 1);
    assert_eq!(app.inventory_num(), 0);
    assert!(!app.equip_checked()[0]);
    assert_eq!(app.game_profile().unwrap().weapon[1], weapon_default());
}

#[test]
fn save_queues_encoded_bytes() {
    let mut app = loaded();
    assert!(app.set_health(10));
    let expected = app.encoded_bytes().unwrap();
    assert!(app.show_save_button());
    assert_eq!(app.next_task(), Some(IoTask::Save(expected)));
    assert_eq!(app.next_task(), None);
}

#[test]
fn open_then_delivery_loads_on_next_update() {
    let mut app = MainApp::new();
    app.file_ops();
    assert_eq!(app.next_task(), Some(IoTask::Open));
    assert_eq!(app.update(), None);
    app.drag_handle(Some(example_profile()));
    assert_eq!(app.update(), Some(Ok(())));
    assert_eq!(app.game_profile().unwrap().health, 3);
    assert_eq!(app.update(), None);
}

#[test]
fn update_keeps_only_newest_delivery() {
    let mut app = MainApp::new();
    let mut newer = example_profile();
    newer[0x20] = 9;
    app.drag_handle(Some(example_profile()));
    app.drag_handle(None);
    app.drag_handle(Some(newer));
    assert_eq!(app.update(), Some(Ok(())));
    assert_eq!(app.game_profile().unwrap().health, 9);
}

#[test]
fn update_with_rejected_delivery_notifies() {
    let mut app = MainApp::new();
    app.drag_handle(Some(vec![1, 2, 3]));
    assert_eq!(app.update(), Some(Err(FormatError::BadMagic)));
    assert!(app.game_profile().is_none());
    assert_eq!(app.next_task(), Some(IoTask::Notify(FormatError::BadMagic)));
}

#[test]
fn default_session_has_nothing_loaded() {
    let mut app = MainApp::default();
    assert!(app.game_profile().is_none());
    assert_eq!(app.weapon_num(), 0);
    assert_eq!(app.inventory_num(), 0);
    assert_eq!(app.equip_checked(), [false; 9]);
    assert_eq!(app.update(), None);
}
