use hunt_bot::action::attack::{
    AttackError, AttackSlot, attack_writes, bootstrap_click_attack, build_bootstrap_shellcode,
    click_attack_cd_remaining_ms, stop_client_auto_attack,
};
use hunt_bot::action::skill::{
    SkillCast, SkillTargetMode, cast_damage_skill_at, cast_self_buff,
};
use hunt_bot::client::spell_book::{
    BookError, RawSpell, SpellBook, entry_pointer, ensure_fresh, name_len, name_pointer,
    needs_rebuild,
};
use hunt_bot::client::weapon::{
    KEY1_XOR, is_ranged_weapon_equipped, obfuscated_slot_addr, unmask_slot,
};
use hunt_bot::hunt4::skill_cd::{SKILL_CD_TABLE, lookup_gate_ms, skill_cd_addr, skill_cd_ms};

fn spell(name: &str, packed: u32, range: Option<u32>) -> RawSpell {
    let mut entry = vec![0u8; 4];
    entry.extend_from_slice(&packed.to_le_bytes());
    entry.extend_from_slice(&[0u8; 4]);
    entry.extend_from_slice(&0x0070_0000u32.to_le_bytes());
    RawSpell {
        entry_ptr: 0x0060_0000,
        entry_bytes: Some(entry),
        raw_name: Some(b"raw\0rest".to_vec()),
        base_name: name.to_string(),
        range,
    }
}

#[test]
fn a_book_keeps_the_highest_id_of_a_name() {
    let table = vec![0, 0x02, 0x24];
    let spells = vec![
        spell("arrow", 1, Some(3)),
        spell("arrow", 2, None),
        spell("arrow", 1, Some(9)),
        spell("far", 7, Some(1)),
    ];
    let book = SpellBook::build(0x50, 4, 0x60, &spells, Some(&table)).unwrap();
    assert_eq!(book.book_ptr, 0x50);
    assert_eq!(book.lookup("arrow"), Some(2));
    assert_eq!(book.range_of("arrow"), Some(0));
    assert_eq!(book.lookup("far"), Some(7));
    assert_eq!(book.unique_names(), 2);
    assert_eq!(book.attack_names_iter(), vec!["arrow"], "the table does not reach the other");
    assert_eq!(book.names_iter().len(), 2);
}

#[test]
fn a_book_ends_with_its_count() {
    let spells = vec![spell("arrow", 1, None), spell("far", 7, None), spell("arrow", 9, None)];
    let two = SpellBook::build(1, 2, 2, &spells, None).unwrap();
    assert_eq!(two.lookup("arrow"), Some(1), "the third entry is beyond the book");
    assert_eq!(two.lookup("far"), Some(7));
    let one = SpellBook::build(1, 1, 2, &spells, None).unwrap();
    assert_eq!((one.unique_names(), one.lookup("far")), (1, None));
    let all = SpellBook::build(1, 1000, 2, &spells, None).unwrap();
    assert_eq!(all.lookup("arrow"), Some(9));
    let copy = all.clone();
    assert_eq!(copy.names_iter(), all.names_iter());
    assert_eq!((copy.lookup("far"), copy.book_ptr), (Some(7), 1));
}

#[test]
fn spells_that_cannot_be_read_are_left_out() {
    let mut null_entry = spell("a", 1, None);
    null_entry.entry_ptr = 0;
    let mut unread_entry = spell("b", 1, None);
    unread_entry.entry_bytes = None;
    let mut no_name = spell("c", 1, None);
    no_name.entry_bytes = Some(vec![0u8; 16]);
    let mut unread_name = spell("d", 1, None);
    unread_name.raw_name = None;
    let mut empty_name = spell("e", 1, None);
    empty_name.raw_name = Some(vec![0, 65]);
    let blank = spell("", 1, None);
    let spells = vec![null_entry, unread_entry, no_name, unread_name, empty_name, blank];
    let book = SpellBook::build(1, 6, 2, &spells, None).unwrap();
    assert_eq!(book.unique_names(), 0);
}

#[test]
fn a_book_must_make_sense() {
    let none = Vec::new();
    assert_eq!(SpellBook::build(0, 1, 1, &none, None).unwrap_err(), BookError::NullBook);
    assert_eq!(
        SpellBook::build(1, 0, 5, &none, None).unwrap_err(),
        BookError::Empty { count: 0, array_ptr: 5 }
    );
    assert_eq!(
        SpellBook::build(1, 3, 0, &none, None).unwrap_err(),
        BookError::Empty { count: 3, array_ptr: 0 }
    );
    assert_eq!(
        SpellBook::build(1, 1025, 5, &none, None).unwrap_err(),
        BookError::TooMany { count: 1025 }
    );
    assert!(SpellBook::build(1, 1024, 5, &none, None).is_ok());
}

#[test]
fn addresses_and_names_are_read_from_bytes() {
    let array = [1, 0, 0, 0, 0x78, 0x56, 0x34, 0x12];
    assert_eq!(entry_pointer(&array, 1), 0x1234_5678);
    assert_eq!(entry_pointer(&array, 2), 0, "nothing there");
    let entry = [0, 0, 0, 0, 0, 0, 0, 0, 0, 0, 0, 0, 0xEF, 0xBE, 0xAD, 0xDE];
    assert_eq!(name_pointer(&entry), 0xDEAD_BEEF);
    assert_eq!(name_len(b"abc\0def"), 3);
    assert_eq!(name_len(b"abc"), 3);
    assert_eq!(name_len(b"\0abc"), 0);
}

#[test]
fn a_stale_book_is_replaced_where_it_can_be() {
    let book = |ptr| SpellBook::build(ptr, 1, 1, &vec![spell("arrow", 1, None)], None).unwrap();
    let mut slot = None;
    assert!(needs_rebuild(&slot, 7));
    assert!(!ensure_fresh(&mut slot, 7, None), "nothing to go by");
    assert!(ensure_fresh(&mut slot, 7, Some(book(7))));
    assert!(!needs_rebuild(&slot, 7));
    assert!(ensure_fresh(&mut slot, 7, Some(book(9))));
    assert_eq!(slot.as_ref().unwrap().book_ptr, 7, "a fresh book stays");
    assert!(!ensure_fresh(&mut slot, 8, None));
    assert_eq!(slot.as_ref().unwrap().book_ptr, 7);
    assert!(ensure_fresh(&mut slot, 8, Some(book(8))));
    assert_eq!(slot.as_ref().unwrap().book_ptr, 8);
}

#[test]
fn only_learned_skills_are_cast() {
    let book = SpellBook::build(1, 1, 1, &vec![spell("arrow", 0x83, None)], None).unwrap();
    assert_eq!(
        cast_damage_skill_at(&book, "arrow", 0x77),
        Some(SkillCast { packed: 0x83, mode: SkillTargetMode::AttackEntity(0x77) })
    );
    assert_eq!(
        cast_self_buff(&book, "arrow"),
        Some(SkillCast { packed: 0x83, mode: SkillTargetMode::ForceSelfPacket })
    );
    assert_eq!(cast_damage_skill_at(&book, "storm", 0x77), None);
    assert_eq!(cast_self_buff(&book, "storm"), None);
}

#[test]
fn the_rest_of_a_skill_comes_from_the_table() {
    assert_eq!(skill_cd_addr(0), Some(SKILL_CD_TABLE));
    assert_eq!(skill_cd_addr(0xDB), Some(0x0096_D630 + 0xDB * 2));
    assert_eq!(skill_cd_addr(0xDC), None);
    assert_eq!(skill_cd_ms(2000), 2000);
    assert_eq!(skill_cd_ms(0xFFFF), 0, "below zero there is none");
    assert_eq!(lookup_gate_ms(Some(3), Some(1500)), Some(1500));
    assert_eq!(lookup_gate_ms(Some(3), Some(0x8000)), Some(0));
    assert_eq!(lookup_gate_ms(None, Some(1500)), None);
    assert_eq!(lookup_gate_ms(Some(0xDC), Some(1500)), None);
    assert_eq!(lookup_gate_ms(Some(3), None), None);
}

#[test]
fn weapons_are_told_apart_by_masked_values() {
    assert_eq!(obfuscated_slot_addr(KEY1_XOR, 0x1000), Some(0x1000));
    assert_eq!(obfuscated_slot_addr(KEY1_XOR ^ 3, 0x1000), Some(0x100C));
    assert_eq!(obfuscated_slot_addr(KEY1_XOR, 0), None);
    assert_eq!(unmask_slot(unmask_slot(0x14, 0xDEAD_BEEF), 0xDEAD_BEEF), 0x14);
    assert_eq!(unmask_slot(0xF0F0, 0x0FF0), 0xFF00);
    assert!(is_ranged_weapon_equipped(Some(0x14), Some(0)));
    assert!(is_ranged_weapon_equipped(Some(0x3E), Some(0)));
    assert!(is_ranged_weapon_equipped(Some(0), Some(0x448)));
    assert!(is_ranged_weapon_equipped(Some(0), Some(0x465)));
    assert!(!is_ranged_weapon_equipped(Some(0x14), None), "any failed read means melee");
    assert!(!is_ranged_weapon_equipped(None, Some(0x465)), "any failed read means melee");
    assert!(!is_ranged_weapon_equipped(Some(0x448), Some(0x14)));
    assert!(!is_ranged_weapon_equipped(None, None));
}

#[test]
fn an_attack_is_set_up_before_it_is_started() {
    let slots = |fresh| -> Vec<(AttackSlot, Vec<u8>)> {
        attack_writes(0x1122_3344, 0x8123, 33000, fresh)
            .into_iter()
            .map(|write| (write.slot, write.bytes))
            .collect()
    };
    let fresh = slots(true);
    assert_eq!(fresh.len(), 6);
    assert_eq!(fresh[0], (AttackSlot::NextTick, vec![0, 0, 0, 0]));
    assert_eq!(fresh[1], (AttackSlot::TargetPtr, vec![0x44, 0x33, 0x22, 0x11]));
    assert_eq!(fresh[2], (AttackSlot::TargetX, vec![0x23, 0x81, 0, 0]));
    assert_eq!(fresh[3], (AttackSlot::TargetY, 33000u32.to_le_bytes().to_vec()));
    assert_eq!(fresh[4], (AttackSlot::ModeFlag, vec![0, 0, 0, 0]));
    assert_eq!(fresh[5], (AttackSlot::AutoAttackFlag, vec![1]));
    assert_eq!(slots(false), fresh[1..].to_vec());
    assert_eq!(
        bootstrap_click_attack(7, 1, 2, 3).unwrap(),
        build_bootstrap_shellcode(7, 1, 2, 3)
    );
    assert_eq!(bootstrap_click_attack(0, 1, 2, 3), Err(AttackError::NoPlayer));
    let stop = stop_client_auto_attack();
    assert_eq!((stop.slot, stop.bytes), (AttackSlot::AutoAttackFlag, vec![0]));
}

#[test]
fn the_wait_for_an_attack_runs_out() {
    assert_eq!(click_attack_cd_remaining_ms(Some(1500), 1000), 500);
    assert_eq!(click_attack_cd_remaining_ms(Some(1000), 1500), 0);
    assert_eq!(click_attack_cd_remaining_ms(None, 1000), 0);
}

#[test]
fn without_the_table_of_handlers_no_spell_attacks() {
    let spells = vec![spell("arrow", 2, Some(8))];
    let table = vec![0u8, 0, 0x02];
    let known = SpellBook::build(1, 1, 2, &spells, Some(&table)).unwrap();
    assert_eq!(known.attack_names_iter(), vec!["arrow"]);
    let unknown = SpellBook::build(1, 1, 2, &spells, None).unwrap();
    assert!(unknown.attack_names_iter().is_empty());
    assert_eq!(unknown.names_iter(), vec!["arrow"]);
    assert_eq!(unknown.unique_names(), 1);
}
