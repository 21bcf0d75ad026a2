use hunt_bot::client::spell_book::{SpellBook, SpellEntry};
use hunt_bot::named::NamedMap;

fn fake_book(book_ptr: u32) -> SpellBook {
    let mut map = NamedMap::new();
    map.insert(
        "加速術".to_string(),
        SpellEntry {
            packed: 0xDEADBEEF,
            range: 0,
            dispatcher_byte: 0x04, // buff handler
        },
    );
    SpellBook { map, book_ptr }
}

#[test]
fn lookup_and_range_of_split_correctly() {
    let mut map = NamedMap::new();
    map.insert(
        "烈炎術".to_string(),
        SpellEntry {
            packed: 0x2E,
            range: 3,
            dispatcher_byte: 0x16, // attack handler
        },
    );
    let book = SpellBook {
        map,
        book_ptr: 0xAA,
    };
    assert_eq!(book.lookup("烈炎術"), Some(0x2E));
    assert_eq!(book.range_of("烈炎術"), Some(3));
    assert_eq!(book.lookup("不存在"), None);
    assert_eq!(book.range_of("不存在"), None);
}

#[test]
fn attack_names_iter_keeps_only_whitelisted_handlers() {
    let mut map = NamedMap::new();
    map.insert(
        "光箭".to_string(),
        SpellEntry {
            packed: 0x03,
            range: 0,
            dispatcher_byte: 0x02,
        },
    );
    map.insert(
        "三重矢".to_string(),
        SpellEntry {
            packed: 0x83,
            range: 0,
            dispatcher_byte: 0x24,
        },
    );
    map.insert(
        "烈炎術".to_string(),
        SpellEntry {
            packed: 0x2D,
            range: 3,
            dispatcher_byte: 0x16,
        }, // 0x16 attack
    );
    map.insert(
        "加速術".to_string(),
        SpellEntry {
            packed: 0x2A,
            range: 0,
            dispatcher_byte: 0x04,
        }, // 0x04 buff
    );
    map.insert(
        "封印禁地".to_string(),
        SpellEntry {
            packed: 0xA0,
            range: 0,
            dispatcher_byte: 0x01,
        },
    );
    map.insert(
        "初級治癒術".to_string(),
        SpellEntry {
            packed: 0x00,
            range: 0,
            dispatcher_byte: 0x00,
        }, // 0x00 heal
    );
    map.insert(
        "指定傳送".to_string(),
        SpellEntry {
            packed: 0x04,
            range: 0,
            dispatcher_byte: 0x03,
        },
    );
    let book = SpellBook {
        map,
        book_ptr: 0xBB,
    };

    let attacks: Vec<&str> = book.attack_names_iter();
    assert!(attacks.contains(&"光箭"), "光箭 (0x02) stays");
    assert!(attacks.contains(&"三重矢"), "三重矢 (0x24) stays");
    assert!(attacks.contains(&"烈炎術"), "烈炎術 (0x16) stays");
    assert!(!attacks.contains(&"加速術"), "加速術 (0x04 buff) is left out");
    assert!(
        !attacks.contains(&"封印禁地"),
        "封印禁地 (0x01 buff) is left out"
    );
    assert!(
        !attacks.contains(&"初級治癒術"),
        "治癒術 (0x00 heal) is left out"
    );
    assert!(
        !attacks.contains(&"指定傳送"),
        "傳送 (0x03 utility) is left out"
    );
    assert_eq!(attacks.len(), 3);
}

#[test]
fn is_attack_uses_whitelist() {
    let cases = [
        (0x00u8, false, "heal"),
        (0x01, false, "self-buff (45-skill group)"),
        (0x02, true, "光箭/冰箭 attack"),
        (0x03, false, "傳送"),
        (0x04, false, "weapon/element buff"),
        (0x06, true, "毒咒/闇盲 debuff"),
        (0x18, true, "AoE 攻擊"),
        (0x24, true, "三重矢"),
        (0x2A, true, "精準射擊"),
        (0x30, false, "覺醒 transformation"),
        (0x39, false, "幻覺/passive"),
        (0x3C, true, "骷髏毀壞"),
        (0xFF, false, "unknown byte"),
    ];
    for (byte, expected, label) in cases {
        let entry = SpellEntry {
            packed: 0,
            range: 0,
            dispatcher_byte: byte,
        };
        assert_eq!(
            entry.is_attack(),
            expected,
            "byte 0x{byte:02X} ({label}) expects is_attack={expected}"
        );
    }
}

#[test]
fn fresh_cache_matching_ptr_is_not_stale() {
    let book = fake_book(0x12345678);
    assert!(!book.is_stale_for(0x12345678));
}

#[test]
fn cache_with_different_ptr_is_stale() {
    let book = fake_book(0x12345678);
    assert!(book.is_stale_for(0xAABBCCDD));
}

#[test]
fn zero_current_ptr_treated_as_stale() {
    let book = fake_book(0x12345678);
    assert!(book.is_stale_for(0));
}

#[test]
fn default_book_with_zero_ptr_is_stale_against_real_ptr() {
    let book = SpellBook::default();
    assert!(book.is_stale_for(0x12345678));
}
