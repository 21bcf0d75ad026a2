use hunt_bot::hotkey::{
    OPEN_WINDOW_KEY_LABEL, OPEN_WINDOW_KEY_VK, TOGGLE_MASTER_KEY_LABEL, TOGGLE_MASTER_KEY_VK, VK_F8,
    VK_INSERT,
};

#[test]
fn master_toggle_hotkey_stays_f8() {
    assert_eq!(TOGGLE_MASTER_KEY_VK, VK_F8);
    assert_eq!(TOGGLE_MASTER_KEY_LABEL, "F8");
}

#[test]
fn bot_window_hotkey_is_insert() {
    assert_eq!(OPEN_WINDOW_KEY_VK, VK_INSERT);
    assert_eq!(OPEN_WINDOW_KEY_LABEL, "INS");
}
