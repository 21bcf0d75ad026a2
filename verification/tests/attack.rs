use hunt_bot::action::attack::{
    CLICK_ATTACK_FUNC, SHELLCODE_BYTES, SHELLCODE_REGION_SIZE, build_bootstrap_shellcode,
};

#[test]
fn shellcode_is_expected_size() {
    let sc = build_bootstrap_shellcode(0xC0FFEE00, 0xDEADBEEF, 0x11112222, 0x33334444);
    assert_eq!(sc.len(), SHELLCODE_BYTES);
}

#[test]
fn shellcode_pushes_args_in_reverse_order_for_cdecl_stack_layout() {
    let sc = build_bootstrap_shellcode(0xC0FFEE00, 0xDEADBEEF, 0x11112222, 0x33334444);
    // push 0 (mode)
    assert_eq!(&sc[0..2], &[0x6A, 0x00]);
    // push y = 0x33334444
    assert_eq!(sc[2], 0x68);
    assert_eq!(&sc[3..7], &0x3333_4444u32.to_le_bytes());
    // push x = 0x11112222
    assert_eq!(sc[7], 0x68);
    assert_eq!(&sc[8..12], &0x1111_2222u32.to_le_bytes());
    // push target_ptr = 0xDEADBEEF
    assert_eq!(sc[12], 0x68);
    assert_eq!(&sc[13..17], &0xDEAD_BEEFu32.to_le_bytes());
}

#[test]
fn shellcode_loads_local_player_into_ecx() {
    let sc = build_bootstrap_shellcode(0xC0FFEE00, 0xDEADBEEF, 0x11112222, 0x33334444);
    // mov ecx, 0xC0FFEE00
    assert_eq!(sc[17], 0xB9);
    assert_eq!(&sc[18..22], &0xC0FF_EE00u32.to_le_bytes());
}

#[test]
fn shellcode_calls_click_attack_func_then_returns() {
    let sc = build_bootstrap_shellcode(0xC0FFEE00, 0xDEADBEEF, 0x11112222, 0x33334444);
    // mov eax, CLICK_ATTACK_FUNC
    assert_eq!(sc[22], 0xB8);
    assert_eq!(&sc[23..27], &CLICK_ATTACK_FUNC.to_le_bytes());
    // call eax (FF D0) + ret (C3)
    assert_eq!(&sc[27..29], &[0xFF, 0xD0]);
    assert_eq!(sc[29], 0xC3);
}

#[test]
fn shellcode_size_constant_covers_actual_bytes() {
    let sc = build_bootstrap_shellcode(0, 0, 0, 0);
    assert!(sc.len() <= SHELLCODE_REGION_SIZE);
}
