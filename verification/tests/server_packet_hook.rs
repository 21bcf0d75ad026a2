use hunt_bot::client::packet_diag::{format_probe_diag, target_id_hits};
use hunt_bot::client::opcode_table::{OpcodeCounts, OpcodeSamples};
use hunt_bot::client::packet_events::{ACTION_DIE, BotPacketEvent, RangeSkillTarget};
use hunt_bot::client::packet_state::{
    PacketState, ParsedEventCounts, PlayerAttackTargetIds, recent_attackers,
    record_server_packet_events_at, record_server_packet_events_at_with_player_ids,
    target_recently_damaged, target_recently_removed_or_dead,
};
use hunt_bot::client::server_packet_hook::{
    CODECAVE_SIZE, LOW_OPCODE_HOOK_ADDR, LOW_OPCODE_ORIGINAL_BYTES,
    MIRROR_ALL_LOW_OPCODES_FOR_DISCOVERY, OFF_RAW_RING, OFF_RAW_SHELLCODE, OFF_RING,
    OPCODE_EBP_OFFSET, PROCESS_PACKET_DISPATCH_TABLE, RAW_PACKET_DISPATCH_ADDR,
    RAW_PACKET_ORIGINAL_BYTES, RAW_SERVER_PACKET_RING_SLOTS, RAW_SERVER_PACKET_SLOT_SIZE,
    SERVER_PACKET_RING_SLOTS, SERVER_PACKET_SLOT_SIZE, build_raw_server_packet_shellcode,
    build_server_packet_shellcode, decode_raw_server_packet_slot, decode_server_packet_slot,
};
use hunt_bot::time::{Duration, Instant};

/// A moment with time before and after it.
fn start() -> Instant {
    Instant::from_nanos(1_000_000_000_000_000)
}

const ATTACK_OPCODE: u8 = 30;
const ACTION_OPCODE: u8 = 158;

/// A range skill that hits one target for 123.
fn range_skill(caster_id: u32, target_id: u32) -> BotPacketEvent {
    BotPacketEvent::RangeSkill {
        caster_id,
        targets: vec![RangeSkillTarget { object_id: target_id, hit: true, damage: 123 }],
    }
}

const TEST_CAVE: u32 = 0x1000_0000;

#[test]
fn low_opcode_hook_targets_dispatch_entry_without_changing_dispatch_table() {
    assert_eq!(LOW_OPCODE_HOOK_ADDR, 0x0053_9394);
    assert_eq!(
        LOW_OPCODE_ORIGINAL_BYTES,
        [0x8B, 0x85, 0x0C, 0x9F, 0xFF, 0xFF]
    );
    assert_eq!(RAW_PACKET_DISPATCH_ADDR, 0x0054_4A20);
    assert_eq!(
        RAW_PACKET_ORIGINAL_BYTES,
        [0x55, 0x8B, 0xEC, 0x83, 0xEC, 0x1C]
    );
    assert_eq!(PROCESS_PACKET_DISPATCH_TABLE, 0x0054_15B4);
}

#[test]
fn raw_shellcode_replays_packet_dispatch_prologue() {
    let sc = build_raw_server_packet_shellcode(TEST_CAVE);

    assert!(
        sc.windows(RAW_PACKET_ORIGINAL_BYTES.len())
            .any(|window| window == RAW_PACKET_ORIGINAL_BYTES),
        "raw observer must replay packet dispatch prologue"
    );
    assert!(
        sc.windows(4)
            .any(|window| window == [0x8B, 0x74, 0x24, 0x28]),
        "raw observer must read packet pointer from original arg1"
    );
}

#[test]
fn codecave_layout_contains_raw_packet_ring() {
    let low_ring_end = OFF_RING + SERVER_PACKET_RING_SLOTS * SERVER_PACKET_SLOT_SIZE;
    let raw_ring_end =
        OFF_RAW_RING + RAW_SERVER_PACKET_RING_SLOTS * RAW_SERVER_PACKET_SLOT_SIZE;

    assert!(low_ring_end < OFF_RAW_SHELLCODE);
    assert!(raw_ring_end <= CODECAVE_SIZE as u32);
}

#[test]
fn shellcode_mirrors_all_low_opcodes_in_discovery_mode() {
    let sc = build_server_packet_shellcode(TEST_CAVE);

    assert!(MIRROR_ALL_LOW_OPCODES_FOR_DISCOVERY);

    assert!(
        !(0..=u8::MAX).any(|opcode| sc
            .windows(cmp_opcode_pattern(opcode).len())
            .any(|window| window == cmp_opcode_pattern(opcode))),
        "discovery mode must not filter before mirroring"
    );
}

#[test]
fn shellcode_replays_original_dispatch_after_observing() {
    let sc = build_server_packet_shellcode(TEST_CAVE);

    assert!(
        sc.windows(LOW_OPCODE_ORIGINAL_BYTES.len())
            .any(|window| window == LOW_OPCODE_ORIGINAL_BYTES),
        "must replay mov eax, [ebp-0x60f4]"
    );
    assert!(
        sc.windows(7)
            .any(|window| window == [0xFF, 0x24, 0x85, 0xB4, 0x15, 0x54, 0x00]),
        "must tail jmp through original ProcessPacket dispatch table"
    );
}

#[test]
fn shellcode_writes_slot_opcode_from_dispatch_opcode_slot() {
    let sc = build_server_packet_shellcode(TEST_CAVE);
    let mut expected = vec![0x8A, 0x85];
    expected.extend_from_slice(&OPCODE_EBP_OFFSET.to_le_bytes());
    expected.extend_from_slice(&[0x88, 0x01]);

    assert!(
        sc.windows(expected.len())
            .any(|window| window == expected.as_slice()),
        "mirrored packet opcode must come from [ebp-0x60f4], the same ProcessPacket opcode slot used by dispatch"
    );
    assert!(
        !sc.windows(3).any(|window| window == [0x8A, 0x45, 0xF3]),
        "low opcode observer must not reuse the high-hook scratch byte [ebp-0x0d] as the packet opcode"
    );
}

#[test]
fn slot_decode_reconstructs_opcode_prefixed_server_packet() {
    let mut slot = vec![0u8; SERVER_PACKET_SLOT_SIZE as usize];
    slot[0] = ACTION_OPCODE;
    slot[1] = 1;
    slot[4..8].copy_from_slice(&0x0102_0304u32.to_le_bytes());
    slot[8] = ACTION_DIE;

    let packet = decode_server_packet_slot(&slot).expect("packet");

    assert_eq!(packet[0], ACTION_OPCODE);
    assert_eq!(&packet[1..6], &slot[4..9]);
}

#[test]
fn slot_decode_keeps_unknown_low_opcode_for_discovery() {
    let mut slot = vec![0u8; SERVER_PACKET_SLOT_SIZE as usize];
    slot[0] = 77;
    slot[1] = 1;
    slot[4] = 0xAB;

    let packet = decode_server_packet_slot(&slot).expect("packet");

    assert_eq!(packet[0], 77);
    assert_eq!(packet[1], 0xAB);
}

#[test]
fn raw_slot_decode_keeps_original_opcode_prefixed_packet() {
    let mut slot = vec![0u8; RAW_SERVER_PACKET_SLOT_SIZE as usize];
    slot[0] = ATTACK_OPCODE;
    slot[1] = 1;
    slot[4] = ATTACK_OPCODE;
    slot[5] = 0xCC;

    let packet = decode_raw_server_packet_slot(&slot).expect("packet");

    assert_eq!(packet[0], ATTACK_OPCODE);
    assert_eq!(packet[1], 0xCC);
}

#[test]
fn target_packet_events_mark_targets_recently_removed_or_dead() {
    let now = start();
    let mut state = PacketState::default();
    let action_target_id: u32 = 0x0BAD_0001;
    let remove_target_id: u32 = 0x0BAD_0002;
    let action = BotPacketEvent::Action { object_id: action_target_id, action: ACTION_DIE };
    let remove = BotPacketEvent::RemoveObject { object_id: remove_target_id };

    let counts = record_server_packet_events_at(&mut state, &vec![action, remove], now);

    assert_eq!(counts.action_die, 1);
    assert_eq!(counts.remove_object, 1);
    assert!(target_recently_removed_or_dead(
        &mut state,
        action_target_id,
        now + Duration::from_secs(3)
    ));
    assert!(target_recently_removed_or_dead(
        &mut state,
        remove_target_id,
        now + Duration::from_secs(3)
    ));
    assert!(!target_recently_removed_or_dead(
        &mut state,
        action_target_id,
        now + Duration::from_secs(5)
    ));
}

#[test]
fn attack_damage_packet_marks_target_recently_damaged() {
    let now = start();
    let mut state = PacketState::default();
    let target_id: u32 = 0x0BAD_1001;
    let attack = BotPacketEvent::Attack {
        attacker_id: 0x0BAD_2001,
        target_id,
        damage: 33,
    };

    let counts = record_server_packet_events_at(&mut state, &vec![attack], now);

    assert_eq!(counts.attack, 1);
    assert_eq!(counts.damaged_targets, 1);
    assert_eq!(counts.recent_attackers, 1);
    assert!(target_recently_damaged(
        &mut state,
        target_id,
        now + Duration::from_secs(3)
    ));
    assert!(!target_recently_damaged(
        &mut state,
        target_id,
        now + Duration::from_secs(7)
    ));
}

#[test]
fn attack_against_non_player_does_not_mark_recent_attacker_when_identity_known() {
    let now = start();
    let mut state = PacketState::default();
    let attacker_id: u32 = 0x0BAD_7001;
    let target_id: u32 = 0x0BAD_7002;
    let player_ids = PlayerAttackTargetIds {
        self_char_id: 0xD3,
        local_target_id: 0xBF,
        local_alt_id: 0,
    };
    let attack = BotPacketEvent::Attack {
        attacker_id,
        target_id,
        damage: 7,
    };

    let counts = record_server_packet_events_at_with_player_ids(
        &mut state,
        &vec![attack],
       
        now,
        player_ids,
    );

    assert_eq!(counts.attack, 1);
    assert_eq!(counts.damaged_targets, 1);
    assert_eq!(counts.recent_attackers, 0);
}

#[test]
fn attack_against_player_marks_recent_attacker_when_identity_known() {
    let now = start();
    let mut state = PacketState::default();
    let attacker_id: u32 = 0x0BAD_7101;
    let self_char_id: u32 = 0xD3;
    let player_ids = PlayerAttackTargetIds {
        self_char_id,
        local_target_id: 0xBF,
        local_alt_id: 0,
    };
    let attack = BotPacketEvent::Attack {
        attacker_id,
        target_id: self_char_id,
        damage: 5,
    };

    let counts = record_server_packet_events_at_with_player_ids(
        &mut state,
        &vec![attack],
       
        now,
        player_ids,
    );

    assert_eq!(counts.attack, 1);
    assert_eq!(counts.recent_attackers, 1);
}

#[test]
fn hp_meter_packet_marks_target_progress() {
    let now = start();
    let mut state = PacketState::default();
    let target_id: u32 = 0x0BAD_7201;
    let meter = BotPacketEvent::HpMeter { object_id: target_id, clear: false };

    let counts = record_server_packet_events_at(&mut state, &vec![meter], now);

    assert_eq!(counts.hp_meter, 1);
    assert_eq!(counts.damaged_targets, 0);
}

#[test]
fn range_skill_damage_packet_marks_caster_as_recent_attacker() {
    let now = start();
    let mut state = PacketState::default();
    let caster_id: u32 = 0x0BAD_3001;
    let target_id: u32 = 0x0BAD_4001;
    let skill = range_skill(caster_id, target_id);

    let counts = record_server_packet_events_at(&mut state, &vec![skill], now);

    assert_eq!(counts.range_skill, 1);
    assert_eq!(counts.damaged_targets, 1);
    assert_eq!(counts.recent_attackers, 1);
    assert!(
        recent_attackers(&mut state, now + Duration::from_secs(3)).contains(&caster_id),
        "range skill caster must be prioritized as a recent attacker"
    );
}

#[test]
fn range_skill_against_non_player_does_not_mark_recent_attacker_when_identity_known() {
    let now = start();
    let mut state = PacketState::default();
    let caster_id: u32 = 0x0BAD_7301;
    let monster_target_id: u32 = 0x0BAD_7302;
    let player_ids = PlayerAttackTargetIds {
        self_char_id: 0xD3,
        local_target_id: 0xBF,
        local_alt_id: 0,
    };
    let skill = range_skill(caster_id, monster_target_id);

    let counts = record_server_packet_events_at_with_player_ids(
        &mut state,
        &vec![skill],
       
        now,
        player_ids,
    );

    assert_eq!(counts.range_skill, 1);
    assert_eq!(counts.damaged_targets, 1);
    assert_eq!(counts.recent_attackers, 0);
}

#[test]
fn zero_damage_attack_does_not_mark_target_recently_damaged() {
    let now = start();
    let mut state = PacketState::default();
    let target_id: u32 = 0x0BAD_1002;
    let attack = BotPacketEvent::Attack {
        attacker_id: 0x0BAD_2002,
        target_id,
        damage: 0,
    };

    let counts = record_server_packet_events_at(&mut state, &vec![attack], now);

    assert_eq!(counts.attack, 1);
    assert_eq!(counts.damaged_targets, 0);
    assert_eq!(counts.recent_attackers, 1);
    assert!(!target_recently_damaged(&mut state, target_id, now));
}

#[test]
fn probe_diag_reports_hits_and_drained_deltas() {
    assert_eq!(
        format_probe_diag(
            42,
            7,
            0,
            0,
            6,
            6,
            0,
            &OpcodeCounts::new(),
            &OpcodeCounts::new(),
            &ParsedEventCounts::default(),
            &OpcodeSamples::new(),
            None,
            &OpcodeCounts::new()
        ),
        "[server-packet-hook] probe: total=42 delta=7 | drained=6 events=[none] (5s)"
    );
}

#[test]
fn probe_diag_includes_drained_opcode_counts_when_available() {
    let mut counts = OpcodeCounts::new();
    counts.insert(ATTACK_OPCODE, 2);
    counts.insert(77, 1);
    let mut events = ParsedEventCounts::default();
    events.attack = 2;
    events.damaged_targets = 2;
    events.recent_attackers = 2;

    assert_eq!(
        format_probe_diag(
            42,
            7,
            0,
            0,
            3,
            3,
            0,
            &counts,
            &OpcodeCounts::new(),
            &events,
            &OpcodeSamples::new(),
            None,
            &OpcodeCounts::new()
        ),
        "[server-packet-hook] probe: total=42 delta=7 | drained=3 opcodes=[30:2, 77:1] events=[Attack:2, Damage:2, Attacker:2] (5s)"
    );
}

#[test]
fn probe_diag_includes_payload_samples_when_available() {
    let mut counts = OpcodeCounts::new();
    counts.insert(153, 2);
    let mut samples = OpcodeSamples::new();
    samples.insert(153, "99AABBCC".to_string());
    samples.insert(153, "99112233".to_string());

    assert_eq!(
        format_probe_diag(
            42,
            7,
            0,
            0,
            2,
            2,
            0,
            &counts,
            &OpcodeCounts::new(),
            &ParsedEventCounts::default(),
            &samples,
            None,
            &OpcodeCounts::new()
        ),
        "[server-packet-hook] probe: total=42 delta=7 | drained=2 opcodes=[153:2] events=[none] samples=[153:99AABBCC|99112233] (5s)"
    );
}

#[test]
fn target_id_hits_finds_little_endian_id_in_unknown_opcode() {
    let target_id = 0x0BEC_05E9u32;
    let mut matching_packet = vec![153, 0xAA, 0xBB];
    matching_packet.extend_from_slice(&target_id.to_le_bytes());
    matching_packet.push(0xCC);
    let packets = vec![
        matching_packet,
        vec![153, 0xE9, 0x05, 0x00, 0x00],
        vec![30, 0x00, 0x00],
    ];

    let hits = target_id_hits(&packets, target_id);

    assert_eq!(hits.get(153), Some(1));
    assert_eq!(hits.get(30), None);
}

#[test]
fn probe_diag_includes_target_probe_hits_when_available() {
    let mut hits = OpcodeCounts::new();
    hits.insert(153, 2);

    assert_eq!(
        format_probe_diag(
            42,
            7,
            0,
            0,
            2,
            2,
            0,
            &OpcodeCounts::new(),
            &OpcodeCounts::new(),
            &ParsedEventCounts::default(),
            &OpcodeSamples::new(),
            Some(0x0BEC_05E9),
            &hits
        ),
        "[server-packet-hook] probe: total=42 delta=7 | drained=2 events=[none] target_probe=0x0BEC05E9 hits=[153:2] (5s)"
    );
}

#[test]
fn probe_diag_includes_target_probe_miss_when_target_is_configured() {
    assert_eq!(
        format_probe_diag(
            42,
            7,
            0,
            0,
            2,
            2,
            0,
            &OpcodeCounts::new(),
            &OpcodeCounts::new(),
            &ParsedEventCounts::default(),
            &OpcodeSamples::new(),
            Some(0x0BEC_05E9),
            &OpcodeCounts::new()
        ),
        "[server-packet-hook] probe: total=42 delta=7 | drained=2 events=[none] target_probe=0x0BEC05E9:none (5s)"
    );
}

fn cmp_opcode_pattern(opcode: u8) -> Vec<u8> {
    let mut pattern = vec![0x81, 0xBD];
    pattern.extend_from_slice(&(-0x60f4i32).to_le_bytes());
    pattern.extend_from_slice(&(opcode as u32).to_le_bytes());
    pattern
}
