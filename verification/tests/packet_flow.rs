use hunt_bot::client::opcode_table::{OpcodeCounts, OpcodeSamples};
use hunt_bot::client::packet_diag::{
    PollDiag, PollResult, hex_prefix, opcode_counts, opcode_samples, poll, record_poll_diag,
};
use hunt_bot::client::packet_events::{ACTION_DIE, BotPacketEvent, RangeSkillTarget};
use hunt_bot::client::packet_state::{
    PacketState, PlayerAttackTargetIds, player_attack_target_ids, recent_attackers,
    record_server_packet_events_at, set_debug_target_id, target_recently_damaged,
    target_recently_removed_or_dead,
};
use hunt_bot::client::server_packet_hook::{
    CODECAVE_SIZE, LOW_OPCODE_HOOK_ADDR, LOW_OPCODE_ORIGINAL_BYTES, OFF_RAW_RING, OFF_RAW_SHELLCODE, OFF_RING,
    RAW_PACKET_DISPATCH_ADDR, RAW_PACKET_ORIGINAL_BYTES, RAW_SERVER_PACKET_RING_SLOTS,
    RAW_SERVER_PACKET_SLOT_SIZE, SERVER_PACKET_RING_SLOTS, SERVER_PACKET_SLOT_SIZE,
    ServerPacketHookHandle, build_raw_server_packet_shellcode, build_server_packet_shellcode,
    check_hook_sites, decode_raw_server_packet_slot, decode_server_packet_slot, drain, drain_plan,
    drain_raw, install, raw_slot_addr, slot_addr,
};
use hunt_bot::time::{Duration, Instant};

fn start() -> Instant {
    Instant::from_nanos(1_000_000_000_000_000)
}

const CAVE: u32 = 0x1000_0000;

#[test]
fn the_jumps_of_a_hook_lead_into_the_code() {
    let plan = install(CAVE);
    let target = |site: u32, hook: &[u8]| {
        assert_eq!(hook.len(), 6);
        assert_eq!(hook[0], 0xE9);
        assert_eq!(hook[5], 0x90);
        let rel = u32::from_le_bytes([hook[1], hook[2], hook[3], hook[4]]);
        (site + 5).wrapping_add(rel)
    };
    assert_eq!(target(LOW_OPCODE_HOOK_ADDR, &plan.hook), CAVE);
    assert_eq!(target(RAW_PACKET_DISPATCH_ADDR, &plan.raw_hook), CAVE + OFF_RAW_SHELLCODE);
    assert_eq!(plan.raw_shellcode_addr, CAVE + OFF_RAW_SHELLCODE);
    assert_eq!(plan.shellcode, build_server_packet_shellcode(CAVE));
    assert_eq!(plan.raw_shellcode, build_raw_server_packet_shellcode(CAVE));
    let code = &plan.raw_shellcode;
    let back = &code[code.len() - 5..];
    assert_eq!(back[0], 0xE9);
    let rel = u32::from_le_bytes([back[1], back[2], back[3], back[4]]);
    assert_eq!(
        (plan.raw_shellcode_addr + code.len() as u32).wrapping_add(rel),
        RAW_PACKET_DISPATCH_ADDR + 6
    );
    assert_eq!(plan.handle.cave_addr, CAVE);
    assert_eq!((plan.handle.local_head, plan.handle.raw_local_head), (0, 0));
}

#[test]
fn code_is_built_up_to_the_last_address_it_names() {
    let low = build_server_packet_shellcode(u32::MAX - OFF_RING);
    assert_eq!(low.len(), 73);
    assert_eq!(
        &low[low.len() - 13..],
        &[0x8B, 0x85, 0x0C, 0x9F, 0xFF, 0xFF, 0xFF, 0x24, 0x85, 0xB4, 0x15, 0x54, 0x00]
    );
    let cave = u32::MAX - OFF_RAW_RING;
    let raw = build_raw_server_packet_shellcode(cave);
    let n = raw.len();
    assert_eq!(n, 81);
    assert_eq!(&raw[n - 11..n - 5], &RAW_PACKET_ORIGINAL_BYTES);
    assert_eq!(raw[n - 5], 0xE9);
    let rel = u32::from_le_bytes([raw[n - 4], raw[n - 3], raw[n - 2], raw[n - 1]]);
    assert_eq!((cave + OFF_RAW_SHELLCODE + 81).wrapping_add(rel), 0x0054_4A26);
}

#[test]
fn hook_sites_must_hold_the_expected_code() {
    assert_eq!(check_hook_sites(&LOW_OPCODE_ORIGINAL_BYTES, &RAW_PACKET_ORIGINAL_BYTES), Ok(()));
    assert_eq!(
        check_hook_sites(&[0xE9, 0x00], &RAW_PACKET_ORIGINAL_BYTES),
        Err(
            "[server-packet-hook] hook site 0x00539394 bytes mismatch: expected [8B, 85, 0C, 9F, FF, FF], got [E9, 00]"
                .to_string()
        )
    );
    assert_eq!(
        check_hook_sites(&LOW_OPCODE_ORIGINAL_BYTES, &[]),
        Err(
            "[server-packet-hook] raw hook site 0x00544A20 bytes mismatch: expected [55, 8B, EC, 83, EC, 1C], got []"
                .to_string()
        )
    );
}

#[test]
fn a_ring_is_read_up_to_its_tail() {
    let plan = drain_plan(5, 8, 32);
    assert_eq!((plan.start, plan.count, plan.overrun), (5, 3, None));
    let round = drain_plan(u32::MAX, 2, 32);
    assert_eq!((round.start, round.count, round.overrun), (u32::MAX, 3, None));
    let full = drain_plan(0, 32, 32);
    assert_eq!((full.start, full.count, full.overrun), (0, 32, None));
    let over = drain_plan(0, 40, 32);
    assert_eq!((over.start, over.count, over.overrun), (8, 32, Some(40)));
    assert_eq!(drain_plan(7, 7, 32).count, 0);
}

#[test]
fn slots_lie_inside_the_rings() {
    assert_eq!(slot_addr(CAVE, 0), CAVE + 0x300);
    assert_eq!(slot_addr(CAVE, 33), CAVE + 0x300 + SERVER_PACKET_SLOT_SIZE);
    let last = raw_slot_addr(CAVE, RAW_SERVER_PACKET_RING_SLOTS - 1);
    assert!(last + RAW_SERVER_PACKET_SLOT_SIZE <= CAVE + CODECAVE_SIZE as u32);
}

fn slot(size: u32, opcode: u8, ready: u8, first: u8) -> Vec<u8> {
    let mut bytes = vec![0u8; size as usize];
    bytes[0] = opcode;
    bytes[1] = ready;
    bytes[4] = first;
    bytes
}

#[test]
fn draining_keeps_the_packets_and_moves_the_head() {
    let mut handle = ServerPacketHookHandle { cave_addr: CAVE, local_head: 5, raw_local_head: 9 };
    let slots = vec![
        slot(SERVER_PACKET_SLOT_SIZE, 30, 1, 0xAA),
        slot(SERVER_PACKET_SLOT_SIZE, 31, 0, 0xBB),
        slot(SERVER_PACKET_SLOT_SIZE, 32, 1, 0xCC),
    ];
    let packets = drain(&mut handle, 9, &slots);
    assert_eq!(packets.len(), 2, "a slot that is not ready holds no packet");
    assert_eq!(&packets[0][..2], &[30, 0xAA]);
    assert_eq!(&packets[1][..2], &[32, 0xCC]);
    assert_eq!(handle.local_head, 8, "the fourth slot is left for the next time");
    assert_eq!(handle.raw_local_head, 9);
    let raw = vec![slot(RAW_SERVER_PACKET_SLOT_SIZE, 40, 1, 0x01)];
    let packets = drain_raw(&mut handle, 10, &raw);
    assert_eq!(&packets[0][..2], &[40, 0x01]);
    assert_eq!(handle.raw_local_head, 10);
    assert!(SERVER_PACKET_RING_SLOTS < RAW_SERVER_PACKET_RING_SLOTS);
}

#[test]
fn decoded_packets_begin_with_their_opcode() {
    let low = decode_server_packet_slot(&slot(SERVER_PACKET_SLOT_SIZE, 7, 1, 8)).unwrap();
    assert_eq!(low[0], 7);
    let kept = decode_raw_server_packet_slot(&slot(RAW_SERVER_PACKET_SLOT_SIZE, 7, 1, 7)).unwrap();
    assert_eq!((kept[0], kept.len()), (7, 96));
    let added = decode_raw_server_packet_slot(&slot(RAW_SERVER_PACKET_SLOT_SIZE, 7, 1, 8)).unwrap();
    assert_eq!((added[0], added[1], added.len()), (7, 8, 97));
    assert_eq!(decode_server_packet_slot(&[7, 1]), None, "too short");
}

#[test]
fn dying_targets_count_however_they_are_reported() {
    let now = start();
    let mut state = PacketState::default();
    let events = vec![
        BotPacketEvent::PutObject { object_id: 7, status: ACTION_DIE },
        BotPacketEvent::PutObject { object_id: 8, status: 0 },
        BotPacketEvent::Action { object_id: 9, action: ACTION_DIE },
        BotPacketEvent::Action { object_id: 10, action: 1 },
        BotPacketEvent::MoveObject { object_id: 11 },
    ];
    let counts = record_server_packet_events_at(&mut state, &events, now);
    assert_eq!((counts.put_object_die, counts.action_die, counts.remove_object), (1, 1, 0));
    for (id, dead) in [(7, true), (8, false), (9, true), (10, false), (11, false)] {
        assert_eq!(target_recently_removed_or_dead(&mut state, id, now), dead, "target {id}");
    }
}

#[test]
fn only_the_hit_targets_of_a_range_skill_are_damaged() {
    let now = start();
    let mut state = PacketState::default();
    let target = |object_id, hit, damage| RangeSkillTarget { object_id, hit, damage };
    let events = vec![
        BotPacketEvent::RangeSkill {
            caster_id: 1,
            targets: vec![target(5, true, 77), target(6, false, 77), target(7, true, 0)],
        },
        BotPacketEvent::HpMeter { object_id: 8, clear: true },
        BotPacketEvent::HpMeter { object_id: 9, clear: false },
    ];
    let counts = record_server_packet_events_at(&mut state, &events, now);
    assert_eq!((counts.range_skill, counts.damaged_targets, counts.hp_meter), (1, 1, 2));
    for (id, damaged) in [(5, true), (6, false), (7, false), (8, false), (9, true)] {
        assert_eq!(target_recently_damaged(&mut state, id, now), damaged, "target {id}");
    }
}

#[test]
fn removed_targets_count_for_four_seconds() {
    let now = start();
    let mut state = PacketState::default();
    let removed = BotPacketEvent::RemoveObject { object_id: 7 };
    record_server_packet_events_at(&mut state, &vec![removed], now);
    assert!(target_recently_removed_or_dead(&mut state, 7, now + Duration::from_millis(3_999)));
    assert!(!target_recently_removed_or_dead(&mut state, 7, now + Duration::from_millis(4_000)));
    assert!(!target_recently_removed_or_dead(&mut state, 8, now));
}

fn attack(attacker_id: u32, target_id: u32, damage: u16) -> BotPacketEvent {
    BotPacketEvent::Attack { attacker_id, target_id, damage }
}

fn attack_packet(attacker: u32, target: u32, damage: u16) -> Vec<u8> {
    let mut packet = vec![30u8, 0];
    packet.extend_from_slice(&attacker.to_le_bytes());
    packet.extend_from_slice(&target.to_le_bytes());
    packet.extend_from_slice(&damage.to_le_bytes());
    packet.push(0);
    packet
}

#[test]
fn attacks_count_by_damage_and_by_who_is_hit() {
    let now = start();
    let mut state = PacketState::default();
    state.player_ids = player_attack_target_ids(Some(0xD3), Some(0x1000), Some(0xBF), None);
    assert_eq!(
        state.player_ids,
        PlayerAttackTargetIds { self_char_id: 0xD3, local_target_id: 0xBF, local_alt_id: 0 }
    );
    let events = vec![attack(1, 0xBF, 0), attack(2, 9, 5), attack(3, 0xD3, 5)];
    let counts = record_server_packet_events_at(&mut state, &events, now);
    assert_eq!((counts.attack, counts.damaged_targets, counts.recent_attackers), (3, 2, 2));
    let known = recent_attackers(&mut state, now + Duration::from_millis(9_999));
    assert!(known.contains(&1) && known.contains(&3) && !known.contains(&2));
    assert!(recent_attackers(&mut state, now + Duration::from_secs(10)).is_empty());
    assert!(target_recently_damaged(&mut state, 9, now + Duration::from_millis(4_999)));
    assert!(!target_recently_damaged(&mut state, 9, now + Duration::from_secs(5)));
}

#[test]
fn without_a_player_no_local_ids_are_known() {
    assert_eq!(
        player_attack_target_ids(None, Some(0), Some(5), Some(6)),
        PlayerAttackTargetIds { self_char_id: 0, local_target_id: 0, local_alt_id: 0 }
    );
}

#[test]
fn opcodes_are_counted_in_their_order() {
    let packets = vec![vec![9, 1], vec![3], vec![9, 2], vec![]];
    let counts = opcode_counts(&packets);
    assert_eq!(counts.len(), 2);
    assert_eq!(counts.entry_at(0), (3, 1));
    assert_eq!(counts.entry_at(1), (9, 2));
    let samples = opcode_samples(&packets);
    assert_eq!(samples.opcode_at(1), 9);
    assert_eq!(samples.samples_at(1), &vec!["0901".to_string(), "0902".to_string()]);
    assert_eq!(hex_prefix(&[0xAB, 0x0C, 0xFF], 2), "AB0C");
}

#[test]
fn no_more_than_three_samples_are_kept() {
    let mut samples = OpcodeSamples::new();
    for text in ["a", "b", "a", "c", "d"] {
        samples.insert(5, text.to_string());
    }
    assert_eq!(samples.samples_at(0).len(), 3);
    assert_eq!(samples.samples_at(0)[2], "c");
    let mut more = OpcodeSamples::new();
    more.insert(4, "x".to_string());
    more.merge(&samples);
    assert_eq!(more.len(), 2);
    assert_eq!(more.opcode_at(0), 4);
}

fn quiet(probe: Option<u32>) -> PollResult {
    let mut state = PacketState::default();
    set_debug_target_id(&mut state, probe);
    poll(&mut state, Vec::new(), Vec::new(), &Vec::new(), start())
}

#[test]
fn a_poll_takes_in_what_the_packets_report() {
    let mut state = PacketState::default();
    let events = vec![BotPacketEvent::PutObject { object_id: 12, status: ACTION_DIE }];
    let found = poll(&mut state, vec![vec![87, 12, 0, 0, 0]], Vec::new(), &events, start());
    assert_eq!(found.parsed_events.put_object_die, 1);
    assert_eq!((found.drained, found.drained_low, found.drained_raw), (1, 1, 0));
    assert_eq!(found.target_probe_hits.is_none(), true);
    assert!(target_recently_removed_or_dead(&mut state, 12, start()));
}

#[test]
fn a_line_is_due_every_five_seconds_and_starts_over() {
    let now = start();
    let mut diag = PollDiag::default();
    let mut state = PacketState::default();
    set_debug_target_id(&mut state, Some(0x0BEC_05E9));
    let found = poll(
        &mut state,
        vec![attack_packet(1, 0x0BEC_05E9, 3)],
        vec![vec![77, 1]],
        &vec![attack(1, 0x0BEC_05E9, 3)],
        now,
    );
    assert_eq!((found.drained, found.drained_low, found.drained_raw), (2, 1, 1));
    assert_eq!(record_poll_diag(&mut diag, found, 100, 10, now), None, "the first sets the base");
    let soon = now + Duration::from_millis(4_999);
    assert_eq!(record_poll_diag(&mut diag, quiet(Some(0x0BEC_05E9)), 104, 11, soon), None);
    let due = now + Duration::from_secs(5);
    let line = record_poll_diag(&mut diag, quiet(Some(0x0BEC_05E9)), 107, 12, due).unwrap();
    assert_eq!(
        line,
        "[server-packet-hook] probe: total=107/12 delta=7/2 | drained=2 low=1 raw=1 opcodes=[30:1, 77:1] raw_opcodes=[77:1] events=[Attack:1, Damage:1, Attacker:1] samples=[30:1E0001000000E905EC0B030000, 77:4D01] target_probe=0x0BEC05E9 hits=[30:1] (5s)"
    );
    assert_eq!(diag.drained_since_last, 0);
    assert!(diag.drained_opcodes_since_last.is_empty());
    assert_eq!(diag.target_probe_id, Some(0x0BEC_05E9));
    record_poll_diag(&mut diag, quiet(None), 107, 12, due);
    assert_eq!(diag.target_probe_id, None, "hits of another target start from nothing");
}

#[test]
fn no_target_is_probed_under_the_id_zero() {
    let mut state = PacketState::default();
    set_debug_target_id(&mut state, Some(0));
    assert_eq!(state.debug_target_id, None);
    let mut counts = OpcodeCounts::new();
    counts.insert(5, usize::MAX);
    counts.insert(5, 3);
    assert_eq!(counts.get(5), Some(usize::MAX), "counts do not wrap");
}
