//! Mirroring the server's packets: the code that copies each packet into a
//! ring, where that code and its rings lie, and reading the rings.
use crate::action::attack::{emit, emit_u32, law_word_reads_back, le32, read_word};
use crate::text::{hex_fixed, join, joined, push_hex_fixed};
use vstd::prelude::*;

verus! {

/// Where the client dispatches packets with a low opcode.
pub const LOW_OPCODE_HOOK_ADDR: u32 = 0x0053_9394;

/// The instruction that stands there.
pub const LOW_OPCODE_ORIGINAL_BYTES: [u8; 6] = [0x8B, 0x85, 0x0C, 0x9F, 0xFF, 0xFF];

/// The client's table of packet handlers.
pub const PROCESS_PACKET_DISPATCH_TABLE: u32 = 0x0054_15B4;

/// Where the opcode lies from the frame pointer, in two's complement.
pub const OPCODE_EBP_OFFSET: u32 = 0xFFFF_9F0C;

/// Where the address of the packet lies from the frame pointer.
pub const PACKET_PTR_EBP_OFFSET: u8 = 8;

/// Where the client takes in every packet.
pub const RAW_PACKET_DISPATCH_ADDR: u32 = 0x0054_4A20;

/// The instructions that stand there.
pub const RAW_PACKET_ORIGINAL_BYTES: [u8; 6] = [0x55, 0x8B, 0xEC, 0x83, 0xEC, 0x1C];

/// Bytes that are replaced at either place.
pub const HOOK_LEN: usize = 6;

/// Payload bytes of a packet that are kept.
pub const SERVER_PACKET_PAYLOAD_MAX: u32 = 80;

/// A slot of the ring: opcode, a mark, a gap, and the payload.
pub const SERVER_PACKET_SLOT_SIZE: u32 = 84;

pub const RAW_SERVER_PACKET_PAYLOAD_MAX: u32 = 96;

pub const RAW_SERVER_PACKET_SLOT_SIZE: u32 = 100;

/// Every low opcode is mirrored.
pub const MIRROR_ALL_LOW_OPCODES_FOR_DISCOVERY: bool = true;

pub const SERVER_PACKET_RING_SLOTS: u32 = 32;

pub const RAW_SERVER_PACKET_RING_SLOTS: u32 = 128;

/// Memory set aside for the code and its rings.
pub const CODECAVE_SIZE: usize = 0x5000;

pub const OFF_TAIL: u32 = 0x200;

pub const OFF_TOTAL_HITS: u32 = 0x204;

pub const OFF_RING: u32 = 0x300;

pub const OFF_RAW_SHELLCODE: u32 = 0x1000;

pub const OFF_RAW_TAIL: u32 = 0x1200;

pub const OFF_RAW_TOTAL_HITS: u32 = 0x1204;

pub const OFF_RAW_RING: u32 = 0x1300;

/// Length of the mirroring code for low opcodes.
pub const LOW_CODE_LEN: usize = 73;

/// Length of the mirroring code for all packets.
pub const RAW_CODE_LEN: usize = 81;

/// Where the code lies, and how far its rings have been read.
#[derive(Debug, Clone, Copy, PartialEq, Eq, Structural)]
pub struct ServerPacketHookHandle {
    pub cave_addr: u32,
    pub local_head: u32,
    pub raw_local_head: u32,
}

/// Counts the packet, saves the registers, takes the next slot of the ring,
/// copies opcode, mark and payload into it, restores the registers, and goes on
/// as the client would have.
pub open spec fn low_code(cave: u32) -> Seq<u8> {
    seq![0xF0u8, 0xFFu8, 0x05u8] + le32((cave + OFF_TOTAL_HITS) as u32) + seq![
        0x60u8,
        0x9Cu8,
        0x8Bu8,
        0x0Du8,
    ] + le32((cave + OFF_TAIL) as u32) + seq![0xFFu8, 0x05u8] + le32((cave + OFF_TAIL) as u32)
        + seq![
        0x83u8,
        0xE1u8,
        (SERVER_PACKET_RING_SLOTS - 1) as u8,
        0x6Bu8,
        0xC9u8,
        SERVER_PACKET_SLOT_SIZE as u8,
        0x81u8,
        0xC1u8,
    ] + le32((cave + OFF_RING) as u32) + seq![0x8Au8, 0x85u8] + le32(OPCODE_EBP_OFFSET) + seq![
        0x88u8,
        0x01u8,
        0xC6u8,
        0x41u8,
        0x01u8,
        0x01u8,
        0x8Bu8,
        0x75u8,
        PACKET_PTR_EBP_OFFSET,
        0x8Du8,
        0x79u8,
        0x04u8,
        0xB9u8,
    ] + le32(SERVER_PACKET_PAYLOAD_MAX) + seq![0xF3u8, 0xA4u8, 0x9Du8, 0x61u8]
        + LOW_OPCODE_ORIGINAL_BYTES@ + seq![0xFFu8, 0x24u8, 0x85u8] + le32(
        PROCESS_PACKET_DISPATCH_TABLE,
    )
}

/// The code that mirrors packets with a low opcode.
pub fn build_server_packet_shellcode(cave: u32) -> (r: Vec<u8>)
    requires
        cave + OFF_RING <= u32::MAX,
    ensures
        r@ == low_code(cave),
        r@.len() == LOW_CODE_LEN,
{
    let tail_addr: u32 = cave + OFF_TAIL;
    let total_hits_addr: u32 = cave + OFF_TOTAL_HITS;
    let ring_addr: u32 = cave + OFF_RING;
    let mut sc: Vec<u8> = Vec::with_capacity(220);
    emit(&mut sc, vec![0xF0, 0xFF, 0x05]);
    emit_u32(&mut sc, total_hits_addr);
    emit(&mut sc, vec![0x60, 0x9C, 0x8B, 0x0D]);
    emit_u32(&mut sc, tail_addr);
    emit(&mut sc, vec![0xFF, 0x05]);
    emit_u32(&mut sc, tail_addr);
    emit(
        &mut sc,
        vec![
            0x83,
            0xE1,
            (SERVER_PACKET_RING_SLOTS - 1) as u8,
            0x6B,
            0xC9,
            SERVER_PACKET_SLOT_SIZE as u8,
            0x81,
            0xC1,
        ],
    );
    emit_u32(&mut sc, ring_addr);
    emit(&mut sc, vec![0x8A, 0x85]);
    emit_u32(&mut sc, OPCODE_EBP_OFFSET);
    emit(
        &mut sc,
        vec![
            0x88,
            0x01,
            0xC6,
            0x41,
            0x01,
            0x01,
            0x8B,
            0x75,
            PACKET_PTR_EBP_OFFSET,
            0x8D,
            0x79,
            0x04,
            0xB9,
        ],
    );
    emit_u32(&mut sc, SERVER_PACKET_PAYLOAD_MAX);
    emit(&mut sc, vec![0xF3, 0xA4, 0x9D, 0x61]);
    emit_original(&mut sc, &LOW_OPCODE_ORIGINAL_BYTES);
    emit(&mut sc, vec![0xFF, 0x24, 0x85]);
    emit_u32(&mut sc, PROCESS_PACKET_DISPATCH_TABLE);
    assert(sc@ =~= low_code(cave));
    sc
}

fn emit_original(out: &mut Vec<u8>, bytes: &[u8; 6])
    ensures
        final(out)@ == old(out)@ + bytes@,
{
    emit(out, vec![bytes[0], bytes[1], bytes[2], bytes[3], bytes[4], bytes[5]]);
    assert(final(out)@ =~= old(out)@ + bytes@);
}

/// What leads from one address to another, modulo all addresses.
pub open spec fn displacement(from: int, to: int) -> u32 {
    ((to - from) % 0x1_0000_0000) as u32
}

fn rel32(from: u32, to: u32) -> (r: u32)
    ensures
        r == displacement(from as int, to as int),
{
    if to >= from {
        to - from
    } else {
        ((0x1_0000_0000u64 - from as u64) + to as u64) as u32
    }
}

/// The same for every packet, with the address of the packet taken from the
/// stack, a slot left unmarked where there is none, and a jump back behind the
/// replaced instructions.
pub open spec fn raw_code(cave: u32) -> Seq<u8> {
    seq![0xF0u8, 0xFFu8, 0x05u8] + le32((cave + OFF_RAW_TOTAL_HITS) as u32) + seq![
        0x60u8,
        0x9Cu8,
        0x8Bu8,
        0x0Du8,
    ] + le32((cave + OFF_RAW_TAIL) as u32) + seq![0xFFu8, 0x05u8] + le32(
        (cave + OFF_RAW_TAIL) as u32,
    ) + seq![
        0x83u8,
        0xE1u8,
        (RAW_SERVER_PACKET_RING_SLOTS - 1) as u8,
        0x6Bu8,
        0xC9u8,
        RAW_SERVER_PACKET_SLOT_SIZE as u8,
        0x81u8,
        0xC1u8,
    ] + le32((cave + OFF_RAW_RING) as u32) + seq![
        0x8Bu8,
        0x74u8,
        0x24u8,
        0x28u8,
        0x85u8,
        0xF6u8,
        0x74u8,
        0x14u8,
        0x8Au8,
        0x06u8,
        0x88u8,
        0x01u8,
        0xC6u8,
        0x41u8,
        0x01u8,
        0x01u8,
        0x8Du8,
        0x79u8,
        0x04u8,
        0xB9u8,
    ] + le32(RAW_SERVER_PACKET_PAYLOAD_MAX) + seq![
        0xF3u8,
        0xA4u8,
        0xEBu8,
        0x07u8,
        0xC6u8,
        0x01u8,
        0x00u8,
        0xC6u8,
        0x41u8,
        0x01u8,
        0x00u8,
        0x9Du8,
        0x61u8,
    ] + RAW_PACKET_ORIGINAL_BYTES@ + seq![0xE9u8] + le32(
        displacement(
            cave + OFF_RAW_SHELLCODE + RAW_CODE_LEN,
            RAW_PACKET_DISPATCH_ADDR + HOOK_LEN as int,
        ),
    )
}

/// The code that mirrors every packet.
pub fn build_raw_server_packet_shellcode(cave: u32) -> (r: Vec<u8>)
    requires
        cave + OFF_RAW_RING <= u32::MAX,
    ensures
        r@ == raw_code(cave),
        r@.len() == RAW_CODE_LEN,
{
    let raw_shellcode_addr: u32 = cave + OFF_RAW_SHELLCODE;
    let tail_addr: u32 = cave + OFF_RAW_TAIL;
    let total_hits_addr: u32 = cave + OFF_RAW_TOTAL_HITS;
    let ring_addr: u32 = cave + OFF_RAW_RING;
    let mut sc: Vec<u8> = Vec::with_capacity(180);
    emit(&mut sc, vec![0xF0, 0xFF, 0x05]);
    emit_u32(&mut sc, total_hits_addr);
    emit(&mut sc, vec![0x60, 0x9C, 0x8B, 0x0D]);
    emit_u32(&mut sc, tail_addr);
    emit(&mut sc, vec![0xFF, 0x05]);
    emit_u32(&mut sc, tail_addr);
    emit(
        &mut sc,
        vec![
            0x83,
            0xE1,
            (RAW_SERVER_PACKET_RING_SLOTS - 1) as u8,
            0x6B,
            0xC9,
            RAW_SERVER_PACKET_SLOT_SIZE as u8,
            0x81,
            0xC1,
        ],
    );
    emit_u32(&mut sc, ring_addr);
    emit(
        &mut sc,
        vec![
            0x8B,
            0x74,
            0x24,
            0x28,
            0x85,
            0xF6,
            0x74,
            0x14,
            0x8A,
            0x06,
            0x88,
            0x01,
            0xC6,
            0x41,
            0x01,
            0x01,
            0x8D,
            0x79,
            0x04,
            0xB9,
        ],
    );
    emit_u32(&mut sc, RAW_SERVER_PACKET_PAYLOAD_MAX);
    emit(
        &mut sc,
        vec![
            0xF3,
            0xA4,
            0xEB,
            0x07,
            0xC6,
            0x01,
            0x00,
            0xC6,
            0x41,
            0x01,
            0x00,
            0x9D,
            0x61,
        ],
    );
    emit_original(&mut sc, &RAW_PACKET_ORIGINAL_BYTES);
    emit(&mut sc, vec![0xE9]);
    assert(sc@.len() == RAW_CODE_LEN - 4);
    let next_ip: u32 = raw_shellcode_addr + sc.len() as u32 + 4;
    let return_addr: u32 = RAW_PACKET_DISPATCH_ADDR + HOOK_LEN as u32;
    emit_u32(&mut sc, rel32(next_ip, return_addr));
    assert(sc@ =~= raw_code(cave));
    sc
}

/// A jump from a hook site into the code, and what is left of the replaced
/// instruction filled up.
pub open spec fn hook_code(site: u32, target: int) -> Seq<u8> {
    seq![0xE9u8] + le32(displacement(site + 5, target)) + seq![0x90u8]
}

fn hook_bytes(site: u32, target: u32) -> (r: Vec<u8>)
    requires
        site + 5 <= u32::MAX,
    ensures
        r@ == hook_code(site, target as int),
        r@.len() == HOOK_LEN,
{
    let mut out: Vec<u8> = Vec::new();
    emit(&mut out, vec![0xE9]);
    emit_u32(&mut out, rel32(site + 5, target));
    emit(&mut out, vec![0x90]);
    assert(out@ =~= hook_code(site, target as int));
    out
}

/// Where a jump leads that stands at `site` and is followed by what comes after
/// its five bytes.
pub open spec fn jump_target(site: int, rel: u32) -> int {
    (site + 5 + rel) % 0x1_0000_0000
}

/// The jumps at both hook sites lead into the code, and the code for every
/// packet leads back behind the replaced instructions.
pub proof fn law_jumps_lead_there(cave: u32)
    requires
        cave + OFF_RAW_SHELLCODE <= u32::MAX,
    ensures
        jump_target(
            LOW_OPCODE_HOOK_ADDR as int,
            displacement(LOW_OPCODE_HOOK_ADDR + 5, cave as int),
        ) == cave,
        jump_target(
            RAW_PACKET_DISPATCH_ADDR as int,
            displacement(RAW_PACKET_DISPATCH_ADDR + 5, cave + OFF_RAW_SHELLCODE),
        ) == cave + OFF_RAW_SHELLCODE,
        jump_target(
            cave + OFF_RAW_SHELLCODE + RAW_CODE_LEN - 5,
            displacement(
                cave + OFF_RAW_SHELLCODE + RAW_CODE_LEN,
                RAW_PACKET_DISPATCH_ADDR + HOOK_LEN as int,
            ),
        ) == RAW_PACKET_DISPATCH_ADDR + HOOK_LEN,
{
}

/// The parts of the memory set aside do not overlap: each piece of code, each
/// counter and each ring ends before the next one begins.
pub proof fn law_cave_layout()
    ensures
        LOW_CODE_LEN <= OFF_TAIL,
        OFF_TAIL + 4 <= OFF_TOTAL_HITS,
        OFF_TOTAL_HITS + 4 <= OFF_RING,
        OFF_RING + SERVER_PACKET_RING_SLOTS * SERVER_PACKET_SLOT_SIZE <= OFF_RAW_SHELLCODE,
        OFF_RAW_SHELLCODE + RAW_CODE_LEN <= OFF_RAW_TAIL,
        OFF_RAW_TAIL + 4 <= OFF_RAW_TOTAL_HITS,
        OFF_RAW_TOTAL_HITS + 4 <= OFF_RAW_RING,
        OFF_RAW_RING + RAW_SERVER_PACKET_RING_SLOTS * RAW_SERVER_PACKET_SLOT_SIZE <= CODECAVE_SIZE,
{
}

/// Bytes in brackets, as two digits each.
pub open spec fn byte_list(bytes: Seq<u8>) -> Seq<char> {
    "["@ + joined(Seq::new(bytes.len(), |i: int| hex_fixed(bytes[i] as nat, 2)), ", "@) + "]"@
}

fn push_byte_list(out: &mut String, bytes: &[u8])
    ensures
        final(out)@ == old(out)@ + byte_list(bytes@),
{
    let mut parts: Vec<String> = Vec::new();
    let mut i: usize = 0;
    while i < bytes.len()
        invariant
            i <= bytes@.len(),
            parts@.len() == i,
            forall|j: int| 0 <= j < i ==> (#[trigger] parts@[j])@ == hex_fixed(bytes@[j] as nat, 2),
        decreases bytes@.len() - i,
    {
        let mut part = String::new();
        push_hex_fixed(&mut part, bytes[i] as u32, 2);
        assert(part@ =~= hex_fixed(bytes@[i as int] as nat, 2));
        parts.push(part);
        i = i + 1;
    }
    assert(crate::text::contents(parts@) =~= Seq::new(
        bytes@.len(),
        |i: int| hex_fixed(bytes@[i] as nat, 2),
    ));
    out.append("[");
    let list: String = join(&parts, ", ");
    out.append(list.as_str());
    out.append("]");
    assert(final(out)@ =~= old(out)@ + byte_list(bytes@));
}

/// What is said where a hook site holds something else than it should.
pub open spec fn mismatch_text(
    site: Seq<char>,
    addr: u32,
    expected: Seq<u8>,
    live: Seq<u8>,
) -> Seq<char> {
    "[server-packet-hook] "@ + site + " 0x"@ + hex_fixed(addr as nat, 8)
        + " bytes mismatch: expected "@ + byte_list(expected) + ", got "@ + byte_list(live)
}

fn mismatch_message(site: &str, addr: u32, expected: &[u8], live: &[u8]) -> (r: String)
    ensures
        r@ == mismatch_text(site@, addr, expected@, live@),
{
    let mut out = String::new();
    out.append("[server-packet-hook] ");
    out.append(site);
    out.append(" 0x");
    push_hex_fixed(&mut out, addr, 8);
    out.append(" bytes mismatch: expected ");
    push_byte_list(&mut out, expected);
    out.append(", got ");
    push_byte_list(&mut out, live);
    assert(out@ =~= mismatch_text(site@, addr, expected@, live@));
    out
}

fn same_bytes(a: &[u8], b: &[u8; 6]) -> (r: bool)
    ensures
        r == (a@ == b@),
{
    if a.len() != 6 {
        return false;
    }
    let mut i: usize = 0;
    while i < 6
        invariant
            i <= 6,
            a@.len() == 6,
            b@.len() == 6,
            forall|j: int| 0 <= j < i ==> a@[j] == b@[j],
        decreases 6 - i,
    {
        if a[i] != b[i] {
            return false;
        }
        i = i + 1;
    }
    assert(a@ =~= b@);
    true
}

/// Whether both hook sites hold what they should. If not, why.
pub fn check_hook_sites(live: &[u8], raw_live: &[u8]) -> (r: Result<(), String>)
    ensures
        match r {
            Ok(_) => live@ == LOW_OPCODE_ORIGINAL_BYTES@ && raw_live@ == RAW_PACKET_ORIGINAL_BYTES@,
            Err(message) => if live@ != LOW_OPCODE_ORIGINAL_BYTES@ {
                message@ == mismatch_text(
                    "hook site"@,
                    LOW_OPCODE_HOOK_ADDR,
                    LOW_OPCODE_ORIGINAL_BYTES@,
                    live@,
                )
            } else {
                raw_live@ != RAW_PACKET_ORIGINAL_BYTES@ && message@ == mismatch_text(
                    "raw hook site"@,
                    RAW_PACKET_DISPATCH_ADDR,
                    RAW_PACKET_ORIGINAL_BYTES@,
                    raw_live@,
                )
            },
        },
{
    if !same_bytes(live, &LOW_OPCODE_ORIGINAL_BYTES) {
        return Err(
            mismatch_message(
                "hook site",
                LOW_OPCODE_HOOK_ADDR,
                LOW_OPCODE_ORIGINAL_BYTES.as_slice(),
                live,
            ),
        );
    }
    if !same_bytes(raw_live, &RAW_PACKET_ORIGINAL_BYTES) {
        return Err(
            mismatch_message(
                "raw hook site",
                RAW_PACKET_DISPATCH_ADDR,
                RAW_PACKET_ORIGINAL_BYTES.as_slice(),
                raw_live,
            ),
        );
    }
    Ok(())
}

/// What has to be written where.
#[derive(Debug)]
pub struct HookPlan {
    /// Goes to the beginning of the memory set aside.
    pub shellcode: Vec<u8>,
    pub raw_shellcode_addr: u32,
    pub raw_shellcode: Vec<u8>,
    /// Goes to `LOW_OPCODE_HOOK_ADDR`.
    pub hook: Vec<u8>,
    /// Goes to `RAW_PACKET_DISPATCH_ADDR`.
    pub raw_hook: Vec<u8>,
    pub handle: ServerPacketHookHandle,
}

/// What has to be written to mirror packets into the memory at `cave`.
pub fn install(cave: u32) -> (r: HookPlan)
    requires
        cave + OFF_RAW_RING <= u32::MAX,
    ensures
        r.shellcode@ == low_code(cave),
        r.raw_shellcode_addr == cave + OFF_RAW_SHELLCODE,
        r.raw_shellcode@ == raw_code(cave),
        r.hook@ == hook_code(LOW_OPCODE_HOOK_ADDR, cave as int),
        r.raw_hook@ == hook_code(RAW_PACKET_DISPATCH_ADDR, cave + OFF_RAW_SHELLCODE),
        r.handle == (ServerPacketHookHandle { cave_addr: cave, local_head: 0, raw_local_head: 0 }),
        r.shellcode@.len() <= OFF_TAIL,
        OFF_RAW_SHELLCODE + r.raw_shellcode@.len() <= OFF_RAW_TAIL,
{
    let raw_shellcode_addr: u32 = cave + OFF_RAW_SHELLCODE;
    HookPlan {
        shellcode: build_server_packet_shellcode(cave),
        raw_shellcode_addr,
        raw_shellcode: build_raw_server_packet_shellcode(cave),
        hook: hook_bytes(LOW_OPCODE_HOOK_ADDR, cave),
        raw_hook: hook_bytes(RAW_PACKET_DISPATCH_ADDR, raw_shellcode_addr),
        handle: ServerPacketHookHandle { cave_addr: cave, local_head: 0, raw_local_head: 0 },
    }
}

/// The packet in a slot: its opcode and its payload. None where the slot is
/// short or not marked.
pub open spec fn low_packet(slot: Seq<u8>) -> Option<Seq<u8>> {
    if slot.len() < SERVER_PACKET_SLOT_SIZE || slot[1] != 1 {
        None
    } else {
        Some(seq![slot[0]] + slot.subrange(4, 4 + SERVER_PACKET_PAYLOAD_MAX))
    }
}

/// The same for a slot of the other ring, where the payload mostly begins with
/// the opcode already.
pub open spec fn raw_packet(slot: Seq<u8>) -> Option<Seq<u8>> {
    if slot.len() < RAW_SERVER_PACKET_SLOT_SIZE || slot[1] != 1 {
        None
    } else {
        let payload = slot.subrange(4, 4 + RAW_SERVER_PACKET_PAYLOAD_MAX);
        if payload[0] == slot[0] {
            Some(payload)
        } else {
            Some(seq![slot[0]] + payload)
        }
    }
}

pub open spec fn opt_bytes(p: Option<Vec<u8>>) -> Option<Seq<u8>> {
    match p {
        Some(v) => Some(v@),
        None => None,
    }
}

fn push_part(out: &mut Vec<u8>, s: &[u8], from: usize, to: usize)
    requires
        from <= to <= s@.len(),
    ensures
        final(out)@ == old(out)@ + s@.subrange(from as int, to as int),
{
    let ghost start = out@;
    let mut i: usize = from;
    assert(out@ =~= start + s@.subrange(from as int, i as int));
    while i < to
        invariant
            from <= i <= to <= s@.len(),
            out@ == start + s@.subrange(from as int, i as int),
        decreases to - i,
    {
        out.push(s[i]);
        assert(out@ =~= start + s@.subrange(from as int, i + 1));
        i = i + 1;
    }
}

pub fn decode_server_packet_slot(slot: &[u8]) -> (r: Option<Vec<u8>>)
    ensures
        opt_bytes(r) == low_packet(slot@),
{
    if slot.len() < SERVER_PACKET_SLOT_SIZE as usize || slot[1] != 1 {
        return None;
    }
    let mut packet: Vec<u8> = Vec::new();
    packet.push(slot[0]);
    push_part(&mut packet, slot, 4, 4 + SERVER_PACKET_PAYLOAD_MAX as usize);
    assert(packet@ =~= seq![slot@[0]] + slot@.subrange(4, 4 + SERVER_PACKET_PAYLOAD_MAX));
    Some(packet)
}

pub fn decode_raw_server_packet_slot(slot: &[u8]) -> (r: Option<Vec<u8>>)
    ensures
        opt_bytes(r) == raw_packet(slot@),
{
    if slot.len() < RAW_SERVER_PACKET_SLOT_SIZE as usize || slot[1] != 1 {
        return None;
    }
    let opcode: u8 = slot[0];
    let mut packet: Vec<u8> = Vec::new();
    if slot[4] != opcode {
        packet.push(opcode);
    }
    push_part(&mut packet, slot, 4, 4 + RAW_SERVER_PACKET_PAYLOAD_MAX as usize);
    proof {
        let payload = slot@.subrange(4, 4 + RAW_SERVER_PACKET_PAYLOAD_MAX);
        assert(payload[0] == slot@[4]);
        if slot@[4] != opcode {
            assert(packet@ =~= seq![slot@[0]] + payload);
        } else {
            assert(packet@ =~= payload);
        }
    }
    Some(packet)
}

/// A packet that was decoded begins with the opcode of its slot.
pub proof fn law_packets_begin_with_opcode(slot: Seq<u8>)
    ensures
        low_packet(slot) matches Some(p) ==> p.len() > 0 && p[0] == slot[0],
        raw_packet(slot) matches Some(p) ==> p.len() > 0 && p[0] == slot[0],
{
}

/// The slots that have been filled and not read, modulo all counts.
pub open spec fn ring_lag(head: u32, tail: u32) -> int {
    (tail - head) % 0x1_0000_0000
}

/// Where reading begins: where it left off, or, if the ring has been written
/// over since, as far back as the ring goes.
pub open spec fn ring_start(head: u32, tail: u32, slots: u32) -> u32 {
    if ring_lag(head, tail) > slots {
        displacement(slots as int, tail as int)
    } else {
        head
    }
}

/// How many slots there are to read.
pub open spec fn ring_count(head: u32, tail: u32, slots: u32) -> int {
    if ring_lag(head, tail) > slots {
        slots as int
    } else {
        ring_lag(head, tail)
    }
}

/// What there is to read of a ring.
#[derive(Debug, Clone, Copy, PartialEq, Eq, Structural)]
pub struct DrainPlan {
    pub start: u32,
    pub count: u32,
    /// The slots that have been filled since, where they are more than the ring
    /// has.
    pub overrun: Option<u32>,
}

/// What there is to read of a ring that has been read up to `head` and filled
/// up to `tail`.
pub fn drain_plan(head: u32, tail: u32, slots: u32) -> (r: DrainPlan)
    ensures
        r.start == ring_start(head, tail, slots),
        r.count == ring_count(head, tail, slots),
        r.overrun == (if ring_lag(head, tail) > slots {
            Some(ring_lag(head, tail) as u32)
        } else {
            None
        }),
{
    let lag: u32 = rel32(head, tail);
    if lag > slots {
        DrainPlan { start: rel32(slots, tail), count: slots, overrun: Some(lag) }
    } else {
        DrainPlan { start: head, count: lag, overrun: None }
    }
}

/// Reading what there is to read reaches the tail.
pub proof fn law_drain_reaches_tail(head: u32, tail: u32, slots: u32)
    ensures
        (ring_start(head, tail, slots) + ring_count(head, tail, slots)) % 0x1_0000_0000 == tail,
        0 <= ring_count(head, tail, slots) <= slots,
        ring_count(head, tail, slots) == 0 ==> head == tail || slots == 0,
{
}

/// The address of the slot for a count, in the ring for low opcodes.
pub fn slot_addr(cave: u32, count: u32) -> (r: u32)
    requires
        cave + OFF_RING + (SERVER_PACKET_RING_SLOTS - 1) * SERVER_PACKET_SLOT_SIZE <= u32::MAX,
    ensures
        r == cave + OFF_RING + (count % SERVER_PACKET_RING_SLOTS) * SERVER_PACKET_SLOT_SIZE,
        cave + OFF_RING <= r,
        r + SERVER_PACKET_SLOT_SIZE <= cave + OFF_RAW_SHELLCODE,
{
    cave + OFF_RING + (count % SERVER_PACKET_RING_SLOTS) * SERVER_PACKET_SLOT_SIZE
}

/// The same in the ring for every packet.
pub fn raw_slot_addr(cave: u32, count: u32) -> (r: u32)
    requires
        cave + OFF_RAW_RING + (RAW_SERVER_PACKET_RING_SLOTS - 1) * RAW_SERVER_PACKET_SLOT_SIZE
            <= u32::MAX,
    ensures
        r == cave + OFF_RAW_RING + (count % RAW_SERVER_PACKET_RING_SLOTS)
            * RAW_SERVER_PACKET_SLOT_SIZE,
        cave + OFF_RAW_RING <= r,
        r + RAW_SERVER_PACKET_SLOT_SIZE <= cave + CODECAVE_SIZE,
{
    cave + OFF_RAW_RING + (count % RAW_SERVER_PACKET_RING_SLOTS) * RAW_SERVER_PACKET_SLOT_SIZE
}

/// The contents of byte vectors.
pub open spec fn byte_views(s: Seq<Vec<u8>>) -> Seq<Seq<u8>> {
    Seq::new(s.len(), |i: int| s[i]@)
}

/// The packets in some slots, in their order.
pub open spec fn low_packets(slots: Seq<Seq<u8>>) -> Seq<Seq<u8>>
    decreases slots.len(),
{
    if slots.len() == 0 {
        seq![]
    } else {
        match low_packet(slots.last()) {
            Some(p) => low_packets(slots.drop_last()).push(p),
            None => low_packets(slots.drop_last()),
        }
    }
}

pub open spec fn raw_packets(slots: Seq<Seq<u8>>) -> Seq<Seq<u8>>
    decreases slots.len(),
{
    if slots.len() == 0 {
        seq![]
    } else {
        match raw_packet(slots.last()) {
            Some(p) => raw_packets(slots.drop_last()).push(p),
            None => raw_packets(slots.drop_last()),
        }
    }
}

/// Takes in the slots that were read, in their order from where reading begins.
/// Those that could not be read are left for the next time.
pub fn drain(handle: &mut ServerPacketHookHandle, tail: u32, slots: &Vec<Vec<u8>>) -> (r: Vec<
    Vec<u8>,
>)
    requires
        slots@.len() <= ring_count(old(handle).local_head, tail, SERVER_PACKET_RING_SLOTS),
    ensures
        byte_views(r@) == low_packets(byte_views(slots@)),
        *final(handle) == (ServerPacketHookHandle {
            local_head: ((ring_start(old(handle).local_head, tail, SERVER_PACKET_RING_SLOTS)
                + slots@.len()) % 0x1_0000_0000) as u32,
            ..*old(handle)
        }),
{
    let plan: DrainPlan = drain_plan(handle.local_head, tail, SERVER_PACKET_RING_SLOTS);
    let mut out: Vec<Vec<u8>> = Vec::new();
    let ghost views = byte_views(slots@);
    let mut i: usize = 0;
    assert(byte_views(out@) =~= low_packets(views.take(0)));
    while i < slots.len()
        invariant
            i <= slots@.len(),
            views == byte_views(slots@),
            byte_views(out@) == low_packets(views.take(i as int)),
        decreases slots@.len() - i,
    {
        assert(views.take(i + 1).drop_last() =~= views.take(i as int));
        let ghost before = out@;
        if let Some(packet) = decode_server_packet_slot(slots[i].as_slice()) {
            out.push(packet);
            assert(byte_views(out@) =~= byte_views(before).push(packet@));
        }
        i = i + 1;
    }
    assert(views.take(i as int) =~= views);
    handle.local_head = advance(plan.start, slots.len() as u32);
    out
}

fn advance(head: u32, n: u32) -> (r: u32)
    ensures
        r == (head + n) % 0x1_0000_0000,
{
    ((head as u64 + n as u64) % 0x1_0000_0000) as u32
}

/// The same for the ring for every packet.
pub fn drain_raw(handle: &mut ServerPacketHookHandle, tail: u32, slots: &Vec<Vec<u8>>) -> (r: Vec<
    Vec<u8>,
>)
    requires
        slots@.len() <= ring_count(old(handle).raw_local_head, tail, RAW_SERVER_PACKET_RING_SLOTS),
    ensures
        byte_views(r@) == raw_packets(byte_views(slots@)),
        *final(handle) == (ServerPacketHookHandle {
            raw_local_head: ((ring_start(
                old(handle).raw_local_head,
                tail,
                RAW_SERVER_PACKET_RING_SLOTS,
            ) + slots@.len()) % 0x1_0000_0000) as u32,
            ..*old(handle)
        }),
{
    let plan: DrainPlan = drain_plan(handle.raw_local_head, tail, RAW_SERVER_PACKET_RING_SLOTS);
    let mut out: Vec<Vec<u8>> = Vec::new();
    let ghost views = byte_views(slots@);
    let mut i: usize = 0;
    assert(byte_views(out@) =~= raw_packets(views.take(0)));
    while i < slots.len()
        invariant
            i <= slots@.len(),
            views == byte_views(slots@),
            byte_views(out@) == raw_packets(views.take(i as int)),
        decreases slots@.len() - i,
    {
        assert(views.take(i + 1).drop_last() =~= views.take(i as int));
        let ghost before = out@;
        if let Some(packet) = decode_raw_server_packet_slot(slots[i].as_slice()) {
            out.push(packet);
            assert(byte_views(out@) =~= byte_views(before).push(packet@));
        }
        i = i + 1;
    }
    assert(views.take(i as int) =~= views);
    handle.raw_local_head = advance(plan.start, slots.len() as u32);
    out
}

/// A packet is read from a slot that is marked as filled: its opcode, and then what
/// follows the mark. The raw packet begins with its opcode already, or gets it.
pub proof fn law_packets_as_filled(slot: Seq<u8>, i: int)
    ensures
        low_packet(slot) is Some <==> slot.len() >= 84 && slot[1] == 1,
        low_packet(slot) is Some ==> {
            &&& low_packet(slot)->0.len() == 81
            &&& low_packet(slot)->0[0] == slot[0]
            &&& 0 <= i < 80 ==> low_packet(slot)->0[i + 1] == slot[i + 4]
        },
        raw_packet(slot) is Some <==> slot.len() >= 100 && slot[1] == 1,
        raw_packet(slot) is Some && slot[4] == slot[0] ==> {
            &&& raw_packet(slot)->0.len() == 96
            &&& 0 <= i < 96 ==> raw_packet(slot)->0[i] == slot[i + 4]
        },
        raw_packet(slot) is Some && slot[4] != slot[0] ==> {
            &&& raw_packet(slot)->0.len() == 97
            &&& raw_packet(slot)->0[0] == slot[0]
            &&& 0 <= i < 96 ==> raw_packet(slot)->0[i + 1] == slot[i + 4]
        },
{
}

/// Packets are read slot by slot, in their order, and empty slots are passed over.
pub proof fn law_packets_slot_by_slot(a: Seq<Seq<u8>>, b: Seq<Seq<u8>>, slot: Seq<u8>)
    ensures
        low_packets(a + b) == low_packets(a) + low_packets(b),
        raw_packets(a + b) == raw_packets(a) + raw_packets(b),
        low_packet(slot) is Some ==> low_packets(seq![slot]) == seq![low_packet(slot)->0],
        low_packet(slot) is None ==> low_packets(seq![slot]).len() == 0,
        raw_packet(slot) is Some ==> raw_packets(seq![slot]) == seq![raw_packet(slot)->0],
        raw_packet(slot) is None ==> raw_packets(seq![slot]).len() == 0,
    decreases b.len(),
{
    assert(seq![slot].drop_last() =~= Seq::<Seq<u8>>::empty());
    assert(low_packets(Seq::<Seq<u8>>::empty()) =~= seq![]);
    assert(raw_packets(Seq::<Seq<u8>>::empty()) =~= seq![]);
    if low_packet(slot) is Some {
        assert(low_packets(seq![slot]) =~= seq![low_packet(slot)->0]);
    }
    if raw_packet(slot) is Some {
        assert(raw_packets(seq![slot]) =~= seq![raw_packet(slot)->0]);
    }
    if b.len() > 0 {
        assert((a + b).drop_last() =~= a + b.drop_last());
        law_packets_slot_by_slot(a, b.drop_last(), slot);
    } else {
        assert(a + b =~= a);
    }
    assert(low_packets(a + b) =~= low_packets(a) + low_packets(b));
    assert(raw_packets(a + b) =~= raw_packets(a) + raw_packets(b));
}

/// Every packet since the last time is read, from the first one on; where the ring
/// has been filled over, as many as it holds, up to the last.
pub proof fn law_nothing_is_skipped(head: u32, tail: u32, slots: u32)
    ensures
        0 <= ring_lag(head, tail) < 0x1_0000_0000,
        (head + ring_lag(head, tail)) % 0x1_0000_0000 == tail,
        ring_lag(head, tail) <= slots ==> ring_start(head, tail, slots) == head && ring_count(
            head,
            tail,
            slots,
        ) == ring_lag(head, tail),
        ring_lag(head, tail) > slots ==> ring_count(head, tail, slots) == slots && (ring_start(
            head,
            tail,
            slots,
        ) + slots) % 0x1_0000_0000 == tail,
{
    law_drain_reaches_tail(head, tail, slots);
}

/// A jump is written as its opcode and how far it leads from behind it.
pub proof fn law_hook_jumps(site: u32, target: u32)
    requires
        site + 5 <= u32::MAX,
    ensures
        ({
            let code = hook_code(site, target as int);
            &&& code.len() == 6 && code[0] == 0xE9 && code[5] == 0x90
            &&& (site + 5 + read_word(code, 1)) % 0x1_0000_0000 == target
        }),
{
    let d = displacement(site + 5, target as int);
    law_word_reads_back(d);
    let code = hook_code(site, target as int);
    assert(code.subrange(1, 5) =~= le32(d));
    assert(read_word(code, 1) == d);
}

/// The code at the first site counts the packet, takes the next slot of thirty-two,
/// each of eighty-four bytes, marks it, copies eighty bytes of the packet there, and
/// goes on as the client would have.
pub proof fn law_low_code(cave: u32)
    requires
        cave + OFF_RING <= u32::MAX,
    ensures
        ({
            let c = low_code(cave);
            &&& c.len() == 73
            &&& c[0] == 0xF0 && c[1] == 0xFF && c[2] == 0x05 && read_word(c, 3) == cave + 0x204
            &&& c[7] == 0x60 && c[8] == 0x9C
            &&& c[9] == 0x8B && c[10] == 0x0D && read_word(c, 11) == cave + 0x200
            &&& c[15] == 0xFF && c[16] == 0x05 && read_word(c, 17) == cave + 0x200
            &&& c[21] == 0x83 && c[22] == 0xE1 && c[23] == 31
            &&& c[24] == 0x6B && c[25] == 0xC9 && c[26] == 84
            &&& c[27] == 0x81 && c[28] == 0xC1 && read_word(c, 29) == cave + 0x300
            &&& c[33] == 0x8A && c[34] == 0x85 && read_word(c, 35) == 0xFFFF_9F0C
            &&& c[39] == 0x88 && c[40] == 0x01
            &&& c[41] == 0xC6 && c[42] == 0x41 && c[43] == 0x01 && c[44] == 0x01
            &&& c[45] == 0x8B && c[46] == 0x75 && c[47] == 8
            &&& c[48] == 0x8D && c[49] == 0x79 && c[50] == 0x04
            &&& c[51] == 0xB9 && read_word(c, 52) == 80
            &&& c[56] == 0xF3 && c[57] == 0xA4 && c[58] == 0x9D && c[59] == 0x61
            &&& c.subrange(60, 66) == seq![0x8Bu8, 0x85, 0x0C, 0x9F, 0xFF, 0xFF]
            &&& c[66] == 0xFF && c[67] == 0x24 && c[68] == 0x85 && read_word(c, 69) == 0x0054_15B4
        }),
{
    let c = low_code(cave);
    let hits = le32((cave + OFF_TOTAL_HITS) as u32);
    let tail = le32((cave + OFF_TAIL) as u32);
    let ring = le32((cave + OFF_RING) as u32);
    law_word_reads_back((cave + OFF_TOTAL_HITS) as u32);
    law_word_reads_back((cave + OFF_TAIL) as u32);
    law_word_reads_back((cave + OFF_RING) as u32);
    law_word_reads_back(OPCODE_EBP_OFFSET);
    law_word_reads_back(SERVER_PACKET_PAYLOAD_MAX);
    law_word_reads_back(PROCESS_PACKET_DISPATCH_TABLE);
    assert(c.subrange(3, 7) =~= hits);
    assert(c.subrange(11, 15) =~= tail);
    assert(c.subrange(17, 21) =~= tail);
    assert(c.subrange(29, 33) =~= ring);
    assert(c.subrange(35, 39) =~= le32(OPCODE_EBP_OFFSET));
    assert(c.subrange(52, 56) =~= le32(SERVER_PACKET_PAYLOAD_MAX));
    assert(c.subrange(60, 66) =~= LOW_OPCODE_ORIGINAL_BYTES@);
    assert(c.subrange(60, 66) =~= seq![0x8Bu8, 0x85, 0x0C, 0x9F, 0xFF, 0xFF]);
    assert(c.subrange(69, 73) =~= le32(PROCESS_PACKET_DISPATCH_TABLE));
    assert(read_word(c, 3) == read_word(hits, 0));
    assert(read_word(c, 11) == read_word(tail, 0));
    assert(read_word(c, 17) == read_word(tail, 0));
    assert(read_word(c, 29) == read_word(ring, 0));
}

/// The code at the second site does the same with a ring of a hundred and
/// twenty-eight slots of a hundred bytes, passes over a packet that is not there, and
/// jumps back behind what it replaced.
#[verifier::rlimit(60)]
pub proof fn law_raw_code(cave: u32)
    requires
        cave + OFF_RAW_RING <= u32::MAX,
    ensures
        ({
            let c = raw_code(cave);
            &&& c.len() == 81
            &&& c[0] == 0xF0 && c[1] == 0xFF && c[2] == 0x05 && read_word(c, 3) == cave + 0x1204
            &&& c[7] == 0x60 && c[8] == 0x9C
            &&& c[9] == 0x8B && c[10] == 0x0D && read_word(c, 11) == cave + 0x1200
            &&& c[15] == 0xFF && c[16] == 0x05 && read_word(c, 17) == cave + 0x1200
            &&& c[21] == 0x83 && c[22] == 0xE1 && c[23] == 127
            &&& c[24] == 0x6B && c[25] == 0xC9 && c[26] == 100
            &&& c[27] == 0x81 && c[28] == 0xC1 && read_word(c, 29) == cave + 0x1300
            &&& c[33] == 0x8B && c[34] == 0x74 && c[35] == 0x24 && c[36] == 0x28
            &&& c[37] == 0x85 && c[38] == 0xF6 && c[39] == 0x74 && c[40] == 0x14
            &&& c[41] == 0x8A && c[42] == 0x06 && c[43] == 0x88 && c[44] == 0x01
            &&& c[45] == 0xC6 && c[46] == 0x41 && c[47] == 0x01 && c[48] == 0x01
            &&& c[49] == 0x8D && c[50] == 0x79 && c[51] == 0x04
            &&& c[52] == 0xB9 && read_word(c, 53) == 96
            &&& c[57] == 0xF3 && c[58] == 0xA4 && c[59] == 0xEB && c[60] == 0x07
            &&& c[61] == 0xC6 && c[62] == 0x01 && c[63] == 0 && c[64] == 0xC6 && c[65] == 0x41
                && c[66] == 0x01 && c[67] == 0
            &&& c[68] == 0x9D && c[69] == 0x61
            &&& c.subrange(70, 76) == seq![0x55u8, 0x8B, 0xEC, 0x83, 0xEC, 0x1C]
            &&& c[76] == 0xE9 && (cave + 0x1000 + 81 + read_word(c, 77)) % 0x1_0000_0000
                == 0x0054_4A26
        }),
{
    let c = raw_code(cave);
    let hits = le32((cave + OFF_RAW_TOTAL_HITS) as u32);
    let tail = le32((cave + OFF_RAW_TAIL) as u32);
    let ring = le32((cave + OFF_RAW_RING) as u32);
    let back = displacement(
        cave + OFF_RAW_SHELLCODE + RAW_CODE_LEN,
        RAW_PACKET_DISPATCH_ADDR + HOOK_LEN as int,
    );
    law_word_reads_back((cave + OFF_RAW_TOTAL_HITS) as u32);
    law_word_reads_back((cave + OFF_RAW_TAIL) as u32);
    law_word_reads_back((cave + OFF_RAW_RING) as u32);
    law_word_reads_back(RAW_SERVER_PACKET_PAYLOAD_MAX);
    law_word_reads_back(back);
    law_jumps_lead_there(cave);
    assert(c.subrange(3, 7) =~= hits);
    assert(c.subrange(11, 15) =~= tail);
    assert(c.subrange(17, 21) =~= tail);
    assert(c.subrange(29, 33) =~= ring);
    assert(c.subrange(53, 57) =~= le32(RAW_SERVER_PACKET_PAYLOAD_MAX));
    assert(c.subrange(70, 76) =~= RAW_PACKET_ORIGINAL_BYTES@);
    assert(c.subrange(70, 76) =~= seq![0x55u8, 0x8B, 0xEC, 0x83, 0xEC, 0x1C]);
    assert(c.subrange(77, 81) =~= le32(back));
    assert(read_word(c, 3) == read_word(hits, 0));
    assert(read_word(c, 11) == read_word(tail, 0));
    assert(read_word(c, 17) == read_word(tail, 0));
    assert(read_word(c, 29) == read_word(ring, 0));
    assert(read_word(c, 77) == read_word(le32(back), 0));
}

} // verus!
