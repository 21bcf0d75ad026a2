//! What the log tells of the server's packets.
use crate::action::attack::le32;
use crate::client::opcode_table::{
    add_capped, capped_add, counts_merged, samples_merged, with_count, with_sample, OpcodeCounts,
    OpcodeSamples,
};
use crate::client::packet_events::BotPacketEvent;
use crate::client::packet_state::{
    counts_sum, event_views, events_taken_in, no_counts, record_server_packet_events_at, PacketState,
    ParsedEventCounts, Tally,
};
use crate::client::server_packet_hook::{byte_views, displacement};
use crate::text::{decimal, hex_fixed, join, joined, push_decimal, push_hex_fixed};
use crate::time::{elapsed, ms_nanos, Instant};
use vstd::prelude::*;

verus! {

/// Time between two lines of the log.
pub const PROBE_INTERVAL_MS: u64 = 5_000;

/// Bytes of a packet that a sample shows.
pub const SAMPLE_BYTES: usize = 24;

/// Opcodes that a line lists.
pub const LISTED_OPCODES: usize = 12;

/// Opcodes of which a line shows samples.
pub const SAMPLED_OPCODES: usize = 4;

/// The packets of each opcode.
pub open spec fn opcodes_counted(packets: Seq<Seq<u8>>) -> Seq<(u8, usize)>
    decreases packets.len(),
{
    if packets.len() == 0 {
        seq![]
    } else if packets.last().len() == 0 {
        opcodes_counted(packets.drop_last())
    } else {
        with_count(opcodes_counted(packets.drop_last()), packets.last()[0], 1)
    }
}

pub fn opcode_counts(packets: &Vec<Vec<u8>>) -> (r: OpcodeCounts)
    ensures
        r@ == opcodes_counted(byte_views(packets@)),
{
    let mut counts: OpcodeCounts = OpcodeCounts::new();
    let ghost views = byte_views(packets@);
    let mut i: usize = 0;
    assert(counts@ =~= opcodes_counted(views.take(0)));
    while i < packets.len()
        invariant
            i <= packets@.len(),
            views == byte_views(packets@),
            counts@ == opcodes_counted(views.take(i as int)),
        decreases packets@.len() - i,
    {
        assert(views.take(i + 1).drop_last() =~= views.take(i as int));
        assert(views[i as int] == packets@[i as int]@);
        if packets[i].len() > 0 {
            counts.insert(packets[i][0], 1);
        }
        i = i + 1;
    }
    assert(views.take(i as int) =~= views);
    counts
}

/// The first bytes, as two digits each.
pub open spec fn hex_text(bytes: Seq<u8>, n: nat) -> Seq<char>
    decreases n,
{
    if n == 0 {
        seq![]
    } else {
        hex_text(bytes, (n - 1) as nat) + hex_fixed(bytes[n - 1] as nat, 2)
    }
}

/// How many bytes a prefix shows.
pub open spec fn shown(len: nat, max_len: nat) -> nat {
    if len <= max_len {
        len
    } else {
        max_len
    }
}

pub fn hex_prefix(bytes: &[u8], max_len: usize) -> (r: String)
    ensures
        r@ == hex_text(bytes@, shown(bytes@.len(), max_len as nat)),
{
    let n: usize = if bytes.len() <= max_len {
        bytes.len()
    } else {
        max_len
    };
    let mut out = String::new();
    let mut i: usize = 0;
    while i < n
        invariant
            i <= n,
            n <= bytes@.len(),
            out@ == hex_text(bytes@, i as nat),
        decreases n - i,
    {
        push_hex_fixed(&mut out, bytes[i] as u32, 2);
        i = i + 1;
    }
    out
}

/// A sample of a packet.
pub open spec fn sample_of(packet: Seq<u8>) -> Seq<char> {
    hex_text(packet, shown(packet.len(), SAMPLE_BYTES as nat))
}

/// Samples of the packets of each opcode.
pub open spec fn opcodes_sampled(packets: Seq<Seq<u8>>) -> Seq<(u8, Seq<Seq<char>>)>
    decreases packets.len(),
{
    if packets.len() == 0 {
        seq![]
    } else if packets.last().len() == 0 {
        opcodes_sampled(packets.drop_last())
    } else {
        with_sample(
            opcodes_sampled(packets.drop_last()),
            packets.last()[0],
            sample_of(packets.last()),
        )
    }
}

pub fn opcode_samples(packets: &Vec<Vec<u8>>) -> (r: OpcodeSamples)
    ensures
        r@ == opcodes_sampled(byte_views(packets@)),
{
    let mut samples: OpcodeSamples = OpcodeSamples::new();
    let ghost views = byte_views(packets@);
    let mut i: usize = 0;
    assert(samples@ =~= opcodes_sampled(views.take(0)));
    while i < packets.len()
        invariant
            i <= packets@.len(),
            views == byte_views(packets@),
            samples@ == opcodes_sampled(views.take(i as int)),
        decreases packets@.len() - i,
    {
        assert(views.take(i + 1).drop_last() =~= views.take(i as int));
        assert(views[i as int] == packets@[i as int]@);
        if packets[i].len() > 0 {
            let sample: String = hex_prefix(packets[i].as_slice(), SAMPLE_BYTES);
            samples.insert(packets[i][0], sample);
        }
        i = i + 1;
    }
    assert(views.take(i as int) =~= views);
    samples
}

/// The id stands in the packet at `at`, lowest byte first.
pub open spec fn id_at(packet: Seq<u8>, id: u32, at: int) -> bool {
    0 <= at && at + 4 <= packet.len() && packet.subrange(at, at + 4) == le32(id)
}

/// The id stands somewhere in the packet.
pub open spec fn mentions(packet: Seq<u8>, id: u32) -> bool {
    exists|at: int| #[trigger] id_at(packet, id, at)
}

/// The packets of each opcode in which an id stands.
pub open spec fn mentions_counted(packets: Seq<Seq<u8>>, id: u32) -> Seq<(u8, usize)>
    decreases packets.len(),
{
    if packets.len() == 0 {
        seq![]
    } else if packets.last().len() == 0 || !mentions(packets.last(), id) {
        mentions_counted(packets.drop_last(), id)
    } else {
        with_count(mentions_counted(packets.drop_last(), id), packets.last()[0], 1)
    }
}

fn holds_id(packet: &[u8], id: u32) -> (r: bool)
    ensures
        r == mentions(packet@, id),
{
    let n: usize = packet.len();
    if n < 4 {
        assert forall|at: int| !#[trigger] id_at(packet@, id, at) by {}
        return false;
    }
    let mut needle: Vec<u8> = Vec::new();
    crate::action::attack::emit_u32(&mut needle, id);
    assert(needle@ =~= le32(id));
    let mut at: usize = 0;
    while at <= n - 4
        invariant
            n == packet@.len(),
            n >= 4,
            at <= n - 3,
            needle@ == le32(id),
            needle@.len() == 4,
            forall|j: int| 0 <= j < at ==> !#[trigger] id_at(packet@, id, j),
        decreases n - at,
    {
        let same: bool = packet[at] == needle[0] && packet[at + 1] == needle[1] && packet[at + 2]
            == needle[2] && packet[at + 3] == needle[3];
        let ghost window = packet@.subrange(at as int, at + 4);
        if same {
            assert(window =~= needle@);
            assert(id_at(packet@, id, at as int));
            return true;
        }
        assert(!id_at(packet@, id, at as int)) by {
            if window == needle@ {
                assert(window[0] == needle@[0] && window[1] == needle@[1] && window[2] == needle@[2]
                    && window[3] == needle@[3]);
            }
        }
        at = at + 1;
    }
    false
}

pub fn target_id_hits(packets: &Vec<Vec<u8>>, target_id: u32) -> (r: OpcodeCounts)
    ensures
        r@ == mentions_counted(byte_views(packets@), target_id),
{
    let mut hits: OpcodeCounts = OpcodeCounts::new();
    let ghost views = byte_views(packets@);
    let mut i: usize = 0;
    assert(hits@ =~= mentions_counted(views.take(0), target_id));
    while i < packets.len()
        invariant
            i <= packets@.len(),
            views == byte_views(packets@),
            hits@ == mentions_counted(views.take(i as int), target_id),
        decreases packets@.len() - i,
    {
        assert(views.take(i + 1).drop_last() =~= views.take(i as int));
        assert(views[i as int] == packets@[i as int]@);
        if packets[i].len() > 0 && holds_id(packets[i].as_slice(), target_id) {
            hits.insert(packets[i][0], 1);
        }
        i = i + 1;
    }
    assert(views.take(i as int) =~= views);
    hits
}

/// An entry of a list of counts.
pub open spec fn count_text(e: (u8, usize)) -> Seq<char> {
    decimal(e.0 as nat) + ":"@ + decimal(e.1 as nat)
}

/// The first entries of some counts.
pub open spec fn counts_text(s: Seq<(u8, usize)>) -> Seq<char> {
    joined(
        Seq::new(shown(s.len(), LISTED_OPCODES as nat), |i: int| count_text(s[i])),
        ", "@,
    )
}

fn format_counts(counts: &OpcodeCounts) -> (r: String)
    ensures
        r@ == counts_text(counts@),
{
    let n: usize = if counts.len() <= LISTED_OPCODES {
        counts.len()
    } else {
        LISTED_OPCODES
    };
    let mut parts: Vec<String> = Vec::new();
    let mut i: usize = 0;
    while i < n
        invariant
            i <= n,
            n <= counts@.len(),
            parts@.len() == i,
            forall|j: int| 0 <= j < i ==> (#[trigger] parts@[j])@ == count_text(counts@[j]),
        decreases n - i,
    {
        let e: (u8, usize) = counts.entry_at(i);
        let mut part = String::new();
        push_decimal(&mut part, e.0 as u64);
        part.append(":");
        push_decimal(&mut part, e.1 as u64);
        assert(part@ =~= count_text(counts@[i as int]));
        parts.push(part);
        i = i + 1;
    }
    assert(crate::text::contents(parts@) =~= Seq::new(
        shown(counts@.len(), LISTED_OPCODES as nat),
        |i: int| count_text(counts@[i]),
    ));
    join(&parts, ", ")
}

/// An entry of a list of samples.
pub open spec fn samples_entry_text(e: (u8, Seq<Seq<char>>)) -> Seq<char> {
    decimal(e.0 as nat) + ":"@ + joined(e.1, "|"@)
}

/// The first entries of some samples.
pub open spec fn samples_text(s: Seq<(u8, Seq<Seq<char>>)>) -> Seq<char> {
    joined(
        Seq::new(shown(s.len(), SAMPLED_OPCODES as nat), |i: int| samples_entry_text(s[i])),
        ", "@,
    )
}

fn format_samples(samples: &OpcodeSamples) -> (r: String)
    ensures
        r@ == samples_text(samples@),
{
    let n: usize = if samples.len() <= SAMPLED_OPCODES {
        samples.len()
    } else {
        SAMPLED_OPCODES
    };
    let mut parts: Vec<String> = Vec::new();
    let mut i: usize = 0;
    while i < n
        invariant
            i <= n,
            n <= samples@.len(),
            parts@.len() == i,
            forall|j: int| 0 <= j < i ==> (#[trigger] parts@[j])@ == samples_entry_text(samples@[j]),
        decreases n - i,
    {
        let mut part = String::new();
        push_decimal(&mut part, samples.opcode_at(i) as u64);
        part.append(":");
        let list: String = join(samples.samples_at(i), "|");
        part.append(list.as_str());
        assert(part@ =~= samples_entry_text(samples@[i as int]));
        parts.push(part);
        i = i + 1;
    }
    assert(crate::text::contents(parts@) =~= Seq::new(
        shown(samples@.len(), SAMPLED_OPCODES as nat),
        |i: int| samples_entry_text(samples@[i]),
    ));
    join(&parts, ", ")
}

/// The entries of a tally, for the kinds that there were.
pub open spec fn event_entries(c: ParsedEventCounts) -> Seq<Seq<char>> {
    event_entry("Attack"@, c.attack) + event_entry("RangeSkill"@, c.range_skill) + event_entry(
        "Remove"@,
        c.remove_object,
    ) + event_entry("ActionDie"@, c.action_die) + event_entry("PutDie"@, c.put_object_die)
        + event_entry("HpMeter"@, c.hp_meter) + event_entry("Damage"@, c.damaged_targets)
        + event_entry("Attacker"@, c.recent_attackers)
}

pub open spec fn event_entry(label: Seq<char>, count: usize) -> Seq<Seq<char>> {
    if count > 0 {
        seq![label + ":"@ + decimal(count as nat)]
    } else {
        seq![]
    }
}

fn push_count(entries: &mut Vec<String>, label: &str, count: usize)
    ensures
        crate::text::contents(final(entries)@) == crate::text::contents(old(entries)@)
            + event_entry(label@, count),
{
    let ghost before = crate::text::contents(entries@);
    if count > 0 {
        let mut part = String::new();
        part.append(label);
        part.append(":");
        push_decimal(&mut part, count as u64);
        assert(part@ =~= label@ + ":"@ + decimal(count as nat));
        entries.push(part);
    }
    assert(crate::text::contents(entries@) =~= before + event_entry(label@, count));
}

/// What the line says of the reports.
pub open spec fn events_text(c: ParsedEventCounts, drained: usize) -> Seq<char> {
    if c == no_counts() {
        if drained > 0 {
            " events=[none]"@
        } else {
            seq![]
        }
    } else {
        " events=["@ + joined(event_entries(c), ", "@) + "]"@
    }
}

fn format_event_counts(counts: &ParsedEventCounts, drained: usize) -> (r: String)
    ensures
        r@ == events_text(*counts, drained),
{
    if counts.is_empty() {
        return if drained > 0 {
            " events=[none]".to_owned()
        } else {
            String::new()
        };
    }
    let mut entries: Vec<String> = Vec::new();
    assert(crate::text::contents(entries@) =~= seq![]);
    push_count(&mut entries, "Attack", counts.attack);
    push_count(&mut entries, "RangeSkill", counts.range_skill);
    push_count(&mut entries, "Remove", counts.remove_object);
    push_count(&mut entries, "ActionDie", counts.action_die);
    push_count(&mut entries, "PutDie", counts.put_object_die);
    push_count(&mut entries, "HpMeter", counts.hp_meter);
    push_count(&mut entries, "Damage", counts.damaged_targets);
    push_count(&mut entries, "Attacker", counts.recent_attackers);
    assert(crate::text::contents(entries@) =~= event_entries(*counts));
    let mut out = String::new();
    out.append(" events=[");
    let list: String = join(&entries, ", ");
    out.append(list.as_str());
    out.append("]");
    assert(out@ =~= events_text(*counts, drained));
    out
}

/// What the line says of the target that is looked for.
pub open spec fn probe_text(target_id: Option<u32>, hits: Seq<(u8, usize)>) -> Seq<char> {
    match target_id {
        None => seq![],
        Some(id) => " target_probe=0x"@ + hex_fixed(id as nat, 8) + (if hits.len() == 0 {
            ":none"@
        } else {
            " hits=["@ + counts_text(hits) + "]"@
        }),
    }
}

fn format_target_probe(target_id: Option<u32>, hits: &OpcodeCounts) -> (r: String)
    ensures
        r@ == probe_text(target_id, hits@),
{
    let mut out = String::new();
    if let Some(id) = target_id {
        out.append(" target_probe=0x");
        push_hex_fixed(&mut out, id, 8);
        if hits.is_empty() {
            out.append(":none");
        } else {
            out.append(" hits=[");
            let list: String = format_counts(hits);
            out.append(list.as_str());
            out.append("]");
        }
    }
    assert(out@ =~= probe_text(target_id, hits@));
    out
}

/// What the line says of the totals.
pub open spec fn totals_text(
    total: u32,
    delta: u32,
    raw_total: u32,
    raw_delta: u32,
    drained_raw: usize,
) -> Seq<char> {
    if raw_total > 0 || raw_delta > 0 || drained_raw > 0 {
        "total="@ + decimal(total as nat) + "/"@ + decimal(raw_total as nat) + " delta="@ + decimal(
            delta as nat,
        ) + "/"@ + decimal(raw_delta as nat)
    } else {
        "total="@ + decimal(total as nat) + " delta="@ + decimal(delta as nat)
    }
}

fn format_totals(total: u32, delta: u32, raw_total: u32, raw_delta: u32, drained_raw: usize) -> (r:
    String)
    ensures
        r@ == totals_text(total, delta, raw_total, raw_delta, drained_raw),
{
    let both: bool = raw_total > 0 || raw_delta > 0 || drained_raw > 0;
    let mut out = String::new();
    out.append("total=");
    push_decimal(&mut out, total as u64);
    if both {
        out.append("/");
        push_decimal(&mut out, raw_total as u64);
    }
    out.append(" delta=");
    push_decimal(&mut out, delta as u64);
    if both {
        out.append("/");
        push_decimal(&mut out, raw_delta as u64);
    }
    assert(out@ =~= totals_text(total, delta, raw_total, raw_delta, drained_raw));
    out
}

/// What the line says of where the packets came from.
pub open spec fn sources_text(drained: usize, low: usize, raw: usize) -> Seq<char> {
    if raw > 0 || low != drained {
        " low="@ + decimal(low as nat) + " raw="@ + decimal(raw as nat)
    } else {
        seq![]
    }
}

/// A list in brackets behind its name, where it is not empty.
pub open spec fn listed(name: Seq<char>, empty: bool, list: Seq<char>) -> Seq<char> {
    if empty {
        seq![]
    } else {
        name + list + "]"@
    }
}

/// What was counted since the last line, as values.
#[verifier::ext_equal]
pub struct ProbeView {
    pub drained: usize,
    pub drained_low: usize,
    pub drained_raw: usize,
    pub opcodes: Seq<(u8, usize)>,
    pub raw_opcodes: Seq<(u8, usize)>,
    pub events: ParsedEventCounts,
    pub samples: Seq<(u8, Seq<Seq<char>>)>,
    pub probe_id: Option<u32>,
    pub probe_hits: Seq<(u8, usize)>,
}

/// The line that the log gets.
pub open spec fn probe_line(
    total: u32,
    delta: u32,
    raw_total: u32,
    raw_delta: u32,
    v: ProbeView,
) -> Seq<char> {
    "[server-packet-hook] probe: "@ + totals_text(total, delta, raw_total, raw_delta, v.drained_raw)
        + " | drained="@ + decimal(v.drained as nat) + sources_text(
        v.drained,
        v.drained_low,
        v.drained_raw,
    ) + listed(" opcodes=["@, v.opcodes.len() == 0, counts_text(v.opcodes)) + listed(
        " raw_opcodes=["@,
        v.raw_opcodes.len() == 0,
        counts_text(v.raw_opcodes),
    ) + events_text(v.events, v.drained) + listed(
        " samples=["@,
        v.samples.len() == 0,
        samples_text(v.samples),
    ) + probe_text(v.probe_id, v.probe_hits) + " (5s)"@
}

fn append_counts(out: &mut String, name: &str, counts: &OpcodeCounts)
    ensures
        final(out)@ == old(out)@ + listed(name@, counts@.len() == 0, counts_text(counts@)),
{
    if !counts.is_empty() {
        out.append(name);
        let list: String = format_counts(counts);
        out.append(list.as_str());
        out.append("]");
    }
    assert(final(out)@ =~= old(out)@ + listed(name@, counts@.len() == 0, counts_text(counts@)));
}

fn append_samples(out: &mut String, name: &str, samples: &OpcodeSamples)
    ensures
        final(out)@ == old(out)@ + listed(name@, samples@.len() == 0, samples_text(samples@)),
{
    if !samples.is_empty() {
        out.append(name);
        let list: String = format_samples(samples);
        out.append(list.as_str());
        out.append("]");
    }
    assert(final(out)@ =~= old(out)@ + listed(name@, samples@.len() == 0, samples_text(samples@)));
}

fn append_sources(out: &mut String, drained: usize, low: usize, raw: usize)
    ensures
        final(out)@ == old(out)@ + sources_text(drained, low, raw),
{
    if raw > 0 || low != drained {
        out.append(" low=");
        push_decimal(out, low as u64);
        out.append(" raw=");
        push_decimal(out, raw as u64);
    }
    assert(final(out)@ =~= old(out)@ + sources_text(drained, low, raw));
}

/// The line that the log gets.
pub fn format_probe_diag(
    total_hits: u32,
    hit_delta: u32,
    raw_total_hits: u32,
    raw_hit_delta: u32,
    drained: usize,
    drained_low: usize,
    drained_raw: usize,
    drained_opcodes: &OpcodeCounts,
    raw_opcodes: &OpcodeCounts,
    parsed_events: &ParsedEventCounts,
    drained_samples: &OpcodeSamples,
    target_probe_id: Option<u32>,
    target_probe_hits: &OpcodeCounts,
) -> (r: String)
    ensures
        r@ == probe_line(
            total_hits,
            hit_delta,
            raw_total_hits,
            raw_hit_delta,
            (ProbeView {
                drained,
                drained_low,
                drained_raw,
                opcodes: drained_opcodes@,
                raw_opcodes: raw_opcodes@,
                events: *parsed_events,
                samples: drained_samples@,
                probe_id: target_probe_id,
                probe_hits: target_probe_hits@,
            }),
        ),
{
    let mut out = String::new();
    out.append("[server-packet-hook] probe: ");
    let totals: String = format_totals(
        total_hits,
        hit_delta,
        raw_total_hits,
        raw_hit_delta,
        drained_raw,
    );
    out.append(totals.as_str());
    out.append(" | drained=");
    push_decimal(&mut out, drained as u64);
    append_sources(&mut out, drained, drained_low, drained_raw);
    append_counts(&mut out, " opcodes=[", drained_opcodes);
    append_counts(&mut out, " raw_opcodes=[", raw_opcodes);
    let events: String = format_event_counts(parsed_events, drained);
    out.append(events.as_str());
    append_samples(&mut out, " samples=[", drained_samples);
    let probe: String = format_target_probe(target_probe_id, target_probe_hits);
    out.append(probe.as_str());
    out.append(" (5s)");
    out
}

/// What was counted since the last line.
#[derive(Debug)]
pub struct PollDiag {
    pub last_log: Option<Instant>,
    pub last_total_hits: u32,
    pub last_raw_total_hits: u32,
    pub drained_since_last: usize,
    pub drained_low_since_last: usize,
    pub drained_raw_since_last: usize,
    pub drained_opcodes_since_last: OpcodeCounts,
    pub raw_opcodes_since_last: OpcodeCounts,
    pub parsed_events_since_last: ParsedEventCounts,
    pub drained_samples_since_last: OpcodeSamples,
    pub target_probe_id: Option<u32>,
    pub target_probe_hits_since_last: OpcodeCounts,
}

impl View for PollDiag {
    type V = ProbeView;

    open spec fn view(&self) -> ProbeView {
        ProbeView {
            drained: self.drained_since_last,
            drained_low: self.drained_low_since_last,
            drained_raw: self.drained_raw_since_last,
            opcodes: self.drained_opcodes_since_last@,
            raw_opcodes: self.raw_opcodes_since_last@,
            events: self.parsed_events_since_last,
            samples: self.drained_samples_since_last@,
            probe_id: self.target_probe_id,
            probe_hits: self.target_probe_hits_since_last@,
        }
    }
}

/// Nothing was counted, but the target that is looked for is known.
pub open spec fn nothing_counted(probe_id: Option<u32>) -> ProbeView {
    ProbeView {
        drained: 0,
        drained_low: 0,
        drained_raw: 0,
        opcodes: seq![],
        raw_opcodes: seq![],
        events: no_counts(),
        samples: seq![],
        probe_id,
        probe_hits: seq![],
    }
}

impl Default for PollDiag {
    fn default() -> (r: Self)
        ensures
            r.last_log is None,
            r.last_total_hits == 0,
            r.last_raw_total_hits == 0,
            r@ == nothing_counted(None),
    {
        let r = PollDiag {
            last_log: None,
            last_total_hits: 0,
            last_raw_total_hits: 0,
            drained_since_last: 0,
            drained_low_since_last: 0,
            drained_raw_since_last: 0,
            drained_opcodes_since_last: OpcodeCounts::new(),
            raw_opcodes_since_last: OpcodeCounts::new(),
            parsed_events_since_last: ParsedEventCounts::default(),
            drained_samples_since_last: OpcodeSamples::new(),
            target_probe_id: None,
            target_probe_hits_since_last: OpcodeCounts::new(),
        };
        assert(r@ =~= nothing_counted(None));
        r
    }
}

/// What one poll found.
#[derive(Debug)]
pub struct PollResult {
    pub drained: usize,
    pub drained_low: usize,
    pub drained_raw: usize,
    pub drained_opcodes: OpcodeCounts,
    pub raw_drained_opcodes: OpcodeCounts,
    pub parsed_events: ParsedEventCounts,
    pub drained_samples: OpcodeSamples,
    /// The target that is looked for and where it was found.
    pub target_probe_hits: Option<(u32, OpcodeCounts)>,
}

/// The counts with those of one poll. Hits of another target than before start
/// from nothing.
pub open spec fn with_poll(v: ProbeView, p: PollResult) -> ProbeView {
    let id = match p.target_probe_hits {
        Some(t) => Some(t.0),
        None => None,
    };
    let kept = if id == v.probe_id {
        v.probe_hits
    } else {
        seq![]
    };
    ProbeView {
        drained: capped_add(v.drained, p.drained),
        drained_low: capped_add(v.drained_low, p.drained_low),
        drained_raw: capped_add(v.drained_raw, p.drained_raw),
        opcodes: counts_merged(v.opcodes, p.drained_opcodes@),
        raw_opcodes: counts_merged(v.raw_opcodes, p.raw_drained_opcodes@),
        events: counts_sum(v.events, p.parsed_events),
        samples: samples_merged(v.samples, p.drained_samples@),
        probe_id: id,
        probe_hits: match p.target_probe_hits {
            Some(t) => counts_merged(kept, t.1@),
            None => kept,
        },
    }
}

/// It is time for another line.
pub open spec fn line_due(last_log: Option<Instant>, now: Instant) -> bool {
    last_log matches Some(t) && elapsed(now, t) >= ms_nanos(PROBE_INTERVAL_MS as int)
}

/// What `record_poll_diag` leaves and returns. The first poll sets the totals
/// that later ones are measured from; a line starts the counts over.
pub open spec fn is_poll_recorded(
    before: PollDiag,
    p: PollResult,
    total: u32,
    raw_total: u32,
    now: Instant,
    after: PollDiag,
    line: Option<String>,
) -> bool {
    let v = with_poll(before@, p);
    if before.last_log is None {
        &&& after@ == v
        &&& after.last_log == Some(now)
        &&& after.last_total_hits == total
        &&& after.last_raw_total_hits == raw_total
        &&& line is None
    } else if !line_due(before.last_log, now) {
        &&& after@ == v
        &&& after.last_log == before.last_log
        &&& after.last_total_hits == before.last_total_hits
        &&& after.last_raw_total_hits == before.last_raw_total_hits
        &&& line is None
    } else {
        &&& after@ == nothing_counted(v.probe_id)
        &&& after.last_log == Some(now)
        &&& after.last_total_hits == total
        &&& after.last_raw_total_hits == raw_total
        &&& line matches Some(text) && text@ == probe_line(
            total,
            displacement(before.last_total_hits as int, total as int),
            raw_total,
            displacement(before.last_raw_total_hits as int, raw_total as int),
            v,
        )
    }
}

fn same_id(a: Option<u32>, b: Option<u32>) -> (r: bool)
    ensures
        r == (a == b),
{
    match (a, b) {
        (Some(x), Some(y)) => x == y,
        (None, None) => true,
        _ => false,
    }
}

fn count_delta(now: u32, before: u32) -> (r: u32)
    ensures
        r == displacement(before as int, now as int),
{
    if now >= before {
        now - before
    } else {
        ((0x1_0000_0000u64 - before as u64) + now as u64) as u32
    }
}

/// Adds what one poll found. `total_hits` and `raw_total_hits` are all packets
/// that were ever mirrored. Gives out the line for the log when it is time.
pub fn record_poll_diag(
    diag: &mut PollDiag,
    poll: PollResult,
    total_hits: u32,
    raw_total_hits: u32,
    now: Instant,
) -> (r: Option<String>)
    ensures
        is_poll_recorded(*old(diag), poll, total_hits, raw_total_hits, now, *final(diag), r),
{
    diag.drained_since_last = add_capped(diag.drained_since_last, poll.drained);
    diag.drained_low_since_last = add_capped(diag.drained_low_since_last, poll.drained_low);
    diag.drained_raw_since_last = add_capped(diag.drained_raw_since_last, poll.drained_raw);
    diag.drained_opcodes_since_last.merge(&poll.drained_opcodes);
    diag.raw_opcodes_since_last.merge(&poll.raw_drained_opcodes);
    diag.parsed_events_since_last.add_assign(poll.parsed_events);
    diag.drained_samples_since_last.merge(&poll.drained_samples);
    let probe_id: Option<u32> = match &poll.target_probe_hits {
        Some(t) => Some(t.0),
        None => None,
    };
    if !same_id(diag.target_probe_id, probe_id) {
        diag.target_probe_id = probe_id;
        diag.target_probe_hits_since_last.clear();
        assert(diag.target_probe_hits_since_last@ =~= seq![]);
    }
    if let Some(t) = &poll.target_probe_hits {
        diag.target_probe_hits_since_last.merge(&t.1);
    }
    let ghost v = with_poll(old(diag)@, poll);
    assert(diag@ =~= v);
    let last_log: Instant = match diag.last_log {
        Some(t) => t,
        None => {
            diag.last_log = Some(now);
            diag.last_total_hits = total_hits;
            diag.last_raw_total_hits = raw_total_hits;
            assert(diag@ =~= v);
            return None;
        },
    };
    if now.within_ms(last_log, PROBE_INTERVAL_MS) {
        return None;
    }
    let line: String = format_probe_diag(
        total_hits,
        count_delta(total_hits, diag.last_total_hits),
        raw_total_hits,
        count_delta(raw_total_hits, diag.last_raw_total_hits),
        diag.drained_since_last,
        diag.drained_low_since_last,
        diag.drained_raw_since_last,
        &diag.drained_opcodes_since_last,
        &diag.raw_opcodes_since_last,
        &diag.parsed_events_since_last,
        &diag.drained_samples_since_last,
        diag.target_probe_id,
        &diag.target_probe_hits_since_last,
    );
    diag.last_log = Some(now);
    diag.last_total_hits = total_hits;
    diag.last_raw_total_hits = raw_total_hits;
    diag.drained_since_last = 0;
    diag.drained_low_since_last = 0;
    diag.drained_raw_since_last = 0;
    diag.drained_opcodes_since_last.clear();
    diag.raw_opcodes_since_last.clear();
    diag.parsed_events_since_last = ParsedEventCounts::default();
    diag.drained_samples_since_last.clear();
    diag.target_probe_hits_since_last.clear();
    assert(diag@ =~= nothing_counted(v.probe_id));
    Some(line)
}

/// Takes in the packets of both rings, of which `events` is what they report,
/// and says what there was.
pub fn poll(
    state: &mut PacketState,
    low_packets: Vec<Vec<u8>>,
    raw_packets: Vec<Vec<u8>>,
    events: &Vec<BotPacketEvent>,
    now: Instant,
) -> (r: PollResult)
    requires
        now.has_room(),
    ensures
        ({
            let all = byte_views(low_packets@) + byte_views(raw_packets@);
            &&& r.drained == all.len()
            &&& r.drained_low == low_packets@.len()
            &&& r.drained_raw == raw_packets@.len()
            &&& r.drained_opcodes@ == opcodes_counted(all)
            &&& r.raw_drained_opcodes@ == opcodes_counted(byte_views(raw_packets@))
            &&& r.drained_samples@ == opcodes_sampled(all)
            &&& (Tally { maps: final(state)@, counts: r.parsed_events }) == events_taken_in(
                Tally { maps: old(state)@, counts: no_counts() },
                event_views(events@),
                now,
                old(state).player_ids,
            )
            &&& match old(state).debug_target_id {
                Some(id) => r.target_probe_hits matches Some(t) && t.0 == id && t.1@
                    == mentions_counted(all, id),
                None => r.target_probe_hits is None,
            }
        }),
        final(state).player_ids == old(state).player_ids,
        final(state).debug_target_id == old(state).debug_target_id,
{
    let drained_low: usize = low_packets.len();
    let drained_raw: usize = raw_packets.len();
    let raw_drained_opcodes: OpcodeCounts = opcode_counts(&raw_packets);
    let ghost all = byte_views(low_packets@) + byte_views(raw_packets@);
    let mut packets: Vec<Vec<u8>> = low_packets;
    let mut rest: Vec<Vec<u8>> = raw_packets;
    packets.append(&mut rest);
    assert(byte_views(packets@) =~= all);
    let parsed_events: ParsedEventCounts = record_server_packet_events_at(state, events, now);
    let target_probe_hits: Option<(u32, OpcodeCounts)> = match state.debug_target_id {
        Some(id) => Some((id, target_id_hits(&packets, id))),
        None => None,
    };
    PollResult {
        drained: packets.len(),
        drained_low,
        drained_raw,
        drained_opcodes: opcode_counts(&packets),
        raw_drained_opcodes,
        parsed_events,
        drained_samples: opcode_samples(&packets),
        target_probe_hits,
    }
}

} // verus!
