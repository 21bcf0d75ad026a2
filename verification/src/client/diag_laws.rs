//! What is counted and shown of packets.
use crate::action::attack::{le32, read_word};
use crate::client::opcode_table::{
    ascending, capped_add, counts_merged, samples_merged, samples_with, with_count, with_sample,
    with_samples,
};
use crate::client::packet_diag::{
    hex_text, id_at, is_poll_recorded, mentions, mentions_counted, opcodes_counted,
    opcodes_sampled, sample_of, shown, with_poll, PollDiag, PollResult,
};
use crate::text::{hex_fixed, law_hex_fixed_reads_back};
use crate::time::Instant;
use vstd::prelude::*;

verus! {

/// No entry is for an opcode.
pub open spec fn lacks<V>(s: Seq<(u8, V)>, opcode: u8) -> bool {
    forall|i: int| 0 <= i < s.len() ==> (#[trigger] s[i]).0 != opcode
}

proof fn lemma_pushed<T>(s: Seq<T>, x: T, y: T)
    ensures
        s.push(x).contains(y) <==> s.contains(y) || y == x,
{
    if s.contains(y) {
        let k = choose|k: int| 0 <= k < s.len() && s[k] == y;
        assert(s.push(x)[k] == y);
    }
    if s.push(x).contains(y) {
        let k = choose|k: int| 0 <= k < s.len() + 1 && s.push(x)[k] == y;
        if k < s.len() {
            assert(s[k] == y);
        }
    }
    assert(s.push(x)[s.len() as int] == x);
}

/// A count is added to that of its opcode, in the order of opcodes; the counts of
/// others stay.
pub proof fn law_counts_add_up(s: Seq<(u8, usize)>, opcode: u8, n: usize, other: u8, c: usize)
    requires
        ascending(s),
    ensures
        ascending(with_count(s, opcode, n)),
        lacks(s, opcode) ==> with_count(s, opcode, n).contains((opcode, n)),
        s.contains((opcode, c)) && c + n <= usize::MAX ==> with_count(s, opcode, n).contains(
            (opcode, (c + n) as usize),
        ),
        s.contains((opcode, c)) && c + n > usize::MAX ==> with_count(s, opcode, n).contains(
            (opcode, usize::MAX),
        ),
        other != opcode ==> (with_count(s, opcode, n).contains((other, c)) <==> s.contains(
            (other, c),
        )),
        forall|x: u8| #[trigger] lacks(with_count(s, opcode, n), x) <==> lacks(s, x) && x != opcode,
    decreases s.len(),
{
    let r = with_count(s, opcode, n);
    if s.len() == 0 || s.last().0 < opcode {
        lemma_pushed(s, (opcode, n), (opcode, n));
        lemma_pushed(s, (opcode, n), (other, c));
        if s.contains((opcode, c)) {
            let k = choose|k: int| 0 <= k < s.len() && s[k] == (opcode, c);
            assert(s[k].0 <= s[s.len() - 1].0);
        }
        assert forall|i: int, j: int| 0 <= i < j < r.len() implies #[trigger] r[i].0
            < #[trigger] r[j].0 by {
            if j == s.len() && i < s.len() - 1 {
                assert(s[i].0 < s[s.len() - 1].0);
            }
        }
        assert forall|x: u8| #[trigger] lacks(r, x) <==> lacks(s, x) && x != opcode by {
            if lacks(r, x) {
                assert(r[s.len() as int].0 != x);
                assert forall|i: int| 0 <= i < s.len() implies (#[trigger] s[i]).0 != x by {
                    assert(r[i].0 != x);
                }
            }
        }
    } else {
        let rest = s.drop_last();
        let last = s.len() - 1;
        assert(s =~= rest.push(s.last()));
        assert(s.last() == s[last]);
        assert(ascending(rest)) by {
            assert forall|i: int, j: int| 0 <= i < j < rest.len() implies #[trigger] rest[i].0
                < #[trigger] rest[j].0 by {
                assert(s[i].0 < s[j].0);
            }
        }
        assert forall|i: int| 0 <= i < rest.len() implies (#[trigger] rest[i]).0 < s.last().0 by {
            assert(s[i].0 < s[last].0);
        }
        lemma_pushed(rest, s.last(), (other, c));
        lemma_pushed(rest, s.last(), (opcode, c));
        if s.last().0 == opcode {
            let e = (opcode, capped_add(s.last().1, n));
            lemma_pushed(rest, e, e);
            lemma_pushed(rest, e, (other, c));
            if rest.contains((opcode, c)) {
                let k = choose|k: int| 0 <= k < rest.len() && rest[k] == (opcode, c);
                assert(rest[k].0 < s.last().0);
            }
            assert forall|x: u8| #[trigger] lacks(r, x) <==> lacks(s, x) && x != opcode by {
                if lacks(r, x) {
                    assert(r[last].0 != x);
                    assert forall|i: int| 0 <= i < s.len() implies (#[trigger] s[i]).0 != x by {
                        if i < last {
                            assert(r[i].0 != x);
                        }
                    }
                }
                if lacks(s, x) && x != opcode {
                    assert forall|i: int| 0 <= i < r.len() implies (#[trigger] r[i]).0 != x by {
                        if i < last {
                            assert(s[i].0 != x);
                        }
                    }
                }
            }
            assert forall|i: int, j: int| 0 <= i < j < r.len() implies #[trigger] r[i].0
                < #[trigger] r[j].0 by {
                assert(s[i].0 < s[j].0);
            }
        } else {
            law_counts_add_up(rest, opcode, n, other, c);
            let u = with_count(rest, opcode, n);
            lemma_pushed(u, s.last(), (opcode, n));
            lemma_pushed(u, s.last(), (other, c));
            lemma_pushed(u, s.last(), (opcode, (c + n) as usize));
            lemma_pushed(u, s.last(), (opcode, usize::MAX));
            assert forall|x: u8| #[trigger] lacks(r, x) <==> lacks(s, x) && x != opcode by {
                assert(lacks(u, x) <==> lacks(rest, x) && x != opcode);
                if lacks(r, x) {
                    assert(r[u.len() as int].0 != x);
                    assert forall|i: int| 0 <= i < u.len() implies (#[trigger] u[i]).0 != x by {
                        assert(r[i].0 != x);
                    }
                    assert forall|i: int| 0 <= i < s.len() implies (#[trigger] s[i]).0 != x by {
                        if i < last {
                            assert(rest[i].0 != x);
                        }
                    }
                }
                if lacks(s, x) && x != opcode {
                    assert forall|i: int| 0 <= i < rest.len() implies (#[trigger] rest[i]).0 != x by {
                        assert(s[i].0 != x);
                    }
                    assert(s[last].0 != x);
                    assert forall|i: int| 0 <= i < r.len() implies (#[trigger] r[i]).0 != x by {
                        if i < u.len() {
                            assert(u[i].0 != x);
                        }
                    }
                }
            }
            if lacks(s, opcode) {
                assert(lacks(rest, opcode)) by {
                    assert forall|i: int| 0 <= i < rest.len() implies (#[trigger] rest[i]).0
                        != opcode by {
                        assert(s[i].0 != opcode);
                    }
                }
            }
            assert(forall|i: int| 0 <= i < u.len() ==> (#[trigger] u[i]).0 < s.last().0) by {
                assert forall|i: int| 0 <= i < u.len() implies (#[trigger] u[i]).0 < s.last().0 by {
                    let x = u[i].0;
                    if x >= s.last().0 {
                        assert(!lacks(u, x));
                        if x != opcode {
                            assert(!lacks(rest, x));
                            let k = choose|k: int| 0 <= k < rest.len() && rest[k].0 == x;
                            assert(rest[k].0 < s.last().0);
                        }
                    }
                }
            }
            assert forall|i: int, j: int| 0 <= i < j < r.len() implies #[trigger] r[i].0
                < #[trigger] r[j].0 by {
                if j < u.len() {
                    assert(u[i].0 < u[j].0);
                } else {
                    assert(u[i].0 < s.last().0);
                }
            }
        }
    }
}

/// The packets that begin with an opcode, and mention an id where one is asked for.
pub open spec fn packets_with(packets: Seq<Seq<u8>>, opcode: u8, id: Option<u32>) -> nat
    decreases packets.len(),
{
    if packets.len() == 0 {
        0
    } else {
        let p = packets.last();
        let hit = p.len() > 0 && p[0] == opcode && (id is Some ==> mentions(p, id->0));
        packets_with(packets.drop_last(), opcode, id) + (if hit {
            1nat
        } else {
            0nat
        })
    }
}

proof fn lemma_packets_with(packets: Seq<Seq<u8>>, opcode: u8, id: Option<u32>)
    ensures
        packets_with(packets, opcode, id) <= packets.len(),
    decreases packets.len(),
{
    if packets.len() > 0 {
        lemma_packets_with(packets.drop_last(), opcode, id);
    }
}

/// Every opcode is shown with the number of packets that begin with it, and none that
/// did not come.
pub proof fn law_opcodes_are_counted(packets: Seq<Seq<u8>>, opcode: u8)
    requires
        packets.len() <= usize::MAX,
    ensures
        ascending(opcodes_counted(packets)),
        packets_with(packets, opcode, None) == 0 <==> lacks(opcodes_counted(packets), opcode),
        packets_with(packets, opcode, None) > 0 ==> opcodes_counted(packets).contains(
            (opcode, packets_with(packets, opcode, None) as usize),
        ),
    decreases packets.len(),
{
    if packets.len() > 0 {
        let rest = packets.drop_last();
        let p = packets.last();
        law_opcodes_are_counted(rest, opcode);
        lemma_packets_with(rest, opcode, None);
        let before = opcodes_counted(rest);
        let c = packets_with(rest, opcode, None) as usize;
        if p.len() > 0 {
            law_counts_add_up(before, p[0], 1, opcode, c);
            assert(lacks(with_count(before, p[0], 1), opcode) <==> lacks(before, opcode) && opcode
                != p[0]);
        }
    }
}

/// The same of the packets that mention an id.
pub proof fn law_mentions_are_counted(packets: Seq<Seq<u8>>, id: u32, opcode: u8)
    requires
        packets.len() <= usize::MAX,
    ensures
        ascending(mentions_counted(packets, id)),
        packets_with(packets, opcode, Some(id)) == 0 <==> lacks(
            mentions_counted(packets, id),
            opcode,
        ),
        packets_with(packets, opcode, Some(id)) > 0 ==> mentions_counted(packets, id).contains(
            (opcode, packets_with(packets, opcode, Some(id)) as usize),
        ),
    decreases packets.len(),
{
    if packets.len() > 0 {
        let rest = packets.drop_last();
        let p = packets.last();
        law_mentions_are_counted(rest, id, opcode);
        lemma_packets_with(rest, opcode, Some(id));
        let before = mentions_counted(rest, id);
        let c = packets_with(rest, opcode, Some(id)) as usize;
        if p.len() > 0 && mentions(p, id) {
            law_counts_add_up(before, p[0], 1, opcode, c);
            assert(lacks(with_count(before, p[0], 1), opcode) <==> lacks(before, opcode) && opcode
                != p[0]);
        }
    }
}

/// A packet mentions an id where four bytes in a row, at any place, stand for it.
pub proof fn law_mentions(packet: Seq<u8>, id: u32, at: int)
    ensures
        0 <= at && at + 4 <= packet.len() && read_word(packet, at) == id ==> mentions(packet, id),
        mentions(packet, id) ==> exists|k: int|
            0 <= k && k + 4 <= packet.len() && #[trigger] read_word(packet, k) == id,
{
    crate::action::attack::law_word_reads_back(id);
    if 0 <= at && at + 4 <= packet.len() && read_word(packet, at) == id {
        let b = le32(id);
        let s = packet.subrange(at, at + 4);
        assert(s[0] == packet[at] && s[1] == packet[at + 1] && s[2] == packet[at + 2] && s[3]
            == packet[at + 3]);
        assert(read_word(b, 0) == id);
        assert(s =~= b) by {
            lemma_bytes_of(s[0], s[1], s[2], s[3], b[0], b[1], b[2], b[3]);
        }
        assert(id_at(packet, id, at));
    }
    if mentions(packet, id) {
        let k = choose|k: int| #[trigger] id_at(packet, id, k);
        let s = packet.subrange(k, k + 4);
        assert(s[0] == packet[k] && s[1] == packet[k + 1] && s[2] == packet[k + 2] && s[3]
            == packet[k + 3]);
        assert(read_word(packet, k) == id);
    }
}

proof fn lemma_bytes_of(a: u8, b: u8, c: u8, d: u8, e: u8, f: u8, g: u8, h: u8)
    requires
        a + 256 * b + 65_536 * c + 16_777_216 * d == e + 256 * f + 65_536 * g + 16_777_216 * h,
    ensures
        a == e && b == f && c == g && d == h,
{
}

/// Bytes are shown one after the other, each as two digits that read back, and no
/// more than are to be shown.
pub proof fn law_bytes_are_shown(bytes: Seq<u8>, n: nat, i: int)
    requires
        n <= bytes.len(),
    ensures
        hex_text(bytes, n).len() == 2 * n,
        0 <= i < n ==> hex_text(bytes, n).subrange(2 * i, 2 * i + 2) == hex_fixed(bytes[i] as nat, 2),
    decreases n,
{
    if n > 0 {
        let m = (n - 1) as nat;
        law_bytes_are_shown(bytes, m, i);
        law_hex_fixed_reads_back(bytes[n - 1] as nat);
        let t = hex_text(bytes, n);
        if i == n - 1 {
            assert(t.subrange(2 * i, 2 * i + 2) =~= hex_fixed(bytes[i] as nat, 2));
        } else if 0 <= i < n - 1 {
            assert(t.subrange(2 * i, 2 * i + 2) =~= hex_text(bytes, m).subrange(
                2 * i,
                2 * i + 2,
            ));
        }
    }
}

/// A sample shows the first twenty-four bytes.
pub proof fn law_sample(packet: Seq<u8>)
    ensures
        packet.len() <= 24 ==> sample_of(packet).len() == 2 * packet.len(),
        packet.len() > 24 ==> sample_of(packet).len() == 48,
        packet.len() > 24 ==> sample_of(packet) == hex_text(packet, 24),
{
    law_bytes_are_shown(packet, shown(packet.len(), 24), 0);
}

/// Up to three different samples are kept, the first ones.
pub proof fn law_samples_kept(have: Seq<Seq<char>>, sample: Seq<char>)
    ensures
        have.contains(sample) ==> samples_with(have, sample) == have,
        have.len() >= 3 ==> samples_with(have, sample) == have,
        have.len() < 3 && !have.contains(sample) ==> samples_with(have, sample) == have.push(sample),
{
}

/// The samples of one opcode are added to its own, and those of others stay.
pub proof fn law_samples_by_opcode(
    s: Seq<(u8, Seq<Seq<char>>)>,
    opcode: u8,
    sample: Seq<char>,
    other: u8,
    have: Seq<Seq<char>>,
)
    requires
        ascending(s),
    ensures
        lacks(s, opcode) ==> with_sample(s, opcode, sample).contains((opcode, seq![sample])),
        s.contains((opcode, have)) ==> with_sample(s, opcode, sample).contains(
            (opcode, samples_with(have, sample)),
        ),
        other != opcode ==> (with_sample(s, opcode, sample).contains((other, have)) <==> s.contains(
            (other, have),
        )),
    decreases s.len(),
{
    if s.len() == 0 || s.last().0 < opcode {
        lemma_pushed(s, (opcode, seq![sample]), (opcode, seq![sample]));
        lemma_pushed(s, (opcode, seq![sample]), (other, have));
        if s.contains((opcode, have)) {
            let k = choose|k: int| 0 <= k < s.len() && s[k] == (opcode, have);
            assert(s[k].0 <= s[s.len() - 1].0);
        }
    } else {
        let rest = s.drop_last();
        let last = s.len() - 1;
        assert(s =~= rest.push(s.last()));
        assert(s.last() == s[last]);
        assert forall|i: int| 0 <= i < rest.len() implies (#[trigger] rest[i]).0 < s.last().0 by {
            assert(s[i].0 < s[last].0);
        }
        assert(ascending(rest)) by {
            assert forall|i: int, j: int| 0 <= i < j < rest.len() implies #[trigger] rest[i].0
                < #[trigger] rest[j].0 by {
                assert(s[i].0 < s[j].0);
            }
        }
        lemma_pushed(rest, s.last(), (other, have));
        lemma_pushed(rest, s.last(), (opcode, have));
        if s.last().0 == opcode {
            let e = (opcode, samples_with(s.last().1, sample));
            lemma_pushed(rest, e, e);
            lemma_pushed(rest, e, (other, have));
            if rest.contains((opcode, have)) {
                let k = choose|k: int| 0 <= k < rest.len() && rest[k] == (opcode, have);
                assert(rest[k].0 < s.last().0);
            }
            if lacks(s, opcode) {
                assert(s[last].0 != opcode);
            }
        } else {
            law_samples_by_opcode(rest, opcode, sample, other, have);
            let u = with_sample(rest, opcode, sample);
            lemma_pushed(u, s.last(), (opcode, seq![sample]));
            lemma_pushed(u, s.last(), (opcode, samples_with(have, sample)));
            lemma_pushed(u, s.last(), (other, have));
            if lacks(s, opcode) {
                assert forall|i: int| 0 <= i < rest.len() implies (#[trigger] rest[i]).0
                    != opcode by {
                    assert(s[i].0 != opcode);
                }
            }
        }
    }
}

/// Tables are merged entry by entry, and samples one by one.
pub proof fn law_merged_in_turn(
    s: Seq<(u8, usize)>,
    a: Seq<(u8, usize)>,
    b: Seq<(u8, usize)>,
    opcode: u8,
    n: usize,
    t: Seq<(u8, Seq<Seq<char>>)>,
    x: Seq<(u8, Seq<Seq<char>>)>,
    y: Seq<(u8, Seq<Seq<char>>)>,
    sample: Seq<char>,
)
    ensures
        counts_merged(s, a + b) == counts_merged(counts_merged(s, a), b),
        counts_merged(s, seq![(opcode, n)]) == with_count(s, opcode, n),
        samples_merged(t, x + y) == samples_merged(samples_merged(t, x), y),
        samples_merged(t, seq![(opcode, seq![sample])]) == with_sample(t, opcode, sample),
    decreases b.len() + y.len(),
{
    assert(seq![(opcode, n)].drop_last() =~= Seq::<(u8, usize)>::empty());
    assert(counts_merged(s, Seq::<(u8, usize)>::empty()) == s);
    let one = seq![(opcode, seq![sample])];
    assert(one.drop_last() =~= Seq::<(u8, Seq<Seq<char>>)>::empty());
    assert(samples_merged(t, Seq::<(u8, Seq<Seq<char>>)>::empty()) == t);
    assert(seq![sample].drop_last() =~= Seq::<Seq<char>>::empty());
    assert(with_samples(t, opcode, Seq::<Seq<char>>::empty()) == t);
    assert(with_samples(t, opcode, seq![sample]) == with_sample(t, opcode, sample));
    if b.len() > 0 {
        assert((a + b).drop_last() =~= a + b.drop_last());
        law_merged_in_turn(s, a, b.drop_last(), opcode, n, t, x, y, sample);
    } else {
        assert(a + b =~= a);
        if y.len() > 0 {
            assert((x + y).drop_last() =~= x + y.drop_last());
            law_merged_in_turn(s, a, b, opcode, n, t, x, y.drop_last(), sample);
        } else {
            assert(x + y =~= x);
        }
    }
}

/// Samples of one opcode are added one after the other.
pub proof fn law_samples_in_turn(
    t: Seq<(u8, Seq<Seq<char>>)>,
    opcode: u8,
    a: Seq<Seq<char>>,
    b: Seq<Seq<char>>,
    sample: Seq<char>,
)
    ensures
        with_samples(t, opcode, a + b) == with_samples(with_samples(t, opcode, a), opcode, b),
        with_samples(t, opcode, seq![sample]) == with_sample(t, opcode, sample),
        with_samples(t, opcode, Seq::empty()) == t,
    decreases b.len(),
{
    assert(seq![sample].drop_last() =~= Seq::<Seq<char>>::empty());
    assert(with_samples(t, opcode, Seq::<Seq<char>>::empty()) == t);
    if b.len() > 0 {
        assert((a + b).drop_last() =~= a + b.drop_last());
        law_samples_in_turn(t, opcode, a, b.drop_last(), sample);
    } else {
        assert(a + b =~= a);
    }
}

/// Packets are sampled one by one; an empty one is passed over.
pub proof fn law_sampled_one_by_one(packets: Seq<Seq<u8>>, p: Seq<u8>)
    ensures
        p.len() > 0 ==> opcodes_sampled(packets.push(p)) == with_sample(
            opcodes_sampled(packets),
            p[0],
            sample_of(p),
        ),
        p.len() == 0 ==> opcodes_sampled(packets.push(p)) == opcodes_sampled(packets),
{
    assert(packets.push(p).drop_last() =~= packets);
}

/// A line is written every five seconds from the first poll on, and counting then
/// begins anew; until then polls add up.
pub proof fn law_probe_line(
    before: PollDiag,
    p: PollResult,
    total: u32,
    raw_total: u32,
    now: Instant,
    after: PollDiag,
    line: Option<String>,
)
    requires
        is_poll_recorded(before, p, total, raw_total, now, after, line),
        before.drained_since_last + p.drained <= usize::MAX,
        before.drained_low_since_last + p.drained_low <= usize::MAX,
        before.drained_raw_since_last + p.drained_raw <= usize::MAX,
    ensures
        line is Some <==> before.last_log is Some && now.nanos >= before.last_log->0.nanos
            + 5_000_000_000,
        line is Some ==> {
            &&& after.drained_since_last == 0 && after.drained_low_since_last == 0
                && after.drained_raw_since_last == 0
            &&& after.last_log == Some(now)
        },
        line is None ==> {
            &&& after.drained_since_last == before.drained_since_last + p.drained
            &&& after.drained_low_since_last == before.drained_low_since_last + p.drained_low
            &&& after.drained_raw_since_last == before.drained_raw_since_last + p.drained_raw
        },
        before.last_log is None ==> after.last_log == Some(now),
        before.last_log is Some && line is None ==> after.last_log == before.last_log,
        line is Some || before.last_log is None ==> after.last_total_hits == total
            && after.last_raw_total_hits == raw_total,
        p.target_probe_hits is Some ==> after.target_probe_id == Some((p.target_probe_hits->0).0),
        p.target_probe_hits is None ==> after.target_probe_id is None,
{
    let v = with_poll(before@, p);
    assert(after@.drained == after.drained_since_last);
    assert(after@.drained_low == after.drained_low_since_last);
    assert(after@.drained_raw == after.drained_raw_since_last);
    assert(after@.probe_id == after.target_probe_id);
}

} // verus!
