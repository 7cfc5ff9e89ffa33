//! What a receiver can rely on in the packets of [`crate::rtp::RtpState::packetize`].
use vstd::prelude::*;

use crate::nal::{
    byte_stream, law_split_undoes_join, law_units_are_not_empty, nal_units, separable,
};
use crate::rtp::{
    be16, be32, fragment, fragment_count, fragment_start, fu_header, fu_indicator, header,
    nal_payloads, next_ts, packets, payloads, seq_after, FRAME_TICKS, HEADER, MTU, PT, SSRC,
};

verus! {

/// The marker bit of a packet.
pub open spec fn packet_marker(packet: Seq<u8>) -> bool {
    packet[1] & 0x80 != 0
}

/// The payload type of a packet.
pub open spec fn packet_type(packet: Seq<u8>) -> u8 {
    packet[1] & 0x7F
}

/// The sequence number of a packet.
pub open spec fn packet_seq(packet: Seq<u8>) -> int {
    packet[2] * 0x100 + packet[3]
}

/// A 32-bit number that stands in a packet, most significant byte first.
pub open spec fn packet_u32(packet: Seq<u8>, i: int) -> int {
    packet[i] * 0x1000000 + packet[i + 1] * 0x10000 + packet[i + 2] * 0x100 + packet[i + 3]
}

/// The timestamp of a packet.
pub open spec fn packet_ts(packet: Seq<u8>) -> int {
    packet_u32(packet, 4)
}

/// The source of a packet.
pub open spec fn packet_ssrc(packet: Seq<u8>) -> int {
    packet_u32(packet, 8)
}

/// What follows the header of a packet.
pub open spec fn packet_payload(packet: Seq<u8>) -> Seq<u8> {
    packet.skip(HEADER as int)
}

/// The fields of a packet read back as they were written.
pub proof fn law_header_reads_back(seq: u16, ts: u32, marker: bool, payload: Seq<u8>)
    ensures
        ({
            let packet = header(seq, ts, marker) + payload;
            &&& packet.len() == HEADER + payload.len()
            &&& packet[0] == 0x80
            &&& packet_marker(packet) == marker
            &&& packet_type(packet) == PT
            &&& packet_seq(packet) == seq
            &&& packet_ts(packet) == ts
            &&& packet_ssrc(packet) == SSRC
            &&& packet_payload(packet) == payload
        }),
{
    let packet = header(seq, ts, marker) + payload;
    assert((0x80u8 | 96u8) & 0x80 != 0 && (0x80u8 | 96u8) & 0x7F == 96u8 && 96u8 & 0x80 == 0
        && 96u8 & 0x7F == 96u8) by (bit_vector);
    assert(header(seq, ts, marker).len() == 12);
    assert(packet[2] == be16(seq)[0] && packet[3] == be16(seq)[1]);
    assert(packet[4] == be32(ts)[0] && packet[5] == be32(ts)[1] && packet[6] == be32(ts)[2]
        && packet[7] == be32(ts)[3]);
    assert(packet[8] == be32(SSRC)[0] && packet[9] == be32(SSRC)[1] && packet[10] == be32(SSRC)[2]
        && packet[11] == be32(SSRC)[3]);
    assert(packet_payload(packet) =~= payload);
}

/// The packets of one picture follow each other by sequence number from the first one on, share
/// its timestamp and its source, and carry the marker on the last packet alone.
pub proof fn law_packets_of_a_picture(seq: u16, ts: u32, carried: Seq<Seq<u8>>, i: int)
    requires
        0 <= i < carried.len(),
    ensures
        packet_seq(packets(seq, ts, carried)[i]) == (seq + i) % 0x10000,
        packet_ts(packets(seq, ts, carried)[i]) == ts,
        packet_ssrc(packets(seq, ts, carried)[i]) == SSRC,
        packet_type(packets(seq, ts, carried)[i]) == PT,
        packet_marker(packets(seq, ts, carried)[i]) <==> i == carried.len() - 1,
        packet_payload(packets(seq, ts, carried)[i]) == carried[i],
{
    law_header_reads_back(seq_after(seq, i as nat), ts, i == carried.len() - 1, carried[i]);
}

/// The state that packets are made in shows in the bytes of their sequence number and timestamp
/// alone.
pub proof fn law_state_shows_in_number_and_time(
    seq: u16,
    ts: u32,
    other_seq: u16,
    other_ts: u32,
    carried: Seq<Seq<u8>>,
    i: int,
    j: int,
)
    requires
        0 <= i < carried.len(),
        0 <= j < packets(seq, ts, carried)[i].len(),
        !(2 <= j < 8),
    ensures
        packets(seq, ts, carried)[i].len() == packets(other_seq, other_ts, carried)[i].len(),
        packets(seq, ts, carried)[i][j] == packets(other_seq, other_ts, carried)[i][j],
{
}

/// The numbering goes on from one picture to the next, whatever their timestamps.
pub proof fn law_numbering_continues(
    seq: u16,
    ts: u32,
    carried: Seq<Seq<u8>>,
    later: u32,
    next: Seq<Seq<u8>>,
    i: int,
)
    requires
        0 <= i < carried.len() + next.len(),
    ensures
        packet_seq(
            (packets(seq, ts, carried) + packets(
                seq_after(seq, carried.len()),
                later,
                next,
            ))[i],
        ) == (seq + i) % 0x10000,
{
    if i < carried.len() {
        law_packets_of_a_picture(seq, ts, carried, i);
    } else {
        law_packets_of_a_picture(
            seq_after(seq, carried.len()),
            later,
            next,
            i - carried.len(),
        );
    }
}

/// The timestamp after `n` ticks.
pub open spec fn ts_after(ts: u32, n: nat) -> u32
    decreases n,
{
    if n == 0 {
        ts
    } else {
        next_ts(ts_after(ts, (n - 1) as nat))
    }
}

/// Every tick moves the timestamp by the same amount, modulo its 32 bits, so that fifteen of them
/// make a second of the 90 kHz clock.
pub proof fn law_ticks(ts: u32, n: nat)
    ensures
        ts_after(ts, n) == (ts + n * FRAME_TICKS) % 0x100000000,
        15 * FRAME_TICKS == 90000,
    decreases n,
{
    if n > 0 {
        law_ticks(ts, (n - 1) as nat);
        assert(n * FRAME_TICKS == (n - 1) * FRAME_TICKS + FRAME_TICKS) by (nonlinear_arith);
    }
}

/// Every payload fits into a packet and is not empty, and every NAL unit has one.
proof fn lemma_payload_sizes(nals: Seq<Seq<u8>>)
    requires
        forall|k: int| 0 <= k < nals.len() ==> #[trigger] nals[k].len() > 0,
    ensures
        forall|i: int|
            0 <= i < payloads(nals).len() ==> 0 < (#[trigger] payloads(nals)[i]).len() <= MTU
                - HEADER,
        payloads(nals).len() >= nals.len(),
    decreases nals.len(),
{
    if nals.len() > 0 {
        let nal = nals.last();
        assert(nals[nals.len() - 1].len() > 0);
        lemma_payload_sizes(nals.drop_last());
        assert forall|k: int| 0 <= k < nal_payloads(nal).len() implies 0 < (
        #[trigger] nal_payloads(nal)[k]).len() <= MTU - HEADER by {
            if nal.len() > MTU - HEADER {
                assert(fragment_start(k) < nal.len());
                assert(nal_payloads(nal)[k] == fragment(nal, k));
            }
        }
        let before = payloads(nals.drop_last());
        assert forall|i: int| 0 <= i < payloads(nals).len() implies 0 < (
        #[trigger] payloads(nals)[i]).len() <= MTU - HEADER by {
            if i < before.len() {
                assert(payloads(nals)[i] == before[i]);
            } else {
                assert(payloads(nals)[i] == nal_payloads(nal)[i - before.len()]);
            }
        }
    }
}

/// No packet is larger than the MTU, none is without payload, and a picture that is not empty
/// gives at least one.
pub proof fn law_packets_fit(seq: u16, ts: u32, data: Seq<u8>)
    ensures
        forall|i: int|
            0 <= i < payloads(nal_units(data)).len() ==> HEADER < (#[trigger] packets(
                seq,
                ts,
                payloads(nal_units(data)),
            )[i]).len() <= MTU,
        payloads(nal_units(data)).len() == 0 <==> data.len() == 0,
{
    law_units_are_not_empty(data);
    lemma_payload_sizes(nal_units(data));
    let carried = payloads(nal_units(data));
    assert forall|i: int| 0 <= i < carried.len() implies HEADER < (#[trigger] packets(
        seq,
        ts,
        carried,
    )[i]).len() <= MTU by {
        law_packets_of_a_picture(seq, ts, carried, i);
        assert(carried[i].len() <= MTU - HEADER);
    }
}

/// What a receiver has put together: the NAL units that are whole, and the one whose fragments
/// are still arriving.
pub struct Reassembly {
    pub units: Seq<Seq<u8>>,
    pub partial: Seq<u8>,
}

/// Whether a payload is an FU-A fragment.
pub open spec fn is_fragment(payload: Seq<u8>) -> bool {
    payload[0] & 0x1F == 28
}

/// How RFC 6184 has a receiver take one payload.
pub open spec fn receive(r: Reassembly, payload: Seq<u8>) -> Reassembly {
    if is_fragment(payload) {
        let partial = if payload[1] & 0x80 != 0 {
            seq![payload[0] & 0xE0 | payload[1] & 0x1F] + payload.skip(2)
        } else {
            r.partial + payload.skip(2)
        };
        if payload[1] & 0x40 != 0 {
            Reassembly { units: r.units.push(partial), partial: seq![] }
        } else {
            Reassembly { units: r.units, partial }
        }
    } else {
        Reassembly { units: r.units.push(payload), partial: r.partial }
    }
}

/// A receiver that takes payloads one after the other.
pub open spec fn receive_all(r: Reassembly, carried: Seq<Seq<u8>>) -> Reassembly
    decreases carried.len(),
{
    if carried.len() == 0 {
        r
    } else {
        receive(receive_all(r, carried.drop_last()), carried.last())
    }
}

/// The payloads of some packets.
pub open spec fn payloads_in(received: Seq<Seq<u8>>) -> Seq<Seq<u8>> {
    Seq::new(received.len(), |i: int| packet_payload(received[i]))
}

/// A receiver that has got nothing yet.
pub open spec fn nothing_received() -> Reassembly {
    Reassembly { units: seq![], partial: seq![] }
}

/// The NAL units that a receiver gets out of some packets.
pub open spec fn reassembled(received: Seq<Seq<u8>>) -> Seq<Seq<u8>> {
    receive_all(nothing_received(), payloads_in(received)).units
}

/// What a NAL unit must be for its packets to bring it back: one that travels whole may not claim
/// to be a fragment, and one that is cut up may not have its forbidden bit set, which fragments do
/// not carry.
pub open spec fn survives(nal: Seq<u8>) -> bool {
    if nal.len() <= MTU - HEADER {
        nal[0] & 0x1F != 28
    } else {
        nal[0] & 0x80 == 0
    }
}

/// Taking payloads in two parts is taking all of them.
pub proof fn lemma_receive_all_concat(r: Reassembly, a: Seq<Seq<u8>>, b: Seq<Seq<u8>>)
    ensures
        receive_all(r, a + b) == receive_all(receive_all(r, a), b),
    decreases b.len(),
{
    if b.len() == 0 {
        assert(a + b =~= a);
    } else {
        lemma_receive_all_concat(r, a, b.drop_last());
        assert((a + b).drop_last() =~= a + b.drop_last());
        assert((a + b).last() == b.last());
    }
}

proof fn lemma_fragment_bits(first: u8, begins: bool, ends: bool)
    requires
        first & 0x80 == 0,
    ensures
        fu_indicator(first) & 0x1F == 28,
        fu_indicator(first) & 0xE0 | fu_header(first, begins, ends) & 0x1F == first,
        (fu_header(first, begins, ends) & 0x80 != 0) == begins,
        (fu_header(first, begins, ends) & 0x40 != 0) == ends,
{
    let b: u8 = if begins {
        0x80
    } else {
        0
    };
    let e: u8 = if ends {
        0x40
    } else {
        0
    };
    assert({
        &&& (first & 0x60 | 28) & 0x1F == 28
        &&& (first & 0x60 | 28) & 0xE0 | (first & 0x1F | b | e) & 0x1F == first
        &&& ((first & 0x1F | b | e) & 0x80 != 0) == (b == 0x80)
        &&& ((first & 0x1F | b | e) & 0x40 != 0) == (e == 0x40)
    }) by (bit_vector)
        requires
            first & 0x80 == 0,
            b == 0x80 || b == 0,
            e == 0x40 || e == 0,
    ;
}

/// The first `k` fragments of a NAL unit bring back what they hold of it, and all of them the
/// whole unit.
proof fn lemma_receive_fragments(r: Reassembly, nal: Seq<u8>, k: nat)
    requires
        nal.len() > MTU - HEADER,
        nal[0] & 0x80 == 0,
        0 < k <= fragment_count(nal),
        r.partial.len() == 0,
    ensures
        receive_all(r, Seq::new(k, |j: int| fragment(nal, j))) == if k == fragment_count(nal) {
            Reassembly { units: r.units.push(nal), partial: seq![] }
        } else {
            Reassembly { units: r.units, partial: nal.take(fragment_start(k as int)) }
        },
    decreases k,
{
    let carried = Seq::new(k, |j: int| fragment(nal, j));
    let before = Seq::new((k - 1) as nat, |j: int| fragment(nal, j));
    assert(carried.drop_last() =~= before);
    let piece = fragment(nal, k - 1);
    assert(carried.last() == piece);
    let ends = k == fragment_count(nal);
    assert(fragment_start(k - 1) < nal.len());
    assert(ends <==> fragment_start(k as int) >= nal.len());
    let end = if ends {
        nal.len() as int
    } else {
        fragment_start(k as int)
    };
    lemma_fragment_bits(nal[0], k == 1, ends);
    assert(piece[0] == fu_indicator(nal[0]));
    assert(piece[1] == fu_header(nal[0], k == 1, ends));
    assert(piece.skip(2) =~= nal.subrange(fragment_start(k - 1), end));
    if k == 1 {
        assert(receive_all(r, before) == r);
        assert(seq![nal[0]] + piece.skip(2) =~= nal.take(end));
    } else {
        lemma_receive_fragments(r, nal, (k - 1) as nat);
        assert(nal.take(fragment_start(k - 1)) + piece.skip(2) =~= nal.take(end));
    }
    assert(nal.take(nal.len() as int) =~= nal);
}

/// A receiver with nothing half arrived takes the payloads of NAL units, and has the units.
pub proof fn lemma_receive_nals(r: Reassembly, nals: Seq<Seq<u8>>)
    requires
        r.partial.len() == 0,
        forall|k: int| 0 <= k < nals.len() ==> #[trigger] nals[k].len() > 0,
        forall|k: int| 0 <= k < nals.len() ==> survives(#[trigger] nals[k]),
    ensures
        receive_all(r, payloads(nals)) == (Reassembly { units: r.units + nals, partial: seq![] }),
    decreases nals.len(),
{
    if nals.len() == 0 {
        assert(r.units + nals =~= r.units);
        assert(r.partial =~= Seq::<u8>::empty());
    } else {
        let nal = nals.last();
        let done = nals.drop_last();
        assert(nals[nals.len() - 1].len() > 0 && survives(nals[nals.len() - 1]));
        assert forall|k: int| 0 <= k < done.len() implies (#[trigger] done[k]).len() > 0
            && survives(done[k]) by {
            assert(nals[k].len() > 0);
        }
        lemma_receive_nals(r, done);
        lemma_receive_all_concat(r, payloads(done), nal_payloads(nal));
        let now = Reassembly { units: r.units + done, partial: Seq::<u8>::empty() };
        if nal.len() <= MTU - HEADER {
            let carried = seq![nal];
            assert(carried.drop_last() =~= Seq::<Seq<u8>>::empty());
            assert(receive_all(now, carried.drop_last()) == now);
            assert(receive_all(now, carried) == receive(now, nal));
        } else {
            lemma_receive_fragments(now, nal, fragment_count(nal));
        }
        assert((r.units + done).push(nal) =~= r.units + nals);
    }
}

/// The payloads of the packets of a picture are those that they were made to carry.
pub proof fn lemma_payloads_in_packets(seq: u16, ts: u32, carried: Seq<Seq<u8>>)
    ensures
        payloads_in(packets(seq, ts, carried)) == carried,
{
    let sent = packets(seq, ts, carried);
    assert forall|i: int| 0 <= i < sent.len() implies #[trigger] payloads_in(sent)[i]
        == carried[i] by {
        law_packets_of_a_picture(seq, ts, carried, i);
    }
    assert(payloads_in(sent) =~= carried);
}

/// A receiver gets back the NAL units of the picture: putting the payloads together again gives
/// what splitting the picture gave, in order and byte for byte.
pub proof fn law_reassembly(seq: u16, ts: u32, data: Seq<u8>)
    requires
        forall|k: int| 0 <= k < nal_units(data).len() ==> survives(#[trigger] nal_units(data)[k]),
    ensures
        reassembled(packets(seq, ts, payloads(nal_units(data)))) == nal_units(data),
{
    law_units_are_not_empty(data);
    lemma_payloads_in_packets(seq, ts, payloads(nal_units(data)));
    lemma_receive_nals(nothing_received(), nal_units(data));
    assert(nothing_received().units + nal_units(data) =~= nal_units(data));
}

/// From end to end: NAL units that can be told apart and are joined into a byte stream, whatever
/// start codes stand before them, come out at the receiver as they went in.
pub proof fn law_end_to_end(seq: u16, ts: u32, units: Seq<Seq<u8>>, long: Seq<bool>)
    requires
        separable(units, long),
        forall|k: int| 0 <= k < units.len() ==> survives(#[trigger] units[k]),
    ensures
        reassembled(packets(seq, ts, payloads(nal_units(byte_stream(units, long))))) == units,
{
    law_split_undoes_join(units, long);
    law_reassembly(seq, ts, byte_stream(units, long));
}

} // verus!
