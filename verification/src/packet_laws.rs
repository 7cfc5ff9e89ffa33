//! The bytes of the packets that [`crate::rtp::RtpState`] makes.
use vstd::prelude::*;

use crate::nal::{law_units_are_not_empty, nal_units, slice_views, split_nals};
use crate::nal_laws::bytes_of;
use crate::rtp::{
    fragment, fragment_count, fragment_start, nal_payloads, packet_views, packets, payloads,
    RtpState,
};
use crate::rtp_laws::law_packets_of_a_picture;

verus! {

/// Whether bytes begin with the header of an RTP packet: version 2, payload type 96, and these
/// numbers, most significant byte first.
pub open spec fn begins_with_header(packet: Seq<u8>, seq: int, ts: int, marker: bool) -> bool {
    &&& packet.len() >= 12
    &&& packet[0] == 0x80
    &&& packet[1] == if marker {
        0xE0u8
    } else {
        0x60u8
    }
    &&& packet[2] * 0x100 + packet[3] == seq
    &&& packet[4] * 0x1000000 + packet[5] * 0x10000 + packet[6] * 0x100 + packet[7] == ts
    &&& packet[8] == 0x12 && packet[9] == 0x34 && packet[10] == 0x56 && packet[11] == 0x78
}

/// The header is that of the next packet, and nothing else.
pub proof fn law_rtp_header(state: &RtpState, marker: bool, h: Vec<u8>)
    ensures
        call_ensures(RtpState::rtp_header, (state, marker), h) ==> h@.len() == 12
            && begins_with_header(h@, state.seq as int, state.ts as int, marker),
{
    assert(0x80u8 | 96u8 == 0xE0u8) by (bit_vector);
}

/// A packet is a header and the payload as it is. The next one has the next number, at the same time.
pub proof fn law_rtp_packet()
    ensures
        forall|state: &mut RtpState, payload: &[u8], marker: bool, pkt: Vec<u8>|
            #[trigger] call_ensures(RtpState::rtp_packet, (state, payload, marker), pkt) ==> {
                &&& begins_with_header(pkt@, state.seq as int, state.ts as int, marker)
                &&& pkt@.skip(12) == payload@
                &&& final(state).seq == (state.seq + 1) % 0x10000
                &&& final(state).ts == state.ts
            },
{
    assert(0x80u8 | 96u8 == 0xE0u8) by (bit_vector);
    assert forall|state: &mut RtpState, payload: &[u8], marker: bool, pkt: Vec<u8>|
        #[trigger] call_ensures(RtpState::rtp_packet, (state, payload, marker), pkt) implies {
        &&& begins_with_header(pkt@, state.seq as int, state.ts as int, marker)
        &&& pkt@.skip(12) == payload@
        &&& final(state).seq == (state.seq + 1) % 0x10000
        &&& final(state).ts == state.ts
    } by {
        assert(pkt@.skip(12) =~= payload@);
    }
}

/// A tick moves the time by a fifteenth of a second, modulo its 32 bits, and nothing else.
pub proof fn law_tick()
    ensures
        forall|state: &mut RtpState, done: ()|
            #[trigger] call_ensures(RtpState::tick, (state,), done) ==> final(state).seq
                == state.seq && final(state).ts == (state.ts + 6000) % 0x100000000,
{
}

/// Whether payloads carry a NAL unit as RFC 6184 has it: one of up to 1188 bytes as it is, and a
/// longer one in FU-A fragments of 1186 bytes behind two bytes that say what they are fragments of
/// and which is the first and the last of them.
pub open spec fn carries(part: Seq<Seq<u8>>, unit: Seq<u8>) -> bool {
    if unit.len() <= 1188 {
        part == seq![unit]
    } else {
        &&& part.len() == (unit.len() - 1 + 1185) / 1186
        &&& forall|k: int|
            0 <= k < part.len() ==> (#[trigger] part[k]).len() == if k < part.len() - 1 {
                1188
            } else {
                unit.len() - 1 - 1186 * k + 2
            }
        &&& forall|k: int|
            0 <= k < part.len() ==> (#[trigger] part[k])[0] == (unit[0] & 0x60u8) | 28u8
        &&& forall|k: int|
            0 <= k < part.len() ==> (#[trigger] part[k])[1] == (unit[0] & 0x1Fu8) | (if k == 0 {
                0x80u8
            } else {
                0u8
            }) | (if k == part.len() - 1 {
                0x40u8
            } else {
                0u8
            })
        &&& forall|b: int|
            1 <= b < unit.len() ==> part[(b - 1) / 1186][2 + (b - 1) % 1186] == #[trigger] unit[b]
    }
}

/// The payloads of a NAL unit carry it.
proof fn lemma_carried(unit: Seq<u8>)
    requires
        unit.len() > 0,
    ensures
        carries(nal_payloads(unit), unit),
        nal_payloads(unit).len() > 0,
{
    let part = nal_payloads(unit);
    if unit.len() > 1188 {
        let n = fragment_count(unit) as int;
        assert forall|k: int| 0 <= k < n implies {
            &&& (#[trigger] part[k]).len() == if k < n - 1 {
                1188
            } else {
                unit.len() - 1 - 1186 * k + 2
            }
            &&& part[k][0] == (unit[0] & 0x60u8) | 28u8
            &&& part[k][1] == (unit[0] & 0x1Fu8) | (if k == 0 {
                0x80u8
            } else {
                0u8
            }) | (if k == n - 1 {
                0x40u8
            } else {
                0u8
            })
        } by {
            assert(part[k] == fragment(unit, k));
            assert(fragment_start(k) < unit.len());
            assert(k < n - 1 <==> fragment_start(k + 1) < unit.len());
        }
        assert forall|b: int| 1 <= b < unit.len() implies part[(b - 1) / 1186][2 + (b - 1) % 1186]
            == #[trigger] unit[b] by {
            let k = (b - 1) / 1186;
            assert(fragment_start(k) <= b < fragment_start(k + 1));
            assert(0 <= k < n);
            assert(part[k] == fragment(unit, k));
        }
    }
}

/// Whether packets carry some NAL units: each unit in packets of its own, in order, numbered on from
/// `seq`, all at the same time, the last one marked.
pub open spec fn carry(
    pkts: Seq<Vec<u8>>,
    seq: int,
    ts: int,
    units: Seq<Seq<u8>>,
    cuts: Seq<int>,
) -> bool {
    &&& cuts.len() == units.len() + 1
    &&& cuts[0] == 0
    &&& cuts.last() == pkts.len()
    &&& forall|k: int|
        0 <= k < units.len() ==> 0 <= #[trigger] cuts[k] < cuts[k + 1] <= pkts.len() && carries(
            Seq::new((cuts[k + 1] - cuts[k]) as nat, |i: int| pkts[cuts[k] + i]@.skip(12)),
            units[k],
        )
    &&& forall|i: int|
        0 <= i < pkts.len() ==> begins_with_header(
            (#[trigger] pkts[i])@,
            (seq + i) % 0x10000,
            ts,
            i == pkts.len() - 1,
        )
}

/// Where the payloads of each of some NAL units begin.
spec fn cuts_of(units: Seq<Seq<u8>>) -> Seq<int> {
    Seq::new(units.len() + 1, |k: int| payloads(units.take(k)).len() as int)
}

/// The payloads of one of some NAL units stand among the payloads of all behind those of the units
/// before it.
proof fn lemma_cut(units: Seq<Seq<u8>>, k: int)
    requires
        0 <= k < units.len(),
    ensures
        payloads(units.take(k + 1)).len() == payloads(units.take(k)).len() + nal_payloads(
            units[k],
        ).len(),
        payloads(units.take(k + 1)).len() <= payloads(units).len(),
        payloads(units).subrange(
            payloads(units.take(k)).len() as int,
            payloads(units.take(k + 1)).len() as int,
        ) == nal_payloads(units[k]),
    decreases units.len(),
{
    let a = payloads(units.take(k)).len() as int;
    let b = payloads(units.take(k + 1)).len() as int;
    assert(units.take(k + 1).drop_last() =~= units.take(k));
    assert(units.take(k + 1).last() == units[k]);
    if k == units.len() - 1 {
        assert(units.take(k + 1) =~= units);
        assert(payloads(units).subrange(a, b) =~= nal_payloads(units[k]));
    } else {
        let before = units.drop_last();
        lemma_cut(before, k);
        assert(before.take(k) =~= units.take(k));
        assert(before.take(k + 1) =~= units.take(k + 1));
        assert(payloads(units).subrange(a, b) =~= payloads(before).subrange(a, b));
    }
}

/// The packets of a picture carry its NAL units.
proof fn lemma_carry(pkts: Seq<Vec<u8>>, seq: u16, ts: u32, units: Seq<Seq<u8>>)
    requires
        forall|k: int| 0 <= k < units.len() ==> (#[trigger] units[k]).len() > 0,
        packet_views(pkts) == packets(seq, ts, payloads(units)),
    ensures
        carry(pkts, seq as int, ts as int, units, cuts_of(units)),
{
    let cuts = cuts_of(units);
    let all = payloads(units);
    assert(packet_views(pkts).len() == pkts.len());
    assert(units.take(0) =~= Seq::<Seq<u8>>::empty());
    assert(units.take(units.len() as int) =~= units);
    assert(0x80u8 | 96u8 == 0xE0u8) by (bit_vector);
    assert forall|i: int| 0 <= i < pkts.len() implies (#[trigger] pkts[i])@.skip(12) == all[i]
        && begins_with_header(
        pkts[i]@,
        (seq + i) % 0x10000,
        ts as int,
        i == pkts.len() - 1,
    ) by {
        assert(packet_views(pkts)[i] == pkts[i]@);
        law_packets_of_a_picture(seq, ts, all, i);
        assert(pkts[i]@ == packets(seq, ts, all)[i]);
    }
    assert forall|k: int| 0 <= k < units.len() implies 0 <= #[trigger] cuts[k] < cuts[k + 1]
        <= pkts.len() && carries(
        Seq::new((cuts[k + 1] - cuts[k]) as nat, |i: int| pkts[cuts[k] + i]@.skip(12)),
        units[k],
    ) by {
        lemma_cut(units, k);
        assert(units[k].len() > 0);
        lemma_carried(units[k]);
        let part = Seq::new(
            (cuts[k + 1] - cuts[k]) as nat,
            |i: int| pkts[cuts[k] + i]@.skip(12),
        );
        assert forall|i: int| 0 <= i < part.len() implies part[i] == nal_payloads(units[k])[i] by {
            assert(pkts[cuts[k] + i]@.skip(12) == all[cuts[k] + i]);
            assert(all.subrange(cuts[k], cuts[k + 1])[i] == all[cuts[k] + i]);
        }
        assert(part =~= nal_payloads(units[k]));
    }
}

/// A picture is packetized unit by unit, as it is split: every NAL unit that splitting gives is
/// carried, none is left out or added, and the numbers of the packets follow each other.
pub proof fn law_packetize()
    ensures
        forall|state: &mut RtpState, data: &[u8], nals: Vec<&[u8]>, pkts: Vec<Vec<u8>>|
            #[trigger] call_ensures(split_nals, (data,), nals) && #[trigger] call_ensures(
                RtpState::packetize,
                (state, data),
                pkts,
            ) ==> {
                &&& exists|cuts: Seq<int>| #[trigger]
                    carry(pkts@, state.seq as int, state.ts as int, bytes_of(nals), cuts)
                &&& final(state).seq == (state.seq + pkts@.len()) % 0x10000
                &&& final(state).ts == state.ts
            },
{
    assert forall|state: &mut RtpState, data: &[u8], nals: Vec<&[u8]>, pkts: Vec<Vec<u8>>|
        #[trigger] call_ensures(split_nals, (data,), nals) && #[trigger] call_ensures(
            RtpState::packetize,
            (state, data),
            pkts,
        ) implies {
        &&& exists|cuts: Seq<int>| #[trigger]
            carry(pkts@, state.seq as int, state.ts as int, bytes_of(nals), cuts)
        &&& final(state).seq == (state.seq + pkts@.len()) % 0x10000
        &&& final(state).ts == state.ts
    } by {
        let units = nal_units(data@);
        assert(bytes_of(nals) =~= slice_views(nals@));
        assert(packet_views(pkts@).len() == pkts@.len());
        law_units_are_not_empty(data@);
        lemma_carry(pkts@, state.seq, state.ts, units);
    }
}

} // verus!
