//! RTP packets for H.264 (RFC 6184): single NAL unit packets, and FU-A fragments for NAL units
//! that do not fit into one packet.
use vstd::prelude::*;

use crate::nal::{nal_units, slice_views, split_nals};

verus! {

/// The bytes that a list of packets holds.
pub open spec fn packet_views(packets: Seq<Vec<u8>>) -> Seq<Seq<u8>> {
    Seq::new(packets.len(), |i: int| packets[i]@)
}

/// The synchronisation source of the stream.
pub const SSRC: u32 = 0x12345678;

/// The RTP payload type that the codec is registered under.
pub const PT: u8 = 96;

/// The largest packet, header included.
pub const MTU: usize = 1200;

/// The length of an RTP header.
pub const HEADER: usize = 12;

/// What one FU-A packet holds of a NAL unit.
pub const FRAGMENT: usize = 1186;

/// How far the 90 kHz clock moves from one frame to the next at 15 frames a second.
pub const FRAME_TICKS: u32 = 6000;

/// The big-endian bytes of a 16-bit number.
pub open spec fn be16(x: u16) -> Seq<u8> {
    seq![(x / 256) as u8, (x % 256) as u8]
}

/// The big-endian bytes of a 32-bit number.
pub open spec fn be32(x: u32) -> Seq<u8> {
    seq![
        (x / 0x1000000) as u8,
        (x / 0x10000 % 256) as u8,
        (x / 256 % 256) as u8,
        (x % 256) as u8,
    ]
}

/// An RTP header: version 2, the marker bit and the payload type, the sequence number, the
/// timestamp and the source.
pub open spec fn header(seq: u16, ts: u32, marker: bool) -> Seq<u8> {
    seq![
        0x80u8,
        if marker {
            0x80 | PT
        } else {
            PT
        },
    ] + be16(seq) + be32(ts) + be32(SSRC)
}

/// The sequence number `n` packets after `seq`.
pub open spec fn seq_after(seq: u16, n: nat) -> u16 {
    ((seq + n) % 0x10000) as u16
}

/// The timestamp of the frame after the one at `ts`.
pub open spec fn next_ts(ts: u32) -> u32 {
    ((ts + FRAME_TICKS) % 0x100000000) as u32
}

/// The FU indicator of the fragments of a NAL unit that begins with `first`: its importance bits,
/// and the type that stands for FU-A.
pub open spec fn fu_indicator(first: u8) -> u8 {
    first & 0x60 | 28
}

/// The FU header of a fragment: the type of its NAL unit, and whether it is the first and the
/// last fragment.
pub open spec fn fu_header(first: u8, begins: bool, ends: bool) -> u8 {
    first & 0x1F | (if begins {
        0x80u8
    } else {
        0u8
    }) | (if ends {
        0x40u8
    } else {
        0u8
    })
}

/// How many fragments a NAL unit is cut into. Its first byte travels in the FU headers.
pub open spec fn fragment_count(nal: Seq<u8>) -> nat {
    ((nal.len() - 1 + FRAGMENT - 1) / FRAGMENT as int) as nat
}

/// Where fragment `k` of a NAL unit begins in it.
pub open spec fn fragment_start(k: int) -> int {
    1 + k * FRAGMENT
}

/// The payload of the packet that carries fragment `k` of a NAL unit.
pub open spec fn fragment(nal: Seq<u8>, k: int) -> Seq<u8> {
    let end = if fragment_start(k + 1) < nal.len() {
        fragment_start(k + 1)
    } else {
        nal.len() as int
    };
    seq![fu_indicator(nal[0]), fu_header(nal[0], k == 0, end == nal.len())] + nal.subrange(
        fragment_start(k),
        end,
    )
}

/// The payloads that carry one NAL unit: the unit itself where it fits into a packet, its
/// fragments where it does not.
pub open spec fn nal_payloads(nal: Seq<u8>) -> Seq<Seq<u8>> {
    if nal.len() <= MTU - HEADER {
        seq![nal]
    } else {
        Seq::new(fragment_count(nal), |k: int| fragment(nal, k))
    }
}

/// The payloads that carry a list of NAL units, in order.
pub open spec fn payloads(nals: Seq<Seq<u8>>) -> Seq<Seq<u8>>
    decreases nals.len(),
{
    if nals.len() == 0 {
        seq![]
    } else {
        payloads(nals.drop_last()) + nal_payloads(nals.last())
    }
}

/// The packets that carry the payloads of one picture: numbered from `seq` on, all with the same
/// timestamp, the marker set on the last one.
pub open spec fn packets(seq: u16, ts: u32, carried: Seq<Seq<u8>>) -> Seq<Seq<u8>> {
    Seq::new(
        carried.len(),
        |i: int| header(seq_after(seq, i as nat), ts, i == carried.len() - 1) + carried[i],
    )
}

/// RTP packetization state (RFC 6184): the next sequence number, and the timestamp of the
/// current frame.
pub struct RtpState {
    pub seq: u16,
    pub ts: u32,
}

impl Default for RtpState {
    fn default() -> (state: Self)
        ensures
            state.seq == 0,
            state.ts == 0,
    {
        RtpState { seq: 0, ts: 0 }
    }
}

/// Appends bytes to a packet.
fn extend(packet: &mut Vec<u8>, bytes: &[u8])
    ensures
        final(packet)@ == old(packet)@ + bytes@,
{
    packet.extend_from_slice(bytes);
    assert(packet@ =~= old(packet)@ + bytes@);
}

impl RtpState {
    /// Moves the timestamp to the next frame.
    pub fn tick(&mut self)
        ensures
            final(self).seq == old(self).seq,
            final(self).ts == next_ts(old(self).ts),
    {
        self.ts = self.ts.wrapping_add(FRAME_TICKS);
    }

    /// The RTP header of the next packet.
    pub fn rtp_header(&self, marker: bool) -> (h: Vec<u8>)
        ensures
            h@ == header(self.seq, self.ts, marker),
    {
        let mut h: Vec<u8> = Vec::with_capacity(HEADER);
        h.push(0x80);
        h.push(
            if marker {
                0x80 | PT
            } else {
                PT
            },
        );
        h.push((self.seq / 256) as u8);
        h.push((self.seq % 256) as u8);
        h.push((self.ts / 0x1000000) as u8);
        h.push((self.ts / 0x10000 % 256) as u8);
        h.push((self.ts / 256 % 256) as u8);
        h.push((self.ts % 256) as u8);
        h.push((SSRC / 0x1000000) as u8);
        h.push((SSRC / 0x10000 % 256) as u8);
        h.push((SSRC / 256 % 256) as u8);
        h.push((SSRC % 256) as u8);
        assert(h@ =~= header(self.seq, self.ts, marker));
        h
    }

    /// The next packet, with the given payload.
    pub fn rtp_packet(&mut self, payload: &[u8], marker: bool) -> (pkt: Vec<u8>)
        ensures
            pkt@ == header(old(self).seq, old(self).ts, marker) + payload@,
            final(self).seq == seq_after(old(self).seq, 1),
            final(self).ts == old(self).ts,
    {
        let mut pkt = self.rtp_header(marker);
        extend(&mut pkt, payload);
        self.seq = self.seq.wrapping_add(1);
        pkt
    }
}

/// The packets that carry some of the payloads of a picture; `marked` where the last of them is
/// the last of the picture.
spec fn numbered(seq: u16, ts: u32, carried: Seq<Seq<u8>>, marked: bool) -> Seq<Seq<u8>> {
    Seq::new(
        carried.len(),
        |i: int|
            header(seq_after(seq, i as nat), ts, marked && i == carried.len() - 1) + carried[i],
    )
}

/// Counting on `m` and then `n` packets is counting on `m + n`.
pub proof fn lemma_seq_after_add(seq: u16, m: nat, n: nat)
    ensures
        seq_after(seq_after(seq, m), n) == seq_after(seq, m + n),
{
}

proof fn lemma_numbered_concat(
    seq: u16,
    ts: u32,
    a: Seq<Seq<u8>>,
    b: Seq<Seq<u8>>,
    marked: bool,
)
    requires
        b.len() > 0,
    ensures
        numbered(seq, ts, a, false) + numbered(seq_after(seq, a.len()), ts, b, marked) == numbered(
            seq,
            ts,
            a + b,
            marked,
        ),
        seq_after(seq_after(seq, a.len()), b.len()) == seq_after(seq, (a + b).len()),
{
    let next = seq_after(seq, a.len());
    let left = numbered(seq, ts, a, false);
    let right = numbered(next, ts, b, marked);
    let whole = numbered(seq, ts, a + b, marked);
    lemma_seq_after_add(seq, a.len(), b.len());
    assert forall|i: int| 0 <= i < a.len() implies left[i] == #[trigger] whole[i] by {
        assert((a + b)[i] == a[i]);
    }
    assert forall|i: int| 0 <= i < b.len() implies #[trigger] right[i] == whole[a.len() + i] by {
        lemma_seq_after_add(seq, a.len(), i as nat);
        assert((a + b)[a.len() + i] == b[i]);
    }
    assert forall|i: int| 0 <= i < whole.len() implies (left + right)[i] == #[trigger] whole[i] by {
        if i >= a.len() {
            assert(right[i - a.len()] == whole[a.len() + (i - a.len())]);
        }
    }
    assert(left + right =~= whole);
}

/// Fragment `k` exists just where its start lies inside the NAL unit.
proof fn lemma_fragment_count(nal: Seq<u8>, k: int)
    requires
        nal.len() > 1,
        0 <= k,
    ensures
        k < fragment_count(nal) <==> fragment_start(k) < nal.len(),
{
}

impl RtpState {
    /// The packets of one NAL unit; `is_last_nal` where no other NAL unit of the picture follows.
    fn nal_packets(&mut self, nal: &[u8], is_last_nal: bool) -> (pkts: Vec<Vec<u8>>)
        requires
            nal@.len() > 0,
        ensures
            packet_views(pkts@) == numbered(
                old(self).seq,
                old(self).ts,
                nal_payloads(nal@),
                is_last_nal,
            ),
            final(self).seq == seq_after(old(self).seq, nal_payloads(nal@).len()),
            final(self).ts == old(self).ts,
    {
        let mut pkts: Vec<Vec<u8>> = Vec::new();
        let ghost seq = self.seq;
        let ghost ts = self.ts;
        if nal.len() <= MTU - HEADER {
            pkts.push(self.rtp_packet(nal, is_last_nal));
            assert(packet_views(pkts@) =~= numbered(seq, ts, nal_payloads(nal@), is_last_nal));
            return pkts;
        }
        let len: usize = nal.len();
        let indicator: u8 = nal[0] & 0x60 | 28;
        let nal_type: u8 = nal[0] & 0x1F;
        let mut pos: usize = 1;
        let ghost mut k: int = 0;
        assert(packet_views(pkts@) =~= numbered(
            seq,
            ts,
            Seq::new(0, |j: int| fragment(nal@, j)),
            false,
        ));
        while pos < len
            invariant
                len == nal@.len(),
                len > MTU - HEADER,
                0 <= k,
                pos <= len,
                pos < len ==> pos == fragment_start(k),
                pos == len ==> k == fragment_count(nal@),
                indicator == fu_indicator(nal@[0]),
                nal_type == nal@[0] & 0x1F,
                packet_views(pkts@) == numbered(
                    seq,
                    ts,
                    Seq::new(k as nat, |j: int| fragment(nal@, j)),
                    is_last_nal && pos == len,
                ),
                self.seq == seq_after(seq, k as nat),
                self.ts == ts,
            decreases len - pos,
        {
            let first: bool = pos == 1;
            let last: bool = len - pos <= FRAGMENT;
            let end: usize = if last {
                len
            } else {
                pos + FRAGMENT
            };
            let fu: u8 = nal_type | (if first {
                0x80u8
            } else {
                0u8
            }) | (if last {
                0x40u8
            } else {
                0u8
            });
            let mut payload: Vec<u8> = Vec::new();
            payload.push(indicator);
            payload.push(fu);
            extend(&mut payload, &nal[pos..end]);
            assert(payload@ =~= fragment(nal@, k));
            let ghost before = pkts@;
            pkts.push(self.rtp_packet(payload.as_slice(), is_last_nal && last));
            proof {
                lemma_fragment_count(nal@, k);
                lemma_fragment_count(nal@, k + 1);
                let done = Seq::new(k as nat, |j: int| fragment(nal@, j));
                let next = Seq::new((k + 1) as nat, |j: int| fragment(nal@, j));
                lemma_numbered_concat(seq, ts, done, seq![payload@], is_last_nal && last);
                assert(next =~= done + seq![payload@]);
                assert(packet_views(pkts@) =~= packet_views(before) + numbered(
                    seq_after(seq, k as nat),
                    ts,
                    seq![payload@],
                    is_last_nal && last,
                ));
                k = k + 1;
            }
            pos = end;
        }
        assert(nal_payloads(nal@) =~= Seq::new(k as nat, |j: int| fragment(nal@, j)));
        pkts
    }

    /// The packets that carry one encoded picture. They are numbered on from the packets before;
    /// the marker is on the last of them alone.
    pub fn packetize(&mut self, nal_data: &[u8]) -> (pkts: Vec<Vec<u8>>)
        ensures
            packet_views(pkts@) == packets(
                old(self).seq,
                old(self).ts,
                payloads(nal_units(nal_data@)),
            ),
            final(self).seq == seq_after(
                old(self).seq,
                payloads(nal_units(nal_data@)).len(),
            ),
            final(self).ts == old(self).ts,
    {
        let mut pkts: Vec<Vec<u8>> = Vec::new();
        let nals = split_nals(nal_data);
        let nal_count: usize = nals.len();
        let ghost units = nal_units(nal_data@);
        let ghost seq = self.seq;
        let ghost ts = self.ts;
        proof {
            crate::nal::law_units_are_not_empty(nal_data@);
            assert(units.take(0) =~= Seq::<Seq<u8>>::empty());
            assert(packet_views(pkts@) =~= numbered(seq, ts, payloads(units.take(0)), false));
        }
        let mut nal_idx: usize = 0;
        while nal_idx < nal_count
            invariant
                nal_count == nals@.len(),
                nal_idx <= nal_count,
                slice_views(nals@) == units,
                forall|k: int| 0 <= k < units.len() ==> #[trigger] units[k].len() > 0,
                packet_views(pkts@) == numbered(
                    seq,
                    ts,
                    payloads(units.take(nal_idx as int)),
                    nal_idx > 0 && nal_idx == nal_count,
                ),
                self.seq == seq_after(seq, payloads(units.take(nal_idx as int)).len()),
                self.ts == ts,
            decreases nal_count - nal_idx,
        {
            let nal = nals[nal_idx];
            let is_last_nal: bool = nal_idx == nal_count - 1;
            assert(nal@ == units[nal_idx as int]);
            let ghost before = pkts@;
            let mut more = self.nal_packets(nal, is_last_nal);
            let ghost added = more@;
            pkts.append(&mut more);
            proof {
                let done = units.take(nal_idx as int);
                let next = units.take(nal_idx + 1);
                assert(next.drop_last() =~= done);
                if nal@.len() > MTU - HEADER {
                    lemma_fragment_count(nal@, 0);
                }
                lemma_numbered_concat(seq, ts, payloads(done), nal_payloads(nal@), is_last_nal);
                assert(packet_views(pkts@) =~= packet_views(before) + packet_views(added));
            }
            nal_idx = nal_idx + 1;
        }
        assert(units.take(nal_idx as int) =~= units);
        assert(packet_views(pkts@) =~= packets(seq, ts, payloads(units)));
        pkts
    }
}

} // verus!
