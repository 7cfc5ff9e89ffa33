//! What holds over a whole encoding session, however its outside work goes.
use std::sync::Arc;

use vstd::prelude::*;

use webrtc::track::track_local::track_local_static_rtp::TrackLocalStaticRTP;

use crate::encoder::{
    can_fail, fresh, transition, writer_task, ActionView, Ending, EventView, Phase, SessionView,
    WriterEvent, WriterTask,
};
use crate::nal::{law_units_are_not_empty, nal_units};
use crate::rtp::{packets, payloads, seq_after, FRAME_TICKS};
use crate::rtp_laws::{
    law_packets_of_a_picture, lemma_payloads_in_packets, lemma_receive_all_concat,
    lemma_receive_nals, nothing_received, packet_seq, packet_ts, payloads_in, reassembled,
    receive_all, survives, Reassembly,
};

verus! {

/// The session after some events.
pub open spec fn after(s: SessionView, events: Seq<EventView>) -> SessionView
    decreases events.len(),
{
    if events.len() == 0 {
        s
    } else {
        transition(after(s, events.drop_last()), events.last()).0
    }
}

/// The RTP packets that an action sends.
pub open spec fn sent_by(action: ActionView) -> Seq<Seq<u8>> {
    match action {
        ActionView::Deliver(packet) => seq![packet],
        _ => seq![],
    }
}

/// All the RTP packets that are handed out to be sent in the course of some events.
pub open spec fn delivered(s: SessionView, events: Seq<EventView>) -> Seq<Seq<u8>>
    decreases events.len(),
{
    if events.len() == 0 {
        seq![]
    } else {
        delivered(s, events.drop_last()) + sent_by(
            transition(after(s, events.drop_last()), events.last()).1,
        )
    }
}

/// How many frames the encoder has been done with in the course of some events.
pub open spec fn frames(s: SessionView, events: Seq<EventView>) -> nat
    decreases events.len(),
{
    if events.len() == 0 {
        0
    } else {
        let before = after(s, events.drop_last());
        frames(s, events.drop_last()) + if before.phase == Phase::ReceivingPacket
            && events.last() is Drained {
            1nat
        } else {
            0nat
        }
    }
}

/// The RTP packets of the picture that one event brings from the encoder, if it brings one.
pub open spec fn made_by(s: SessionView, e: EventView) -> Seq<Seq<u8>> {
    match (s.phase, e) {
        (Phase::ReceivingPacket, EventView::Encoded(Some(data))) => packets(
            s.seq,
            s.ts,
            payloads(nal_units(data)),
        ),
        _ => seq![],
    }
}

/// The RTP packets of all the pictures that a session got from the encoder in the course of some
/// events.
pub open spec fn made(s: SessionView, events: Seq<EventView>) -> Seq<Seq<u8>>
    decreases events.len(),
{
    if events.len() == 0 {
        seq![]
    } else {
        made(s, events.drop_last()) + made_by(after(s, events.drop_last()), events.last())
    }
}

/// Whether nothing waits to be sent but while a picture is being sent, or where a session stopped in
/// the middle of one, and what waits belongs to the current frame.
pub open spec fn in_order(s: SessionView) -> bool {
    &&& s.phase != Phase::Delivering && s.phase != Phase::Stopped ==> s.pending.len() == 0
    &&& forall|i: int| 0 <= i < s.pending.len() ==> packet_ts(#[trigger] s.pending[i]) == s.ts
}

/// What a step hands out and leaves waiting is what waited before and what it made, in order.
proof fn lemma_step(s: SessionView, e: EventView)
    requires
        in_order(s),
    ensures
        in_order(transition(s, e).0),
        sent_by(transition(s, e).1) + transition(s, e).0.pending == s.pending + made_by(s, e),
        transition(s, e).0.seq == seq_after(s.seq, made_by(s, e).len()),
        forall|i: int|
            0 <= i < sent_by(transition(s, e).1).len() ==> packet_ts(
                #[trigger] sent_by(transition(s, e).1)[i],
            ) == s.ts,
{
    let next = transition(s, e).0;
    let sent = sent_by(transition(s, e).1);
    let all = s.pending + made_by(s, e);
    assert forall|i: int| 0 <= i < all.len() implies packet_ts(#[trigger] all[i]) == s.ts by {
        if i < s.pending.len() {
            assert(all[i] == s.pending[i]);
        } else {
            let carried = payloads(nal_units(e->Encoded_0->0));
            law_packets_of_a_picture(s.seq, s.ts, carried, i - s.pending.len());
            assert(all[i] == packets(s.seq, s.ts, carried)[i - s.pending.len()]);
        }
    }
    assert(sent + next.pending =~= all);
    assert forall|i: int| 0 <= i < sent.len() implies packet_ts(#[trigger] sent[i]) == s.ts by {
        assert(sent[i] == all[i]);
    }
    assert forall|i: int| 0 <= i < next.pending.len() implies packet_ts(
        #[trigger] next.pending[i],
    ) == s.ts by {
        assert(next.pending[i] == all[sent.len() + i]);
    }
}

/// What a session has handed out is the beginning of the packets of its pictures, and the rest of
/// them waits. Nothing waits but while a picture is being sent, or where a session stopped in the
/// middle of one.
pub proof fn law_delivered_is_a_prefix(url: Seq<char>, events: Seq<EventView>)
    ensures
        delivered(fresh(url), events) + after(fresh(url), events).pending == made(
            fresh(url),
            events,
        ),
        in_order(after(fresh(url), events)),
    decreases events.len(),
{
    let s = fresh(url);
    if events.len() == 0 {
        assert(delivered(s, events) + s.pending =~= made(s, events));
    } else {
        law_delivered_is_a_prefix(url, events.drop_last());
        let before = after(s, events.drop_last());
        let done = delivered(s, events.drop_last());
        let e = events.last();
        let sent = sent_by(transition(before, e).1);
        lemma_step(before, e);
        assert((done + sent) + transition(before, e).0.pending =~= done + (sent + transition(
            before,
            e,
        ).0.pending));
        assert(done + (before.pending + made_by(before, e)) =~= (done + before.pending) + made_by(
            before,
            e,
        ));
    }
}

/// The packets of the pictures of a session are numbered without a gap from its first one on.
proof fn lemma_made_is_numbered(url: Seq<char>, events: Seq<EventView>)
    ensures
        forall|i: int|
            0 <= i < made(fresh(url), events).len() ==> packet_seq(
                #[trigger] made(fresh(url), events)[i],
            ) == i % 0x10000,
        after(fresh(url), events).seq == made(fresh(url), events).len() % 0x10000,
    decreases events.len(),
{
    let s = fresh(url);
    if events.len() > 0 {
        lemma_made_is_numbered(url, events.drop_last());
        law_delivered_is_a_prefix(url, events.drop_last());
        let before = after(s, events.drop_last());
        let e = events.last();
        let more = made_by(before, e);
        lemma_step(before, e);
        assert forall|i: int| 0 <= i < more.len() implies packet_seq(#[trigger] more[i]) == (
        before.seq + i) % 0x10000 by {
            law_packets_of_a_picture(before.seq, before.ts, payloads(nal_units(e->Encoded_0->0)), i);
        }
        lemma_numbering_joined(made(s, events.drop_last()), before.seq, more);
    }
}

/// The packets that a session hands out are numbered without a gap from its first one on, over all
/// of its pictures, and so are those that wait behind them.
pub proof fn law_session_numbering(url: Seq<char>, events: Seq<EventView>)
    ensures
        forall|i: int|
            0 <= i < delivered(fresh(url), events).len() ==> packet_seq(
                #[trigger] delivered(fresh(url), events)[i],
            ) == i % 0x10000,
        forall|i: int|
            0 <= i < after(fresh(url), events).pending.len() ==> packet_seq(
                #[trigger] after(fresh(url), events).pending[i],
            ) == (delivered(fresh(url), events).len() + i) % 0x10000,
        after(fresh(url), events).seq == (delivered(fresh(url), events).len() + after(
            fresh(url),
            events,
        ).pending.len()) % 0x10000,
{
    let done = delivered(fresh(url), events);
    let waiting = after(fresh(url), events).pending;
    let all = made(fresh(url), events);
    law_delivered_is_a_prefix(url, events);
    lemma_made_is_numbered(url, events);
    assert(all == done + waiting);
    assert forall|i: int| 0 <= i < done.len() implies packet_seq(#[trigger] done[i]) == i
        % 0x10000 by {
        assert(all[i] == done[i]);
    }
    assert forall|i: int| 0 <= i < waiting.len() implies packet_seq(#[trigger] waiting[i]) == (
    done.len() + i) % 0x10000 by {
        assert(all[done.len() + i] == waiting[i]);
    }
}

/// A numbered list that is followed by one numbered on from it is numbered as a whole.
proof fn lemma_numbering_joined(done: Seq<Seq<u8>>, seq: u16, sent: Seq<Seq<u8>>)
    requires
        seq == done.len() % 0x10000,
        forall|i: int| 0 <= i < done.len() ==> packet_seq(#[trigger] done[i]) == i % 0x10000,
        forall|i: int|
            0 <= i < sent.len() ==> packet_seq(#[trigger] sent[i]) == (seq + i) % 0x10000,
    ensures
        forall|i: int|
            0 <= i < (done + sent).len() ==> packet_seq(#[trigger] (done + sent)[i]) == i
                % 0x10000,
        seq_after(seq, sent.len()) == (done + sent).len() % 0x10000,
{
    assert forall|i: int| 0 <= i < (done + sent).len() implies packet_seq(
        #[trigger] (done + sent)[i],
    ) == i % 0x10000 by {
        if i < done.len() {
            assert((done + sent)[i] == done[i]);
        } else {
            assert((done + sent)[i] == sent[i - done.len()]);
        }
    }
}

/// The clock of a session: it stands at the ticks of the frames that the encoder is done with, and
/// that is the timestamp of every packet that is handed out next.
pub proof fn law_session_clock(url: Seq<char>, events: Seq<EventView>, next: EventView)
    ensures
        after(fresh(url), events).ts == (frames(fresh(url), events) * FRAME_TICKS) % 0x100000000,
        forall|i: int|
            0 <= i < sent_by(transition(after(fresh(url), events), next).1).len() ==> packet_ts(
                #[trigger] sent_by(transition(after(fresh(url), events), next).1)[i],
            ) == (frames(fresh(url), events) * FRAME_TICKS) % 0x100000000,
    decreases events.len(),
{
    let s = fresh(url);
    if events.len() > 0 {
        law_session_clock(url, events.drop_last(), events.last());
        let n = frames(s, events.drop_last());
        assert((n + 1) * FRAME_TICKS == n * FRAME_TICKS + FRAME_TICKS) by (nonlinear_arith);
    }
    law_delivered_is_a_prefix(url, events);
    lemma_step(after(s, events), next);
}

/// The session after a list of events and another is the session that goes on after the first list.
proof fn lemma_events_joined(s: SessionView, first: Seq<EventView>, then: Seq<EventView>)
    ensures
        after(s, first + then) == after(after(s, first), then),
        delivered(s, first + then) == delivered(s, first) + delivered(after(s, first), then),
    decreases then.len(),
{
    let events = first + then;
    if then.len() == 0 {
        assert(events =~= first);
        assert(delivered(s, first) + delivered(after(s, first), then) =~= delivered(s, first));
    } else {
        assert(events.drop_last() =~= first + then.drop_last());
        lemma_events_joined(s, first, then.drop_last());
        assert(delivered(s, events) =~= delivered(s, first) + delivered(after(s, first), then));
    }
}

/// A picture from the encoder, of whose packets `sent` have been sent.
pub open spec fn sending(data: Seq<u8>, sent: nat) -> Seq<EventView> {
    seq![EventView::Encoded(Some(data))] + Seq::new(sent, |i: int| EventView::Done)
}

/// Whether a session has sent some of the packets of a picture: the next one is handed out and the
/// others wait, or all of them are sent and the encoder is asked for more.
pub open spec fn has_sent(
    now: SessionView,
    handed_out: Seq<Seq<u8>>,
    all: Seq<Seq<u8>>,
    sent: int,
) -> bool {
    if sent < all.len() {
        &&& now.phase == Phase::Delivering
        &&& now.pending == all.skip(sent + 1)
        &&& handed_out == all.take(sent + 1)
    } else {
        &&& now.phase == Phase::ReceivingPacket
        &&& now.pending.len() == 0
        &&& handed_out == all
    }
}

/// A picture is sent packet by packet, in order: when some of its packets have been sent, the next
/// one is handed out and the others wait, and when all have, the encoder is asked for more.
pub proof fn law_picture_is_sent_in_order(s: SessionView, data: Seq<u8>, sent: nat)
    requires
        s.phase == Phase::ReceivingPacket,
        sent <= packets(s.seq, s.ts, payloads(nal_units(data))).len(),
    ensures
        has_sent(
            after(s, sending(data, sent)),
            delivered(s, sending(data, sent)),
            packets(s.seq, s.ts, payloads(nal_units(data))),
            sent as int,
        ),
    decreases sent,
{
    let all = packets(s.seq, s.ts, payloads(nal_units(data)));
    if sent == 0 {
        let none = Seq::<EventView>::empty();
        assert(sending(data, sent) =~= none.push(EventView::Encoded(Some(data))));
        lemma_one_more(s, none, EventView::Encoded(Some(data)));
        lemma_begin_sending(s, data, all);
        assert(delivered(s, none) + sent_by(transition(s, EventView::Encoded(Some(data))).1)
            =~= sent_by(transition(s, EventView::Encoded(Some(data))).1));
    } else {
        let before = sending(data, (sent - 1) as nat);
        law_picture_is_sent_in_order(s, data, (sent - 1) as nat);
        assert(sending(data, sent) =~= before.push(EventView::Done));
        lemma_one_more(s, before, EventView::Done);
        lemma_go_on_sending(after(s, before), delivered(s, before), all, sent as int);
    }
}

/// One more event is one more transition.
proof fn lemma_one_more(s: SessionView, events: Seq<EventView>, e: EventView)
    ensures
        after(s, events.push(e)) == transition(after(s, events), e).0,
        delivered(s, events.push(e)) == delivered(s, events) + sent_by(
            transition(after(s, events), e).1,
        ),
{
    assert(events.push(e).drop_last() =~= events);
}

/// The first packet of a picture is handed out at once.
proof fn lemma_begin_sending(s: SessionView, data: Seq<u8>, all: Seq<Seq<u8>>)
    requires
        s.phase == Phase::ReceivingPacket,
        all == packets(s.seq, s.ts, payloads(nal_units(data))),
    ensures
        has_sent(
            transition(s, EventView::Encoded(Some(data))).0,
            sent_by(transition(s, EventView::Encoded(Some(data))).1),
            all,
            0,
        ),
{
    if all.len() > 0 {
        assert(all.drop_first() =~= all.skip(1));
        assert(seq![all[0]] =~= all.take(1));
    } else {
        assert(all =~= Seq::<Seq<u8>>::empty());
    }
}

/// When a packet has been sent, the next one is handed out.
proof fn lemma_go_on_sending(
    s: SessionView,
    handed_out: Seq<Seq<u8>>,
    all: Seq<Seq<u8>>,
    sent: int,
)
    requires
        0 < sent <= all.len(),
        has_sent(s, handed_out, all, sent - 1),
    ensures
        has_sent(
            transition(s, EventView::Done).0,
            handed_out + sent_by(transition(s, EventView::Done).1),
            all,
            sent,
        ),
{
    if sent < all.len() {
        assert(all.skip(sent).drop_first() =~= all.skip(sent + 1));
        assert(all.skip(sent)[0] == all[sent]);
        assert(all.take(sent) + seq![all[sent]] =~= all.take(sent + 1));
    } else {
        assert(all.take(sent) + Seq::<Seq<u8>>::empty() =~= all);
    }
}

/// The first packet that cannot be sent is the last that is tried: the session stops there because
/// the channel is closed, and hands out nothing more whatever happens later.
pub proof fn law_failed_send_is_the_last(
    s: SessionView,
    data: Seq<u8>,
    sent: nat,
    later: Seq<EventView>,
)
    requires
        s.phase == Phase::ReceivingPacket,
        sent < packets(s.seq, s.ts, payloads(nal_units(data))).len(),
    ensures
        ({
            let all = packets(s.seq, s.ts, payloads(nal_units(data)));
            let failed = sending(data, sent) + seq![EventView::Closed];
            &&& transition(after(s, sending(data, sent)), EventView::Closed).1
                == ActionView::Stop(Ending::ChannelClosed)
            &&& after(s, failed + later).phase == Phase::Stopped
            &&& delivered(s, failed + later) == all.take((sent + 1) as int)
        }),
{
    let failed = sending(data, sent) + seq![EventView::Closed];
    let now = after(s, sending(data, sent));
    law_picture_is_sent_in_order(s, data, sent);
    assert(failed =~= sending(data, sent).push(EventView::Closed));
    lemma_one_more(s, sending(data, sent), EventView::Closed);
    assert(transition(now, EventView::Closed).1 == ActionView::Stop(Ending::ChannelClosed));
    lemma_events_joined(s, failed, later);
    law_stopped_for_good(after(s, failed), later, EventView::Done);
    assert(delivered(s, failed + later) =~= delivered(s, sending(data, sent)));
}

/// The NAL units of the pictures that a session got from the encoder in the course of some events.
pub open spec fn encoded_units(s: SessionView, events: Seq<EventView>) -> Seq<Seq<u8>>
    decreases events.len(),
{
    if events.len() == 0 {
        seq![]
    } else {
        encoded_units(s, events.drop_last()) + units_of(
            after(s, events.drop_last()),
            events.last(),
        )
    }
}

/// The NAL units of the picture that one event brings from the encoder, if it brings one.
pub open spec fn units_of(s: SessionView, e: EventView) -> Seq<Seq<u8>> {
    match (s.phase, e) {
        (Phase::ReceivingPacket, EventView::Encoded(Some(data))) => nal_units(data),
        _ => seq![],
    }
}

/// A receiver of the packets of a session gets all the NAL units of all of its pictures, in order
/// and byte for byte: out of those that were handed out, and those that still wait, if any.
pub proof fn law_session_reassembly(url: Seq<char>, events: Seq<EventView>)
    requires
        forall|k: int|
            0 <= k < encoded_units(fresh(url), events).len() ==> survives(
                #[trigger] encoded_units(fresh(url), events)[k],
            ),
    ensures
        reassembled(delivered(fresh(url), events) + after(fresh(url), events).pending)
            == encoded_units(fresh(url), events),
        after(fresh(url), events).pending.len() == 0 ==> reassembled(delivered(fresh(url), events))
            == encoded_units(fresh(url), events),
{
    let done = delivered(fresh(url), events);
    let waiting = after(fresh(url), events).pending;
    law_delivered_is_a_prefix(url, events);
    lemma_made_is_received(url, events);
    if waiting.len() == 0 {
        assert(done + waiting =~= done);
    }
}

proof fn lemma_made_is_received(url: Seq<char>, events: Seq<EventView>)
    requires
        forall|k: int|
            0 <= k < encoded_units(fresh(url), events).len() ==> survives(
                #[trigger] encoded_units(fresh(url), events)[k],
            ),
    ensures
        receive_all(nothing_received(), payloads_in(made(fresh(url), events))) == (Reassembly {
            units: encoded_units(fresh(url), events),
            partial: seq![],
        }),
    decreases events.len(),
{
    let s = fresh(url);
    let start = nothing_received();
    if events.len() == 0 {
        assert(payloads_in(made(s, events)) =~= Seq::<Seq<u8>>::empty());
    } else {
        let before = after(s, events.drop_last());
        let e = events.last();
        let units = encoded_units(s, events.drop_last());
        let more = units_of(before, e);
        let done = made(s, events.drop_last());
        let next = made_by(before, e);
        assert(encoded_units(s, events) == units + more);
        assert forall|k: int| 0 <= k < units.len() implies survives(#[trigger] units[k]) by {
            assert((units + more)[k] == units[k]);
        }
        assert forall|k: int| 0 <= k < more.len() implies survives(#[trigger] more[k]) by {
            assert((units + more)[units.len() + k] == more[k]);
        }
        lemma_made_is_received(url, events.drop_last());
        assert(payloads_in(done + next) =~= payloads_in(done) + payloads_in(next));
        lemma_receive_all_concat(start, payloads_in(done), payloads_in(next));
        let now = Reassembly { units, partial: Seq::<u8>::empty() };
        if before.phase == Phase::ReceivingPacket && e is Encoded && e->Encoded_0 is Some {
            let data = e->Encoded_0->0;
            law_units_are_not_empty(data);
            lemma_payloads_in_packets(before.seq, before.ts, payloads(nal_units(data)));
            lemma_receive_nals(now, nal_units(data));
        } else {
            assert(payloads_in(next) =~= Seq::<Seq<u8>>::empty());
            assert(units + more =~= units);
        }
    }
}

/// A frame is handed to the encoder as a keyframe just where a keyframe had been asked for, and
/// every frame is handed over right after the request was taken.
pub proof fn law_keyframe_on_request(s: SessionView, e: EventView, scaled: bool, key: bool)
    ensures
        transition(s, e).1 == (ActionView::SendFrame { scaled, key }) <==> s.phase
            == Phase::TakingRequest && e == EventView::Request(key) && scaled == s.scale,
{
}

/// A packet of any stream but the chosen one changes nothing.
pub proof fn law_other_streams_are_passed_over(s: SessionView, stream: usize)
    requires
        s.phase == Phase::ReadingPacket,
        stream != s.stream,
    ensures
        transition(s, EventView::Packet(Some(stream))) == (s, ActionView::ReadPacket),
{
}

/// Whether an event is a packet that the session passes over: one of another stream than it chose.
pub open spec fn passed_over(s: SessionView, e: EventView) -> bool {
    &&& s.phase == Phase::ReadingPacket
    &&& e matches EventView::Packet(Some(stream))
    &&& stream != s.stream
}

/// Some events without the packets that the session passes over.
pub open spec fn chosen_events(s: SessionView, events: Seq<EventView>) -> Seq<EventView>
    decreases events.len(),
{
    if events.len() == 0 {
        seq![]
    } else {
        let before = chosen_events(s, events.drop_last());
        if passed_over(after(s, events.drop_last()), events.last()) {
            before
        } else {
            before.push(events.last())
        }
    }
}

/// Leaving out every packet of another stream changes neither the session nor the packets that it
/// sends, nor the pictures and frames that it has seen.
pub proof fn law_only_the_chosen_stream_matters(s: SessionView, events: Seq<EventView>)
    ensures
        after(s, chosen_events(s, events)) == after(s, events),
        delivered(s, chosen_events(s, events)) == delivered(s, events),
        made(s, chosen_events(s, events)) == made(s, events),
        encoded_units(s, chosen_events(s, events)) == encoded_units(s, events),
        frames(s, chosen_events(s, events)) == frames(s, events),
    decreases events.len(),
{
    if events.len() > 0 {
        law_only_the_chosen_stream_matters(s, events.drop_last());
        let before = chosen_events(s, events.drop_last());
        let e = events.last();
        if passed_over(after(s, events.drop_last()), e) {
            assert(delivered(s, events) =~= delivered(s, events.drop_last()));
            assert(made(s, events) =~= made(s, events.drop_last()));
            assert(encoded_units(s, events) =~= encoded_units(s, events.drop_last()));
        } else {
            assert(before.push(e).drop_last() =~= before);
            assert(before.push(e).last() == e);
        }
    }
}

/// The packets that the writer receives in the course of some events.
pub open spec fn received(events: Seq<WriterEvent>) -> Seq<Seq<u8>>
    decreases events.len(),
{
    if events.len() == 0 {
        seq![]
    } else {
        match events.last() {
            WriterEvent::Received(Some(packet)) => received(events.drop_last()).push(packet@),
            _ => received(events.drop_last()),
        }
    }
}

/// The packets that are written to a track in the course of some events.
pub open spec fn written(
    track: Arc<TrackLocalStaticRTP>,
    events: Seq<WriterEvent>,
) -> Seq<Seq<u8>>
    decreases events.len(),
{
    if events.len() == 0 {
        seq![]
    } else {
        let before = written(track, events.drop_last());
        match writer_task(track, events.last()) {
            WriterTask::Write { track: target, packet } => if target == track {
                before.push(packet@)
            } else {
                before
            },
            _ => before,
        }
    }
}

/// Every packet that the writer receives is written to its track, in order and unchanged, whatever
/// became of the packets before.
pub proof fn law_received_packets_are_written(
    track: Arc<TrackLocalStaticRTP>,
    events: Seq<WriterEvent>,
)
    ensures
        written(track, events) == received(events),
    decreases events.len(),
{
    if events.len() > 0 {
        law_received_packets_are_written(track, events.drop_last());
    }
}

/// A session that is over stays over, sends nothing more, and finds every further report out of
/// step.
pub proof fn law_stopped_for_good(s: SessionView, events: Seq<EventView>, next: EventView)
    requires
        s.phase == Phase::Stopped,
    ensures
        after(s, events) == s,
        delivered(s, events).len() == 0,
        transition(after(s, events), next) == (s, ActionView::Stop(Ending::OutOfStep)),
    decreases events.len(),
{
    if events.len() > 0 {
        law_stopped_for_good(s, events.drop_last(), events.last());
    }
}

/// A failed call ends the session: in every phase whose work can fail with the failure, and out of
/// step in the others. A receiver that is gone ends it too.
pub proof fn law_failure_stops(s: SessionView)
    ensures
        transition(s, EventView::Failed) == (
            SessionView { phase: Phase::Stopped, ..s },
            ActionView::Stop(
                if can_fail(s.phase) {
                    Ending::CallFailed
                } else {
                    Ending::OutOfStep
                },
            ),
        ),
        s.phase == Phase::Delivering ==> transition(s, EventView::Closed) == (
            SessionView { phase: Phase::Stopped, ..s },
            ActionView::Stop(Ending::ChannelClosed),
        ),
{
}

/// Sending, receiving and scaling never change which stream was chosen, the size of the pictures
/// or whether they are scaled: once the encoder is being opened, these stay as they are.
pub proof fn law_setup_is_kept(s: SessionView, e: EventView)
    requires
        s.phase != Phase::FindingStream,
        s.phase != Phase::OpeningDecoder,
    ensures
        transition(s, e).0.stream == s.stream,
        transition(s, e).0.width == s.width,
        transition(s, e).0.height == s.height,
        transition(s, e).0.scale == s.scale,
        transition(s, e).0.url == s.url,
{
}

} // verus!
