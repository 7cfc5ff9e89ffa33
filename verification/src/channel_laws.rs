//! What holds between the encoder and the writer, whichever of them is the faster.
//!
//! They are joined by a channel on which so many packets may wait as [`crate::encoder::run`] asks
//! for. Such a channel takes a packet only while fewer wait, so that the encoder is blocked until
//! there is room, and gives packets out in the order in which it took them.
use vstd::prelude::*;

use crate::encoder::{fresh, transition, EventView, Phase, SessionView, CHANNEL_PACKETS};
use crate::encoder_laws::{after, delivered, sent_by};

verus! {

/// The encoder, the channel and the writer.
pub struct Pipeline {
    pub session: SessionView,
    /// The packet that the session has handed out to be sent, if it waits for that.
    pub sending: Seq<Seq<u8>>,
    /// The packets on the channel.
    pub queue: Seq<Seq<u8>>,
    /// The packets that the writer has received.
    pub received: Seq<Seq<u8>>,
}

/// What happens next in a pipeline.
pub enum Move {
    /// An event of the encoding session. That a packet was sent means that the channel took it.
    Encoder(EventView),
    /// The writer receives a packet.
    Writer,
}

/// A pipeline whose session has not begun, with the packets that earlier sessions left waiting on the
/// channel.
pub open spec fn fresh_pipeline(url: Seq<char>, waiting: Seq<Seq<u8>>) -> Pipeline {
    Pipeline { session: fresh(url), sending: seq![], queue: waiting, received: seq![] }
}

/// Whether an event says that a packet was sent.
pub open spec fn is_taken(s: SessionView, e: EventView) -> bool {
    s.phase == Phase::Delivering && e is Done
}

/// Whether something can happen: a packet is sent only while the channel has room, and received only
/// where there is one.
pub open spec fn possible(p: Pipeline, m: Move) -> bool {
    match m {
        Move::Encoder(e) => is_taken(p.session, e) ==> p.queue.len() < CHANNEL_PACKETS,
        Move::Writer => p.queue.len() > 0,
    }
}

/// What it makes of the pipeline.
pub open spec fn moved(p: Pipeline, m: Move) -> Pipeline {
    match m {
        Move::Encoder(e) => Pipeline {
            session: transition(p.session, e).0,
            sending: sent_by(transition(p.session, e).1),
            queue: if is_taken(p.session, e) {
                p.queue + p.sending
            } else {
                p.queue
            },
            received: p.received,
        },
        Move::Writer => Pipeline {
            queue: p.queue.drop_first(),
            received: p.received.push(p.queue[0]),
            ..p
        },
    }
}

/// The pipeline after some moves.
pub open spec fn pipeline(
    url: Seq<char>,
    waiting: Seq<Seq<u8>>,
    moves: Seq<Move>,
) -> Pipeline
    decreases moves.len(),
{
    if moves.len() == 0 {
        fresh_pipeline(url, waiting)
    } else {
        moved(pipeline(url, waiting, moves.drop_last()), moves.last())
    }
}

/// Whether some moves can follow each other.
pub open spec fn all_possible(
    url: Seq<char>,
    waiting: Seq<Seq<u8>>,
    moves: Seq<Move>,
) -> bool
    decreases moves.len(),
{
    moves.len() == 0 || (all_possible(url, waiting, moves.drop_last()) && possible(
        pipeline(url, waiting, moves.drop_last()),
        moves.last(),
    ))
}

/// The events of the session among some moves.
pub open spec fn session_events(moves: Seq<Move>) -> Seq<EventView>
    decreases moves.len(),
{
    if moves.len() == 0 {
        seq![]
    } else {
        match moves.last() {
            Move::Encoder(e) => session_events(moves.drop_last()).push(e),
            Move::Writer => session_events(moves.drop_last()),
        }
    }
}

/// A full channel blocks the encoder: no packet is sent until the writer has received one.
pub proof fn law_full_channel_blocks(p: Pipeline)
    requires
        p.queue.len() == CHANNEL_PACKETS,
        p.session.phase == Phase::Delivering,
    ensures
        !possible(p, Move::Encoder(EventView::Done)),
        possible(p, Move::Writer),
        possible(moved(p, Move::Writer), Move::Encoder(EventView::Done)),
{
}

/// What a session waits for is that the packet is sent that it has handed out.
proof fn lemma_handed_out(s: SessionView, e: EventView)
    ensures
        sent_by(transition(s, e).1).len() <= 1,
        sent_by(transition(s, e).1).len() == 1 <==> transition(s, e).0.phase == Phase::Delivering,
        s.phase == Phase::Stopped ==> transition(s, e).0.phase == Phase::Stopped,
{
}

/// Whether a pipeline has kept everything that was handed out, in order: the writer has received the
/// first packets, those that follow are on the channel, and the one after them is being sent. Only a
/// packet whose sending ended the session may be missing.
pub open spec fn nothing_lost(p: Pipeline, handed_out: Seq<Seq<u8>>) -> bool {
    if p.session.phase != Phase::Stopped {
        p.received + p.queue + p.sending == handed_out
    } else {
        p.received + p.queue == handed_out || p.received + p.queue == handed_out.drop_last()
    }
}

/// Whether no more packets wait on the channel than it was opened for, one is being sent just while
/// the session waits for that, and nothing was discarded or has overtaken.
pub open spec fn in_order(
    p: Pipeline,
    url: Seq<char>,
    waiting: Seq<Seq<u8>>,
    events: Seq<EventView>,
) -> bool {
    &&& p.session == after(fresh(url), events)
    &&& p.queue.len() <= CHANNEL_PACKETS
    &&& p.sending.len() == if p.session.phase == Phase::Delivering {
        1nat
    } else {
        0nat
    }
    &&& nothing_lost(p, waiting + delivered(fresh(url), events))
}

/// The channel stays within its bound and loses nothing, whatever a session does, whenever the writer
/// receives, and whatever earlier sessions have left on the channel.
pub proof fn law_channel_is_bounded_and_loses_nothing(
    url: Seq<char>,
    waiting: Seq<Seq<u8>>,
    moves: Seq<Move>,
)
    requires
        waiting.len() <= CHANNEL_PACKETS,
        all_possible(url, waiting, moves),
    ensures
        in_order(pipeline(url, waiting, moves), url, waiting, session_events(moves)),
    decreases moves.len(),
{
    if moves.len() == 0 {
        let none = Seq::<Seq<u8>>::empty();
        assert(none + waiting + none =~= waiting + none);
    } else {
        let before = moves.drop_last();
        law_channel_is_bounded_and_loses_nothing(url, waiting, before);
        lemma_move(
            pipeline(url, waiting, before),
            url,
            waiting,
            session_events(before),
            moves.last(),
        );
    }
}

/// One move keeps a pipeline in order.
proof fn lemma_move(
    p: Pipeline,
    url: Seq<char>,
    waiting: Seq<Seq<u8>>,
    events: Seq<EventView>,
    m: Move,
)
    requires
        possible(p, m),
        in_order(p, url, waiting, events),
    ensures
        in_order(
            moved(p, m),
            url,
            waiting,
            match m {
                Move::Encoder(e) => events.push(e),
                Move::Writer => events,
            },
        ),
{
    let next = moved(p, m);
    let out = waiting + delivered(fresh(url), events);
    match m {
        Move::Writer => {
            assert(next.received + next.queue =~= p.received + p.queue);
        },
        Move::Encoder(e) => {
            let more = sent_by(transition(p.session, e).1);
            assert(events.push(e).drop_last() =~= events);
            assert(waiting + delivered(fresh(url), events.push(e)) =~= out + more);
            lemma_handed_out(p.session, e);
            if is_taken(p.session, e) {
                assert(next.received + next.queue + next.sending =~= out + more);
            } else if p.session.phase == Phase::Delivering {
                // Anything but success ends the session.
                assert(next.session.phase == Phase::Stopped);
                assert(out + more =~= out);
                assert(next.received + next.queue =~= out.drop_last());
            } else if p.session.phase == Phase::Stopped {
                assert(out + more =~= out);
            } else {
                assert(next.received + next.queue + next.sending =~= out + more);
                if next.session.phase == Phase::Stopped {
                    assert(next.received + next.queue =~= out + more);
                }
            }
        },
    }
}

} // verus!
