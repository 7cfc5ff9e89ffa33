//! What holds over a whole negotiation, however its steps go.
use std::sync::Arc;

use vstd::prelude::*;

use webrtc::peer_connection::sdp::session_description::RTCSessionDescription;
use webrtc::track::track_local::track_local_static_rtp::TrackLocalStaticRTP;

use crate::signaling::{
    at, fresh, gives, is_session_description, parsed_offer, still_waits, transition,
    EventView, NegotiationView, Phase, Refusal, StepView,
};

verus! {

/// The negotiation after some events.
pub open spec fn after(n: NegotiationView, events: Seq<EventView>) -> NegotiationView
    decreases events.len(),
{
    if events.len() == 0 {
        n
    } else {
        transition(after(n, events.drop_last()), events.last()).0
    }
}

/// The step that the last of some events leads to.
pub open spec fn last_step(n: NegotiationView, events: Seq<EventView>) -> StepView {
    transition(after(n, events.drop_last()), events.last()).1
}

/// The events of a negotiation that goes well, whichever way the wait for candidates ends.
pub open spec fn good_events(viewer: bool, gathered: bool, sdp: Seq<char>) -> Seq<EventView> {
    let opening = if viewer {
        seq![EventView::Begin, EventView::Done, EventView::Done]
    } else {
        seq![EventView::Begin, EventView::Done]
    };
    opening + seq![
        EventView::Done,
        EventView::Done,
        EventView::Done,
        EventView::Done,
        if gathered {
            EventView::Done
        } else {
            EventView::Failed
        },
        EventView::Local(Some(sdp)),
    ]
}

/// Whether a phase comes after the offer was looked at.
pub open spec fn past_offer(phase: Phase) -> bool {
    match phase {
        Phase::SettingRemote => true,
        Phase::CreatingAnswer => true,
        Phase::SettingLocal => true,
        Phase::Gathering => true,
        Phase::ReadingLocal => true,
        _ => false,
    }
}

proof fn lemma_past_offer(
    offer: Seq<char>,
    viewer: bool,
    track: Arc<TrackLocalStaticRTP>,
    events: Seq<EventView>,
)
    ensures
        after(fresh(offer, viewer, track), events).offer == offer,
        after(fresh(offer, viewer, track), events).viewer == viewer,
        after(fresh(offer, viewer, track), events).track == track,
        past_offer(after(fresh(offer, viewer, track), events).phase) ==> is_session_description(
            offer,
        ),
    decreases events.len(),
{
    if events.len() > 0 {
        lemma_past_offer(offer, viewer, track, events.drop_last());
    }
}

/// Only a session description is ever answered, the answer is the local description, and the
/// connection is kept just where the peer is a viewer.
pub proof fn law_answers(
    offer: Seq<char>,
    viewer: bool,
    track: Arc<TrackLocalStaticRTP>,
    events: Seq<EventView>,
    sdp: Seq<char>,
    keep: bool,
)
    requires
        events.len() > 0,
        last_step(fresh(offer, viewer, track), events) == (StepView::Finish { sdp, keep }),
    ensures
        is_session_description(offer),
        events.last() == EventView::Local(Some(sdp)),
        keep == viewer,
{
    lemma_past_offer(offer, viewer, track, events.drop_last());
}

/// The remote description that is set is what the offer is parsed to.
pub proof fn law_offer_is_passed_on(
    offer: Seq<char>,
    viewer: bool,
    track: Arc<TrackLocalStaticRTP>,
    events: Seq<EventView>,
    description: RTCSessionDescription,
)
    requires
        events.len() > 0,
        last_step(fresh(offer, viewer, track), events) == StepView::SetRemote(description),
    ensures
        parsed_offer(offer) == Ok::<RTCSessionDescription, webrtc::Error>(description),
{
    lemma_past_offer(offer, viewer, track, events.drop_last());
}

/// An offer is refused as a bad one just where it is no session description, and with the error
/// that parsing it gave.
pub proof fn law_bad_offers_are_refused(
    offer: Seq<char>,
    viewer: bool,
    track: Arc<TrackLocalStaticRTP>,
    events: Seq<EventView>,
    error: webrtc::Error,
)
    requires
        events.len() > 0,
    ensures
        last_step(fresh(offer, viewer, track), events) == StepView::Refuse(
            Refusal::BadOffer(error),
        ) <==> {
            &&& after(fresh(offer, viewer, track), events.drop_last()).phase == Phase::AddingTrack
            &&& events.last() is Done
            &&& parsed_offer(offer) == Err::<RTCSessionDescription, webrtc::Error>(error)
        },
{
    lemma_past_offer(offer, viewer, track, events.drop_last());
}

/// Every peer gets the one track that its negotiation was begun with.
pub proof fn law_track_is_shared(
    offer: Seq<char>,
    viewer: bool,
    track: Arc<TrackLocalStaticRTP>,
    events: Seq<EventView>,
    added: Arc<TrackLocalStaticRTP>,
)
    requires
        events.len() > 0,
        last_step(fresh(offer, viewer, track), events) == StepView::AddTrack(added),
    ensures
        added == track,
{
    lemma_past_offer(offer, viewer, track, events.drop_last());
}

/// Every offer that is a session description is answered when all steps go well.
pub proof fn law_good_offers_are_answered(
    offer: Seq<char>,
    viewer: bool,
    track: Arc<TrackLocalStaticRTP>,
    gathered: bool,
    sdp: Seq<char>,
)
    requires
        is_session_description(offer),
    ensures
        last_step(fresh(offer, viewer, track), good_events(viewer, gathered, sdp)) == (
        StepView::Finish { sdp, keep: viewer }),
{
    let events = good_events(viewer, gathered, sdp);
    let n = fresh(offer, viewer, track);
    let k: int = if viewer {
        3
    } else {
        2
    };
    lemma_good_opening(n, gathered, sdp);
    lemma_good_middle(n, gathered, sdp, k);
    assert(events.take(k + 5) =~= events.drop_last());
}

/// A negotiation that goes well comes to its track.
proof fn lemma_good_opening(n: NegotiationView, gathered: bool, sdp: Seq<char>)
    requires
        n.phase == Phase::Fresh,
    ensures
        after(
            n,
            good_events(n.viewer, gathered, sdp).take(
                if n.viewer {
                    3
                } else {
                    2
                },
            ),
        ) == at(n, Phase::AddingTrack),
{
    let events = good_events(n.viewer, gathered, sdp);
    lemma_one_more(n, events, 0);
    lemma_one_more(n, events, 1);
    if n.viewer {
        lemma_one_more(n, events, 2);
    }
}

/// From its track, a negotiation that goes well comes to its local description.
proof fn lemma_good_middle(n: NegotiationView, gathered: bool, sdp: Seq<char>, k: int)
    requires
        is_session_description(n.offer),
        k == if n.viewer {
            3int
        } else {
            2int
        },
        after(n, good_events(n.viewer, gathered, sdp).take(k)) == at(n, Phase::AddingTrack),
    ensures
        after(n, good_events(n.viewer, gathered, sdp).take(k + 5)) == at(n, Phase::ReadingLocal),
{
    let events = good_events(n.viewer, gathered, sdp);
    assert(after(n, events.take(k + 2)) == at(n, Phase::CreatingAnswer)) by {
        lemma_one_more(n, events, k);
        lemma_one_more(n, events, k + 1);
    }
    assert(after(n, events.take(k + 4)) == at(n, Phase::Gathering)) by {
        lemma_one_more(n, events, k + 2);
        lemma_one_more(n, events, k + 3);
    }
    lemma_one_more(n, events, k + 4);
}

/// A negotiation after `k + 1` events is one transition past the negotiation after `k`.
proof fn lemma_one_more(n: NegotiationView, events: Seq<EventView>, k: int)
    requires
        0 <= k < events.len(),
    ensures
        k == 0 ==> after(n, events.take(k)) == n,
        after(n, events.take(k + 1)) == transition(after(n, events.take(k)), events[k]).0,
{
    assert(events.take(k + 1).drop_last() =~= events.take(k));
}

/// A negotiation that is over stays over, and every further report is out of step.
pub proof fn law_over_for_good(n: NegotiationView, e: EventView)
    requires
        n.phase == Phase::Over,
    ensures
        transition(n, e) == (n, StepView::Refuse(Refusal::OutOfStep)),
{
}

/// Whether a signal still waits after some states of the gathering.
pub open spec fn waiting_after(completes: Seq<bool>) -> bool
    decreases completes.len(),
{
    completes.len() == 0 || still_waits(waiting_after(completes.drop_last()), completes.last())
}

/// How often the signal is given in the course of some states of the gathering.
pub open spec fn given(completes: Seq<bool>) -> nat
    decreases completes.len(),
{
    if completes.len() == 0 {
        0
    } else {
        given(completes.drop_last()) + if gives(
            waiting_after(completes.drop_last()),
            completes.last(),
        ) {
            1nat
        } else {
            0nat
        }
    }
}

/// The signal is given once if the gathering is ever complete, however often that is reported,
/// and never otherwise.
pub proof fn law_signal_is_given_once(completes: Seq<bool>)
    ensures
        given(completes) == if completes.contains(true) {
            1nat
        } else {
            0nat
        },
        waiting_after(completes) <==> !completes.contains(true),
    decreases completes.len(),
{
    if completes.len() > 0 {
        let before = completes.drop_last();
        law_signal_is_given_once(before);
        if before.contains(true) {
            let i = choose|i: int| 0 <= i < before.len() && before[i] == true;
            assert(completes[i] == true);
        }
        if completes.last() {
            assert(completes[completes.len() - 1] == true);
        }
        if completes.contains(true) && !completes.last() {
            let i = choose|i: int| 0 <= i < completes.len() && completes[i] == true;
            assert(before[i] == true);
        }
    }
}

} // verus!
