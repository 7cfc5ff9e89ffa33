//! What a step of a negotiation asks for and when, and what it changes.
use std::sync::Arc;

use vstd::prelude::*;

use webrtc::peer_connection::sdp::session_description::RTCSessionDescription;
use webrtc::track::track_local::track_local_static_rtp::TrackLocalStaticRTP;

use crate::signaling::{
    description_is_offer, description_text, keyframe_requests, parsed_offer, Event, GatherSignal,
    Negotiation, Phase, Refusal, Step,
};

verus! {

/// A new negotiation is on the offer as it came, for the peer and with the track that it was made
/// for, and has done nothing yet.
pub proof fn law_new_negotiation(
    offer: String,
    viewer: bool,
    track: Arc<TrackLocalStaticRTP>,
    negotiation: Negotiation,
)
    ensures
        call_ensures(Negotiation::new, (offer, viewer, track), negotiation) ==> {
            &&& negotiation.offer@ == offer@
            &&& negotiation.viewer == viewer
            &&& negotiation.track == track
            &&& negotiation.phase == Phase::Fresh
        },
{
    if call_ensures(Negotiation::new, (offer, viewer, track), negotiation) {
        assert(negotiation@.offer == negotiation.offer@);
    }
}

/// The phase of a negotiation says which step it waits for.
pub proof fn law_phase_names_the_step()
    ensures
        forall|n: &mut Negotiation, e: Event, step: Step| #[trigger]
            call_ensures(Negotiation::negotiate, (n, e), step) ==> {
                &&& final(n).phase != Phase::Fresh
                &&& final(n).phase == Phase::CreatingPeer <==> step is CreatePeer
                &&& final(n).phase == Phase::Watching <==> step is Watch
                &&& final(n).phase == Phase::AddingTrack <==> step is AddTrack
                &&& final(n).phase == Phase::SettingRemote <==> step is SetRemote
                &&& final(n).phase == Phase::CreatingAnswer <==> step is CreateAnswer
                &&& final(n).phase == Phase::SettingLocal <==> step is SetLocal
                &&& final(n).phase == Phase::Gathering <==> step is Gather
                &&& final(n).phase == Phase::ReadingLocal <==> step is ReadLocal
                &&& final(n).phase == Phase::Over <==> step is Finish || step is Refuse
            },
{
}

/// The steps come in order, each when the one before is done: a viewer is watched before it gets the
/// track, every peer gets the track of the negotiation, the offer is set as it is parsed, and the
/// candidates are used that are there when the wait for them ends, however it does.
pub proof fn law_steps()
    ensures
        forall|n: &mut Negotiation, e: Event, step: Step| #[trigger]
            call_ensures(Negotiation::negotiate, (n, e), step) ==> {
                &&& step is CreatePeer <==> n.phase == Phase::Fresh && e is Begin
                &&& step is Watch <==> n.phase == Phase::CreatingPeer && e is Done && n.viewer
                &&& step is AddTrack <==> {
                    ||| n.phase == Phase::CreatingPeer && e is Done && !n.viewer
                    ||| n.phase == Phase::Watching && e is Done
                }
                &&& step matches Step::AddTrack(track) ==> track == n.track
                &&& step is SetRemote <==> n.phase == Phase::AddingTrack && e is Done
                    && parsed_offer(n.offer@) is Ok
                &&& step matches Step::SetRemote(d) ==> {
                    &&& parsed_offer(n.offer@) == Ok::<RTCSessionDescription, webrtc::Error>(d)
                    &&& description_text(d) == n.offer@
                    &&& description_is_offer(d)
                    &&& n.offer@.len() > 0
                }
                &&& step is CreateAnswer <==> n.phase == Phase::SettingRemote && e is Done
                &&& step is SetLocal <==> n.phase == Phase::CreatingAnswer && e is Done
                &&& step is Gather <==> n.phase == Phase::SettingLocal && e is Done
                &&& step is ReadLocal <==> n.phase == Phase::Gathering && (e is Done || e is Failed)
                &&& step is Finish <==> n.phase == Phase::ReadingLocal && e is Local && e->Local_0
                    is Some
                &&& step matches Step::Finish { sdp, keep } ==> sdp@ == e->Local_0->0@ && keep
                    == n.viewer
            },
{
}

/// A negotiation is given up for one reason at a time, and a bad offer with the error of parsing it.
pub proof fn law_refusals()
    ensures
        forall|n: &mut Negotiation, e: Event, step: Step| #[trigger]
            call_ensures(Negotiation::negotiate, (n, e), step) ==> {
                &&& step == Step::Refuse(Refusal::NoLocalSdp) <==> n.phase == Phase::ReadingLocal
                    && e is Local && e->Local_0 is None
                &&& step == Step::Refuse(Refusal::CallFailed) <==> e is Failed && (n.phase
                    == Phase::CreatingPeer || n.phase == Phase::AddingTrack || n.phase
                    == Phase::SettingRemote || n.phase == Phase::CreatingAnswer || n.phase
                    == Phase::SettingLocal)
                &&& n.phase == Phase::AddingTrack && e is Done && parsed_offer(n.offer@) is Err
                    <==> step is Refuse && step->Refuse_0 is BadOffer
                &&& step is Refuse && step->Refuse_0 is BadOffer ==> parsed_offer(n.offer@)
                    == Err::<RTCSessionDescription, webrtc::Error>(step->Refuse_0->BadOffer_0)
            },
{
}

/// A step changes what a negotiation waits for and nothing else.
pub proof fn law_what_a_negotiation_keeps()
    ensures
        forall|n: &mut Negotiation, e: Event, step: Step| #[trigger]
            call_ensures(Negotiation::negotiate, (n, e), step) ==> {
                &&& final(n).offer@ == n.offer@
                &&& final(n).viewer == n.viewer
                &&& final(n).track == n.track
            },
        forall|
            n: &mut Negotiation,
            parsed: Result<RTCSessionDescription, webrtc::Error>,
            step: Step,
        | #[trigger]
            call_ensures(Negotiation::offered, (n, parsed), step) ==> {
                &&& final(n).offer@ == n.offer@
                &&& final(n).viewer == n.viewer
                &&& final(n).track == n.track
                &&& parsed matches Ok(d) ==> step == Step::SetRemote(d) && final(n).phase
                    == Phase::SettingRemote
                &&& parsed matches Err(e) ==> step == Step::Refuse(Refusal::BadOffer(e))
                    && final(n).phase == Phase::Over
            },
{
}

/// Two keyframes are asked for when a viewer connects, one at once and one a tenth of a second later,
/// and none otherwise.
pub proof fn law_keyframe_requests(connected: bool, delays: Vec<u64>)
    ensures
        call_ensures(keyframe_requests, (connected,), delays) ==> {
            &&& connected ==> delays@.len() == 2 && delays@[0] == 0 && delays@[1] == 100
            &&& !connected ==> delays@.len() == 0
        },
{
}

/// The signal is given when the gathering is complete for the first time, and waits until then.
pub proof fn law_gather_signal(signal: GatherSignal)
    ensures
        call_ensures(GatherSignal::new, (), signal) ==> signal.waiting,
        forall|s: &mut GatherSignal, complete: bool, give: bool| #[trigger]
            call_ensures(GatherSignal::observe, (s, complete), give) ==> {
                &&& give ==> s.waiting && complete && !final(s).waiting
                &&& !give ==> !(s.waiting && complete) && final(s).waiting == s.waiting
            },
{
}

} // verus!
