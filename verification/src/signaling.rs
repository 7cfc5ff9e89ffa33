//! Offer and answer: the steps that make a peer connection out of an offer.
//!
//! As in an encoding session, the steps are told how the last one went and give the next one.
use std::sync::Arc;

use vstd::prelude::*;

use webrtc::peer_connection::sdp::session_description::RTCSessionDescription;
use webrtc::track::track_local::track_local_static_rtp::TrackLocalStaticRTP;

use crate::track::share;

verus! {

/// A session description that a peer connection takes.
#[verifier::external_type_specification]
#[verifier::external_body]
pub struct ExSessionDescription(RTCSessionDescription);

/// What is wrong in a WebRTC call.
#[verifier::external_type_specification]
#[verifier::external_body]
pub struct ExWebrtcError(webrtc::Error);

/// The text that a session description holds.
pub uninterp spec fn description_text(description: RTCSessionDescription) -> Seq<char>;

/// Whether the type of a session description says that it is an offer.
pub uninterp spec fn description_is_offer(description: RTCSessionDescription) -> bool;

/// What a text is parsed to as an offer: a session description, or an error that says what is wrong
/// with the text.
pub uninterp spec fn parsed_offer(text: Seq<char>) -> Result<
    RTCSessionDescription,
    webrtc::Error,
>;

/// Whether a text is a session description.
pub open spec fn is_session_description(text: Seq<char>) -> bool {
    parsed_offer(text) is Ok
}

/// `RTCSessionDescription::offer`: what it gives, a description or an error, depends on the text
/// alone. A description is an offer and holds the text unchanged. The empty text is none.
#[verifier::external_body]
pub(crate) fn parse_offer(sdp: String) -> (description: Result<RTCSessionDescription, webrtc::Error>)
    ensures
        description == parsed_offer(sdp@),
        description matches Ok(d) ==> description_text(d) == sdp@,
        description matches Ok(d) ==> description_is_offer(d),
        description is Ok ==> sdp@.len() > 0,
{
    RTCSessionDescription::offer(sdp)
}

/// The outside work that a negotiation waits for.
#[derive(Clone, Copy, Debug, PartialEq, Eq, Structural)]
pub enum Phase {
    Fresh,
    CreatingPeer,
    Watching,
    AddingTrack,
    SettingRemote,
    CreatingAnswer,
    SettingLocal,
    Gathering,
    ReadingLocal,
    Over,
}

/// How the last step went.
pub enum Event {
    /// The negotiation is to begin.
    Begin,
    /// The step is done, and there is nothing to report.
    Done,
    /// The step failed.
    Failed,
    /// The local session description, if there is one.
    Local(Option<String>),
}

/// What an event says.
pub enum EventView {
    Begin,
    Done,
    Failed,
    Local(Option<Seq<char>>),
}

impl View for Event {
    type V = EventView;

    open spec fn view(&self) -> EventView {
        match *self {
            Event::Begin => EventView::Begin,
            Event::Done => EventView::Done,
            Event::Failed => EventView::Failed,
            Event::Local(None) => EventView::Local(None),
            Event::Local(Some(sdp)) => EventView::Local(Some(sdp@)),
        }
    }
}

/// Why there is no answer.
pub enum Refusal {
    /// A step failed, with an error of its own.
    CallFailed,
    /// The offer is no session description.
    BadOffer(webrtc::Error),
    /// There is no local session description.
    NoLocalSdp,
    /// The report does not fit the step that was asked for.
    OutOfStep,
}

/// The next step.
pub enum Step {
    /// Create a peer connection.
    CreatePeer,
    /// From now on, report the states of its connection to [`keyframe_requests`].
    Watch,
    /// Add this video track.
    AddTrack(Arc<TrackLocalStaticRTP>),
    /// Set the offer as the remote description.
    SetRemote(RTCSessionDescription),
    /// Create an answer.
    CreateAnswer,
    /// Set that answer as the local description.
    SetLocal,
    /// Wait until the candidates are gathered, however that ends.
    Gather,
    /// Read the local description.
    ReadLocal,
    /// Keep the peer connection if asked to, and answer with this session description.
    Finish { sdp: String, keep: bool },
    /// Give up.
    Refuse(Refusal),
}

/// What a step asks for.
pub enum StepView {
    CreatePeer,
    Watch,
    AddTrack(Arc<TrackLocalStaticRTP>),
    SetRemote(RTCSessionDescription),
    CreateAnswer,
    SetLocal,
    Gather,
    ReadLocal,
    Finish { sdp: Seq<char>, keep: bool },
    Refuse(Refusal),
}

impl View for Step {
    type V = StepView;

    open spec fn view(&self) -> StepView {
        match *self {
            Step::CreatePeer => StepView::CreatePeer,
            Step::Watch => StepView::Watch,
            Step::AddTrack(track) => StepView::AddTrack(track),
            Step::SetRemote(description) => StepView::SetRemote(description),
            Step::CreateAnswer => StepView::CreateAnswer,
            Step::SetLocal => StepView::SetLocal,
            Step::Gather => StepView::Gather,
            Step::ReadLocal => StepView::ReadLocal,
            Step::Finish { sdp, keep } => StepView::Finish { sdp: sdp@, keep },
            Step::Refuse(refusal) => StepView::Refuse(refusal),
        }
    }
}

/// A negotiation on an offer.
pub struct Negotiation {
    pub offer: String,
    /// Whether the peer is a viewer of the camera: it is watched, to be sent a keyframe when it
    /// connects, and its connection is kept.
    pub viewer: bool,
    /// The track that the peer gets.
    pub track: Arc<TrackLocalStaticRTP>,
    pub phase: Phase,
}

/// What a negotiation knows.
pub struct NegotiationView {
    pub offer: Seq<char>,
    pub viewer: bool,
    /// The track that the peer gets.
    pub track: Arc<TrackLocalStaticRTP>,
    pub phase: Phase,
}

impl View for Negotiation {
    type V = NegotiationView;

    open spec fn view(&self) -> NegotiationView {
        NegotiationView {
            offer: self.offer@,
            viewer: self.viewer,
            track: self.track,
            phase: self.phase,
        }
    }
}

/// A negotiation that has not begun.
pub open spec fn fresh(
    offer: Seq<char>,
    viewer: bool,
    track: Arc<TrackLocalStaticRTP>,
) -> NegotiationView {
    NegotiationView { offer, viewer, track, phase: Phase::Fresh }
}

/// The negotiation `n` in another phase.
pub open spec fn at(n: NegotiationView, phase: Phase) -> NegotiationView {
    NegotiationView { phase, ..n }
}

/// The end of a negotiation without an answer.
pub open spec fn refuse(n: NegotiationView, refusal: Refusal) -> (NegotiationView, StepView) {
    (at(n, Phase::Over), StepView::Refuse(refusal))
}

/// Whether the step of a phase is a call that can fail.
pub open spec fn can_fail(phase: Phase) -> bool {
    match phase {
        Phase::CreatingPeer => true,
        Phase::AddingTrack => true,
        Phase::SettingRemote => true,
        Phase::CreatingAnswer => true,
        Phase::SettingLocal => true,
        _ => false,
    }
}

/// The transition table of a negotiation.
pub open spec fn transition(n: NegotiationView, e: EventView) -> (NegotiationView, StepView) {
    match (n.phase, e) {
        (Phase::Fresh, EventView::Begin) => (at(n, Phase::CreatingPeer), StepView::CreatePeer),
        (Phase::CreatingPeer, EventView::Done) => if n.viewer {
            (at(n, Phase::Watching), StepView::Watch)
        } else {
            (at(n, Phase::AddingTrack), StepView::AddTrack(n.track))
        },
        (Phase::Watching, EventView::Done) => (
            at(n, Phase::AddingTrack),
            StepView::AddTrack(n.track),
        ),
        (Phase::AddingTrack, EventView::Done) => match parsed_offer(n.offer) {
            Ok(description) => (at(n, Phase::SettingRemote), StepView::SetRemote(description)),
            Err(e) => refuse(n, Refusal::BadOffer(e)),
        },
        (Phase::SettingRemote, EventView::Done) => (
            at(n, Phase::CreatingAnswer),
            StepView::CreateAnswer,
        ),
        (Phase::CreatingAnswer, EventView::Done) => (at(n, Phase::SettingLocal), StepView::SetLocal),
        (Phase::SettingLocal, EventView::Done) => (at(n, Phase::Gathering), StepView::Gather),
        // However the wait for candidates ends, those that are there are used.
        (Phase::Gathering, EventView::Done) => (at(n, Phase::ReadingLocal), StepView::ReadLocal),
        (Phase::Gathering, EventView::Failed) => (at(n, Phase::ReadingLocal), StepView::ReadLocal),
        (Phase::ReadingLocal, EventView::Local(Some(sdp))) => (
            at(n, Phase::Over),
            StepView::Finish { sdp, keep: n.viewer },
        ),
        (Phase::ReadingLocal, EventView::Local(None)) => refuse(n, Refusal::NoLocalSdp),
        (phase, EventView::Failed) => if can_fail(phase) {
            refuse(n, Refusal::CallFailed)
        } else {
            refuse(n, Refusal::OutOfStep)
        },
        _ => refuse(n, Refusal::OutOfStep),
    }
}

impl Negotiation {
    /// A negotiation on an offer that has not begun.
    pub fn new(
        offer: String,
        viewer: bool,
        track: Arc<TrackLocalStaticRTP>,
    ) -> (negotiation: Negotiation)
        ensures
            negotiation@ == fresh(offer@, viewer, track),
    {
        Negotiation { offer, viewer, track, phase: Phase::Fresh }
    }

    fn proceed(&mut self, phase: Phase, step: Step) -> (next: Step)
        ensures
            final(self)@ == at(old(self)@, phase),
            next == step,
    {
        self.phase = phase;
        step
    }

    /// The step after the track was added, given what became of the offer: it is set as the remote
    /// description, or it is the reason to give up.
    pub fn offered(
        &mut self,
        description: Result<RTCSessionDescription, webrtc::Error>,
    ) -> (step: Step)
        ensures
            match description {
                Ok(d) => step == Step::SetRemote(d) && final(self)@ == at(
                    old(self)@,
                    Phase::SettingRemote,
                ),
                Err(e) => step == Step::Refuse(Refusal::BadOffer(e)) && final(self)@ == at(
                    old(self)@,
                    Phase::Over,
                ),
            },
    {
        match description {
            Ok(d) => self.proceed(Phase::SettingRemote, Step::SetRemote(d)),
            Err(e) => self.proceed(Phase::Over, Step::Refuse(Refusal::BadOffer(e))),
        }
    }

    /// One step of a negotiation: takes how the last one went, and gives the next one. A
    /// description that is set is an offer with the text that came, and an empty text is never
    /// accepted.
    pub fn negotiate(&mut self, event: Event) -> (step: Step)
        ensures
            final(self)@ == transition(old(self)@, event@).0,
            step@ == transition(old(self)@, event@).1,
            step matches Step::SetRemote(d) ==> {
                &&& description_text(d) == old(self)@.offer
                &&& description_is_offer(d)
                &&& old(self)@.offer.len() > 0
            },
    {
        match (self.phase, event) {
            (Phase::Fresh, Event::Begin) => self.proceed(Phase::CreatingPeer, Step::CreatePeer),
            (Phase::CreatingPeer, Event::Done) => {
                if self.viewer {
                    self.proceed(Phase::Watching, Step::Watch)
                } else {
                    let track = share(&self.track);
                    self.proceed(Phase::AddingTrack, Step::AddTrack(track))
                }
            },
            (Phase::Watching, Event::Done) => {
                let track = share(&self.track);
                self.proceed(Phase::AddingTrack, Step::AddTrack(track))
            },
            (Phase::AddingTrack, Event::Done) => {
                let description = parse_offer(self.offer.clone());
                self.offered(description)
            },
            (Phase::SettingRemote, Event::Done) => self.proceed(
                Phase::CreatingAnswer,
                Step::CreateAnswer,
            ),
            (Phase::CreatingAnswer, Event::Done) => self.proceed(
                Phase::SettingLocal,
                Step::SetLocal,
            ),
            (Phase::SettingLocal, Event::Done) => self.proceed(Phase::Gathering, Step::Gather),
            (Phase::Gathering, Event::Done) => self.proceed(Phase::ReadingLocal, Step::ReadLocal),
            (Phase::Gathering, Event::Failed) => self.proceed(
                Phase::ReadingLocal,
                Step::ReadLocal,
            ),
            (Phase::ReadingLocal, Event::Local(Some(sdp))) => {
                let keep: bool = self.viewer;
                self.proceed(Phase::Over, Step::Finish { sdp, keep })
            },
            (Phase::ReadingLocal, Event::Local(None)) => self.proceed(
                Phase::Over,
                Step::Refuse(Refusal::NoLocalSdp),
            ),
            (phase, Event::Failed) => {
                let refusal = match phase {
                    Phase::CreatingPeer | Phase::AddingTrack | Phase::SettingRemote
                    | Phase::CreatingAnswer | Phase::SettingLocal => Refusal::CallFailed,
                    _ => Refusal::OutOfStep,
                };
                self.proceed(Phase::Over, Step::Refuse(refusal))
            },
            _ => self.proceed(Phase::Over, Step::Refuse(Refusal::OutOfStep)),
        }
    }
}

/// How long after a viewer has connected the second keyframe is asked for.
pub const BACKUP_MILLIS: u64 = 100;

/// When keyframes are asked for because the connection of a viewer has changed its state, in
/// milliseconds from now: at once and once more a little later when it has connected, and not at
/// all otherwise.
pub fn keyframe_requests(connected: bool) -> (delays: Vec<u64>)
    ensures
        delays@ == if connected {
            seq![0u64, BACKUP_MILLIS]
        } else {
            seq![]
        },
{
    let mut delays: Vec<u64> = Vec::new();
    if connected {
        delays.push(0);
        delays.push(BACKUP_MILLIS);
    }
    assert(delays@ =~= if connected {
        seq![0u64, BACKUP_MILLIS]
    } else {
        seq![]
    });
    delays
}

/// Whether a signal is given when a state of the gathering is seen: it still waits, and the
/// gathering is complete.
pub open spec fn gives(waiting: bool, complete: bool) -> bool {
    waiting && complete
}

/// Whether a signal still waits when a state of the gathering has been seen.
pub open spec fn still_waits(waiting: bool, complete: bool) -> bool {
    waiting && !complete
}

/// The signal that the candidates of a peer connection are gathered. It is given once.
pub struct GatherSignal {
    pub waiting: bool,
}

impl GatherSignal {
    /// A signal that has not been given.
    pub fn new() -> (signal: GatherSignal)
        ensures
            signal.waiting,
    {
        GatherSignal { waiting: true }
    }

    /// Takes a state of the gathering, and says whether the signal is to be given now: when the
    /// gathering is complete for the first time.
    pub fn observe(&mut self, complete: bool) -> (give: bool)
        ensures
            give == gives(old(self).waiting, complete),
            final(self).waiting == still_waits(old(self).waiting, complete),
    {
        let give: bool = self.waiting && complete;
        if give {
            self.waiting = false;
        }
        give
    }
}

} // verus!
