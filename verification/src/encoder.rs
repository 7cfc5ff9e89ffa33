//! RTSP to H.264 to RTP: the decisions of an encoding session.
//!
//! A session never touches a codec itself. It is told how the last piece of outside work went and
//! answers with the next one.
use std::sync::Arc;

use vstd::prelude::*;

use webrtc::track::track_local::track_local_static_rtp::TrackLocalStaticRTP;

use crate::nal::nal_units;
use crate::rtp::{next_ts, packet_views, packets, payloads, seq_after, RtpState};
use crate::text::{pair_views, push_pair};
use crate::track::share;

verus! {

/// The options that the camera stream is opened with.
pub open spec fn input_option_pairs() -> Seq<(Seq<char>, Seq<char>)> {
    seq![("rtsp_transport"@, "tcp"@), ("timeout"@, "5000000"@)]
}

/// The options that the H.264 encoder is opened with.
pub open spec fn encoder_option_pairs() -> Seq<(Seq<char>, Seq<char>)> {
    seq![
        ("preset"@, "veryfast"@),
        ("tune"@, "zerolatency"@),
        ("profile"@, "baseline"@),
        (
            "x264-params"@,
            "keyint=150:min-keyint=150:scenecut=0:repeat-headers=1:bframes=0"@,
        ),
        ("bufsize"@, "600k"@),
    ]
}

/// The name of the encoder.
pub open spec fn encoder_name() -> Seq<char> {
    "libx264"@
}

/// Frames a second, of the encoder and of its time base.
pub const FRAME_RATE: i32 = 15;

/// The bit rate that the encoder aims at.
pub const BIT_RATE: usize = 400_000;

/// The bit rate that the encoder stays below.
pub const MAX_BIT_RATE: usize = 500_000;

/// How the encoder is set up. It always takes YUV 4:2:0 pictures.
pub struct EncoderSettings {
    pub width: u32,
    pub height: u32,
    /// Numerator and denominator of the frame rate.
    pub frame_rate: (i32, i32),
    /// Numerator and denominator of the time base.
    pub time_base: (i32, i32),
    pub bit_rate: usize,
    pub max_bit_rate: usize,
    pub options: Vec<(String, String)>,
}

/// What encoder settings say.
pub struct EncoderSettingsView {
    pub width: u32,
    pub height: u32,
    pub frame_rate: (i32, i32),
    pub time_base: (i32, i32),
    pub bit_rate: usize,
    pub max_bit_rate: usize,
    pub options: Seq<(Seq<char>, Seq<char>)>,
}

impl View for EncoderSettings {
    type V = EncoderSettingsView;

    open spec fn view(&self) -> EncoderSettingsView {
        EncoderSettingsView {
            width: self.width,
            height: self.height,
            frame_rate: self.frame_rate,
            time_base: self.time_base,
            bit_rate: self.bit_rate,
            max_bit_rate: self.max_bit_rate,
            options: pair_views(self.options@),
        }
    }
}

/// The settings for pictures of a given size: fifteen frames a second in both readings of it.
pub open spec fn settings_for(width: u32, height: u32) -> EncoderSettingsView {
    EncoderSettingsView {
        width,
        height,
        frame_rate: (FRAME_RATE, 1),
        time_base: (1, FRAME_RATE),
        bit_rate: BIT_RATE,
        max_bit_rate: MAX_BIT_RATE,
        options: encoder_option_pairs(),
    }
}

/// The options that the camera stream is opened with.
pub fn input_options() -> (options: Vec<(String, String)>)
    ensures
        pair_views(options@) == input_option_pairs(),
{
    let mut options: Vec<(String, String)> = Vec::new();
    push_pair(&mut options, "rtsp_transport", "tcp");
    push_pair(&mut options, "timeout", "5000000");
    assert(pair_views(options@) =~= input_option_pairs());
    options
}

/// The settings of the encoder for pictures of a given size.
pub fn encoder_settings(width: u32, height: u32) -> (settings: EncoderSettings)
    ensures
        settings@ == settings_for(width, height),
{
    let mut options: Vec<(String, String)> = Vec::new();
    push_pair(&mut options, "preset", "veryfast");
    push_pair(&mut options, "tune", "zerolatency");
    push_pair(&mut options, "profile", "baseline");
    push_pair(
        &mut options,
        "x264-params",
        "keyint=150:min-keyint=150:scenecut=0:repeat-headers=1:bframes=0",
    );
    push_pair(&mut options, "bufsize", "600k");
    assert(pair_views(options@) =~= encoder_option_pairs());
    EncoderSettings {
        width,
        height,
        frame_rate: (FRAME_RATE, 1),
        time_base: (1, FRAME_RATE),
        bit_rate: BIT_RATE,
        max_bit_rate: MAX_BIT_RATE,
        options,
    }
}

/// Why a session is over.
#[derive(Clone, Copy, Debug, PartialEq, Eq, Structural)]
pub enum Ending {
    /// The camera has no more packets.
    EndOfInput,
    /// A piece of outside work failed, with an error of its own.
    CallFailed,
    /// The camera has no video stream.
    NoVideo,
    /// The encoder is not there.
    NoEncoder,
    /// The encoder gave a packet without data.
    NoData,
    /// Nobody takes the RTP packets any more.
    ChannelClosed,
    /// The report does not answer the work that was asked for.
    OutOfStep,
}

/// What there is to say about an ending, apart from what the failed work itself reports.
pub open spec fn ending_text(ending: Ending) -> Option<Seq<char>> {
    match ending {
        Ending::EndOfInput => None,
        Ending::CallFailed => None,
        Ending::NoVideo => Some("no video"@),
        Ending::NoEncoder => Some("no libx264"@),
        Ending::NoData => Some("no data"@),
        Ending::ChannelClosed => Some("channel closed"@),
        Ending::OutOfStep => Some("encoder out of step"@),
    }
}

impl Ending {
    /// What there is to say about an ending, apart from what the failed work itself reports.
    pub fn message(self) -> (text: Option<String>)
        ensures
            text is Some <==> ending_text(self) is Some,
            text is Some ==> text->0@ == ending_text(self)->0,
    {
        match self {
            Ending::EndOfInput => None,
            Ending::CallFailed => None,
            Ending::NoVideo => Some("no video".to_owned()),
            Ending::NoEncoder => Some("no libx264".to_owned()),
            Ending::NoData => Some("no data".to_owned()),
            Ending::ChannelClosed => Some("channel closed".to_owned()),
            Ending::OutOfStep => Some("encoder out of step".to_owned()),
        }
    }
}

/// The outside work that a session waits for.
#[derive(Clone, Copy, Debug, PartialEq, Eq, Structural)]
pub enum Phase {
    Fresh,
    Initialising,
    OpeningInput,
    FindingStream,
    OpeningDecoder,
    FindingEncoder,
    OpeningEncoder,
    OpeningScaler,
    ReadingPacket,
    SendingPacket,
    ReceivingFrame,
    Scaling,
    TakingRequest,
    SendingFrame,
    ReceivingPacket,
    Delivering,
    Stopped,
}

/// How the last piece of outside work went.
pub enum Event {
    /// The session is to begin.
    Begin,
    /// The work is done, and there is nothing to report.
    Done,
    /// The work failed.
    Failed,
    /// The index of the best video stream, if there is one.
    Stream(Option<usize>),
    /// The decoder is open: the size of its pictures, and whether they are YUV 4:2:0.
    Decoder { width: u32, height: u32, yuv420p: bool },
    /// Whether the encoder was found.
    Encoder(bool),
    /// The stream that the next packet belongs to, or nothing at the end of the input.
    Packet(Option<usize>),
    /// Whether the decoder had a frame.
    Frame(bool),
    /// Whether a keyframe had been asked for; asking is now undone.
    Request(bool),
    /// The encoder had a packet, and its data if it has any.
    Encoded(Option<Vec<u8>>),
    /// The encoder had no packet.
    Drained,
    /// The receiver of the RTP packets is gone.
    Closed,
}

/// What an event says.
pub enum EventView {
    Begin,
    Done,
    Failed,
    Stream(Option<usize>),
    Decoder { width: u32, height: u32, yuv420p: bool },
    Encoder(bool),
    Packet(Option<usize>),
    Frame(bool),
    Request(bool),
    Encoded(Option<Seq<u8>>),
    Drained,
    Closed,
}

impl View for Event {
    type V = EventView;

    open spec fn view(&self) -> EventView {
        match *self {
            Event::Begin => EventView::Begin,
            Event::Done => EventView::Done,
            Event::Failed => EventView::Failed,
            Event::Stream(index) => EventView::Stream(index),
            Event::Decoder { width, height, yuv420p } => EventView::Decoder {
                width,
                height,
                yuv420p,
            },
            Event::Encoder(found) => EventView::Encoder(found),
            Event::Packet(index) => EventView::Packet(index),
            Event::Frame(there) => EventView::Frame(there),
            Event::Request(asked) => EventView::Request(asked),
            Event::Encoded(None) => EventView::Encoded(None),
            Event::Encoded(Some(data)) => EventView::Encoded(Some(data@)),
            Event::Drained => EventView::Drained,
            Event::Closed => EventView::Closed,
        }
    }
}

/// The next piece of outside work.
pub enum Action {
    /// Initialise the codec library, with its log off.
    Initialise,
    /// Open the camera stream.
    OpenInput { url: String, options: Vec<(String, String)> },
    /// Find the best video stream.
    FindStream,
    /// Open a decoder for a stream.
    OpenDecoder { stream: usize },
    /// Look for an encoder.
    FindEncoder { name: String },
    /// Open the encoder.
    OpenEncoder { settings: EncoderSettings },
    /// Open a scaler that turns decoded pictures into YUV 4:2:0 of the same size.
    OpenScaler { width: u32, height: u32 },
    /// Read the next packet of the input.
    ReadPacket,
    /// Hand that packet to the decoder.
    SendPacket,
    /// Ask the decoder for a frame.
    ReceiveFrame,
    /// Scale that frame.
    Scale,
    /// Take the request for a keyframe, if there is one.
    TakeRequest,
    /// Hand the frame, scaled or as it was decoded, to the encoder, as a keyframe or as the
    /// encoder likes.
    SendFrame { scaled: bool, key: bool },
    /// Ask the encoder for a packet.
    ReceivePacket,
    /// Send an RTP packet.
    Deliver(Vec<u8>),
    /// The session is over.
    Stop(Ending),
}

/// What an action asks for.
pub enum ActionView {
    Initialise,
    OpenInput { url: Seq<char>, options: Seq<(Seq<char>, Seq<char>)> },
    FindStream,
    OpenDecoder { stream: usize },
    FindEncoder { name: Seq<char> },
    OpenEncoder { settings: EncoderSettingsView },
    OpenScaler { width: u32, height: u32 },
    ReadPacket,
    SendPacket,
    ReceiveFrame,
    Scale,
    TakeRequest,
    SendFrame { scaled: bool, key: bool },
    ReceivePacket,
    Deliver(Seq<u8>),
    Stop(Ending),
}

impl View for Action {
    type V = ActionView;

    open spec fn view(&self) -> ActionView {
        match *self {
            Action::Initialise => ActionView::Initialise,
            Action::OpenInput { url, options } => ActionView::OpenInput {
                url: url@,
                options: pair_views(options@),
            },
            Action::FindStream => ActionView::FindStream,
            Action::OpenDecoder { stream } => ActionView::OpenDecoder { stream },
            Action::FindEncoder { name } => ActionView::FindEncoder { name: name@ },
            Action::OpenEncoder { settings } => ActionView::OpenEncoder { settings: settings@ },
            Action::OpenScaler { width, height } => ActionView::OpenScaler { width, height },
            Action::ReadPacket => ActionView::ReadPacket,
            Action::SendPacket => ActionView::SendPacket,
            Action::ReceiveFrame => ActionView::ReceiveFrame,
            Action::Scale => ActionView::Scale,
            Action::TakeRequest => ActionView::TakeRequest,
            Action::SendFrame { scaled, key } => ActionView::SendFrame { scaled, key },
            Action::ReceivePacket => ActionView::ReceivePacket,
            Action::Deliver(packet) => ActionView::Deliver(packet@),
            Action::Stop(ending) => ActionView::Stop(ending),
        }
    }
}

/// An encoding session.
pub struct Session {
    pub url: String,
    pub phase: Phase,
    /// The video stream that was chosen.
    pub stream: usize,
    pub width: u32,
    pub height: u32,
    /// Whether decoded pictures have to be scaled.
    pub scale: bool,
    pub rtp: RtpState,
    /// The packets of the picture that is being sent, without those that were handed out.
    pub pending: Vec<Vec<u8>>,
}

/// What a session knows.
pub struct SessionView {
    pub url: Seq<char>,
    pub phase: Phase,
    pub stream: usize,
    pub width: u32,
    pub height: u32,
    pub scale: bool,
    pub seq: u16,
    pub ts: u32,
    pub pending: Seq<Seq<u8>>,
}

impl View for Session {
    type V = SessionView;

    open spec fn view(&self) -> SessionView {
        SessionView {
            url: self.url@,
            phase: self.phase,
            stream: self.stream,
            width: self.width,
            height: self.height,
            scale: self.scale,
            seq: self.rtp.seq,
            ts: self.rtp.ts,
            pending: packet_views(self.pending@),
        }
    }
}

/// A session that has not begun.
pub open spec fn fresh(url: Seq<char>) -> SessionView {
    SessionView {
        url,
        phase: Phase::Fresh,
        stream: 0,
        width: 0,
        height: 0,
        scale: false,
        seq: 0,
        ts: 0,
        pending: seq![],
    }
}

/// The session `s` in another phase.
pub open spec fn at(s: SessionView, phase: Phase) -> SessionView {
    SessionView { phase, ..s }
}

/// The end of a session.
pub open spec fn stop(s: SessionView, ending: Ending) -> (SessionView, ActionView) {
    (at(s, Phase::Stopped), ActionView::Stop(ending))
}

/// Whether the work of a phase is a call that can fail.
pub open spec fn can_fail(phase: Phase) -> bool {
    match phase {
        Phase::Initialising => true,
        Phase::OpeningInput => true,
        Phase::OpeningDecoder => true,
        Phase::OpeningEncoder => true,
        Phase::OpeningScaler => true,
        Phase::SendingPacket => true,
        Phase::Scaling => true,
        Phase::SendingFrame => true,
        _ => false,
    }
}

/// Sending goes on with the next packet of the picture, and with the next picture when there is none
/// left.
pub open spec fn deliver_next(s: SessionView) -> (SessionView, ActionView) {
    if s.pending.len() == 0 {
        (at(s, Phase::ReceivingPacket), ActionView::ReceivePacket)
    } else {
        (
            SessionView { phase: Phase::Delivering, pending: s.pending.drop_first(), ..s },
            ActionView::Deliver(s.pending[0]),
        )
    }
}

/// The transition table of a session: what an event makes of it, and the work that follows.
pub open spec fn transition(s: SessionView, e: EventView) -> (SessionView, ActionView) {
    match (s.phase, e) {
        // Opening everything, in order.
        (Phase::Fresh, EventView::Begin) => (at(s, Phase::Initialising), ActionView::Initialise),
        (Phase::Initialising, EventView::Done) => (
            at(s, Phase::OpeningInput),
            ActionView::OpenInput { url: s.url, options: input_option_pairs() },
        ),
        (Phase::OpeningInput, EventView::Done) => (
            at(s, Phase::FindingStream),
            ActionView::FindStream,
        ),
        (Phase::FindingStream, EventView::Stream(Some(stream))) => (
            SessionView { phase: Phase::OpeningDecoder, stream, ..s },
            ActionView::OpenDecoder { stream },
        ),
        (Phase::FindingStream, EventView::Stream(None)) => stop(s, Ending::NoVideo),
        (Phase::OpeningDecoder, EventView::Decoder { width, height, yuv420p }) => (
            SessionView { phase: Phase::FindingEncoder, width, height, scale: !yuv420p, ..s },
            ActionView::FindEncoder { name: encoder_name() },
        ),
        (Phase::FindingEncoder, EventView::Encoder(true)) => (
            at(s, Phase::OpeningEncoder),
            ActionView::OpenEncoder { settings: settings_for(s.width, s.height) },
        ),
        (Phase::FindingEncoder, EventView::Encoder(false)) => stop(s, Ending::NoEncoder),
        (Phase::OpeningEncoder, EventView::Done) => if s.scale {
            (
                at(s, Phase::OpeningScaler),
                ActionView::OpenScaler { width: s.width, height: s.height },
            )
        } else {
            (at(s, Phase::ReadingPacket), ActionView::ReadPacket)
        },
        (Phase::OpeningScaler, EventView::Done) => (
            at(s, Phase::ReadingPacket),
            ActionView::ReadPacket,
        ),
        // Packets of the chosen stream go to the decoder, the others nowhere.
        (Phase::ReadingPacket, EventView::Packet(Some(stream))) => if stream == s.stream {
            (at(s, Phase::SendingPacket), ActionView::SendPacket)
        } else {
            (s, ActionView::ReadPacket)
        },
        (Phase::ReadingPacket, EventView::Packet(None)) => stop(s, Ending::EndOfInput),
        (Phase::SendingPacket, EventView::Done) => (
            at(s, Phase::ReceivingFrame),
            ActionView::ReceiveFrame,
        ),
        // Frames go to the encoder, forced to be keyframes on request.
        (Phase::ReceivingFrame, EventView::Frame(true)) => if s.scale {
            (at(s, Phase::Scaling), ActionView::Scale)
        } else {
            (at(s, Phase::TakingRequest), ActionView::TakeRequest)
        },
        (Phase::ReceivingFrame, EventView::Frame(false)) => (
            at(s, Phase::ReadingPacket),
            ActionView::ReadPacket,
        ),
        (Phase::Scaling, EventView::Done) => (
            at(s, Phase::TakingRequest),
            ActionView::TakeRequest,
        ),
        (Phase::TakingRequest, EventView::Request(key)) => (
            at(s, Phase::SendingFrame),
            ActionView::SendFrame { scaled: s.scale, key },
        ),
        (Phase::SendingFrame, EventView::Done) => (
            at(s, Phase::ReceivingPacket),
            ActionView::ReceivePacket,
        ),
        // What the encoder has goes out as RTP, packet by packet, until one cannot be sent; then the
        // clock moves on.
        (Phase::ReceivingPacket, EventView::Encoded(Some(data))) => deliver_next(
            SessionView {
                seq: seq_after(s.seq, payloads(nal_units(data)).len()),
                pending: packets(s.seq, s.ts, payloads(nal_units(data))),
                ..s
            },
        ),
        (Phase::ReceivingPacket, EventView::Encoded(None)) => stop(s, Ending::NoData),
        (Phase::ReceivingPacket, EventView::Drained) => (
            SessionView {
                phase: Phase::ReceivingFrame,
                ts: next_ts(s.ts),
                ..s
            },
            ActionView::ReceiveFrame,
        ),
        (Phase::Delivering, EventView::Done) => deliver_next(s),
        (Phase::Delivering, EventView::Closed) => stop(s, Ending::ChannelClosed),
        (phase, EventView::Failed) => if can_fail(phase) {
            stop(s, Ending::CallFailed)
        } else {
            stop(s, Ending::OutOfStep)
        },
        _ => stop(s, Ending::OutOfStep),
    }
}

impl Session {
    /// A session on a camera stream that has not begun.
    pub fn new(url: &str) -> (session: Session)
        ensures
            session@ == fresh(url@),
    {
        assert(packet_views(Seq::<Vec<u8>>::empty()) =~= Seq::<Seq<u8>>::empty());
        Session {
            url: url.to_owned(),
            phase: Phase::Fresh,
            stream: 0,
            width: 0,
            height: 0,
            scale: false,
            rtp: RtpState::default(),
            pending: Vec::new(),
        }
    }

    fn proceed(&mut self, phase: Phase, action: Action) -> (next: Action)
        ensures
            final(self)@ == at(old(self)@, phase),
            next == action,
    {
        self.phase = phase;
        action
    }

    fn deliver_next(&mut self) -> (action: Action)
        ensures
            final(self)@ == deliver_next(old(self)@).0,
            action@ == deliver_next(old(self)@).1,
    {
        if self.pending.len() == 0 {
            self.proceed(Phase::ReceivingPacket, Action::ReceivePacket)
        } else {
            let packet = self.pending.remove(0);
            assert(packet_views(self.pending@) =~= old(self)@.pending.drop_first());
            self.proceed(Phase::Delivering, Action::Deliver(packet))
        }
    }
}

/// One step of an encoding session: takes how the last piece of outside work went, and gives the
/// next one.
pub fn encode(session: &mut Session, event: Event) -> (action: Action)
    ensures
        final(session)@ == transition(old(session)@, event@).0,
        action@ == transition(old(session)@, event@).1,
{
    match (session.phase, event) {
        (Phase::Fresh, Event::Begin) => session.proceed(Phase::Initialising, Action::Initialise),
        (Phase::Initialising, Event::Done) => {
            let url = session.url.clone();
            let options = input_options();
            session.proceed(Phase::OpeningInput, Action::OpenInput { url, options })
        },
        (Phase::OpeningInput, Event::Done) => session.proceed(
            Phase::FindingStream,
            Action::FindStream,
        ),
        (Phase::FindingStream, Event::Stream(Some(stream))) => {
            session.stream = stream;
            session.proceed(Phase::OpeningDecoder, Action::OpenDecoder { stream })
        },
        (Phase::FindingStream, Event::Stream(None)) => session.proceed(
            Phase::Stopped,
            Action::Stop(Ending::NoVideo),
        ),
        (Phase::OpeningDecoder, Event::Decoder { width, height, yuv420p }) => {
            session.width = width;
            session.height = height;
            session.scale = !yuv420p;
            let name = "libx264".to_owned();
            session.proceed(Phase::FindingEncoder, Action::FindEncoder { name })
        },
        (Phase::FindingEncoder, Event::Encoder(true)) => {
            let settings = encoder_settings(session.width, session.height);
            session.proceed(Phase::OpeningEncoder, Action::OpenEncoder { settings })
        },
        (Phase::FindingEncoder, Event::Encoder(false)) => session.proceed(
            Phase::Stopped,
            Action::Stop(Ending::NoEncoder),
        ),
        (Phase::OpeningEncoder, Event::Done) => {
            if session.scale {
                let (width, height) = (session.width, session.height);
                session.proceed(Phase::OpeningScaler, Action::OpenScaler { width, height })
            } else {
                session.proceed(Phase::ReadingPacket, Action::ReadPacket)
            }
        },
        (Phase::OpeningScaler, Event::Done) => session.proceed(
            Phase::ReadingPacket,
            Action::ReadPacket,
        ),
        (Phase::ReadingPacket, Event::Packet(Some(stream))) => {
            if stream == session.stream {
                session.proceed(Phase::SendingPacket, Action::SendPacket)
            } else {
                Action::ReadPacket
            }
        },
        (Phase::ReadingPacket, Event::Packet(None)) => session.proceed(
            Phase::Stopped,
            Action::Stop(Ending::EndOfInput),
        ),
        (Phase::SendingPacket, Event::Done) => session.proceed(
            Phase::ReceivingFrame,
            Action::ReceiveFrame,
        ),
        (Phase::ReceivingFrame, Event::Frame(true)) => {
            if session.scale {
                session.proceed(Phase::Scaling, Action::Scale)
            } else {
                session.proceed(Phase::TakingRequest, Action::TakeRequest)
            }
        },
        (Phase::ReceivingFrame, Event::Frame(false)) => session.proceed(
            Phase::ReadingPacket,
            Action::ReadPacket,
        ),
        (Phase::Scaling, Event::Done) => session.proceed(
            Phase::TakingRequest,
            Action::TakeRequest,
        ),
        (Phase::TakingRequest, Event::Request(key)) => {
            let scaled: bool = session.scale;
            session.proceed(Phase::SendingFrame, Action::SendFrame { scaled, key })
        },
        (Phase::SendingFrame, Event::Done) => session.proceed(
            Phase::ReceivingPacket,
            Action::ReceivePacket,
        ),
        (Phase::ReceivingPacket, Event::Encoded(Some(data))) => {
            session.pending = session.rtp.packetize(data.as_slice());
            session.deliver_next()
        },
        (Phase::ReceivingPacket, Event::Encoded(None)) => session.proceed(
            Phase::Stopped,
            Action::Stop(Ending::NoData),
        ),
        (Phase::ReceivingPacket, Event::Drained) => {
            session.rtp.tick();
            session.proceed(Phase::ReceivingFrame, Action::ReceiveFrame)
        },
        (Phase::Delivering, Event::Done) => session.deliver_next(),
        (Phase::Delivering, Event::Closed) => session.proceed(
            Phase::Stopped,
            Action::Stop(Ending::ChannelClosed),
        ),
        (phase, Event::Failed) => {
            let ending = match phase {
                Phase::Initialising | Phase::OpeningInput | Phase::OpeningDecoder
                | Phase::OpeningEncoder | Phase::OpeningScaler | Phase::SendingPacket
                | Phase::Scaling | Phase::SendingFrame => Ending::CallFailed,
                _ => Ending::OutOfStep,
            };
            session.proceed(Phase::Stopped, Action::Stop(ending))
        },
        _ => session.proceed(Phase::Stopped, Action::Stop(Ending::OutOfStep)),
    }
}

/// How long the encoder rests between two sessions.
pub const REST_MILLIS: u64 = 1000;

/// How many RTP packets may wait between the encoder and the writer.
pub const CHANNEL_PACKETS: usize = 100;

/// Where the encoder stands between sessions.
pub enum Turn {
    /// It has just been started.
    Started,
    /// The channel to the writer is open.
    Opened,
    /// A session is over, with an error or without.
    Ended { failed: bool },
    /// The rest is over.
    Rested,
}

/// What the encoder does next.
pub enum Task {
    /// Open a channel on which so many packets may wait, with a writer at its other end.
    OpenChannel { packets: usize },
    /// Run a session to its end.
    Encode(Session),
    /// Report the error of the last session, if it had one, and rest.
    Rest { report: bool, millis: u64 },
}

/// Runs the encoder forever: once its channel is open, a session, a rest of a second, and a new
/// session, whichever way the last one ended.
pub fn run(rtsp_url: &str, turn: Turn) -> (task: Task)
    ensures
        match turn {
            Turn::Started => task == (Task::OpenChannel { packets: CHANNEL_PACKETS }),
            Turn::Ended { failed } => task == (Task::Rest { report: failed, millis: REST_MILLIS }),
            _ => task matches Task::Encode(session) && session@ == fresh(rtsp_url@),
        },
{
    match turn {
        Turn::Started => Task::OpenChannel { packets: CHANNEL_PACKETS },
        Turn::Opened => Task::Encode(Session::new(rtsp_url)),
        Turn::Ended { failed } => Task::Rest { report: failed, millis: REST_MILLIS },
        Turn::Rested => Task::Encode(Session::new(rtsp_url)),
    }
}

/// Where the writer stands, which takes the packets of the encoder to the track.
pub enum WriterEvent {
    /// It has just been started.
    Started,
    /// The next packet, or nothing where the encoder is gone.
    Received(Option<Vec<u8>>),
    /// The packet was written, or could not be.
    Written { failed: bool },
}

/// What the writer does next.
pub enum WriterTask {
    /// Wait for the next packet.
    Receive,
    /// Write a packet to a track.
    Write { track: Arc<TrackLocalStaticRTP>, packet: Vec<u8> },
    /// Finish.
    Finish,
}

/// What the writer of a track does: it writes every packet that it receives, goes on whether or not
/// that fails, and finishes when there are no more.
pub open spec fn writer_task(track: Arc<TrackLocalStaticRTP>, event: WriterEvent) -> WriterTask {
    match event {
        WriterEvent::Received(Some(packet)) => WriterTask::Write { track, packet },
        WriterEvent::Received(None) => WriterTask::Finish,
        _ => WriterTask::Receive,
    }
}

/// One step of the writer of a track.
pub fn write_packets(track: &Arc<TrackLocalStaticRTP>, event: WriterEvent) -> (task: WriterTask)
    ensures
        task == writer_task(*track, event),
{
    match event {
        WriterEvent::Started => WriterTask::Receive,
        WriterEvent::Received(Some(packet)) => WriterTask::Write { track: share(track), packet },
        WriterEvent::Received(None) => WriterTask::Finish,
        WriterEvent::Written { .. } => WriterTask::Receive,
    }
}

} // verus!
