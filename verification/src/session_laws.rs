//! What a step of an encoding session asks for and when, and what it changes.
use std::sync::Arc;

use vstd::prelude::*;

use webrtc::track::track_local::track_local_static_rtp::TrackLocalStaticRTP;

use crate::encoder::{
    encode, encoder_option_pairs, encoder_settings, input_option_pairs, input_options, run,
    write_packets, Action, EncoderSettings, Ending, Event, Phase, Session, Task, Turn, WriterEvent,
    WriterTask,
};
use crate::packet_laws::begins_with_header;
use crate::rtp::{packet_views, packets, payloads, RtpState};
use crate::rtp_laws::{law_packets_fit, law_packets_of_a_picture};
use crate::text::pair_views;

verus! {

/// Whether options are these names with these values, in this order.
pub open spec fn says(options: Vec<(String, String)>, pairs: Seq<(Seq<char>, Seq<char>)>) -> bool {
    &&& options@.len() == pairs.len()
    &&& forall|i: int|
        0 <= i < pairs.len() ==> (#[trigger] options@[i]).0@ == pairs[i].0 && options@[i].1@
            == pairs[i].1
}

proof fn lemma_says(options: Vec<(String, String)>, pairs: Seq<(Seq<char>, Seq<char>)>)
    requires
        pair_views(options@) == pairs,
    ensures
        says(options, pairs),
{
    assert(pair_views(options@).len() == options@.len());
    assert forall|i: int| 0 <= i < pairs.len() implies (#[trigger] options@[i]).0@ == pairs[i].0
        && options@[i].1@ == pairs[i].1 by {
        assert(pair_views(options@)[i] == (options@[i].0@, options@[i].1@));
    }
}

/// Whether options open the camera stream: over TCP, with a timeout of five seconds.
pub open spec fn opens_camera(options: Vec<(String, String)>) -> bool {
    says(options, seq![("rtsp_transport"@, "tcp"@), ("timeout"@, "5000000"@)])
}

/// Whether settings are those for pictures of a size: the encoder makes pictures of just that size,
/// fifteen a second, fast and without delay.
pub open spec fn encodes(settings: EncoderSettings, width: u32, height: u32) -> bool {
    &&& settings.width == width
    &&& settings.height == height
    &&& settings.frame_rate == (15i32, 1i32)
    &&& settings.time_base == (1i32, 15i32)
    &&& settings.bit_rate == 400000
    &&& settings.max_bit_rate == 500000
    &&& says(
        settings.options,
        seq![
            ("preset"@, "veryfast"@),
            ("tune"@, "zerolatency"@),
            ("profile"@, "baseline"@),
            (
                "x264-params"@,
                "keyint=150:min-keyint=150:scenecut=0:repeat-headers=1:bframes=0"@,
            ),
            ("bufsize"@, "600k"@),
        ],
    )
}

/// The camera stream is opened as the camera wants it.
pub proof fn law_input_options(options: Vec<(String, String)>)
    ensures
        call_ensures(input_options, (), options) ==> opens_camera(options),
{
    if call_ensures(input_options, (), options) {
        lemma_says(options, input_option_pairs());
    }
}

/// The encoder is set up for pictures of the size that it is asked for, whatever that is.
pub proof fn law_encoder_settings(width: u32, height: u32, settings: EncoderSettings)
    ensures
        call_ensures(encoder_settings, (width, height), settings) ==> encodes(
            settings,
            width,
            height,
        ),
{
    if call_ensures(encoder_settings, (width, height), settings) {
        assert(settings@.width == settings.width);
        lemma_says(settings.options, encoder_option_pairs());
    }
}

/// A new session has done nothing yet, and is on the stream that it was made for.
pub proof fn law_new_session(url: &str, session: Session)
    ensures
        call_ensures(Session::new, (url,), session) ==> {
            &&& session.url@ == url@
            &&& session.phase == Phase::Fresh
            &&& session.rtp.seq == 0
            &&& session.rtp.ts == 0
            &&& session.pending@.len() == 0
        },
{
    if call_ensures(Session::new, (url,), session) {
        assert(session@.pending.len() == session.pending@.len());
    }
}

/// The phase of a session says which work it waits for.
pub proof fn law_phase_names_the_work()
    ensures
        forall|s: &mut Session, e: Event, a: Action| #[trigger]
            call_ensures(encode, (s, e), a) ==> {
                &&& final(s).phase != Phase::Fresh
                &&& final(s).phase == Phase::Initialising <==> a is Initialise
                &&& final(s).phase == Phase::OpeningInput <==> a is OpenInput
                &&& final(s).phase == Phase::FindingStream <==> a is FindStream
                &&& final(s).phase == Phase::OpeningDecoder <==> a is OpenDecoder
                &&& final(s).phase == Phase::FindingEncoder <==> a is FindEncoder
                &&& final(s).phase == Phase::OpeningEncoder <==> a is OpenEncoder
                &&& final(s).phase == Phase::OpeningScaler <==> a is OpenScaler
                &&& final(s).phase == Phase::ReadingPacket <==> a is ReadPacket
                &&& final(s).phase == Phase::SendingPacket <==> a is SendPacket
                &&& final(s).phase == Phase::ReceivingFrame <==> a is ReceiveFrame
                &&& final(s).phase == Phase::Scaling <==> a is Scale
                &&& final(s).phase == Phase::TakingRequest <==> a is TakeRequest
                &&& final(s).phase == Phase::SendingFrame <==> a is SendFrame
                &&& final(s).phase == Phase::ReceivingPacket <==> a is ReceivePacket
                &&& final(s).phase == Phase::Delivering <==> a is Deliver
                &&& final(s).phase == Phase::Stopped <==> a is Stop
            },
{
}

/// Everything is opened in order, each thing when the one before is open: the stream of the session,
/// a decoder for the stream that was found, an encoder for pictures of the decoder's size, and a
/// scaler of that size where the decoder's pictures are not YUV 4:2:0.
pub proof fn law_opening()
    ensures
        forall|s: &mut Session, e: Event, a: Action| #[trigger]
            call_ensures(encode, (s, e), a) ==> {
                &&& a is Initialise <==> s.phase == Phase::Fresh && e is Begin
                &&& a is OpenInput <==> s.phase == Phase::Initialising && e is Done
                &&& a is FindStream <==> s.phase == Phase::OpeningInput && e is Done
                &&& a is OpenDecoder <==> s.phase == Phase::FindingStream && e is Stream
                    && e->Stream_0 is Some
                &&& a is FindEncoder <==> s.phase == Phase::OpeningDecoder && e is Decoder
                &&& a is OpenEncoder <==> s.phase == Phase::FindingEncoder && e == Event::Encoder(
                    true,
                )
                &&& a is OpenScaler <==> s.phase == Phase::OpeningEncoder && e is Done && s.scale
                &&& a matches Action::OpenInput { url, options } ==> url@ == s.url@
                    && opens_camera(options)
                &&& a matches Action::OpenDecoder { stream } ==> e == Event::Stream(Some(stream))
                &&& a matches Action::FindEncoder { name } ==> name@ == "libx264"@
                &&& a matches Action::OpenEncoder { settings } ==> encodes(
                    settings,
                    s.width,
                    s.height,
                )
                &&& a matches Action::OpenScaler { width, height } ==> width == s.width && height
                    == s.height
            },
{
    assert forall|s: &mut Session, e: Event, a: Action| #[trigger]
        call_ensures(encode, (s, e), a) implies {
        &&& a matches Action::OpenInput { url, options } ==> url@ == s.url@ && opens_camera(options)
        &&& a matches Action::OpenEncoder { settings } ==> encodes(settings, s.width, s.height)
    } by {
        match a {
            Action::OpenInput { url, options } => {
                lemma_says(options, input_option_pairs());
            },
            Action::OpenEncoder { settings } => {
                assert(settings@.width == settings.width);
                lemma_says(settings.options, encoder_option_pairs());
            },
            _ => {},
        }
    }
}

/// Packets of the chosen stream are decoded, and no others, until there are no more frames in them.
pub proof fn law_reading()
    ensures
        forall|s: &mut Session, e: Event, a: Action| #[trigger]
            call_ensures(encode, (s, e), a) ==> {
                &&& a is SendPacket <==> s.phase == Phase::ReadingPacket && e == Event::Packet(
                    Some(s.stream),
                )
                &&& a is ReadPacket <==> {
                    ||| s.phase == Phase::OpeningEncoder && e is Done && !s.scale
                    ||| s.phase == Phase::OpeningScaler && e is Done
                    ||| s.phase == Phase::ReadingPacket && e is Packet && e->Packet_0 is Some
                        && e->Packet_0 != Some(s.stream)
                    ||| s.phase == Phase::ReceivingFrame && e == Event::Frame(false)
                }
                &&& a is ReceiveFrame <==> {
                    ||| s.phase == Phase::SendingPacket && e is Done
                    ||| s.phase == Phase::ReceivingPacket && e is Drained
                }
            },
{
}

/// Every frame is scaled where the decoder's pictures have to be, and none is otherwise. Then the
/// request for a keyframe is taken, and the frame is encoded as a keyframe just where there was one.
pub proof fn law_every_frame()
    ensures
        forall|s: &mut Session, e: Event, a: Action| #[trigger]
            call_ensures(encode, (s, e), a) ==> {
                &&& a is Scale <==> s.phase == Phase::ReceivingFrame && e == Event::Frame(true)
                    && s.scale
                &&& a is TakeRequest <==> {
                    ||| s.phase == Phase::ReceivingFrame && e == Event::Frame(true) && !s.scale
                    ||| s.phase == Phase::Scaling && e is Done
                }
                &&& a is SendFrame <==> s.phase == Phase::TakingRequest && e is Request
                &&& a matches Action::SendFrame { scaled, key } ==> scaled == s.scale && e
                    == Event::Request(key)
            },
{
}

/// What the encoder has goes out packet by packet: the packets of a picture are those that
/// packetizing its data gives in the state of the session. The first is handed out and the others
/// wait, each is handed out when the one before is sent, and the encoder is asked for more when none
/// is left.
pub proof fn law_sending()
    ensures
        forall|s: &mut Session, e: Event, a: Action| #[trigger]
            call_ensures(encode, (s, e), a) ==> {
                &&& a is Deliver ==> {
                    ||| s.phase == Phase::Delivering && e is Done
                    ||| s.phase == Phase::ReceivingPacket && e is Encoded && e->Encoded_0 is Some
                }
                &&& s.phase == Phase::Delivering && e is Done && s.pending@.len() > 0 ==> {
                    &&& a is Deliver
                    &&& a->Deliver_0@ == s.pending@[0]@
                    &&& final(s).pending@.len() == s.pending@.len() - 1
                    &&& forall|i: int|
                        0 <= i < final(s).pending@.len() ==> (#[trigger] final(s).pending@[i])@
                            == s.pending@[i + 1]@
                }
                &&& a is ReceivePacket <==> {
                    ||| s.phase == Phase::SendingFrame && e is Done
                    ||| s.phase == Phase::Delivering && e is Done && s.pending@.len() == 0
                    ||| s.phase == Phase::ReceivingPacket && e is Encoded && e->Encoded_0 is Some
                        && e->Encoded_0->0@.len() == 0
                }
            },
        forall|
            s: &mut Session,
            data: Vec<u8>,
            a: Action,
            state: &mut RtpState,
            slice: &[u8],
            pkts: Vec<Vec<u8>>,
        |
            #[trigger] call_ensures(encode, (s, Event::Encoded(Some(data))), a)
                && #[trigger] call_ensures(RtpState::packetize, (state, slice), pkts) && slice@
                == data@ && state.seq == s.rtp.seq && state.ts == s.rtp.ts && s.phase
                == Phase::ReceivingPacket ==> {
                &&& final(s).rtp.seq == final(state).seq
                &&& pkts@.len() == 0 ==> a is ReceivePacket && final(s).pending@.len() == 0
                &&& pkts@.len() > 0 ==> {
                    &&& a is Deliver
                    &&& a->Deliver_0@ == pkts@[0]@
                    &&& final(s).pending@.len() == pkts@.len() - 1
                    &&& forall|i: int|
                        0 <= i < final(s).pending@.len() ==> (#[trigger] final(s).pending@[i])@
                            == pkts@[i + 1]@
                }
            },
{
    assert forall|s: &mut Session, e: Event, a: Action| #[trigger]
        call_ensures(encode, (s, e), a) implies {
        &&& s.phase == Phase::Delivering && e is Done && s.pending@.len() > 0 ==> {
            &&& a is Deliver
            &&& a->Deliver_0@ == s.pending@[0]@
            &&& final(s).pending@.len() == s.pending@.len() - 1
            &&& forall|i: int|
                0 <= i < final(s).pending@.len() ==> (#[trigger] final(s).pending@[i])@
                    == s.pending@[i + 1]@
        }
        &&& a is ReceivePacket <==> {
            ||| s.phase == Phase::SendingFrame && e is Done
            ||| s.phase == Phase::Delivering && e is Done && s.pending@.len() == 0
            ||| s.phase == Phase::ReceivingPacket && e is Encoded && e->Encoded_0 is Some
                && e->Encoded_0->0@.len() == 0
        }
    } by {
        assert(packet_views(s.pending@).len() == s.pending@.len());
        assert(packet_views(final(s).pending@).len() == final(s).pending@.len());
        if s.phase == Phase::Delivering && e is Done && s.pending@.len() > 0 {
            assert(packet_views(s.pending@)[0] == s.pending@[0]@);
            assert forall|i: int| 0 <= i < final(s).pending@.len() implies (
            #[trigger] final(s).pending@[i])@ == s.pending@[i + 1]@ by {
                assert(packet_views(final(s).pending@)[i] == final(s).pending@[i]@);
                assert(packet_views(s.pending@)[i + 1] == s.pending@[i + 1]@);
            }
        }
        if s.phase == Phase::ReceivingPacket && e is Encoded && e->Encoded_0 is Some {
            law_packets_fit(s.rtp.seq, s.rtp.ts, e->Encoded_0->0@);
        }
    }
    assert forall|
        s: &mut Session,
        data: Vec<u8>,
        a: Action,
        state: &mut RtpState,
        slice: &[u8],
        pkts: Vec<Vec<u8>>,
    |
        #[trigger] call_ensures(encode, (s, Event::Encoded(Some(data))), a)
            && #[trigger] call_ensures(RtpState::packetize, (state, slice), pkts) && slice@ == data@
            && state.seq == s.rtp.seq && state.ts == s.rtp.ts && s.phase
            == Phase::ReceivingPacket implies {
        &&& final(s).rtp.seq == final(state).seq
        &&& pkts@.len() == 0 ==> a is ReceivePacket && final(s).pending@.len() == 0
        &&& pkts@.len() > 0 ==> {
            &&& a is Deliver
            &&& a->Deliver_0@ == pkts@[0]@
            &&& final(s).pending@.len() == pkts@.len() - 1
            &&& forall|i: int|
                0 <= i < final(s).pending@.len() ==> (#[trigger] final(s).pending@[i])@ == pkts@[i
                    + 1]@
        }
    } by {
        assert(packet_views(pkts@).len() == pkts@.len());
        assert(packet_views(final(s).pending@).len() == final(s).pending@.len());
        if pkts@.len() > 0 {
            assert(packet_views(pkts@)[0] == pkts@[0]@);
            assert forall|i: int| 0 <= i < final(s).pending@.len() implies (
            #[trigger] final(s).pending@[i])@ == pkts@[i + 1]@ by {
                assert(packet_views(final(s).pending@)[i] == final(s).pending@[i]@);
                assert(packet_views(pkts@)[i + 1] == pkts@[i + 1]@);
            }
        }
    }
}

/// A session ends for one reason at a time: the end of the input, a thing that is not there, a
/// receiver that is gone, a call that failed, or a report that answers no work.
pub proof fn law_endings()
    ensures
        forall|s: &mut Session, e: Event, a: Action| #[trigger]
            call_ensures(encode, (s, e), a) ==> {
                &&& a == Action::Stop(Ending::EndOfInput) <==> s.phase == Phase::ReadingPacket && e
                    == Event::Packet(None)
                &&& a == Action::Stop(Ending::NoVideo) <==> s.phase == Phase::FindingStream && e
                    == Event::Stream(None)
                &&& a == Action::Stop(Ending::NoEncoder) <==> s.phase == Phase::FindingEncoder && e
                    == Event::Encoder(false)
                &&& a == Action::Stop(Ending::NoData) <==> s.phase == Phase::ReceivingPacket && e
                    is Encoded && e->Encoded_0 is None
                &&& a == Action::Stop(Ending::ChannelClosed) <==> s.phase == Phase::Delivering && e
                    is Closed
                &&& a == Action::Stop(Ending::CallFailed) <==> e is Failed && (s.phase
                    == Phase::Initialising || s.phase == Phase::OpeningInput || s.phase
                    == Phase::OpeningDecoder || s.phase == Phase::OpeningEncoder || s.phase
                    == Phase::OpeningScaler || s.phase == Phase::SendingPacket || s.phase
                    == Phase::Scaling || s.phase == Phase::SendingFrame)
            },
{
}

/// A step changes what it learns and nothing else: the stream when it is found, the size of the
/// pictures and whether to scale them when the decoder is open, the time when the encoder is done
/// with a frame, and the number and the packets that wait when a picture is sent.
pub proof fn law_what_a_step_changes()
    ensures
        forall|s: &mut Session, e: Event, a: Action| #[trigger]
            call_ensures(encode, (s, e), a) ==> {
                &&& final(s).url@ == s.url@
                &&& final(s).stream == if s.phase == Phase::FindingStream && e is Stream
                    && e->Stream_0 is Some {
                    e->Stream_0->0
                } else {
                    s.stream
                }
                &&& (final(s).width, final(s).height, final(s).scale) == if s.phase
                    == Phase::OpeningDecoder && e is Decoder {
                    (e->width, e->height, !e->yuv420p)
                } else {
                    (s.width, s.height, s.scale)
                }
                &&& final(s).rtp.ts == if s.phase == Phase::ReceivingPacket && e is Drained {
                    (s.rtp.ts + 6000) % 0x100000000
                } else {
                    s.rtp.ts as int
                }
                &&& !(s.phase == Phase::ReceivingPacket && e is Encoded && e->Encoded_0 is Some)
                    ==> final(s).rtp.seq == s.rtp.seq
                &&& !(s.phase == Phase::ReceivingPacket && e is Encoded && e->Encoded_0 is Some)
                    && !(s.phase == Phase::Delivering && e is Done) ==> packet_views(
                    final(s).pending@,
                ) == packet_views(s.pending@)
            },
        forall|pkts: Seq<Vec<u8>>|
            (#[trigger] packet_views(pkts)).len() == pkts.len() && forall|i: int|
                0 <= i < pkts.len() ==> packet_views(pkts)[i] == (#[trigger] pkts[i])@,
{
}

/// A packet that is handed out while a picture is sent has the time of the session.
pub proof fn law_first_packet_of_a_picture()
    ensures
        forall|s: &mut Session, data: Vec<u8>, a: Action| #[trigger]
            call_ensures(encode, (s, Event::Encoded(Some(data))), a) && s.phase
                == Phase::ReceivingPacket && data@.len() > 0 ==> {
                &&& a is Deliver
                &&& begins_with_header(
                    a->Deliver_0@,
                    s.rtp.seq as int,
                    s.rtp.ts as int,
                    final(s).pending@.len() == 0,
                )
            },
{
    assert(0x80u8 | 96u8 == 0xE0u8) by (bit_vector);
    assert forall|s: &mut Session, data: Vec<u8>, a: Action| #[trigger]
        call_ensures(encode, (s, Event::Encoded(Some(data))), a) && s.phase
            == Phase::ReceivingPacket && data@.len() > 0 implies {
        &&& a is Deliver
        &&& begins_with_header(
            a->Deliver_0@,
            s.rtp.seq as int,
            s.rtp.ts as int,
            final(s).pending@.len() == 0,
        )
    } by {
        law_packets_fit(s.rtp.seq, s.rtp.ts, data@);
        let carried = payloads(crate::nal::nal_units(data@));
        law_packets_of_a_picture(s.rtp.seq, s.rtp.ts, carried, 0);
        assert(packet_views(final(s).pending@).len() == final(s).pending@.len());
        assert(a->Deliver_0@ == packets(s.rtp.seq, s.rtp.ts, carried)[0]);
    }
}

/// The encoder runs forever: it opens a channel for a hundred packets, and then begins a session on
/// its stream, rests for a second when that is over, and begins another, whichever way it ended.
pub proof fn law_run(rtsp_url: &str, turn: Turn, task: Task)
    ensures
        call_ensures(run, (rtsp_url, turn), task) ==> {
            &&& turn is Started <==> task is OpenChannel
            &&& turn is Ended <==> task is Rest
            &&& turn is Opened || turn is Rested <==> task is Encode
            &&& task matches Task::OpenChannel { packets } ==> packets == 100
            &&& task matches Task::Rest { report, millis } ==> millis == 1000 && turn == (
            Turn::Ended { failed: report })
            &&& task matches Task::Encode(session) ==> {
                &&& session.url@ == rtsp_url@
                &&& session.phase == Phase::Fresh
                &&& session.rtp.seq == 0
                &&& session.rtp.ts == 0
                &&& session.pending@.len() == 0
            }
        },
{
    if call_ensures(run, (rtsp_url, turn), task) {
        if let Task::Encode(session) = task {
            assert(packet_views(session.pending@).len() == session.pending@.len());
        }
    }
}

/// The writer of a track writes what it receives to that track, as it is, and finishes just when
/// there is no more.
pub proof fn law_write_packets(
    track: &Arc<TrackLocalStaticRTP>,
    event: WriterEvent,
    task: WriterTask,
)
    ensures
        call_ensures(write_packets, (track, event), task) ==> {
            &&& task is Finish <==> event is Received && event->Received_0 is None
            &&& task is Write <==> event is Received && event->Received_0 is Some
            &&& task matches WriterTask::Write { track: target, packet } ==> target == *track
                && packet@ == event->Received_0->0@
        },
{
}

/// What is said of an ending.
pub proof fn law_messages(ending: Ending, text: Option<String>)
    ensures
        call_ensures(Ending::message, (ending,), text) ==> {
            &&& text is None <==> ending == Ending::EndOfInput || ending == Ending::CallFailed
            &&& ending == Ending::NoVideo ==> text->0@ == "no video"@
            &&& ending == Ending::NoEncoder ==> text->0@ == "no libx264"@
            &&& ending == Ending::NoData ==> text->0@ == "no data"@
            &&& ending == Ending::ChannelClosed ==> text->0@ == "channel closed"@
        },
{
}

} // verus!
