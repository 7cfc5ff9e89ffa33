//! How the camera, its peers and the processes around it are set up.
use std::sync::Arc;

use vstd::prelude::*;

use webrtc::track::track_local::track_local_static_rtp::TrackLocalStaticRTP;

use crate::camera::{h264_codec, media_address, public_ip, Address, Camera, Codec, NoAddress};
use crate::ffmpeg::{arguments, command_arguments, Task, Turn};
use crate::peer::WebRTC;
use crate::signaling::{Negotiation, Phase};
use crate::text::{chars_of, pair_views, push_pair, push_text, text_views};
use crate::track::{track_id, track_mime_type, track_stream_id, video_track};

verus! {

/// Whether a codec is the one that the packets are made for.
pub open spec fn is_h264(codec: Codec, stats_id: Seq<char>) -> bool {
    &&& codec.mime_type@ == "video/H264"@
    &&& codec.fmtp@ == "packetization-mode=1;profile-level-id=42e01f"@
    &&& codec.payload_type == 96
    &&& codec.stats_id@ == stats_id
}

/// Whether a track is a video track of a stream.
pub open spec fn is_video(track: TrackLocalStaticRTP, stream_id: Seq<char>) -> bool {
    &&& track_mime_type(track) == "video/H264"@
    &&& track_id(track) == "video"@
    &&& track_stream_id(track) == stream_id
}

/// The codec has the name in statistics that it is given, and is otherwise always the same.
pub proof fn law_h264_codec(stats_id: &str, codec: Codec)
    ensures
        call_ensures(h264_codec, (stats_id,), codec) ==> is_h264(codec, stats_id@),
{
    if call_ensures(h264_codec, (stats_id,), codec) {
        assert(codec@.mime_type == codec.mime_type@);
    }
}

/// A video track belongs to the stream that it is made for.
pub proof fn law_video_track(stream_id: &str, track: Arc<TrackLocalStaticRTP>)
    ensures
        call_ensures(video_track, (stream_id,), track) ==> is_video(*track, stream_id@),
{
}

/// All media goes through one UDP port.
pub proof fn law_media_address(address: String)
    ensures
        call_ensures(media_address, (), address) ==> address@ == "0.0.0.0:50000"@,
{
}

/// Just the addresses from `127.0.0.0` to `127.255.255.255`, and `::1`, are loopback addresses.
pub proof fn law_loopback(address: Address, yes: bool)
    ensures
        call_ensures(Address::loopback, (address,), yes) ==> match address {
            Address::V4(bits) => yes == (0x7F000000 <= bits <= 0x7FFFFFFF),
            Address::V6(bits) => yes == (bits == 1),
        },
{
}

/// A camera needs an address, is set up for that one and admits no other, and includes loopback
/// candidates just where the address is one.
pub proof fn law_camera(
    ip: Option<Address>,
    camera: Result<Camera, NoAddress>,
    candidate: Address,
    loopback: bool,
    admitted: bool,
)
    ensures
        call_ensures(Camera::new, (ip,), camera) ==> {
            &&& ip is None ==> camera is Err && camera->Err_0 == NoAddress::NotAnAddress
            &&& ip is Some ==> {
                &&& camera is Ok
                &&& is_h264(camera->Ok_0.codec, Seq::empty())
                &&& is_video(*camera->Ok_0.track, "cam"@)
                &&& camera->Ok_0.socket@ == "0.0.0.0:50000"@
                &&& camera->Ok_0.lite
                &&& camera->Ok_0.udp4_only
                &&& call_ensures(Address::loopback, (ip->0,), loopback)
                    ==> camera->Ok_0.include_loopback == loopback
                &&& call_ensures(Camera::admits, (&camera->Ok_0, candidate), admitted) ==> admitted
                    == (candidate == ip->0)
            }
        },
{
    if call_ensures(Camera::new, (ip,), camera) && ip is Some {
        let codec = camera->Ok_0.codec;
        assert(codec@.mime_type == codec.mime_type@);
    }
}

/// A viewer is negotiated with on its offer as it came, and gets the track of the camera.
pub proof fn law_add_viewer(camera: &Camera, offer: String, negotiation: Negotiation)
    ensures
        call_ensures(Camera::add_viewer, (camera, offer), negotiation) ==> {
            &&& negotiation.offer@ == offer@
            &&& negotiation.viewer
            &&& negotiation.track == camera.track
            &&& negotiation.phase == Phase::Fresh
        },
{
    if call_ensures(Camera::add_viewer, (camera, offer), negotiation) {
        assert(negotiation@.offer == negotiation.offer@);
    }
}

/// The public address is the local host for a local camera, and what the name was resolved to, as it
/// is, for any other.
pub proof fn law_public_ip(local: bool, resolved: Option<String>, ip: Result<String, NoAddress>)
    ensures
        call_ensures(public_ip, (local, resolved), ip) ==> {
            &&& local ==> ip is Ok && ip->Ok_0@ == "127.0.0.1"@
            &&& !local && resolved is Some ==> ip is Ok && ip->Ok_0@ == resolved->0@
            &&& !local && resolved is None ==> ip is Err && ip->Err_0 == NoAddress::DnsFailed
        },
{
}

/// Peers are given out with the public address as it came, and that one alone.
pub proof fn law_peers(ip: String, peers: WebRTC)
    ensures
        call_ensures(WebRTC::new, (ip,), peers) ==> {
            &&& is_h264(peers.codec, "video"@)
            &&& is_video(*peers.track, "video"@)
            &&& peers.socket@ == "0.0.0.0:50000"@
            &&& peers.nat_1to1_ips@.len() == 1
            &&& peers.nat_1to1_ips@[0]@ == ip@
        },
{
    if call_ensures(WebRTC::new, (ip,), peers) {
        let ips = peers.nat_1to1_ips@;
        assert(peers.codec@.mime_type == peers.codec.mime_type@);
        assert(text_views(ips).len() == ips.len());
        assert(text_views(ips)[0] == ips[0]@);
    }
}

/// A peer is negotiated with on its offer as it came, gets the track, and is not kept.
pub proof fn law_connect(peers: &WebRTC, sdp: String, negotiation: Negotiation)
    ensures
        call_ensures(WebRTC::connect, (peers, sdp), negotiation) ==> {
            &&& negotiation.offer@ == sdp@
            &&& !negotiation.viewer
            &&& negotiation.track == peers.track
            &&& negotiation.phase == Phase::Fresh
        },
{
    if call_ensures(WebRTC::connect, (peers, sdp), negotiation) {
        assert(negotiation@.offer == negotiation.offer@);
    }
}

/// Whether arguments make `ffmpeg` read a camera and send its video to an address.
pub open spec fn transcodes(args: Vec<String>, camera: Seq<char>, stream: Seq<char>) -> bool {
    let given = Seq::new(args@.len(), |i: int| args@[i]@);
    given == seq![
        "-timeout"@,
        "5000000"@,
        "-rtsp_transport"@,
        "tcp"@,
        "-i"@,
        camera,
        "-an"@,
        "-c:v"@,
        "libx264"@,
        "-preset"@,
        "ultrafast"@,
        "-tune"@,
        "zerolatency"@,
        "-r"@,
        "15"@,
        "-g"@,
        "1"@,
        "-pkt_size"@,
        "1200"@,
        "-f"@,
        "rtp"@,
        "rtp://"@ + stream,
    ]
}

proof fn lemma_transcodes(args: Vec<String>, camera: Seq<char>, stream: Seq<char>)
    requires
        text_views(args@) == arguments(camera, stream),
    ensures
        transcodes(args, camera, stream),
{
    assert(Seq::new(args@.len(), |i: int| args@[i]@) =~= text_views(args@));
}

/// The arguments name the camera and the address as they are.
pub proof fn law_command_arguments(camera: &str, stream: &str, args: Vec<String>)
    ensures
        call_ensures(command_arguments, (camera, stream), args) ==> transcodes(
            args,
            camera@,
            stream@,
        ),
{
    if call_ensures(command_arguments, (camera, stream), args) {
        lemma_transcodes(args, camera@, stream@);
    }
}

/// The process is run forever, with a rest of a second whenever it has exited.
pub proof fn law_ffmpeg(camera: &str, stream: &str, turn: Turn, task: Task)
    ensures
        call_ensures(crate::ffmpeg::run, (camera, stream, turn), task) ==> {
            &&& turn is Exited <==> task is Rest
            &&& task matches Task::Rest { millis } ==> millis == 1000
            &&& task matches Task::Spawn { program, args } ==> program@ == "ffmpeg"@ && transcodes(
                args,
                camera@,
                stream@,
            )
        },
{
    if call_ensures(crate::ffmpeg::run, (camera, stream, turn), task) {
        if let Task::Spawn { program, args } = task {
            lemma_transcodes(args, camera@, stream@);
        }
    }
}

/// The characters of a text are all of them, in order.
pub proof fn law_chars_of(text: &str, chars: Vec<char>)
    ensures
        call_ensures(chars_of, (text,), chars) ==> chars@ == text@,
{
}

/// Appending puts what is appended behind what is there, and changes nothing else.
pub proof fn law_appending()
    ensures
        forall|texts: &mut Vec<String>, text: &str, done: ()| #[trigger]
            call_ensures(push_text, (texts, text), done) ==> {
                &&& final(texts)@.len() == texts@.len() + 1
                &&& final(texts)@.last()@ == text@
                &&& forall|i: int|
                    0 <= i < texts@.len() ==> (#[trigger] final(texts)@[i])@ == texts@[i]@
            },
        forall|pairs: &mut Vec<(String, String)>, name: &str, value: &str, done: ()| #[trigger]
            call_ensures(push_pair, (pairs, name, value), done) ==> {
                &&& final(pairs)@.len() == pairs@.len() + 1
                &&& final(pairs)@.last().0@ == name@
                &&& final(pairs)@.last().1@ == value@
                &&& forall|i: int|
                    0 <= i < pairs@.len() ==> (#[trigger] final(pairs)@[i]).0@ == pairs@[i].0@
                        && final(pairs)@[i].1@ == pairs@[i].1@
            },
{
    assert forall|texts: &mut Vec<String>, text: &str, done: ()| #[trigger]
        call_ensures(push_text, (texts, text), done) implies {
        &&& final(texts)@.len() == texts@.len() + 1
        &&& final(texts)@.last()@ == text@
        &&& forall|i: int| 0 <= i < texts@.len() ==> (#[trigger] final(texts)@[i])@ == texts@[i]@
    } by {
        let (a, b) = (texts@, final(texts)@);
        assert(text_views(a).len() == a.len() && text_views(b).len() == b.len());
        assert(text_views(b)[b.len() - 1] == b[b.len() - 1]@);
        assert forall|i: int| 0 <= i < a.len() implies (#[trigger] b[i])@ == a[i]@ by {
            assert(text_views(b)[i] == b[i]@ && text_views(a)[i] == a[i]@);
        }
    }
    assert forall|pairs: &mut Vec<(String, String)>, name: &str, value: &str, done: ()| #[trigger]
        call_ensures(push_pair, (pairs, name, value), done) implies {
        &&& final(pairs)@.len() == pairs@.len() + 1
        &&& final(pairs)@.last().0@ == name@
        &&& final(pairs)@.last().1@ == value@
        &&& forall|i: int|
            0 <= i < pairs@.len() ==> (#[trigger] final(pairs)@[i]).0@ == pairs@[i].0@
                && final(pairs)@[i].1@ == pairs@[i].1@
    } by {
        let (a, b) = (pairs@, final(pairs)@);
        assert(pair_views(a).len() == a.len() && pair_views(b).len() == b.len());
        assert(pair_views(b)[b.len() - 1] == (b[b.len() - 1].0@, b[b.len() - 1].1@));
        assert forall|i: int| 0 <= i < a.len() implies (#[trigger] b[i]).0@ == a[i].0@ && b[i].1@
            == a[i].1@ by {
            assert(pair_views(b)[i] == (b[i].0@, b[i].1@) && pair_views(a)[i] == (
                a[i].0@,
                a[i].1@,
            ));
        }
    }
}

} // verus!
