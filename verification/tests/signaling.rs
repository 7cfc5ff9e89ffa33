use std::sync::Arc;

use intercom_cam::camera::{h264_codec, media_address, public_ip, Address, Camera, NoAddress};
use intercom_cam::ffmpeg::{command_arguments, run, Task, Turn};
use intercom_cam::peer::WebRTC;
use intercom_cam::rtp::PT;
use intercom_cam::signaling::{
    keyframe_requests, Event, GatherSignal, Negotiation, Phase, Refusal, Step,
};
use intercom_cam::track::video_track;
use webrtc::peer_connection::sdp::sdp_type::RTCSdpType;
use webrtc::peer_connection::sdp::session_description::RTCSessionDescription;
use webrtc::track::track_local::TrackLocal;

const OFFER: &str = "v=0\r\no=- 1 2 IN IP4 127.0.0.1\r\ns=-\r\nt=0 0\r\n";

/// A negotiation that has added its track.
fn with_track(offer: &str, viewer: bool) -> Negotiation {
    let track = video_track("test");
    let mut negotiation = Negotiation::new(offer.to_string(), viewer, track.clone());
    assert!(matches!(negotiation.negotiate(Event::Begin), Step::CreatePeer));
    let mut next = negotiation.negotiate(Event::Done);
    if viewer {
        assert!(matches!(next, Step::Watch));
        next = negotiation.negotiate(Event::Done);
    }
    match next {
        Step::AddTrack(added) => assert!(Arc::ptr_eq(&added, &track)),
        _ => panic!("no track"),
    }
    negotiation
}

/// A negotiation that reads the local description.
fn gathered(viewer: bool, end: Event) -> Negotiation {
    let mut negotiation = with_track(OFFER, viewer);
    match negotiation.negotiate(Event::Done) {
        Step::SetRemote(description) => {
            assert_eq!(description.sdp, OFFER);
            assert_eq!(description.sdp_type, RTCSdpType::Offer);
        }
        _ => panic!("offer refused"),
    }
    assert!(matches!(negotiation.negotiate(Event::Done), Step::CreateAnswer));
    assert!(matches!(negotiation.negotiate(Event::Done), Step::SetLocal));
    assert!(matches!(negotiation.negotiate(Event::Done), Step::Gather));
    assert!(matches!(negotiation.negotiate(end), Step::ReadLocal));
    negotiation
}

#[test]
fn an_offer_is_answered() {
    for viewer in [true, false] {
        let mut negotiation = gathered(viewer, Event::Done);
        match negotiation.negotiate(Event::Local(Some("answer".to_string()))) {
            Step::Finish { sdp, keep } => {
                assert_eq!(sdp, "answer");
                assert_eq!(keep, viewer);
            }
            _ => panic!("no answer"),
        }
        assert_eq!(negotiation.phase, Phase::Over);
    }
}

#[test]
fn candidates_are_used_however_gathering_ends() {
    gathered(true, Event::Failed);
}

#[test]
fn without_a_local_description_there_is_no_answer() {
    let mut negotiation = gathered(true, Event::Done);
    assert!(matches!(
        negotiation.negotiate(Event::Local(None)),
        Step::Refuse(Refusal::NoLocalSdp)
    ));
}

#[test]
fn what_is_no_session_description_is_refused() {
    for offer in ["", "hello", "v=1\r\n", "o=- 1 2 IN IP4 127.0.0.1\r\n"] {
        let mut negotiation = with_track(offer, true);
        let expected = RTCSessionDescription::offer(offer.to_string()).unwrap_err();
        match negotiation.negotiate(Event::Done) {
            Step::Refuse(Refusal::BadOffer(e)) => assert_eq!(e, expected),
            _ => panic!("not refused"),
        }
        assert_eq!(negotiation.phase, Phase::Over);
    }
}

#[test]
fn the_result_of_parsing_decides() {
    let mut refused = with_track(OFFER, true);
    assert!(matches!(
        refused.offered(Err(webrtc::Error::ErrUnknownType)),
        Step::Refuse(Refusal::BadOffer(webrtc::Error::ErrUnknownType))
    ));
    assert_eq!(refused.phase, Phase::Over);
    let mut accepted = with_track(OFFER, true);
    assert!(matches!(
        accepted.offered(Ok(Default::default())),
        Step::SetRemote(_)
    ));
    assert_eq!(accepted.phase, Phase::SettingRemote);
}

#[test]
fn a_failed_step_is_refused() {
    let mut negotiation = with_track(OFFER, false);
    assert!(matches!(
        negotiation.negotiate(Event::Failed),
        Step::Refuse(Refusal::CallFailed)
    ));
}

#[test]
fn a_report_that_does_not_fit_is_refused() {
    let mut negotiation = Negotiation::new(OFFER.to_string(), true, video_track("test"));
    assert!(matches!(
        negotiation.negotiate(Event::Local(None)),
        Step::Refuse(Refusal::OutOfStep)
    ));
    assert!(matches!(
        negotiation.negotiate(Event::Begin),
        Step::Refuse(Refusal::OutOfStep)
    ));
}

#[test]
fn a_connected_viewer_is_sent_two_keyframes() {
    assert_eq!(keyframe_requests(true), vec![0, 100]);
    assert!(keyframe_requests(false).is_empty());
}

#[test]
fn the_end_of_gathering_is_signalled_once() {
    let mut signal = GatherSignal::new();
    let given: Vec<bool> = [false, true, false, true]
        .iter()
        .map(|complete| signal.observe(*complete))
        .collect();
    assert_eq!(given, vec![false, true, false, false]);
}

#[test]
fn a_camera_admits_its_own_address_alone() {
    let camera = Camera::new(Some(Address::V4(0x0A010203))).ok().unwrap();
    assert!(camera.admits(Address::V4(0x0A010203)));
    assert!(!camera.admits(Address::V4(0x0A010204)));
    assert!(!camera.admits(Address::V6(0x0A010203)));
    assert!(!camera.include_loopback);
    assert!(camera.lite && camera.udp4_only);
    assert_eq!(camera.socket, "0.0.0.0:50000");
    assert_eq!(camera.socket, media_address());
    assert_eq!(camera.track.codec().mime_type, "video/H264");
    assert_eq!(camera.track.id(), "video");
    assert_eq!(camera.track.stream_id(), "cam");
    assert_eq!(camera.codec.mime_type, "video/H264");
    assert_eq!(camera.codec.fmtp, "packetization-mode=1;profile-level-id=42e01f");
    assert_eq!(camera.codec.payload_type, PT);
    assert_eq!(camera.codec.stats_id, "");
}

#[test]
fn a_camera_needs_an_ip_address() {
    assert!(matches!(Camera::new(None), Err(NoAddress::NotAnAddress)));
}

#[test]
fn loopback_candidates_are_for_loopback_addresses() {
    for (address, loopback) in [
        (Address::V4(0x7F000001), true),
        (Address::V4(0x7FFFFFFF), true),
        (Address::V4(0x7EFFFFFF), false),
        (Address::V4(0x80000000), false),
        (Address::V6(1), true),
        (Address::V6(0), false),
        (Address::V6(0xFFFF7F000001), false),
    ] {
        assert_eq!(address.loopback(), loopback);
        assert_eq!(Camera::new(Some(address)).ok().unwrap().include_loopback, loopback);
    }
}

#[test]
fn viewers_are_watched_and_kept() {
    let camera = Camera::new(Some(Address::V4(1))).ok().unwrap();
    let negotiation = camera.add_viewer(OFFER.to_string());
    assert!(negotiation.viewer);
    assert!(Arc::ptr_eq(&negotiation.track, &camera.track));
    assert_eq!(negotiation.offer, OFFER);
    assert_eq!(negotiation.phase, Phase::Fresh);
}

#[test]
fn the_public_address_is_found() {
    assert_eq!(public_ip(true, None), Ok("127.0.0.1".to_string()));
    assert_eq!(public_ip(true, Some("1.2.3.4".to_string())), Ok("127.0.0.1".to_string()));
    assert_eq!(public_ip(false, Some("1.2.3.4".to_string())), Ok("1.2.3.4".to_string()));
    assert_eq!(public_ip(false, None), Err(NoAddress::DnsFailed));
}

#[test]
fn peers_are_given_out_with_the_public_address() {
    let peers = WebRTC::new("1.2.3.4".to_string());
    assert_eq!(peers.nat_1to1_ips, vec!["1.2.3.4".to_string()]);
    assert_eq!(peers.socket, "0.0.0.0:50000");
    assert_eq!(peers.codec.stats_id, "video");
    assert_eq!(peers.codec.payload_type, 96);
    assert_eq!(peers.track.codec().mime_type, h264_codec("video").mime_type);
    assert_eq!(peers.track.id(), "video");
    assert_eq!(peers.track.stream_id(), "video");
    let negotiation = peers.connect(OFFER.to_string());
    assert!(!negotiation.viewer);
    assert_eq!(negotiation.offer, OFFER);
    assert!(Arc::ptr_eq(&negotiation.track, &peers.track));
}

#[test]
fn ffmpeg_is_run_over_and_over() {
    let args = command_arguments("rtsp://camera", "127.0.0.1:5004");
    assert_eq!(
        args.join(" "),
        "-timeout 5000000 -rtsp_transport tcp -i rtsp://camera -an -c:v libx264 -preset ultrafast \
         -tune zerolatency -r 15 -g 1 -pkt_size 1200 -f rtp rtp://127.0.0.1:5004"
    );
    for turn in [Turn::Started, Turn::Rested] {
        match run("rtsp://camera", "127.0.0.1:5004", turn) {
            Task::Spawn { program, args: given } => {
                assert_eq!(program, "ffmpeg");
                assert_eq!(given, args);
            }
            _ => panic!("not run"),
        }
    }
    assert!(matches!(run("a", "b", Turn::Exited), Task::Rest { millis: 1000 }));
}
