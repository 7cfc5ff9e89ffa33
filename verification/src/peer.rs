//! Peer connections behind an address translation, for callers that keep none of them.
use std::sync::Arc;

use vstd::prelude::*;

use webrtc::track::track_local::track_local_static_rtp::TrackLocalStaticRTP;

use crate::camera::{h264, h264_codec, media_address, media_socket, Codec};
use crate::signaling::{fresh, Negotiation};
use crate::text::{push_text, text_views};
use crate::track::{is_video_track, share, video_track};

verus! {

/// How peer connections are set up.
pub struct WebRTC {
    pub codec: Codec,
    /// The one track that all peers get.
    pub track: Arc<TrackLocalStaticRTP>,
    /// The one UDP socket that media goes through.
    pub socket: String,
    /// The addresses that host candidates are given out with.
    pub nat_1to1_ips: Vec<String>,
}

impl WebRTC {
    /// Peer connections whose host candidates are given out with a public address.
    pub fn new(public_ip: String) -> (peers: WebRTC)
        ensures
            peers.codec@ == h264("video"@),
            is_video_track(*peers.track, "video"@),
            peers.socket@ == media_socket(),
            text_views(peers.nat_1to1_ips@) == seq![public_ip@],
    {
        let mut ips: Vec<String> = Vec::new();
        push_text(&mut ips, public_ip.as_str());
        assert(text_views(ips@) =~= seq![public_ip@]);
        WebRTC {
            codec: h264_codec("video"),
            track: video_track("video"),
            socket: media_address(),
            nat_1to1_ips: ips,
        }
    }

    /// Begins to answer an offer with the track. The peer is not watched, and its connection is not
    /// kept.
    pub fn connect(&self, sdp: String) -> (negotiation: Negotiation)
        ensures
            negotiation@ == fresh(sdp@, false, self.track),
    {
        Negotiation::new(sdp, false, share(&self.track))
    }
}

} // verus!
