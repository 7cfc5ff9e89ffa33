//! The video track: what the encoder writes to is what every peer is given.
//!
//! A track is shared, and changes inside as peers come and go. Two tracks are equal here where they
//! are one and the same.
use std::sync::Arc;

use vstd::prelude::*;

use webrtc::rtp_transceiver::rtp_codec::RTCRtpCodecCapability;
use webrtc::track::track_local::track_local_static_rtp::TrackLocalStaticRTP;

verus! {

/// A track that RTP packets are written to.
#[verifier::external_type_specification]
#[verifier::external_body]
pub struct ExTrack(TrackLocalStaticRTP);

/// The MIME type of the codec of a track.
pub uninterp spec fn track_mime_type(track: TrackLocalStaticRTP) -> Seq<char>;

/// The name of a track.
pub uninterp spec fn track_id(track: TrackLocalStaticRTP) -> Seq<char>;

/// The name of the stream that a track belongs to.
pub uninterp spec fn track_stream_id(track: TrackLocalStaticRTP) -> Seq<char>;

/// `TrackLocalStaticRTP::new`: a track with the given names, whose codec has the given MIME type
/// and is left at its defaults otherwise.
#[verifier::external_body]
fn new_track(mime_type: String, id: String, stream_id: String) -> (track: TrackLocalStaticRTP)
    ensures
        track_mime_type(track) == mime_type@,
        track_id(track) == id@,
        track_stream_id(track) == stream_id@,
{
    let codec = RTCRtpCodecCapability { mime_type, ..Default::default() };
    TrackLocalStaticRTP::new(codec, id, stream_id)
}

/// `Arc::clone`: another handle on the same track.
#[verifier::external_body]
pub(crate) fn share(track: &Arc<TrackLocalStaticRTP>) -> (same: Arc<TrackLocalStaticRTP>)
    ensures
        same == *track,
{
    Arc::clone(track)
}

/// Whether a track is an H.264 video track of a stream.
pub open spec fn is_video_track(track: TrackLocalStaticRTP, stream_id: Seq<char>) -> bool {
    &&& track_mime_type(track) == "video/H264"@
    &&& track_id(track) == "video"@
    &&& track_stream_id(track) == stream_id
}

/// A new H.264 video track of a stream.
pub fn video_track(stream_id: &str) -> (track: Arc<TrackLocalStaticRTP>)
    ensures
        is_video_track(*track, stream_id@),
{
    Arc::new(new_track("video/H264".to_owned(), "video".to_owned(), stream_id.to_owned()))
}

} // verus!
