//! The camera that viewers connect to.
use std::sync::Arc;

use vstd::prelude::*;

use webrtc::track::track_local::track_local_static_rtp::TrackLocalStaticRTP;

use crate::rtp::PT;
use crate::signaling::{fresh, Negotiation};
use crate::track::{is_video_track, share, video_track};

verus! {

/// An IP address, as the number that it is.
#[derive(Clone, Copy, Debug, PartialEq, Eq, Structural)]
pub enum Address {
    V4(u32),
    V6(u128),
}

/// Whether an address is a loopback address: `127.0.0.0/8`, or `::1`.
pub open spec fn is_loopback(address: Address) -> bool {
    match address {
        Address::V4(bits) => bits / 0x1000000 == 127,
        Address::V6(bits) => bits == 1,
    }
}

impl Address {
    /// Whether an address is a loopback address.
    pub fn loopback(self) -> (yes: bool)
        ensures
            yes == is_loopback(self),
    {
        match self {
            Address::V4(bits) => bits / 0x1000000 == 127,
            Address::V6(bits) => bits == 1,
        }
    }
}

/// A codec, as it is registered for the media of a peer connection.
pub struct Codec {
    pub mime_type: String,
    pub fmtp: String,
    pub payload_type: u8,
    pub stats_id: String,
}

/// What a codec says.
pub struct CodecView {
    pub mime_type: Seq<char>,
    pub fmtp: Seq<char>,
    pub payload_type: u8,
    pub stats_id: Seq<char>,
}

impl View for Codec {
    type V = CodecView;

    open spec fn view(&self) -> CodecView {
        CodecView {
            mime_type: self.mime_type@,
            fmtp: self.fmtp@,
            payload_type: self.payload_type,
            stats_id: self.stats_id@,
        }
    }
}

/// H.264 in the packetization mode and the profile that the packets are made for.
pub open spec fn h264(stats_id: Seq<char>) -> CodecView {
    CodecView {
        mime_type: "video/H264"@,
        fmtp: "packetization-mode=1;profile-level-id=42e01f"@,
        payload_type: PT,
        stats_id,
    }
}

/// H.264 in the packetization mode and the profile that the packets are made for.
pub fn h264_codec(stats_id: &str) -> (codec: Codec)
    ensures
        codec@ == h264(stats_id@),
{
    Codec {
        mime_type: "video/H264".to_owned(),
        fmtp: "packetization-mode=1;profile-level-id=42e01f".to_owned(),
        payload_type: PT,
        stats_id: stats_id.to_owned(),
    }
}

/// The socket address that all peer connections share.
pub open spec fn media_socket() -> Seq<char> {
    "0.0.0.0:50000"@
}

/// The socket address that all peer connections share.
pub fn media_address() -> (address: String)
    ensures
        address@ == media_socket(),
{
    "0.0.0.0:50000".to_owned()
}

/// How the camera is set up for its viewers.
pub struct Camera {
    pub codec: Codec,
    /// The one track that all viewers get.
    pub track: Arc<TrackLocalStaticRTP>,
    /// The one UDP socket that media goes through.
    pub socket: String,
    /// Whether the camera only answers connectivity checks.
    pub lite: bool,
    /// Whether candidates are looked for on UDP over IPv4 only.
    pub udp4_only: bool,
    /// Whether loopback interfaces give candidates.
    pub include_loopback: bool,
    /// The only address that a candidate may have.
    pub address: Address,
}

/// Where the address of the camera could not be found out.
#[derive(Clone, Copy, Debug, PartialEq, Eq, Structural)]
pub enum NoAddress {
    /// Its name was resolved to no address.
    DnsFailed,
    /// What was found is no IP address.
    NotAnAddress,
}

impl Camera {
    /// The camera on a public address, given what the text of the address was parsed to, or nothing
    /// where it is no IP address. Loopback candidates are included just where the address is a
    /// loopback address.
    pub fn new(public_ip: Option<Address>) -> (camera: Result<Camera, NoAddress>)
        ensures
            match public_ip {
                None => camera == Err::<Camera, NoAddress>(NoAddress::NotAnAddress),
                Some(address) => {
                    &&& camera is Ok
                    &&& camera->Ok_0.codec@ == h264(Seq::empty())
                    &&& is_video_track(*camera->Ok_0.track, "cam"@)
                    &&& camera->Ok_0.socket@ == media_socket()
                    &&& camera->Ok_0.lite
                    &&& camera->Ok_0.udp4_only
                    &&& camera->Ok_0.include_loopback == is_loopback(address)
                    &&& camera->Ok_0.address == address
                },
            },
    {
        proof {
            reveal_strlit("");
        }
        let codec = h264_codec("");
        assert(""@ =~= Seq::<char>::empty());
        match public_ip {
            None => Err(NoAddress::NotAnAddress),
            Some(address) => Ok(
                Camera {
                    codec,
                    track: video_track("cam"),
                    socket: media_address(),
                    lite: true,
                    udp4_only: true,
                    include_loopback: address.loopback(),
                    address,
                },
            ),
        }
    }

    /// Whether a candidate may have an address: the public address of the camera is the only one.
    pub fn admits(&self, candidate: Address) -> (yes: bool)
        ensures
            yes == (candidate == self.address),
    {
        candidate == self.address
    }

    /// Begins to make a viewer of the camera's track out of an offer.
    pub fn add_viewer(&self, offer: String) -> (negotiation: Negotiation)
        ensures
            negotiation@ == fresh(offer@, true, self.track),
    {
        Negotiation::new(offer, true, share(&self.track))
    }
}

/// The public address of the camera: the local host where the camera is to be local, and
/// otherwise the first address that its name was resolved to.
pub fn public_ip(local: bool, resolved: Option<String>) -> (ip: Result<String, NoAddress>)
    ensures
        ip is Ok <==> local || resolved is Some,
        ip is Err ==> ip->Err_0 == NoAddress::DnsFailed,
        ip is Ok ==> ip->Ok_0@ == if local {
            "127.0.0.1"@
        } else {
            resolved->0@
        },
{
    if local {
        Ok("127.0.0.1".to_owned())
    } else {
        match resolved {
            Some(ip) => Ok(ip),
            None => Err(NoAddress::DnsFailed),
        }
    }
}

} // verus!
