//! The logic of an intercom camera server: an RTSP camera is transcoded to H.264 and offered to
//! browsers over WebRTC.
//!
//! Everything here computes. Sockets, codecs and peer connections are driven by a program around
//! the library, which reports how its work went and is told what to do next.
pub mod camera;
pub mod channel_laws;
pub mod encoder;
pub mod encoder_laws;
pub mod ffmpeg;
pub mod http;
pub mod http_laws;
pub mod json;
pub mod nal;
pub mod nal_laws;
pub mod negotiation_laws;
pub mod packet_laws;
pub mod peer;
pub mod request_laws;
pub mod rtp;
pub mod rtp_laws;
pub mod session_laws;
pub mod setup_laws;
pub mod signaling;
pub mod signaling_laws;
pub mod text;
pub mod track;
