# intercom_cam

An intercom camera server: an RTSP camera is transcoded to H.264 and offered to browsers over
WebRTC.

`src/` is the library, verified with Verus. It only computes:

- `nal`, `rtp`: H.264 byte streams are split into NAL units, and NAL units are cut into RTP packets;
- `encoder`: the decisions of an encoding session, from the camera stream to the packets;
- `http`, `json`, `text`: what a request asks for, and how it is answered;
- `signaling`, `camera`, `peer`, `track`: how an offer becomes a peer connection, and how the camera
  is set up for its viewers, who share one video track;
- `ffmpeg`: transcoding by an `ffmpeg` process;
- `*_laws`: what holds over several calls, such as that a receiver gets back the NAL units of every
  picture of a session, or that the channel between encoder and writer loses nothing.

What serde_json and webrtc are trusted to do is stated in `json`, `signaling` and `track`, what
`std::str::from_utf8` is in `http`, and what `Arc::clone` is in `track`.

`app/` is the program around it: sockets, FFmpeg, and the WebRTC engine. It does the work that the
library asks for and reports how it went. It serves the page `index.html` of the directory that it
is started in. With `LOCAL` set in the environment it offers itself on `127.0.0.1`.
