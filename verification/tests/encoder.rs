use std::sync::Arc;

use intercom_cam::encoder::{
    encode, encoder_settings, input_options, run, write_packets, Action, Ending, Event, Phase,
    Session, Task, Turn, WriterEvent, WriterTask,
};
use intercom_cam::track::video_track;

fn pair(name: &str, value: &str) -> (String, String) {
    (name.to_string(), value.to_string())
}

/// A session that reads packets of stream 2.
fn reading(yuv420p: bool) -> Session {
    let mut session = Session::new("rtsp://camera/live");
    assert!(matches!(encode(&mut session, Event::Begin), Action::Initialise));
    match encode(&mut session, Event::Done) {
        Action::OpenInput { url, options } => {
            assert_eq!(url, "rtsp://camera/live");
            assert_eq!(options, input_options());
        }
        _ => panic!("no input"),
    }
    assert!(matches!(encode(&mut session, Event::Done), Action::FindStream));
    assert!(matches!(
        encode(&mut session, Event::Stream(Some(2))),
        Action::OpenDecoder { stream: 2 }
    ));
    match encode(&mut session, Event::Decoder { width: 640, height: 480, yuv420p }) {
        Action::FindEncoder { name } => assert_eq!(name, "libx264"),
        _ => panic!("no encoder"),
    }
    match encode(&mut session, Event::Encoder(true)) {
        Action::OpenEncoder { settings } => {
            assert_eq!((settings.width, settings.height), (640, 480));
        }
        _ => panic!("no settings"),
    }
    let next = encode(&mut session, Event::Done);
    if yuv420p {
        assert!(matches!(next, Action::ReadPacket));
    } else {
        assert!(matches!(next, Action::OpenScaler { width: 640, height: 480 }));
        assert!(matches!(encode(&mut session, Event::Done), Action::ReadPacket));
    }
    session
}

/// A session that asks the encoder for packets.
fn receiving(yuv420p: bool, asked: bool) -> Session {
    let mut session = reading(yuv420p);
    assert!(matches!(encode(&mut session, Event::Packet(Some(2))), Action::SendPacket));
    assert!(matches!(encode(&mut session, Event::Done), Action::ReceiveFrame));
    let next = encode(&mut session, Event::Frame(true));
    if yuv420p {
        assert!(matches!(next, Action::TakeRequest));
    } else {
        assert!(matches!(next, Action::Scale));
        assert!(matches!(encode(&mut session, Event::Done), Action::TakeRequest));
    }
    match encode(&mut session, Event::Request(asked)) {
        Action::SendFrame { scaled, key } => {
            assert_eq!(scaled, !yuv420p);
            assert_eq!(key, asked);
        }
        _ => panic!("no frame"),
    }
    assert!(matches!(encode(&mut session, Event::Done), Action::ReceivePacket));
    session
}

/// Sends a picture, and gives the packets that it was sent in.
fn send_picture(session: &mut Session, data: Vec<u8>) -> Vec<Vec<u8>> {
    let mut packets: Vec<Vec<u8>> = Vec::new();
    let mut action = encode(session, Event::Encoded(Some(data)));
    while let Action::Deliver(packet) = action {
        packets.push(packet);
        action = encode(session, Event::Done);
    }
    assert!(matches!(action, Action::ReceivePacket));
    packets
}

fn ending(action: Action) -> Ending {
    match action {
        Action::Stop(ending) => ending,
        _ => panic!("not over"),
    }
}

#[test]
fn the_input_is_opened_over_tcp() {
    assert_eq!(
        input_options(),
        vec![pair("rtsp_transport", "tcp"), pair("timeout", "5000000")]
    );
}

#[test]
fn the_encoder_is_set_up_for_low_latency() {
    let settings = encoder_settings(1280, 720);
    assert_eq!((settings.width, settings.height), (1280, 720));
    assert_eq!(settings.frame_rate, (15, 1));
    assert_eq!(settings.time_base, (1, 15));
    assert_eq!(settings.bit_rate, 400_000);
    assert_eq!(settings.max_bit_rate, 500_000);
    assert_eq!(
        settings.options,
        vec![
            pair("preset", "veryfast"),
            pair("tune", "zerolatency"),
            pair("profile", "baseline"),
            pair(
                "x264-params",
                "keyint=150:min-keyint=150:scenecut=0:repeat-headers=1:bframes=0"
            ),
            pair("bufsize", "600k"),
        ]
    );
}

#[test]
fn a_session_delivers_a_picture() {
    let mut session = receiving(true, false);
    let packets = send_picture(&mut session, vec![0, 0, 0, 1, 0x65, 7]);
    assert_eq!(packets.len(), 1);
    assert_eq!(packets[0][12..], [0x65, 7]);
    assert_eq!(packets[0][1], 0xE0);
    assert!(matches!(encode(&mut session, Event::Drained), Action::ReceiveFrame));
    assert_eq!((session.rtp.seq, session.rtp.ts), (1, 6000));
    assert!(matches!(encode(&mut session, Event::Frame(false)), Action::ReadPacket));
}

#[test]
fn pictures_of_another_format_are_scaled() {
    receiving(false, false);
}

#[test]
fn a_request_forces_a_keyframe() {
    receiving(true, true);
    receiving(false, true);
}

#[test]
fn packets_and_clock_run_on_over_frames() {
    let mut session = receiving(true, false);
    let mut expected: u16 = 0;
    for frame in 0..4u32 {
        for _ in 0..2 {
            for packet in send_picture(&mut session, vec![0, 0, 1, 0x41, 1, 0, 0, 1, 0x41]) {
                assert_eq!(u16::from_be_bytes([packet[2], packet[3]]), expected);
                let ts = u32::from_be_bytes([packet[4], packet[5], packet[6], packet[7]]);
                assert_eq!(ts, frame * 6000);
                expected += 1;
            }
        }
        encode(&mut session, Event::Drained);
        encode(&mut session, Event::Frame(true));
        encode(&mut session, Event::Request(false));
        encode(&mut session, Event::Done);
    }
    assert_eq!(expected, 16);
}

#[test]
fn a_receiver_gets_all_pictures_of_a_session() {
    let mut session = receiving(true, false);
    let mut large: Vec<u8> = vec![0x65];
    large.resize(3000, 7);
    let pictures: Vec<Vec<u8>> = vec![large, vec![0x41, 9], vec![0x61]];
    let mut units: Vec<Vec<u8>> = Vec::new();
    let mut partial: Vec<u8> = Vec::new();
    for picture in &pictures {
        let mut data: Vec<u8> = vec![0, 0, 0, 1];
        data.extend_from_slice(picture);
        for packet in send_picture(&mut session, data) {
            let payload = &packet[12..];
            if payload[0] & 0x1F != 28 {
                units.push(payload.to_vec());
                continue;
            }
            if payload[1] & 0x80 != 0 {
                partial = vec![payload[0] & 0xE0 | payload[1] & 0x1F];
            }
            partial.extend_from_slice(&payload[2..]);
            if payload[1] & 0x40 != 0 {
                units.push(std::mem::take(&mut partial));
            }
        }
    }
    assert_eq!(units, pictures);
}

#[test]
fn other_streams_are_passed_over() {
    let mut session = reading(true);
    assert!(matches!(encode(&mut session, Event::Packet(Some(1))), Action::ReadPacket));
    assert_eq!(session.phase, Phase::ReadingPacket);
    assert!(matches!(encode(&mut session, Event::Packet(Some(2))), Action::SendPacket));
}

#[test]
fn the_end_of_the_input_ends_the_session() {
    let mut session = reading(true);
    assert_eq!(ending(encode(&mut session, Event::Packet(None))), Ending::EndOfInput);
    assert_eq!(Ending::EndOfInput.message(), None);
    assert_eq!(ending(encode(&mut session, Event::Begin)), Ending::OutOfStep);
    assert_eq!(session.phase, Phase::Stopped);
}

#[test]
fn a_camera_without_video_ends_the_session() {
    let mut session = Session::new("x");
    encode(&mut session, Event::Begin);
    encode(&mut session, Event::Done);
    encode(&mut session, Event::Done);
    let end = ending(encode(&mut session, Event::Stream(None)));
    assert_eq!(end, Ending::NoVideo);
    assert_eq!(end.message(), Some("no video".to_string()));
}

#[test]
fn a_missing_encoder_ends_the_session() {
    let mut session = Session::new("x");
    encode(&mut session, Event::Begin);
    encode(&mut session, Event::Done);
    encode(&mut session, Event::Done);
    encode(&mut session, Event::Stream(Some(0)));
    encode(&mut session, Event::Decoder { width: 1, height: 1, yuv420p: true });
    let end = ending(encode(&mut session, Event::Encoder(false)));
    assert_eq!(end, Ending::NoEncoder);
    assert_eq!(end.message(), Some("no libx264".to_string()));
}

#[test]
fn a_packet_without_data_ends_the_session() {
    let mut session = receiving(true, false);
    let end = ending(encode(&mut session, Event::Encoded(None)));
    assert_eq!(end, Ending::NoData);
    assert_eq!(end.message(), Some("no data".to_string()));
}

#[test]
fn a_closed_channel_ends_the_session() {
    let mut session = receiving(true, false);
    encode(&mut session, Event::Encoded(Some(vec![0x65])));
    let end = ending(encode(&mut session, Event::Closed));
    assert_eq!(end, Ending::ChannelClosed);
    assert_eq!(end.message(), Some("channel closed".to_string()));
}

#[test]
fn the_first_packet_that_cannot_be_sent_is_the_last() {
    let data: Vec<u8> = vec![0, 0, 1, 0x67, 1, 0, 0, 1, 0x68, 2, 0, 0, 1, 0x65, 3];
    let mut session = receiving(true, false);
    match encode(&mut session, Event::Encoded(Some(data))) {
        Action::Deliver(packet) => assert_eq!(packet[12..], [0x67, 1]),
        _ => panic!("nothing delivered"),
    }
    match encode(&mut session, Event::Done) {
        Action::Deliver(packet) => assert_eq!(packet[12..], [0x68, 2]),
        _ => panic!("nothing delivered"),
    }
    assert_eq!(session.pending.len(), 1);
    assert_eq!(ending(encode(&mut session, Event::Closed)), Ending::ChannelClosed);
    assert_eq!(ending(encode(&mut session, Event::Done)), Ending::OutOfStep);
    assert_eq!(ending(encode(&mut session, Event::Packet(Some(2)))), Ending::OutOfStep);
}

#[test]
fn an_empty_picture_is_not_sent() {
    let mut session = receiving(true, false);
    assert!(send_picture(&mut session, Vec::new()).is_empty());
}

#[test]
fn a_full_channel_keeps_the_session_waiting() {
    let capacity: usize = match run("rtsp://camera", Turn::Started) {
        Task::OpenChannel { packets } => packets,
        _ => panic!("no channel"),
    };
    let (tx, mut rx) = tokio::sync::mpsc::channel::<Vec<u8>>(capacity);
    let mut data: Vec<u8> = Vec::new();
    for i in 0..=capacity {
        data.extend_from_slice(&[0, 0, 1, 0x41, i as u8 + 2]);
    }
    let mut session = receiving(true, false);
    let mut action = encode(&mut session, Event::Encoded(Some(data)));
    let mut refused: Vec<u8> = Vec::new();
    while let Action::Deliver(packet) = action {
        match tx.try_send(packet) {
            Ok(()) => action = encode(&mut session, Event::Done),
            Err(e) => {
                refused = e.into_inner();
                action = Action::ReadPacket;
            }
        }
    }
    assert_eq!(u16::from_be_bytes([refused[2], refused[3]]) as usize, capacity);
    for expected in 0..capacity {
        let packet = rx.try_recv().unwrap();
        assert_eq!(u16::from_be_bytes([packet[2], packet[3]]) as usize, expected);
    }
    assert!(rx.try_recv().is_err());
    assert!(tx.try_send(refused).is_ok());
    assert!(matches!(encode(&mut session, Event::Done), Action::ReceivePacket));
}

#[test]
fn a_failed_call_ends_the_session() {
    let mut session = Session::new("x");
    encode(&mut session, Event::Begin);
    let end = ending(encode(&mut session, Event::Failed));
    assert_eq!(end, Ending::CallFailed);
    assert_eq!(end.message(), None);
    let mut late = reading(true);
    encode(&mut late, Event::Packet(Some(2)));
    assert_eq!(ending(encode(&mut late, Event::Failed)), Ending::CallFailed);
}

#[test]
fn a_report_that_does_not_fit_ends_the_session() {
    let mut session = Session::new("x");
    let end = ending(encode(&mut session, Event::Frame(true)));
    assert_eq!(end, Ending::OutOfStep);
    assert!(end.message().is_some());
}

#[test]
fn sessions_follow_each_other_after_a_rest() {
    assert!(matches!(run("rtsp://camera", Turn::Started), Task::OpenChannel { packets: 100 }));
    match run("rtsp://camera", Turn::Opened) {
        Task::Encode(session) => {
            assert_eq!(session.url, "rtsp://camera");
            assert_eq!(session.phase, Phase::Fresh);
            assert_eq!((session.rtp.seq, session.rtp.ts), (0, 0));
        }
        _ => panic!("no session"),
    }
    assert!(matches!(
        run("rtsp://camera", Turn::Ended { failed: true }),
        Task::Rest { report: true, millis: 1000 }
    ));
    assert!(matches!(
        run("rtsp://camera", Turn::Ended { failed: false }),
        Task::Rest { report: false, millis: 1000 }
    ));
    assert!(matches!(run("rtsp://camera", Turn::Rested), Task::Encode(_)));
}

#[test]
fn the_writer_writes_what_it_receives_to_its_track() {
    let track = video_track("test");
    assert!(matches!(write_packets(&track, WriterEvent::Started), WriterTask::Receive));
    for failed in [true, false] {
        match write_packets(&track, WriterEvent::Received(Some(vec![1, 2, 3]))) {
            WriterTask::Write { track: target, packet } => {
                assert!(Arc::ptr_eq(&target, &track));
                assert_eq!(packet, vec![1, 2, 3]);
            }
            _ => panic!("not written"),
        }
        let next = write_packets(&track, WriterEvent::Written { failed });
        assert!(matches!(next, WriterTask::Receive));
    }
    assert!(matches!(write_packets(&track, WriterEvent::Received(None)), WriterTask::Finish));
}

#[test]
fn packets_of_other_streams_leave_no_trace() {
    let mut plain = receiving(true, false);
    let mut mixed = reading(true);
    for stream in [0, 1, 3] {
        assert!(matches!(encode(&mut mixed, Event::Packet(Some(stream))), Action::ReadPacket));
    }
    encode(&mut mixed, Event::Packet(Some(2)));
    encode(&mut mixed, Event::Done);
    encode(&mut mixed, Event::Frame(true));
    encode(&mut mixed, Event::Request(false));
    encode(&mut mixed, Event::Done);
    let one = send_picture(&mut plain, vec![0x65, 1]);
    let other = send_picture(&mut mixed, vec![0x65, 1]);
    assert_eq!(one, other);
    assert_eq!(plain.phase, mixed.phase);
    assert_eq!((plain.rtp.seq, plain.rtp.ts), (mixed.rtp.seq, mixed.rtp.ts));
}
