use intercom_cam::rtp::{RtpState, FRAGMENT, MTU, PT, SSRC};

/// A NAL unit of a given length that begins with `first`.
fn unit(first: u8, len: usize) -> Vec<u8> {
    let mut nal: Vec<u8> = vec![first];
    while nal.len() < len {
        nal.push((nal.len() % 250 + 2) as u8);
    }
    nal
}

fn stream(units: &[Vec<u8>]) -> Vec<u8> {
    let mut data: Vec<u8> = Vec::new();
    for unit in units {
        data.extend_from_slice(&[0, 0, 0, 1]);
        data.extend_from_slice(unit);
    }
    data
}

fn seq_of(packet: &[u8]) -> u16 {
    u16::from_be_bytes([packet[2], packet[3]])
}

fn ts_of(packet: &[u8]) -> u32 {
    u32::from_be_bytes([packet[4], packet[5], packet[6], packet[7]])
}

fn marker_of(packet: &[u8]) -> bool {
    packet[1] & 0x80 != 0
}

/// What a receiver puts together out of packets.
fn reassemble(packets: &[Vec<u8>]) -> Vec<Vec<u8>> {
    let mut units: Vec<Vec<u8>> = Vec::new();
    let mut partial: Vec<u8> = Vec::new();
    for packet in packets {
        let payload = &packet[12..];
        if payload[0] & 0x1F == 28 {
            if payload[1] & 0x80 != 0 {
                partial = vec![payload[0] & 0xE0 | payload[1] & 0x1F];
            }
            partial.extend_from_slice(&payload[2..]);
            if payload[1] & 0x40 != 0 {
                units.push(std::mem::take(&mut partial));
            }
        } else {
            units.push(payload.to_vec());
        }
    }
    units
}

#[test]
fn the_state_begins_at_zero() {
    let state = RtpState::default();
    assert_eq!((state.seq, state.ts), (0, 0));
}

#[test]
fn the_header_is_laid_out_as_rtp_has_it() {
    let state = RtpState { seq: 0x0102, ts: 0x03040506 };
    assert_eq!(
        state.rtp_header(false),
        vec![0x80, 96, 1, 2, 3, 4, 5, 6, 0x12, 0x34, 0x56, 0x78]
    );
    assert_eq!(state.rtp_header(true)[1], 0xE0);
    assert_eq!(PT, 96);
    assert_eq!(SSRC, 0x12345678);
}

#[test]
fn a_packet_is_header_and_payload() {
    let mut state = RtpState { seq: u16::MAX, ts: 7 };
    let header = state.rtp_header(true);
    let packet = state.rtp_packet(&[9, 8, 7], true);
    assert_eq!(packet[..12], header[..]);
    assert_eq!(packet[12..], [9, 8, 7]);
    assert_eq!((state.seq, state.ts), (0, 7));
}

#[test]
fn ticks_are_a_fifteenth_of_a_second() {
    let mut state = RtpState::default();
    for _ in 0..15 {
        state.tick();
    }
    assert_eq!(state.ts, 90000);
    assert_eq!(state.seq, 0);
    let mut late = RtpState { seq: 3, ts: u32::MAX - 5999 };
    late.tick();
    assert_eq!((late.seq, late.ts), (3, 0));
}

#[test]
fn nothing_gives_no_packet() {
    let mut state = RtpState { seq: 5, ts: 6 };
    assert!(state.packetize(&[]).is_empty());
    assert_eq!((state.seq, state.ts), (5, 6));
}

#[test]
fn small_units_travel_whole() {
    let mut state = RtpState { seq: 65534, ts: 6000 };
    let packets = state.packetize(&[0, 0, 0, 1, 0x67, 1, 0, 0, 1, 0x68, 2, 0, 0, 1, 0x65, 3]);
    assert_eq!(packets.len(), 3);
    assert_eq!(packets[0][12..], [0x67, 1]);
    assert_eq!(packets[1][12..], [0x68, 2]);
    assert_eq!(packets[2][12..], [0x65, 3]);
    let seqs: Vec<u16> = packets.iter().map(|p| seq_of(p)).collect();
    assert_eq!(seqs, vec![65534, 65535, 0]);
    let markers: Vec<bool> = packets.iter().map(|p| marker_of(p)).collect();
    assert_eq!(markers, vec![false, false, true]);
    assert!(packets.iter().all(|p| ts_of(p) == 6000));
    assert_eq!((state.seq, state.ts), (1, 6000));
}

#[test]
fn a_unit_that_just_fits_is_not_cut() {
    let mut state = RtpState::default();
    let nal = unit(0x65, MTU - 12);
    let packets = state.packetize(&stream(&[nal.clone()]));
    assert_eq!(packets.len(), 1);
    assert_eq!(packets[0].len(), MTU);
    assert_eq!(packets[0][12..], nal[..]);
}

#[test]
fn a_unit_that_does_not_fit_is_cut() {
    let mut state = RtpState::default();
    let nal = unit(0x65, MTU - 11);
    let packets = state.packetize(&stream(&[nal.clone()]));
    assert_eq!(packets.len(), 2);
    assert_eq!(packets[0][12..14], [0x7C, 0x85]);
    assert_eq!(packets[1][12..14], [0x7C, 0x45]);
    assert_eq!(packets[0].len(), 1200);
    assert_eq!(packets[1].len(), 12 + 2 + nal.len() - 1 - FRAGMENT);
    assert!(!marker_of(&packets[0]) && marker_of(&packets[1]));
}

#[test]
fn fragments_that_fill_their_packets_end_without_an_empty_one() {
    let mut state = RtpState::default();
    let nal = unit(0x41, 1 + 3 * FRAGMENT);
    let packets = state.packetize(&stream(&[nal]));
    assert_eq!(packets.len(), 3);
    let flags: Vec<u8> = packets.iter().map(|p| p[13] & 0xC0).collect();
    assert_eq!(flags, vec![0x80, 0, 0x40]);
    assert!(packets.iter().all(|p| p.len() == MTU && p[12] == 0x5C && p[13] & 0x1F == 1));
}

#[test]
fn the_marker_is_on_the_last_packet_of_the_picture_alone() {
    let mut state = RtpState::default();
    let packets = state.packetize(&stream(&[unit(0x65, 3000), unit(0x41, 10), unit(0x61, 2500)]));
    let markers: usize = packets.iter().filter(|p| marker_of(p)).count();
    assert_eq!(markers, 1);
    assert!(marker_of(packets.last().unwrap()));
    assert!(packets.iter().all(|p| p.len() <= MTU && p.len() > 12));
}

#[test]
fn numbering_goes_on_over_pictures() {
    let mut state = RtpState::default();
    let mut packets = state.packetize(&stream(&[unit(0x65, 4000)]));
    state.tick();
    packets.extend(state.packetize(&stream(&[unit(0x41, 4000), unit(0x41, 3)])));
    for (i, packet) in packets.iter().enumerate() {
        assert_eq!(seq_of(packet) as usize, i);
    }
    assert_eq!(ts_of(&packets[0]), 0);
    assert_eq!(ts_of(packets.last().unwrap()), 6000);
}

#[test]
fn a_receiver_gets_the_units_back() {
    let units = vec![unit(0x67, 30), unit(0x68, 5), unit(0x65, 5000), unit(0x41, 1189)];
    let mut state = RtpState { seq: 65000, ts: 1 };
    let packets = state.packetize(&stream(&units));
    assert_eq!(reassemble(&packets), units);
}

#[test]
fn fragments_do_not_carry_the_forbidden_bit() {
    let mut state = RtpState::default();
    let packets = state.packetize(&stream(&[unit(0xE5, 2000)]));
    assert_eq!(reassemble(&packets)[0][0], 0x65);
}

#[test]
fn the_state_shows_in_the_number_and_the_time_alone() {
    let data = stream(&[unit(0x65, 3000), unit(0x41, 10)]);
    let one = RtpState { seq: 7, ts: 9 }.packetize(&data);
    let other = RtpState { seq: 0xFFFF, ts: 0xABCDEF01 }.packetize(&data);
    assert_eq!(one.len(), other.len());
    for (a, b) in one.iter().zip(other.iter()) {
        assert_eq!(a[..2], b[..2]);
        assert_eq!(a[8..], b[8..]);
    }
}
