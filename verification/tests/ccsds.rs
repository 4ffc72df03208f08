use cfs_telemetry::capture::{push_frame, split_frames};
use cfs_telemetry::ccsds::{
    compute_checksum, CmdSecondaryHeader, Error, PacketIter, PacketType, PrimaryHeader, SeqFlags,
    SpacePacket, TlmSecondaryHeader,
};

/// A telemetry packet: APID 0x080, secondary header present, seq 3,
/// data length 0x000D -> total 20 octets.
const TLM: [u8; 6] = [0x08, 0x80, 0xC0, 0x03, 0x00, 0x0D];

#[test]
fn parses_telemetry_header() {
    let h = PrimaryHeader::parse(&TLM).unwrap();
    assert_eq!(h.apid, 0x080);
    assert_eq!(h.packet_type, PacketType::Telemetry);
    assert!(h.secondary_header);
    assert_eq!(h.seq_flags, SeqFlags::Unsegmented);
    assert_eq!(h.seq_count, 3);
    assert_eq!(h.total_len(), 20);
    assert_eq!(h.stream_id(), 0x0880);
}

#[test]
fn parses_command_header() {
    // 0x1880: type bit set, secondary header set, APID 0x080.
    let bytes = [0x18, 0x80, 0xC0, 0x00, 0x00, 0x01];
    let h = PrimaryHeader::parse(&bytes).unwrap();
    assert_eq!(h.packet_type, PacketType::Command);
    assert_eq!(h.stream_id(), 0x1880);
    assert_eq!(h.total_len(), 8);
}

#[test]
fn round_trips() {
    let h = PrimaryHeader::parse(&TLM).unwrap();
    let mut out = [0u8; 6];
    h.write(&mut out).unwrap();
    assert_eq!(out, TLM);
}

#[test]
fn rejects_nonzero_version() {
    // A misaligned stream reads as a bogus version far more often than not.
    assert_eq!(PrimaryHeader::parse(&[0x20, 0x00, 0, 0, 0, 0]), Err(Error::BadVersion(1)));
}

#[test]
fn length_field_is_total_minus_seven() {
    let h = PrimaryHeader::for_total_len(0x080, PacketType::Telemetry, true, 0, 20).unwrap();
    assert_eq!(h.data_length, 13);
    assert_eq!(h.total_len(), 20);
}

#[test]
fn parses_command_secondary() {
    // Reserved high bit set on the function-code octet must be masked off.
    let h = CmdSecondaryHeader::parse(&[0x86, 0x2A]).unwrap();
    assert_eq!(h.function_code, 6);
    assert_eq!(h.checksum, 0x2A);
}

#[test]
fn telemetry_time_round_trips() {
    let h = TlmSecondaryHeader { seconds: 0x1234_5678, subseconds: 0x8000 };
    let mut out = [0u8; 6];
    h.write(&mut out).unwrap();
    assert_eq!(out, [0x12, 0x34, 0x56, 0x78, 0x80, 0x00]);
    assert_eq!(TlmSecondaryHeader::parse(&out).unwrap(), h);
    // 0x8000 subseconds is exactly half a second.
    assert_eq!(h.ticks(), 0x1234_5678 * 1_024_000_000 + 512_000_000);
}

#[test]
fn checksum_ignores_the_checksum_octet() {
    let mut pkt = [0x18, 0x80, 0xC0, 0x00, 0x00, 0x01, 0x06, 0x00];
    let c = compute_checksum(&pkt, 7);
    pkt[7] = c;
    // Recomputing over the filled-in packet yields the same value.
    assert_eq!(compute_checksum(&pkt, 7), c);
}

#[test]
fn a_filled_in_packet_sums_to_zero() {
    let mut pkt = [0x18, 0x80, 0xC0, 0x00, 0x00, 0x01, 0x06, 0x00];
    pkt[7] = compute_checksum(&pkt, 7);
    assert_eq!(pkt[7], 0xA0);
    let sum = pkt.iter().fold(0xFFu8, |s, b| s ^ b);
    assert_eq!(sum, 0);
}

#[test]
fn every_error_has_an_input_and_words() {
    let short = PrimaryHeader::parse(&[0x08, 0x80, 0xC0]).unwrap_err();
    assert_eq!(short, Error::Truncated { need: 6, got: 3 });
    assert_eq!(short.message(), "truncated packet: need 6 octets, got 3");

    let version = PrimaryHeader::parse(&[0xE0, 0, 0, 0, 0, 0]).unwrap_err();
    assert_eq!(version, Error::BadVersion(7));
    assert_eq!(version.message(), "unsupported CCSDS version 7 (expected 0)");

    let mut tlm = [0u8; 20];
    tlm[..6].copy_from_slice(&TLM);
    let pkt = SpacePacket::parse(&tlm).unwrap();
    let wrong = pkt.cmd_secondary().unwrap_err();
    assert_eq!(wrong, Error::WrongPacketType);
    assert_eq!(wrong.message(), "packet type does not match the requested header");

    let plain = [0x10, 0x80, 0xC0, 0x00, 0x00, 0x01, 0x00, 0x00];
    let none = SpacePacket::parse(&plain).unwrap().cmd_secondary().unwrap_err();
    assert_eq!(none, Error::NoSecondaryHeader);
    assert_eq!(none.message(), "secondary header flag is not set");

    let h = PrimaryHeader::parse(&TLM).unwrap();
    let small = h.write(&mut [0u8; 4]).unwrap_err();
    assert_eq!(small, Error::BufferTooSmall { need: 6, got: 4 });
    assert_eq!(small.message(), "output buffer too small: need 6 octets, got 4");

    let large = PrimaryHeader::for_total_len(0, PacketType::Telemetry, true, 0, 65543).unwrap_err();
    assert!(matches!(large, Error::PayloadTooLarge(_)));
    assert!(PrimaryHeader::for_total_len(0, PacketType::Telemetry, true, 0, 65542).is_ok());
}

fn telemetry_packet(seq: u8, body: &[u8]) -> Vec<u8> {
    let mut pkt = vec![0x08, 0x80, 0xC0, seq, 0x00, (16 + body.len() - 7) as u8];
    pkt.extend_from_slice(&[0, 0, 0, 1, 0x40, 0]);
    pkt.extend_from_slice(&[0xEE; 4]);
    pkt.extend_from_slice(body);
    pkt
}

#[test]
fn a_packet_ends_where_its_header_says() {
    let mut stream = telemetry_packet(1, &[1, 2, 3]);
    let n = stream.len();
    stream.extend_from_slice(&[9, 9, 9, 9, 9]);
    let pkt = SpacePacket::parse(&stream).unwrap();
    assert_eq!(pkt.total_len(), n);
    assert_eq!(pkt.bytes(), &stream[..n]);
    assert_eq!(pkt.data_field(), &stream[6..n]);
    assert_eq!(pkt.payload().unwrap(), &stream[12..n]);
    assert_eq!(pkt.cfe_tlm_payload().unwrap(), &[1, 2, 3]);
    let cut = SpacePacket::parse(&stream[..n - 1]).unwrap_err();
    assert_eq!(cut, Error::Truncated { need: n, got: n - 1 });
}

#[test]
fn packets_back_to_back_come_apart_again() {
    let a = telemetry_packet(1, &[1]);
    let b = telemetry_packet(2, &[2, 2]);
    let mut stream = a.clone();
    stream.extend_from_slice(&b);
    stream.extend_from_slice(&[0x08, 0x80]);
    let mut it = PacketIter::new(&stream);
    assert_eq!(it.next().unwrap().bytes(), a.as_slice());
    assert_eq!(it.next().unwrap().bytes(), b.as_slice());
    assert!(it.next().is_none());
    assert_eq!(it.remainder(), &[0x08, 0x80]);
}

#[test]
fn captured_frames_come_apart_again() {
    let a = telemetry_packet(1, &[1]);
    let b = telemetry_packet(2, &[2, 2]);
    let mut data = Vec::new();
    push_frame(&mut data, &a);
    push_frame(&mut data, &b);
    assert_eq!(&data[..4], &[17, 0, 0, 0]);
    let (frames, cut) = split_frames(&data);
    assert_eq!(frames, vec![a.clone(), b]);
    assert_eq!(cut, None);
    let (frames, cut) = split_frames(&data[..data.len() - 1]);
    assert_eq!(frames, vec![a]);
    assert_eq!(cut, Some(4 + 17 + 4));
}
