use cfs_telemetry::ccsds::{Error, PacketType, PrimaryHeader, SpacePacket, TlmSecondaryHeader};
use cfs_telemetry::msg::hk::{CiLabHk, SampleAppHk, ToLabHk};
use cfs_telemetry::msg::rust_app::RustAppHk;
use cfs_telemetry::msg::{build_command, rust_app, sample_app, to_lab, ConfigError, MsgId, MsgIds};

#[test]
fn ci_lab_reads_counters_little_endian() {
    // Exactly the payload octets of the second CI_LAB HK packet of a capture.
    let payload = [0u8, 0, 0, 1, 0x08, 0, 0, 0, 0, 0, 0, 0];
    let hk = CiLabHk::decode(&payload).unwrap();
    assert_eq!(hk.ingest_packets, 8);
    assert_eq!(hk.socket_connected, 1);
    assert_eq!(hk.enable_checksums, 0);
    assert_eq!(hk.ingest_errors, 0);
}

#[test]
fn hk_short_payloads_are_rejected_rather_than_padded() {
    assert!(CiLabHk::decode(&[0u8; 11]).is_none());
    assert!(SampleAppHk::decode(&[0u8; 1]).is_none());
}

#[test]
fn built_command_parses_back() {
    let mut buf = [0u8; 64];
    let pkt = build_command(&mut buf, MsgId(0x1880), 6, 0, b"192.168.1.5\0\0\0\0\0").unwrap();
    assert_eq!(pkt.len(), 8 + 16);

    let parsed = SpacePacket::parse(pkt).unwrap();
    assert_eq!(parsed.primary().stream_id(), 0x1880);
    assert_eq!(parsed.cmd_secondary().unwrap().function_code, 6);
    assert_eq!(parsed.payload().unwrap().len(), 16);
}

#[test]
fn config_overrides_defaults() {
    let ids =
        MsgIds::parse("# from cfs_msgids.h\nto_lab_cmd = 0x1881\nci_lab_cmd=6276\n").unwrap();
    assert_eq!(ids.to_lab_cmd, MsgId(0x1881));
    assert_eq!(ids.ci_lab_cmd, MsgId(6276));
    // Untouched keys keep their defaults.
    assert_eq!(ids.to_lab_hk_tlm, MsgIds::lab_defaults().to_lab_hk_tlm);
}

#[test]
fn unknown_key_is_rejected() {
    assert_eq!(MsgIds::parse("to_lab_command = 0x1880"), Err(ConfigError { line: 1 }));
}

#[test]
fn a_bad_line_is_named_by_its_number() {
    let err = MsgIds::parse("\n# fine\nto_lab_cmd = 0x18881\n").unwrap_err();
    assert_eq!(err, ConfigError { line: 3 });
    assert_eq!(err.message(), "invalid message-id config at line 3");
    assert_eq!(MsgIds::parse("to_lab_cmd"), Err(ConfigError { line: 1 }));
    assert_eq!(MsgIds::parse("to_lab_cmd = twelve"), Err(ConfigError { line: 1 }));
}

#[test]
fn later_lines_win_and_every_key_is_known() {
    let text = "to_lab_cmd=1\nto_lab_hk_tlm=2\nci_lab_cmd=3\nci_lab_hk_tlm=4\n\
                sample_app_cmd=5\nsample_app_hk_tlm=6\nrust_app_cmd=7\nrust_app_hk_tlm=8\n\
                rust_app_vehicle_tlm=9\nto_lab_cmd = 0X00ff # again\n";
    let ids = MsgIds::parse(text).unwrap();
    assert_eq!(ids.to_lab_cmd, MsgId(0xFF));
    assert_eq!(ids.to_lab_hk_tlm, MsgId(2));
    assert_eq!(ids.ci_lab_cmd, MsgId(3));
    assert_eq!(ids.ci_lab_hk_tlm, MsgId(4));
    assert_eq!(ids.sample_app_cmd, MsgId(5));
    assert_eq!(ids.sample_app_hk_tlm, MsgId(6));
    assert_eq!(ids.rust_app_cmd, MsgId(7));
    assert_eq!(ids.rust_app_hk_tlm, MsgId(8));
    assert_eq!(ids.rust_app_vehicle_tlm, MsgId(9));
}

#[test]
fn a_message_id_reads_as_four_hexadecimal_digits() {
    assert_eq!(MsgId(0x0892).to_text(), "0x0892");
    assert_eq!(MsgId(0x18AF).to_text(), "0x18AF");
    assert_eq!(MsgId(0x1892).apid(), 0x092);
}

#[test]
fn a_command_is_eight_octets_and_carries_its_function_code() {
    let mut buf = [0u8; 32];
    let pkt = rust_app::command(&mut buf, MsgId(rust_app::CMD_MID), rust_app::DEPLOY_CC, 7).unwrap();
    assert_eq!(pkt.len(), 8);

    let parsed = SpacePacket::parse(pkt).unwrap();
    assert_eq!(parsed.primary().stream_id(), rust_app::CMD_MID);
    assert_eq!(parsed.cmd_secondary().unwrap().function_code, rust_app::DEPLOY_CC);
}

#[test]
fn hk_round_trips() {
    let hk = RustAppHk {
        command_counter: 3,
        command_error_counter: 1,
        mode: 2,
        wheels_saturated: 1,
        control_cycles: 123_456,
        targets_commanded: 9,
    };
    let mut bytes = [0u8; RustAppHk::LEN];
    hk.encode(&mut bytes);
    assert_eq!(RustAppHk::decode(&bytes), Some(hk));
}

#[test]
fn rust_app_short_payloads_are_rejected_rather_than_padded() {
    assert!(RustAppHk::decode(&[0u8; RustAppHk::LEN - 1]).is_none());
}

/// Both collisions that were actually hit, asserted so they cannot be reintroduced
/// by someone tidying the numbers into a run.
#[test]
fn the_ids_avoid_the_collisions_this_spike_hit() {
    /// `MD_HK_TLM_MID`: a packet published here reaches the ground while belonging
    /// to another application.
    const MD_HK_TLM_MID: u16 = 0x0890;
    /// The scheduler sends this one a message every few seconds, so an app
    /// subscribing to it receives phantom commands.
    const SCH_LAB_DRIVEN_CMD_MID: u16 = 0x1891;

    for id in [MsgId(rust_app::HK_TLM_MID), MsgId(rust_app::VEHICLE_TLM_MID)] {
        assert_ne!(id.0, MD_HK_TLM_MID, "{id:?} is Memory Dwell's housekeeping");
        assert!(!id.is_command(), "{id:?} is in the command range");
    }
    assert_ne!(rust_app::CMD_MID, SCH_LAB_DRIVEN_CMD_MID, "driven by sch_lab");
    assert!(MsgId(rust_app::CMD_MID).is_command(), "not in the command range");

    // Distinct from each other, which a copy-paste would break silently.
    assert_ne!(rust_app::HK_TLM_MID, rust_app::VEHICLE_TLM_MID);
}

#[test]
fn noop_is_eight_octets_and_addresses_sample_app() {
    let mut buf = [0u8; 32];
    let pkt = sample_app::noop(&mut buf, MsgIds::lab_defaults().sample_app_cmd, 1).unwrap();
    assert_eq!(pkt.len(), 8, "a no-op carries no payload");

    let parsed = SpacePacket::parse(pkt).unwrap();
    assert_eq!(parsed.primary().stream_id(), 0x1882);
    assert_eq!(parsed.cmd_secondary().unwrap().function_code, sample_app::NOOP_CC);
}

/// The exact octets put on the wire for a no-op, pinned.
#[test]
fn noop_bytes_are_the_ones_cfs_accepted() {
    let mut buf = [0u8; 32];
    let pkt = sample_app::noop(&mut buf, MsgIds::lab_defaults().sample_app_cmd, 1).unwrap();
    assert_eq!(pkt, [0x18, 0x82, 0xC0, 0x01, 0x00, 0x01, 0x00, 0xA5]);
}

#[test]
fn reset_differs_from_noop_only_in_the_function_code() {
    let (mut a, mut b) = ([0u8; 32], [0u8; 32]);
    let id = MsgIds::lab_defaults().sample_app_cmd;
    let n = sample_app::noop(&mut a, id, 3).unwrap().to_vec();
    let r = sample_app::reset_counters(&mut b, id, 3).unwrap().to_vec();
    assert_eq!(n[..6], r[..6]);
    assert_ne!(n[6], r[6]);
}

#[test]
fn enable_output_is_nul_padded() {
    let mut buf = [0u8; 64];
    let pkt = to_lab::enable_output(&mut buf, MsgId(0x1880), 0, "192.168.65.1").unwrap();
    let payload = SpacePacket::parse(pkt).unwrap().payload().unwrap();
    assert_eq!(payload.len(), to_lab::DEST_IP_LEN);
    assert_eq!(&payload[..12], b"192.168.65.1");
    assert!(payload[12..].iter().all(|b| *b == 0));
}

#[test]
fn rejects_oversized_address() {
    let mut buf = [0u8; 64];
    assert!(to_lab::enable_output(&mut buf, MsgId(0x1880), 0, "255.255.255.255!").is_err());
}

#[test]
fn add_packet_carries_the_stream_id_little_endian() {
    let mut buf = [0u8; 64];
    let pkt = to_lab::add_packet(&mut buf, MsgId(0x1880), 4, MsgId(0x0892), 1).unwrap();
    let parsed = SpacePacket::parse(pkt).unwrap();
    assert_eq!(parsed.cmd_secondary().unwrap().function_code, to_lab::ADD_PKT_CC);

    let payload = parsed.payload().unwrap();
    assert_eq!(payload.len(), to_lab::ADD_PKT_LEN);
    assert_eq!(&payload[..4], &[0x92, 0x08, 0x00, 0x00], "MsgId must be LE in the payload");
    assert_eq!(payload[6], 1, "BufLimit");
    assert_eq!(&payload[4..6], &[0, 0], "Qos");
}

/// The header spells the same number the other way round.
#[test]
fn the_header_stream_id_stays_big_endian() {
    let mut buf = [0u8; 64];
    let pkt = to_lab::add_packet(&mut buf, MsgId(0x1880), 0, MsgId(0x0892), 1).unwrap();
    assert_eq!(&pkt[..2], &[0x18, 0x80]);
}

#[test]
fn noop_has_no_payload() {
    let mut buf = [0u8; 64];
    let pkt = to_lab::noop(&mut buf, MsgId(0x1880), 0).unwrap();
    assert_eq!(pkt.len(), 8);
    assert_eq!(SpacePacket::parse(pkt).unwrap().payload().unwrap().len(), 0);
}

#[test]
fn a_command_needs_room_for_all_of_it() {
    let mut buf = [0u8; 7];
    assert_eq!(
        build_command(&mut buf, MsgId(0x1880), 0, 0, &[]),
        Err(Error::BufferTooSmall { need: 8, got: 7 })
    );
}

/// A housekeeping packet as cFE frames one: header, timestamp, spare, payload.
fn housekeeping(id: u16, seq: u16, payload: &[u8]) -> Vec<u8> {
    let total = 16 + payload.len();
    let mut pkt = vec![0u8; total];
    PrimaryHeader::for_total_len(MsgId(id).apid(), PacketType::Telemetry, true, seq, total)
        .unwrap()
        .write(&mut pkt[..6])
        .unwrap();
    TlmSecondaryHeader { seconds: 1_456_000_000 + 5 * seq as u32, subseconds: 0 }
        .write(&mut pkt[6..12])
        .unwrap();
    pkt[16..].copy_from_slice(payload);
    pkt
}

/// Housekeeping of one run, five seconds apart, with one command in between.
fn packets_with(stream_id: u16) -> Vec<Vec<u8>> {
    let bodies: [&[u8]; 2] = match stream_id {
        0x0884 => [&[0, 0, 0, 1, 0x07, 0, 0, 0, 0, 0, 0, 0], &[0, 0, 0, 1, 0x08, 0, 0, 0, 0, 0, 0, 0]],
        0x0880 => [&[7, 0], &[8, 0]],
        _ => [&[0, 0], &[0, 0]],
    };
    bodies.iter().enumerate().map(|(i, b)| housekeeping(stream_id, i as u16, b)).collect()
}

#[test]
fn payloads_are_little_endian() {
    let raw = packets_with(0x0884);
    assert_eq!(raw.len(), 2, "there should be two CI_LAB HK packets");

    let hk: Vec<CiLabHk> = raw
        .iter()
        .map(|f| CiLabHk::from_packet(&SpacePacket::parse(f).unwrap()).expect("decodes"))
        .collect();
    assert_eq!(hk[0].ingest_packets, 7);
    assert_eq!(hk[1].ingest_packets, 8);

    // And the same octets read the other way round.
    let payload = SpacePacket::parse(&raw[0]).unwrap().cfe_tlm_payload().unwrap();
    let big_endian = u32::from_be_bytes(payload[4..8].try_into().unwrap());
    assert_eq!(big_endian, 117_440_512, "the reading this test rules out");

    assert_eq!(hk[0].ingest_errors, 0, "no uplink parse errors");
}

/// The four-octet spare in the cFE telemetry header is real, and reading past it is
/// not optional.
#[test]
fn skipping_the_cfe_spare_would_decode_plausible_garbage() {
    let raw = packets_with(0x0884);
    let pkt = SpacePacket::parse(&raw[1]).unwrap();

    let correct = CiLabHk::from_packet(&pkt).unwrap();
    // `payload()` is CCSDS-correct and cFE-wrong: it stops after the 6-octet
    // timestamp and hands back the spare.
    let wrong = CiLabHk::decode(pkt.payload().unwrap()).unwrap();

    assert_eq!(correct.ingest_packets, 8);
    assert_eq!(correct.socket_connected, 1);

    assert_ne!(wrong.ingest_packets, correct.ingest_packets);
    assert_eq!(wrong.ingest_packets, 1 << 24, "SocketConnected read as a byte of the count");
    assert_eq!(wrong.ingest_errors, 8, "the real ingest count, landing in the error field");
    assert_eq!(wrong.socket_connected, 0);
}

#[test]
fn to_lab_command_counter_tracks_the_same_commands() {
    let hk: Vec<ToLabHk> = packets_with(0x0880)
        .iter()
        .map(|f| ToLabHk::from_packet(&SpacePacket::parse(f).unwrap()).expect("decodes"))
        .collect();

    assert_eq!(hk[0].command_counter, 7);
    assert_eq!(hk[1].command_counter, 8);
    assert_eq!(hk[0].command_error_counter, 0, "to_lab rejected a command");
}

#[test]
fn sample_app_starts_idle() {
    let hk: Vec<SampleAppHk> = packets_with(0x0883)
        .iter()
        .map(|f| SampleAppHk::from_packet(&SpacePacket::parse(f).unwrap()).expect("decodes"))
        .collect();
    assert!(!hk.is_empty());
    for h in &hk {
        assert_eq!(h.command_counter, 0, "nobody commanded sample_app");
        assert_eq!(h.command_error_counter, 0);
    }
}

#[test]
fn ci_lab_reports_checksum_validation_disabled() {
    let hk = packets_with(0x0884);
    let first = CiLabHk::from_packet(&SpacePacket::parse(&hk[0]).unwrap()).unwrap();
    assert_eq!(first.enable_checksums, 0);
}
