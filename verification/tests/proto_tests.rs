use voyeurs::proto::{DecodeError, Packet, VoyeursCommand};

fn check_parse(cmd: VoyeursCommand) {
    let (cmd_code, args) = cmd.to_bytes();
    assert_eq!(cmd, VoyeursCommand::from_bytes(cmd_code, args).unwrap());
}

#[test]
fn test_command_parser() {
    check_parse(VoyeursCommand::NewConnection("test".to_string()));
    check_parse(VoyeursCommand::Ready(false));
    check_parse(VoyeursCommand::Seek((0.0f64).to_bits()));
    check_parse(VoyeursCommand::Filename("test".to_string()));
    check_parse(VoyeursCommand::Duration((1.0f64).to_bits()));
    check_parse(VoyeursCommand::StreamName("test".to_string()));
    check_parse(VoyeursCommand::GetStreamName);
}

#[test]
fn round_trip_every_variant() {
    check_parse(VoyeursCommand::NewConnection(String::new()));
    check_parse(VoyeursCommand::NewConnection("z\u{00fc}rich\u{1f600}".to_string()));
    check_parse(VoyeursCommand::Ready(true));
    check_parse(VoyeursCommand::Seek((12.5f64).to_bits()));
    check_parse(VoyeursCommand::Seek(f64::NAN.to_bits()));
    check_parse(VoyeursCommand::Filename(String::new()));
    check_parse(VoyeursCommand::Duration((-1.0f64).to_bits()));
    check_parse(VoyeursCommand::StreamName(String::new()));
}

#[test]
fn encoding_is_exact() {
    let (code, args) = VoyeursCommand::NewConnection("ab".to_string()).to_bytes();
    assert_eq!(code, 0x00);
    assert_eq!(args, vec![0x00, 0x01, b'a', b'b']);

    let (code, args) = VoyeursCommand::Ready(true).to_bytes();
    assert_eq!(code, 0x01);
    assert_eq!(args, vec![1]);

    let (code, args) = VoyeursCommand::Seek((1.0f64).to_bits()).to_bytes();
    assert_eq!(code, 0x02);
    assert_eq!(args, (1.0f64).to_be_bytes().to_vec());

    let (code, args) = VoyeursCommand::GetStreamName.to_bytes();
    assert_eq!(code, 0x06);
    assert!(args.is_empty());
}

#[test]
fn version_mismatch_rejected_whatever_the_payload() {
    assert_eq!(
        VoyeursCommand::from_bytes(0x00, vec![0x00, 0x02, b'b', b'o', b'b']),
        Err(DecodeError::ProtocolVersionMismatch(2))
    );
    assert_eq!(
        VoyeursCommand::from_bytes(0x00, vec![0xff, 0xff]),
        Err(DecodeError::ProtocolVersionMismatch(0xffff))
    );
    assert_eq!(
        VoyeursCommand::from_bytes(0x00, vec![0x00, 0x00, 0xff]),
        Err(DecodeError::ProtocolVersionMismatch(0))
    );
}

#[test]
fn unknown_command_code() {
    assert_eq!(
        VoyeursCommand::from_bytes(0x07, vec![]),
        Err(DecodeError::UnknownCommand(0x07))
    );
    assert_eq!(
        VoyeursCommand::from_bytes(0xff, vec![1, 2, 3]),
        Err(DecodeError::UnknownCommand(0xff))
    );
}

#[test]
fn truncated_payloads() {
    assert_eq!(
        VoyeursCommand::from_bytes(0x00, vec![0x00]),
        Err(DecodeError::TruncatedPayload)
    );
    assert_eq!(
        VoyeursCommand::from_bytes(0x01, vec![]),
        Err(DecodeError::TruncatedPayload)
    );
    assert_eq!(
        VoyeursCommand::from_bytes(0x02, vec![0, 0, 0, 0]),
        Err(DecodeError::TruncatedPayload)
    );
    assert_eq!(
        VoyeursCommand::from_bytes(0x04, vec![0; 7]),
        Err(DecodeError::TruncatedPayload)
    );
}

#[test]
fn invalid_utf8_rejected() {
    assert_eq!(
        VoyeursCommand::from_bytes(0x03, vec![0xff, 0xfe]),
        Err(DecodeError::InvalidUtf8)
    );
    assert_eq!(
        VoyeursCommand::from_bytes(0x05, vec![0xc3]),
        Err(DecodeError::InvalidUtf8)
    );
    assert_eq!(
        VoyeursCommand::from_bytes(0x00, vec![0x00, 0x01, 0x80]),
        Err(DecodeError::InvalidUtf8)
    );
}

#[test]
fn ready_flag_decoding() {
    assert_eq!(
        VoyeursCommand::from_bytes(0x01, vec![1]),
        Ok(VoyeursCommand::Ready(true))
    );
    assert_eq!(
        VoyeursCommand::from_bytes(0x01, vec![0]),
        Ok(VoyeursCommand::Ready(false))
    );
    // any byte other than 1 reads as "not ready"
    assert_eq!(
        VoyeursCommand::from_bytes(0x01, vec![7]),
        Ok(VoyeursCommand::Ready(false))
    );
}

#[test]
fn frame_layout_is_exact() {
    let packet = Packet {
        timestamp: 0x0102030405060708,
        command: VoyeursCommand::Ready(true),
    };
    let bytes = packet.compile();
    assert_eq!(
        bytes,
        vec![0x01, 0x02, 0x03, 0x04, 0x05, 0x06, 0x07, 0x08, 0x01, 0x00, 0x01, 0x01]
    );
}

#[test]
fn frame_round_trip() {
    let packet = Packet {
        timestamp: 42,
        command: VoyeursCommand::Filename("movie.mkv".to_string()),
    };
    let bytes = packet.compile();
    let back = voyeurs::proto::decode_frame(&bytes).unwrap();
    assert_eq!(back.timestamp, 42);
    assert_eq!(back.command, VoyeursCommand::Filename("movie.mkv".to_string()));
}

#[test]
fn try_compile_matches_compile() {
    let a = Packet {
        timestamp: 7,
        command: VoyeursCommand::StreamName("http://example.com/x".to_string()),
    };
    let b = Packet {
        timestamp: 7,
        command: VoyeursCommand::StreamName("http://example.com/x".to_string()),
    };
    assert_eq!(a.try_compile().unwrap(), b.compile());
}

#[test]
fn frame_truncation_detected() {
    // shorter than the 11-byte header
    assert_eq!(
        voyeurs::proto::decode_frame(&vec![0; 10]),
        Err(DecodeError::TruncatedPayload)
    );
    // header declares 5 payload bytes, only 2 follow
    let mut bytes = vec![0u8; 8];
    bytes.push(0x03); // Filename
    bytes.push(0x00);
    bytes.push(0x05);
    bytes.push(b'a');
    bytes.push(b'b');
    assert_eq!(
        voyeurs::proto::decode_frame(&bytes),
        Err(DecodeError::TruncatedPayload)
    );
}

#[test]
fn frame_decode_ignores_trailing_bytes() {
    // a Ready(true) frame followed by the first bytes of the next frame
    let mut bytes = vec![0u8; 8];
    bytes.push(0x01);
    bytes.push(0x00);
    bytes.push(0x01);
    bytes.push(0x01);
    bytes.push(0xde);
    bytes.push(0xad);
    let packet = voyeurs::proto::decode_frame(&bytes).unwrap();
    assert_eq!(packet.command, VoyeursCommand::Ready(true));
}

#[test]
fn craft_packet_keeps_the_command() {
    let packet = VoyeursCommand::Duration((3600.0f64).to_bits()).craft_packet(0);
    assert_eq!(
        packet.command,
        VoyeursCommand::Duration((3600.0f64).to_bits())
    );
}
