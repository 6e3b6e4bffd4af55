use mitch_cli::frame::{decode_frame, encode_frame, length_prefix, payload_len, ProtocolError};
use mitch_cli::mitch::{Commands, MitchState};

#[test]
fn state_codes_decode() {
    let table = [
        (0x01u8, MitchState::SysStartup),
        (0x02, MitchState::SysIdle),
        (0x03, MitchState::SysStandby),
        (0x04, MitchState::SysLog),
        (0x05, MitchState::SysReadout),
        (0xF8, MitchState::SysTx),
        (0xFF, MitchState::SysError),
        (0xF0, MitchState::BootStartup),
        (0xF1, MitchState::BootIdle),
        (0xF2, MitchState::BootDownload),
    ];
    for (b, s) in table {
        assert_eq!(MitchState::try_from(b), Ok(s));
        assert_eq!(s.code(), b);
    }
}

#[test]
fn unknown_state_codes_are_rejected() {
    for b in [0x00u8, 0x06, 0x80, 0xEF, 0xF3, 0xF7, 0xF9, 0xFE] {
        assert_eq!(MitchState::try_from(b), Err("Unknown state"));
    }
}

#[test]
fn opcode_table_bytes() {
    assert_eq!(Commands::GetState.opcode(), vec![0x82, 0x00]);
    assert_eq!(Commands::GetPower.opcode(), vec![0x57, 0x00]);
    assert_eq!(Commands::StartAccelerometryStream.opcode(), vec![0x02, 0x03, 0xF8, 0x04, 0x04]);
    assert_eq!(Commands::StartPressureStream.opcode(), vec![0x02, 0x03, 0xF8, 0x01, 0x04]);
    assert_eq!(Commands::StopStream.opcode(), vec![0x02, 0x01, 0x02]);
}

#[test]
fn frame_has_little_endian_prefix() {
    let payload = b"{\"Ok\":null}".to_vec();
    let f = encode_frame(&payload);
    assert_eq!(f.len(), 8 + payload.len());
    assert_eq!(&f[..8], &[11, 0, 0, 0, 0, 0, 0, 0]);
    assert_eq!(&f[8..], &payload[..]);
}

#[test]
fn empty_payload_frame() {
    assert_eq!(encode_frame(&[]), vec![0u8; 8]);
    assert_eq!(decode_frame(&[0u8; 8]), Ok(vec![]));
}

#[test]
fn length_prefix_round_trip() {
    for n in [0u64, 1, 255, 256, 0x0102_0304_0506_0708, u64::MAX] {
        let p = length_prefix(n);
        assert_eq!(p, n.to_le_bytes());
        assert_eq!(payload_len(&p), n);
    }
    assert_eq!(payload_len(&[0x00, 0x01, 0, 0, 0, 0, 0, 0]), 256);
}

#[test]
fn frame_round_trip() {
    let payload: Vec<u8> = (0u8..=200).collect();
    let f = encode_frame(&payload);
    assert_eq!(decode_frame(&f), Ok(payload));
}

#[test]
fn bytes_after_payload_are_ignored() {
    let mut f = encode_frame(b"abc");
    f.extend_from_slice(b"junk");
    assert_eq!(decode_frame(&f), Ok(b"abc".to_vec()));
}

#[test]
fn truncated_prefix_is_malformed() {
    assert_eq!(decode_frame(&[3, 0, 0]), Err(ProtocolError::MalformedFrame));
    assert_eq!(decode_frame(&[]), Err(ProtocolError::MalformedFrame));
}

#[test]
fn truncated_payload_is_malformed() {
    let f = encode_frame(b"abcdef");
    assert_eq!(decode_frame(&f[..8]), Err(ProtocolError::MalformedFrame));
    assert_eq!(decode_frame(&f[..10]), Err(ProtocolError::MalformedFrame));
}

#[test]
fn protocol_error_messages() {
    assert_eq!(ProtocolError::MalformedFrame.message(), "malformed frame");
    assert_eq!(ProtocolError::BadCommand.message(), "bad command");
}
