use greenhouse_link::frame::{check_frame, decode_msg, encode_msg, FrameError, MAX_FRAME_LEN};
use greenhouse_link::protocol::{
    ActuatorFeedback, ActuatorTag, CommandAck, SensorData, TxMessage, SOF,
};

fn encode(msg: &TxMessage) -> Vec<u8> {
    let mut buffer = [0u8; 64];
    let len = encode_msg(msg, &mut buffer);
    buffer[..len].to_vec()
}

fn all_messages() -> Vec<TxMessage> {
    vec![
        TxMessage::Heartbeat,
        TxMessage::Sensor(SensorData::SoilMoisture(2000)),
        TxMessage::Sensor(SensorData::SoilMoisture(0)),
        TxMessage::Sensor(SensorData::Temperature(-1234)),
        TxMessage::Sensor(SensorData::Temperature(i16::MIN)),
        TxMessage::Sensor(SensorData::Temperature(i16::MAX)),
        TxMessage::Sensor(SensorData::Humidity(6543)),
        TxMessage::Sensor(SensorData::LightIntensity(u16::MAX)),
        TxMessage::Actuator(ActuatorFeedback { actuator: ActuatorTag::Fan, state: true }),
        TxMessage::Actuator(ActuatorFeedback { actuator: ActuatorTag::Buzzer, state: false }),
        TxMessage::Ack(CommandAck { actuator: ActuatorTag::Pump, success: true }),
        TxMessage::Ack(CommandAck { actuator: ActuatorTag::Light, success: false }),
    ]
}

#[test]
fn heartbeat_encodes_to_literal_bytes() {
    assert_eq!(encode(&TxMessage::Heartbeat), vec![0xAA, 0x01, 0x20, 0x8B]);
}

#[test]
fn soil_moisture_encodes_to_literal_bytes() {
    assert_eq!(
        encode(&TxMessage::Sensor(SensorData::SoilMoisture(2000))),
        vec![0xAA, 0x05, 0x01, 0x01, 0x02, 0x07, 0xD0, 0x7A]
    );
}

#[test]
fn temperature_encodes_twos_complement_big_endian() {
    let bytes = encode(&TxMessage::Sensor(SensorData::Temperature(-2)));
    assert_eq!(&bytes[..7], &[0xAA, 0x05, 0x01, 0x02, 0x02, 0xFF, 0xFE]);
    assert_eq!(bytes[7], bytes[..7].iter().fold(0u8, |a, b| a ^ b));
}

#[test]
fn actuator_status_and_ack_encode() {
    let fb = encode(&TxMessage::Actuator(ActuatorFeedback { actuator: ActuatorTag::Light, state: true }));
    assert_eq!(fb, vec![0xAA, 0x04, 0x02, 0x12, 0x01, 0x01, 0xAA ^ 0x04 ^ 0x02 ^ 0x12 ^ 0x01 ^ 0x01]);
    let ack = encode(&TxMessage::Ack(CommandAck { actuator: ActuatorTag::Pump, success: true }));
    assert_eq!(ack, vec![0xAA, 0x04, 0x11, 0x11, 0x01, 0x01, 0xAA ^ 0x04 ^ 0x11 ^ 0x11 ^ 0x01 ^ 0x01]);
}

#[test]
fn encode_leaves_rest_of_buffer() {
    let mut buffer = [0x55u8; 16];
    let len = encode_msg(&TxMessage::Heartbeat, &mut buffer);
    assert_eq!(len, 4);
    assert!(buffer[4..].iter().all(|b| *b == 0x55));
}

#[test]
fn every_message_fits_the_largest_frame() {
    for m in all_messages() {
        assert!(encode(&m).len() <= MAX_FRAME_LEN);
    }
}

#[test]
fn round_trip_every_variant() {
    for m in all_messages() {
        let bytes = encode(&m);
        assert_eq!(check_frame(&bytes), FrameError::Valid(bytes.len()));
        assert_eq!(decode_msg(&bytes), Some(m));
    }
}

#[test]
fn check_frame_short_buffer_is_incomplete() {
    assert_eq!(check_frame(&[]), FrameError::Incomplete);
    assert_eq!(check_frame(&[0xAA, 0x01, 0x20]), FrameError::Incomplete);
}

#[test]
fn check_frame_wrong_start_is_header_error() {
    assert_eq!(check_frame(&[0x00, 0x01, 0x20, 0x8B]), FrameError::HeaderError);
}

#[test]
fn check_frame_partial_frame_is_incomplete() {
    let bytes = encode(&TxMessage::Sensor(SensorData::Humidity(5000)));
    assert_eq!(check_frame(&bytes[..6]), FrameError::Incomplete);
}

#[test]
fn check_frame_bad_checksum_is_crc_error() {
    assert_eq!(check_frame(&[0xAA, 0x01, 0x20, 0x8C]), FrameError::CrcError);
}

#[test]
fn check_frame_ignores_trailing_bytes() {
    let mut bytes = encode(&TxMessage::Heartbeat);
    bytes.extend_from_slice(&[1, 2, 3]);
    assert_eq!(check_frame(&bytes), FrameError::Valid(4));
}

#[test]
fn single_bit_flips_are_detected() {
    for m in all_messages() {
        let bytes = encode(&m);
        for i in 0..bytes.len() {
            if i == 1 {
                continue;
            }
            for k in 0..8 {
                let mut flipped = bytes.clone();
                flipped[i] ^= 1 << k;
                let expected = if i == 0 { FrameError::HeaderError } else { FrameError::CrcError };
                assert_eq!(check_frame(&flipped), expected);
            }
        }
    }
}

#[test]
fn length_byte_flip_can_pass_as_a_shorter_frame() {
    // LEN 3 -> 2 turns the second payload byte into a matching checksum.
    let frame = [0xAA, 0x03, 0x10, 0x00, 0xB8, 0x01];
    assert_eq!(check_frame(&frame), FrameError::Valid(6));
    let mut flipped = frame;
    flipped[1] ^= 1;
    assert_eq!(check_frame(&flipped), FrameError::Valid(5));
}

#[test]
fn decode_rejects_unknown_and_command_types() {
    assert_eq!(decode_msg(&[0xAA, 0x01, 0x30, 0xAA ^ 0x01 ^ 0x30]), None);
    assert_eq!(decode_msg(&[0xAA, 0x01, 0x10, 0xAA ^ 0x01 ^ 0x10]), None);
    assert_eq!(decode_msg(&[0xAA, 0x01, 0x20, 0x8C]), None);
}

#[test]
fn start_marker_value() {
    assert_eq!(SOF, 0xAA);
}
