use greenhouse_link::frame::encode_msg;
use greenhouse_link::protocol::{ActuatorTag, ControlCommand, TxMessage};
use greenhouse_link::tlv::{commands_in_frame, parse_commands};

fn command_frame(payload: &[u8]) -> Vec<u8> {
    let mut f = vec![0xAA, (payload.len() + 1) as u8, 0x10];
    f.extend_from_slice(payload);
    let crc = f.iter().fold(0u8, |a, b| a ^ b);
    f.push(crc);
    f
}

#[test]
fn state_and_pulse_items() {
    let cmds = parse_commands(&[0x10, 1, 1, 0x11, 2, 0x01, 0xF4, 0x13, 1, 0]);
    assert_eq!(
        cmds,
        vec![
            ControlCommand { actuator: ActuatorTag::Fan, state: true, duration_ms: 0 },
            ControlCommand { actuator: ActuatorTag::Pump, state: true, duration_ms: 500 },
            ControlCommand { actuator: ActuatorTag::Buzzer, state: false, duration_ms: 0 },
        ]
    );
}

#[test]
fn unknown_tag_gives_no_command() {
    let cmds = parse_commands(&[0x42, 1, 1, 0x12, 1, 7]);
    assert_eq!(
        cmds,
        vec![ControlCommand { actuator: ActuatorTag::Light, state: true, duration_ms: 0 }]
    );
}

#[test]
fn other_lengths_are_skipped() {
    let cmds = parse_commands(&[0x10, 3, 1, 2, 3, 0x10, 0, 0x11, 1, 1]);
    assert_eq!(
        cmds,
        vec![ControlCommand { actuator: ActuatorTag::Pump, state: true, duration_ms: 0 }]
    );
}

#[test]
fn truncated_item_stops_parsing() {
    assert_eq!(parse_commands(&[0x10, 2, 0x01]), vec![]);
    assert_eq!(
        parse_commands(&[0x10, 1, 1, 0x11]),
        vec![ControlCommand { actuator: ActuatorTag::Fan, state: true, duration_ms: 0 }]
    );
    assert_eq!(parse_commands(&[]), vec![]);
}

#[test]
fn command_frame_yields_its_commands() {
    let frame = command_frame(&[0x12, 2, 0x00, 0x64]);
    assert_eq!(
        commands_in_frame(&frame),
        vec![ControlCommand { actuator: ActuatorTag::Light, state: true, duration_ms: 100 }]
    );
}

#[test]
fn other_frames_yield_no_commands() {
    let mut buffer = [0u8; 16];
    let len = encode_msg(&TxMessage::Heartbeat, &mut buffer);
    assert_eq!(commands_in_frame(&buffer[..len]), vec![]);
    let mut bad = command_frame(&[0x10, 1, 1]);
    let last = bad.len() - 1;
    bad[last] ^= 0xFF;
    assert_eq!(commands_in_frame(&bad), vec![]);
}
