use greenhouse_link::frame::encode_msg;
use greenhouse_link::protocol::{ActuatorFeedback, ActuatorTag, SensorData, TxMessage};
use greenhouse_link::resync::{RxBuffer, RX_CAPACITY};

fn encode(msg: &TxMessage) -> Vec<u8> {
    let mut buffer = [0u8; 64];
    let len = encode_msg(msg, &mut buffer);
    buffer[..len].to_vec()
}

#[test]
fn garbage_before_a_frame_is_skipped() {
    let frame = encode(&TxMessage::Sensor(SensorData::LightIntensity(321)));
    // Non-marker bytes, and a marker whose would-be frame fails the checksum.
    let mut bytes = vec![0x00, 0x13, 0xAA, 0x01, 0x20, 0x00, 0x55];
    bytes.extend_from_slice(&frame);
    let mut rx = RxBuffer::new();
    assert_eq!(rx.push(&bytes), bytes.len());
    let frames = rx.drain();
    assert_eq!(frames, vec![frame]);
    assert_eq!(rx.free_space(), RX_CAPACITY);
}

#[test]
fn two_frames_back_to_back_come_out_in_order() {
    let a = encode(&TxMessage::Heartbeat);
    let b = encode(&TxMessage::Actuator(ActuatorFeedback { actuator: ActuatorTag::Pump, state: true }));
    let mut bytes = a.clone();
    bytes.extend_from_slice(&b);
    let mut rx = RxBuffer::new();
    rx.push(&bytes);
    assert_eq!(rx.drain(), vec![a, b]);
}

#[test]
fn partial_frame_waits_for_the_rest() {
    let frame = encode(&TxMessage::Sensor(SensorData::Temperature(2512)));
    let mut rx = RxBuffer::new();
    rx.push(&frame[..5]);
    assert_eq!(rx.drain(), Vec::<Vec<u8>>::new());
    assert_eq!(rx.free_space(), RX_CAPACITY - 5);
    rx.push(&frame[5..]);
    assert_eq!(rx.drain(), vec![frame]);
    assert_eq!(rx.free_space(), RX_CAPACITY);
}

#[test]
fn fewer_than_four_bytes_are_kept() {
    let mut rx = RxBuffer::new();
    rx.push(&[0x01, 0x02, 0x03]);
    assert_eq!(rx.drain(), Vec::<Vec<u8>>::new());
    assert_eq!(rx.free_space(), RX_CAPACITY - 3);
}

#[test]
fn push_takes_only_what_fits() {
    let mut rx = RxBuffer::new();
    let bytes = vec![0xAAu8, 0xFF];
    assert_eq!(rx.push(&bytes), 2);
    let filler = vec![0u8; 200];
    assert_eq!(rx.push(&filler), RX_CAPACITY - 2);
    assert_eq!(rx.free_space(), RX_CAPACITY);
}

#[test]
fn full_buffer_without_a_frame_is_reset() {
    let mut rx = RxBuffer::new();
    // A marker claiming a 258-byte frame stalls the window at its front.
    let mut bytes = vec![0xAAu8, 0xFF];
    bytes.resize(RX_CAPACITY, 0);
    assert_eq!(rx.push(&bytes), RX_CAPACITY);
    assert_eq!(rx.drain(), Vec::<Vec<u8>>::new());
    let frame = encode(&TxMessage::Heartbeat);
    assert_eq!(rx.push(&frame), frame.len());
    assert_eq!(rx.drain(), vec![frame]);
}

#[test]
fn pending_bytes_move_to_front_past_high_water() {
    let mut rx = RxBuffer::new();
    let frame = encode(&TxMessage::Heartbeat);
    let mut bytes = Vec::new();
    while bytes.len() + frame.len() <= 100 {
        bytes.extend_from_slice(&frame);
    }
    let frames_in = bytes.len() / frame.len();
    bytes.extend_from_slice(&[0xAA, 0x01, 0x20]);
    rx.push(&bytes);
    let out = rx.drain();
    assert_eq!(out.len(), frames_in);
    // Three bytes remain, now at the front.
    assert_eq!(rx.free_space(), RX_CAPACITY - 3);
    rx.push(&[0x8B]);
    assert_eq!(rx.drain(), vec![frame]);
}

#[test]
fn pending_bytes_stay_below_high_water() {
    let mut rx = RxBuffer::new();
    let frame = encode(&TxMessage::Heartbeat);
    let mut bytes = frame.clone();
    bytes.extend_from_slice(&[0xAA, 0x01]);
    rx.push(&bytes);
    assert_eq!(rx.drain(), vec![frame.clone()]);
    assert_eq!(rx.free_space(), RX_CAPACITY - 6);
    rx.push(&[0x20, 0x8B]);
    assert_eq!(rx.drain(), vec![frame]);
}
