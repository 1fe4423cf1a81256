use greenhouse_link::protocol::{ActuatorTag, MessageType, SensorTag, TlvItem};

#[test]
fn message_type_bytes() {
    assert_eq!(MessageType::from_byte(0x01), MessageType::SensorReport);
    assert_eq!(MessageType::from_byte(0x02), MessageType::ActuatorStatus);
    assert_eq!(MessageType::from_byte(0x10), MessageType::Command);
    assert_eq!(MessageType::from_byte(0x11), MessageType::CommandAck);
    assert_eq!(MessageType::from_byte(0x20), MessageType::Heartbeat);
    assert_eq!(MessageType::from_byte(0x7F), MessageType::Unknown);
    assert_eq!(MessageType::from(0x20u8), MessageType::Heartbeat);
    assert_eq!(MessageType::Command.to_byte(), 0x10);
    assert_eq!(MessageType::Unknown.to_byte(), 0xFF);
}

#[test]
fn actuator_tag_bytes() {
    for (b, t) in [
        (0x10u8, ActuatorTag::Fan),
        (0x11, ActuatorTag::Pump),
        (0x12, ActuatorTag::Light),
        (0x13, ActuatorTag::Buzzer),
    ] {
        assert_eq!(ActuatorTag::from_byte(b), Some(t));
        assert_eq!(t.to_byte(), b);
    }
    assert_eq!(ActuatorTag::from_byte(0x14), None);
    assert_eq!(ActuatorTag::from_byte(0x00), None);
}

#[test]
fn sensor_tag_bytes() {
    assert_eq!(SensorTag::SoilMoisture.to_byte(), 0x01);
    assert_eq!(SensorTag::Temperature.to_byte(), 0x02);
    assert_eq!(SensorTag::Humidity.to_byte(), 0x03);
    assert_eq!(SensorTag::LightIntensity.to_byte(), 0x04);
}

#[test]
fn tlv_item_u16_is_big_endian() {
    let item = TlvItem::new_u16(0x01, 0x07D0);
    assert_eq!(item.tag, 0x01);
    assert_eq!(item.length, 2);
    assert_eq!(item.value, [0x07, 0xD0, 0, 0, 0, 0, 0, 0]);
}

#[test]
fn tlv_item_i16_negative() {
    let item = TlvItem::new_i16(0x02, -300);
    assert_eq!(item.length, 2);
    assert_eq!(item.value, [0xFE, 0xD4, 0, 0, 0, 0, 0, 0]);
}

#[test]
fn tlv_item_u8() {
    let item = TlvItem::new_u8(0x10, 1);
    assert_eq!(item.tag, 0x10);
    assert_eq!(item.length, 1);
    assert_eq!(item.value, [1, 0, 0, 0, 0, 0, 0, 0]);
}
