//! Message types, tags and values carried over the serial link.
use vstd::prelude::*;

verus! {

/// Start-of-frame marker.
pub const SOF: u8 = 0xAA;

/// The type byte of a frame.
#[derive(Debug, Clone, Copy, PartialEq, Eq, Structural)]
pub enum MessageType {
    SensorReport,
    ActuatorStatus,
    Command,
    CommandAck,
    Heartbeat,
    Unknown,
}

/// The byte that stands for a message type on the wire.
pub open spec fn message_type_byte(t: MessageType) -> u8 {
    match t {
        MessageType::SensorReport => 0x01,
        MessageType::ActuatorStatus => 0x02,
        MessageType::Command => 0x10,
        MessageType::CommandAck => 0x11,
        MessageType::Heartbeat => 0x20,
        MessageType::Unknown => 0xFF,
    }
}

/// The message type that a type byte names; any other byte is `Unknown`.
pub open spec fn message_type_of(b: u8) -> MessageType {
    if b == 0x01 {
        MessageType::SensorReport
    } else if b == 0x02 {
        MessageType::ActuatorStatus
    } else if b == 0x10 {
        MessageType::Command
    } else if b == 0x11 {
        MessageType::CommandAck
    } else if b == 0x20 {
        MessageType::Heartbeat
    } else {
        MessageType::Unknown
    }
}

impl MessageType {
    pub fn from_byte(b: u8) -> (r: MessageType)
        ensures
            r == message_type_of(b),
    {
        match b {
            0x01 => MessageType::SensorReport,
            0x02 => MessageType::ActuatorStatus,
            0x10 => MessageType::Command,
            0x11 => MessageType::CommandAck,
            0x20 => MessageType::Heartbeat,
            _ => MessageType::Unknown,
        }
    }

    pub fn to_byte(self) -> (r: u8)
        ensures
            r == message_type_byte(self),
    {
        match self {
            MessageType::SensorReport => 0x01,
            MessageType::ActuatorStatus => 0x02,
            MessageType::Command => 0x10,
            MessageType::CommandAck => 0x11,
            MessageType::Heartbeat => 0x20,
            MessageType::Unknown => 0xFF,
        }
    }
}

impl From<u8> for MessageType {
    fn from(b: u8) -> (r: MessageType) {
        MessageType::from_byte(b)
    }
}

impl vstd::std_specs::convert::FromSpecImpl<u8> for MessageType {
    open spec fn obeys_from_spec() -> bool {
        true
    }

    open spec fn from_spec(b: u8) -> MessageType {
        message_type_of(b)
    }
}

/// Tag of a sensor reading in a TLV item.
#[derive(Debug, Clone, Copy, PartialEq, Eq, Structural)]
pub enum SensorTag {
    SoilMoisture,
    Temperature,
    Humidity,
    LightIntensity,
}

pub open spec fn sensor_tag_byte(t: SensorTag) -> u8 {
    match t {
        SensorTag::SoilMoisture => 0x01,
        SensorTag::Temperature => 0x02,
        SensorTag::Humidity => 0x03,
        SensorTag::LightIntensity => 0x04,
    }
}

impl SensorTag {
    pub fn to_byte(self) -> (r: u8)
        ensures
            r == sensor_tag_byte(self),
    {
        match self {
            SensorTag::SoilMoisture => 0x01,
            SensorTag::Temperature => 0x02,
            SensorTag::Humidity => 0x03,
            SensorTag::LightIntensity => 0x04,
        }
    }
}

/// Tag of an actuator: the closed set of outputs the controller drives.
#[derive(Debug, Clone, Copy, PartialEq, Eq, Structural)]
pub enum ActuatorTag {
    Fan,
    Pump,
    Light,
    Buzzer,
}

pub open spec fn actuator_tag_byte(t: ActuatorTag) -> u8 {
    match t {
        ActuatorTag::Fan => 0x10,
        ActuatorTag::Pump => 0x11,
        ActuatorTag::Light => 0x12,
        ActuatorTag::Buzzer => 0x13,
    }
}

/// The actuator a tag byte names, if any.
pub open spec fn actuator_of(b: u8) -> Option<ActuatorTag> {
    if b == 0x10 {
        Some(ActuatorTag::Fan)
    } else if b == 0x11 {
        Some(ActuatorTag::Pump)
    } else if b == 0x12 {
        Some(ActuatorTag::Light)
    } else if b == 0x13 {
        Some(ActuatorTag::Buzzer)
    } else {
        None
    }
}

impl ActuatorTag {
    /// The actuator named by a tag byte; an unrecognised byte gives `None`.
    pub fn from_byte(b: u8) -> (r: Option<ActuatorTag>)
        ensures
            r == actuator_of(b),
    {
        match b {
            0x10 => Some(ActuatorTag::Fan),
            0x11 => Some(ActuatorTag::Pump),
            0x12 => Some(ActuatorTag::Light),
            0x13 => Some(ActuatorTag::Buzzer),
            _ => None,
        }
    }

    pub fn to_byte(self) -> (r: u8)
        ensures
            r == actuator_tag_byte(self),
    {
        match self {
            ActuatorTag::Fan => 0x10,
            ActuatorTag::Pump => 0x11,
            ActuatorTag::Light => 0x12,
            ActuatorTag::Buzzer => 0x13,
        }
    }
}

/// High byte of the big-endian form of `v`.
pub open spec fn be_hi(v: u16) -> u8 {
    (v / 256) as u8
}

/// Low byte of the big-endian form of `v`.
pub open spec fn be_lo(v: u16) -> u8 {
    (v % 256) as u8
}

/// The `u16` whose big-endian bytes are `hi`, `lo`.
pub open spec fn be_u16(hi: u8, lo: u8) -> u16 {
    (hi as int * 256 + lo as int) as u16
}

pub proof fn lemma_be_u16_round_trip(v: u16)
    ensures
        be_u16(be_hi(v), be_lo(v)) == v,
{
}

/// A tag-length-value item with room for eight value bytes.
#[derive(Debug)]
pub struct TlvItem {
    pub tag: u8,
    pub length: u8,
    pub value: [u8; 8],
}

impl TlvItem {
    /// An item holding `val` as two big-endian bytes.
    pub fn new_u16(tag: u8, val: u16) -> (r: TlvItem)
        ensures
            r.tag == tag,
            r.length == 2,
            r.value@ == seq![be_hi(val), be_lo(val), 0u8, 0u8, 0u8, 0u8, 0u8, 0u8],
    {
        let mut value = [0u8; 8];
        value[0] = (val / 256) as u8;
        value[1] = (val % 256) as u8;
        assert(value@ =~= seq![be_hi(val), be_lo(val), 0u8, 0u8, 0u8, 0u8, 0u8, 0u8]);
        TlvItem { tag, length: 2, value }
    }

    /// An item holding the two's-complement bits of `val` as two big-endian bytes.
    pub fn new_i16(tag: u8, val: i16) -> (r: TlvItem)
        ensures
            r.tag == tag,
            r.length == 2,
            r.value@ == seq![
                be_hi(val as u16),
                be_lo(val as u16),
                0u8,
                0u8,
                0u8,
                0u8,
                0u8,
                0u8,
            ],
    {
        TlvItem::new_u16(tag, val as u16)
    }

    /// An item holding one byte.
    pub fn new_u8(tag: u8, val: u8) -> (r: TlvItem)
        ensures
            r.tag == tag,
            r.length == 1,
            r.value@ == seq![val, 0u8, 0u8, 0u8, 0u8, 0u8, 0u8, 0u8],
    {
        let mut value = [0u8; 8];
        value[0] = val;
        assert(value@ =~= seq![val, 0u8, 0u8, 0u8, 0u8, 0u8, 0u8, 0u8]);
        TlvItem { tag, length: 1, value }
    }
}

/// A sensor reading as reported by a sensor task.
#[derive(Debug, Clone, Copy, PartialEq, Eq, Structural)]
pub enum SensorData {
    SoilMoisture(u16),
    /// Hundredths of a degree Celsius.
    Temperature(i16),
    /// Hundredths of a percent.
    Humidity(u16),
    /// Lux.
    LightIntensity(u16),
}

/// A request to switch an actuator.
///
/// `state == false` switches off at once; `state == true` with
/// `duration_ms == 0` switches on for good; with `duration_ms > 0` it is a
/// pulse of that many milliseconds.
#[derive(Debug, Clone, Copy, PartialEq, Eq, Structural)]
pub struct ControlCommand {
    pub actuator: ActuatorTag,
    pub state: bool,
    pub duration_ms: u16,
}

/// One physical transition of an actuator.
#[derive(Debug, Clone, Copy, PartialEq, Eq, Structural)]
pub struct ActuatorFeedback {
    pub actuator: ActuatorTag,
    pub state: bool,
}

/// The dispatcher's acknowledgement that it routed a command.
#[derive(Debug, Clone, Copy, PartialEq, Eq, Structural)]
pub struct CommandAck {
    pub actuator: ActuatorTag,
    pub success: bool,
}

/// Everything that goes out over the link.
#[derive(Debug, Clone, Copy, PartialEq, Eq, Structural)]
pub enum TxMessage {
    Sensor(SensorData),
    Actuator(ActuatorFeedback),
    Ack(CommandAck),
    Heartbeat,
}

} // verus!
