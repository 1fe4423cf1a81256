//! The frame codec: `SOF | LEN | TYPE | PAYLOAD | CRC`.
//!
//! `LEN` counts the type byte and the payload; `CRC` is the XOR of every
//! byte before it.
use vstd::prelude::*;

use crate::protocol::{
    actuator_of, lemma_be_u16_round_trip, actuator_tag_byte, be_hi, be_lo, be_u16, message_type_byte, sensor_tag_byte,
    ActuatorFeedback, ActuatorTag, CommandAck, MessageType, SensorData, SensorTag, TxMessage, SOF,
};

verus! {

/// Shortest frame: start marker, length, type and checksum.
pub const MIN_FRAME_LEN: usize = 4;

/// Longest frame that `encode_msg` writes.
pub const MAX_FRAME_LEN: usize = 8;

/// Outcome of checking the front of a byte buffer for a frame.
#[derive(Debug, Clone, Copy, PartialEq, Eq, Structural)]
pub enum FrameError {
    /// The first byte is not the start marker.
    HeaderError,
    /// More bytes are needed before the frame can be judged.
    Incomplete,
    /// The checksum byte does not match.
    CrcError,
    /// A frame of this many bytes stands at the front.
    Valid(usize),
}

/// XOR of all bytes of `s`.
pub open spec fn xor_all(s: Seq<u8>) -> u8
    decreases s.len(),
{
    if s.len() == 0 {
        0
    } else {
        xor_all(s.drop_last()) ^ s.last()
    }
}

/// What `check_frame` decides on the bytes `s`.
pub open spec fn frame_check(s: Seq<u8>) -> FrameError {
    if s.len() < MIN_FRAME_LEN {
        FrameError::Incomplete
    } else if s[0] != SOF {
        FrameError::HeaderError
    } else if s.len() < s[1] + 3 {
        FrameError::Incomplete
    } else if xor_all(s.subrange(0, s[1] + 2)) != s[s[1] + 2] {
        FrameError::CrcError
    } else {
        FrameError::Valid((s[1] + 3) as usize)
    }
}

/// The frame that carries `payload` under type byte `ty`.
pub open spec fn frame_bytes(ty: u8, payload: Seq<u8>) -> Seq<u8> {
    let body = seq![SOF, (payload.len() + 1) as u8, ty] + payload;
    body.push(xor_all(body))
}

pub open spec fn sensor_tlv(d: SensorData) -> Seq<u8> {
    match d {
        SensorData::SoilMoisture(v) => seq![
            sensor_tag_byte(SensorTag::SoilMoisture),
            2u8,
            be_hi(v),
            be_lo(v),
        ],
        SensorData::Temperature(v) => seq![
            sensor_tag_byte(SensorTag::Temperature),
            2u8,
            be_hi(v as u16),
            be_lo(v as u16),
        ],
        SensorData::Humidity(v) => seq![
            sensor_tag_byte(SensorTag::Humidity),
            2u8,
            be_hi(v),
            be_lo(v),
        ],
        SensorData::LightIntensity(v) => seq![
            sensor_tag_byte(SensorTag::LightIntensity),
            2u8,
            be_hi(v),
            be_lo(v),
        ],
    }
}

pub open spec fn flag_byte(b: bool) -> u8 {
    if b {
        1
    } else {
        0
    }
}

/// The payload that carries `msg`.
pub open spec fn payload_of(msg: TxMessage) -> Seq<u8> {
    match msg {
        TxMessage::Sensor(d) => sensor_tlv(d),
        TxMessage::Actuator(f) => seq![actuator_tag_byte(f.actuator), 1u8, flag_byte(f.state)],
        TxMessage::Ack(a) => seq![actuator_tag_byte(a.actuator), 1u8, flag_byte(a.success)],
        TxMessage::Heartbeat => seq![],
    }
}

/// The message type under which `msg` travels.
pub open spec fn type_of(msg: TxMessage) -> MessageType {
    match msg {
        TxMessage::Sensor(_) => MessageType::SensorReport,
        TxMessage::Actuator(_) => MessageType::ActuatorStatus,
        TxMessage::Ack(_) => MessageType::CommandAck,
        TxMessage::Heartbeat => MessageType::Heartbeat,
    }
}

/// The bytes that `encode_msg` writes for `msg`.
pub open spec fn encoding(msg: TxMessage) -> Seq<u8> {
    frame_bytes(message_type_byte(type_of(msg)), payload_of(msg))
}

pub open spec fn sensor_of(p: Seq<u8>) -> Option<SensorData> {
    let v = be_u16(p[2], p[3]);
    if p[0] == sensor_tag_byte(SensorTag::SoilMoisture) {
        Some(SensorData::SoilMoisture(v))
    } else if p[0] == sensor_tag_byte(SensorTag::Temperature) {
        Some(SensorData::Temperature(v as i16))
    } else if p[0] == sensor_tag_byte(SensorTag::Humidity) {
        Some(SensorData::Humidity(v))
    } else if p[0] == sensor_tag_byte(SensorTag::LightIntensity) {
        Some(SensorData::LightIntensity(v))
    } else {
        None
    }
}

/// The outbound message that type byte `ty` and payload `p` stand for, if any.
pub open spec fn message_of(ty: u8, p: Seq<u8>) -> Option<TxMessage> {
    if ty == message_type_byte(MessageType::SensorReport) {
        if p.len() == 4 && p[1] == 2 {
            match sensor_of(p) {
                Some(d) => Some(TxMessage::Sensor(d)),
                None => None,
            }
        } else {
            None
        }
    } else if ty == message_type_byte(MessageType::ActuatorStatus) || ty == message_type_byte(
        MessageType::CommandAck,
    ) {
        if p.len() == 3 && p[1] == 1 {
            match actuator_of(p[0]) {
                Some(a) => if ty == message_type_byte(MessageType::ActuatorStatus) {
                    Some(TxMessage::Actuator(ActuatorFeedback { actuator: a, state: p[2] != 0 }))
                } else {
                    Some(TxMessage::Ack(CommandAck { actuator: a, success: p[2] != 0 }))
                },
                None => None,
            }
        } else {
            None
        }
    } else if ty == message_type_byte(MessageType::Heartbeat) {
        if p.len() == 0 {
            Some(TxMessage::Heartbeat)
        } else {
            None
        }
    } else {
        None
    }
}

/// `s` is exactly one intact frame.
pub open spec fn is_whole_frame(s: Seq<u8>) -> bool {
    match frame_check(s) {
        FrameError::Valid(n) => n == s.len(),
        _ => false,
    }
}

/// The message that a buffer holding exactly one valid frame carries.
pub open spec fn decoding(s: Seq<u8>) -> Option<TxMessage> {
    if is_whole_frame(s) && s[1] >= 1 {
        message_of(s[2], s.subrange(3, s.len() - 1))
    } else {
        None
    }
}

/// XOR checksum of `data`.
pub fn calculate_crc(data: &[u8]) -> (crc: u8)
    ensures
        crc == xor_all(data@),
{
    let mut crc: u8 = 0;
    let mut i: usize = 0;
    while i < data.len()
        invariant
            i <= data@.len(),
            crc == xor_all(data@.subrange(0, i as int)),
        decreases data@.len() - i,
    {
        assert(data@.subrange(0, i + 1).drop_last() =~= data@.subrange(0, i as int));
        crc = crc ^ data[i];
        i = i + 1;
    }
    assert(data@.subrange(0, data@.len() as int) =~= data@);
    crc
}

/// Checks whether `data` starts with a complete, intact frame.
pub fn check_frame(data: &[u8]) -> (r: FrameError)
    ensures
        r == frame_check(data@),
{
    let received_len = data.len();
    if received_len < MIN_FRAME_LEN {
        return FrameError::Incomplete;
    }
    if data[0] != SOF {
        return FrameError::HeaderError;
    }
    let body_len = data[1] as usize;
    let expected_total_len = 1 + 1 + body_len + 1;
    if received_len < expected_total_len {
        return FrameError::Incomplete;
    }
    let frame_content = vstd::slice::slice_subrange(data, 0, expected_total_len - 1);
    let received_crc = data[expected_total_len - 1];
    let calculated_crc = calculate_crc(frame_content);
    if calculated_crc != received_crc {
        return FrameError::CrcError;
    }
    FrameError::Valid(expected_total_len)
}

/// Writes a TLV item holding `val` as two big-endian bytes at `*idx`.
fn append_tlv_u16(buffer: &mut [u8], idx: &mut usize, tag: u8, val: u16)
    requires
        *old(idx) + 4 <= old(buffer)@.len(),
    ensures
        *final(idx) == *old(idx) + 4,
        final(buffer)@ == old(buffer)@.subrange(0, *old(idx) as int) + seq![
            tag,
            2u8,
            be_hi(val),
            be_lo(val),
        ] + old(buffer)@.subrange(*old(idx) + 4, old(buffer)@.len() as int),
{
    let ghost start = *idx;
    buffer[*idx] = tag;
    *idx += 1;
    buffer[*idx] = 2;
    *idx += 1;
    buffer[*idx] = (val / 256) as u8;
    *idx += 1;
    buffer[*idx] = (val % 256) as u8;
    *idx += 1;
    assert(buffer@ =~= old(buffer)@.subrange(0, start as int) + seq![
        tag,
        2u8,
        be_hi(val),
        be_lo(val),
    ] + old(buffer)@.subrange(start + 4, old(buffer)@.len() as int));
}

/// Writes a TLV item holding the two's-complement bits of `val` at `*idx`.
fn append_tlv_i16(buffer: &mut [u8], idx: &mut usize, tag: u8, val: i16)
    requires
        *old(idx) + 4 <= old(buffer)@.len(),
    ensures
        *final(idx) == *old(idx) + 4,
        final(buffer)@ == old(buffer)@.subrange(0, *old(idx) as int) + seq![
            tag,
            2u8,
            be_hi(val as u16),
            be_lo(val as u16),
        ] + old(buffer)@.subrange(*old(idx) + 4, old(buffer)@.len() as int),
{
    append_tlv_u16(buffer, idx, tag, val as u16);
}

/// Writes a one-byte TLV item at `*idx`.
fn append_tlv_flag(buffer: &mut [u8], idx: &mut usize, tag: u8, flag: bool)
    requires
        *old(idx) + 3 <= old(buffer)@.len(),
    ensures
        *final(idx) == *old(idx) + 3,
        final(buffer)@ == old(buffer)@.subrange(0, *old(idx) as int) + seq![
            tag,
            1u8,
            flag_byte(flag),
        ] + old(buffer)@.subrange(*old(idx) + 3, old(buffer)@.len() as int),
{
    let ghost start = *idx;
    buffer[*idx] = tag;
    *idx += 1;
    buffer[*idx] = 1;
    *idx += 1;
    buffer[*idx] = if flag {
        1
    } else {
        0
    };
    *idx += 1;
    assert(buffer@ =~= old(buffer)@.subrange(0, start as int) + seq![tag, 1u8, flag_byte(flag)]
        + old(buffer)@.subrange(start + 3, old(buffer)@.len() as int));
}

/// Every outbound message fits in `MAX_FRAME_LEN` bytes.
pub proof fn lemma_encoding_fits(msg: TxMessage)
    ensures
        encoding(msg).len() <= MAX_FRAME_LEN,
{
}

/// Writes the payload of `msg` from index 3 on and returns where it ends.
fn write_payload(msg: &TxMessage, buffer: &mut [u8]) -> (end: usize)
    requires
        3 + payload_of(*msg).len() <= old(buffer)@.len(),
    ensures
        end == 3 + payload_of(*msg).len(),
        final(buffer)@ == old(buffer)@.subrange(0, 3) + payload_of(*msg) + old(buffer)@.subrange(
            end as int,
            old(buffer)@.len() as int,
        ),
{
    let mut payload_idx: usize = 3;
    match msg {
        TxMessage::Sensor(data) => match data {
            SensorData::SoilMoisture(val) => append_tlv_u16(
                buffer,
                &mut payload_idx,
                SensorTag::SoilMoisture.to_byte(),
                *val,
            ),
            SensorData::Temperature(val) => append_tlv_i16(
                buffer,
                &mut payload_idx,
                SensorTag::Temperature.to_byte(),
                *val,
            ),
            SensorData::Humidity(val) => append_tlv_u16(
                buffer,
                &mut payload_idx,
                SensorTag::Humidity.to_byte(),
                *val,
            ),
            SensorData::LightIntensity(val) => append_tlv_u16(
                buffer,
                &mut payload_idx,
                SensorTag::LightIntensity.to_byte(),
                *val,
            ),
        },
        TxMessage::Actuator(status) => {
            append_tlv_flag(buffer, &mut payload_idx, status.actuator.to_byte(), status.state);
        },
        TxMessage::Ack(ack) => {
            append_tlv_flag(buffer, &mut payload_idx, ack.actuator.to_byte(), ack.success);
        },
        TxMessage::Heartbeat => {
            assert(payload_of(*msg) =~= seq![]);
            assert(buffer@ =~= old(buffer)@.subrange(0, 3) + payload_of(*msg) + old(
                buffer,
            )@.subrange(3, old(buffer)@.len() as int));
        },
    }
    payload_idx
}

/// The type byte under which `msg` travels.
fn type_byte(msg: &TxMessage) -> (r: u8)
    ensures
        r == message_type_byte(type_of(*msg)),
{
    match msg {
        TxMessage::Sensor(_) => MessageType::SensorReport.to_byte(),
        TxMessage::Actuator(_) => MessageType::ActuatorStatus.to_byte(),
        TxMessage::Ack(_) => MessageType::CommandAck.to_byte(),
        TxMessage::Heartbeat => MessageType::Heartbeat.to_byte(),
    }
}

/// Encodes `msg` as one frame at the front of `buffer` and returns its length.
///
/// The bytes after the frame are left as they were.
pub fn encode_msg(msg: &TxMessage, buffer: &mut [u8]) -> (len: usize)
    requires
        encoding(*msg).len() <= old(buffer)@.len(),
    ensures
        len == encoding(*msg).len(),
        len <= MAX_FRAME_LEN,
        final(buffer)@.len() == old(buffer)@.len(),
        final(buffer)@.subrange(0, len as int) == encoding(*msg),
        final(buffer)@.subrange(len as int, final(buffer)@.len() as int) == old(buffer)@.subrange(
            len as int,
            old(buffer)@.len() as int,
        ),
{
    let ghost p = payload_of(*msg);
    let ghost total = old(buffer)@.len();
    let payload_idx = write_payload(msg, buffer);
    buffer[0] = SOF;
    buffer[2] = type_byte(msg);
    let payload_len = payload_idx - 3;
    let total_body_len = 1 + payload_len;
    buffer[1] = total_body_len as u8;
    let crc_idx = payload_idx;
    let ghost body = seq![SOF, (p.len() + 1) as u8, message_type_byte(type_of(*msg))] + p;
    assert(buffer@.subrange(0, crc_idx as int) =~= body);
    let crc = calculate_crc(vstd::slice::slice_subrange(buffer, 0, crc_idx));
    buffer[crc_idx] = crc;
    assert(buffer@.subrange(0, crc_idx + 1) =~= body.push(xor_all(body)));
    assert(buffer@.subrange(crc_idx + 1, total as int) =~= old(buffer)@.subrange(
        crc_idx + 1,
        total as int,
    ));
    crc_idx + 1
}

/// The outbound message that type byte `ty` and payload `p` stand for.
fn parse_message(ty: u8, p: &[u8]) -> (r: Option<TxMessage>)
    ensures
        r == message_of(ty, p@),
{
    if ty == MessageType::SensorReport.to_byte() {
        if p.len() == 4 && p[1] == 2 {
            let v = p[2] as u16 * 256 + p[3] as u16;
            let tag = p[0];
            if tag == SensorTag::SoilMoisture.to_byte() {
                Some(TxMessage::Sensor(SensorData::SoilMoisture(v)))
            } else if tag == SensorTag::Temperature.to_byte() {
                Some(TxMessage::Sensor(SensorData::Temperature(v as i16)))
            } else if tag == SensorTag::Humidity.to_byte() {
                Some(TxMessage::Sensor(SensorData::Humidity(v)))
            } else if tag == SensorTag::LightIntensity.to_byte() {
                Some(TxMessage::Sensor(SensorData::LightIntensity(v)))
            } else {
                None
            }
        } else {
            None
        }
    } else if ty == MessageType::ActuatorStatus.to_byte() || ty == MessageType::CommandAck.to_byte() {
        if p.len() == 3 && p[1] == 1 {
            match ActuatorTag::from_byte(p[0]) {
                Some(a) => if ty == MessageType::ActuatorStatus.to_byte() {
                    Some(TxMessage::Actuator(ActuatorFeedback { actuator: a, state: p[2] != 0 }))
                } else {
                    Some(TxMessage::Ack(CommandAck { actuator: a, success: p[2] != 0 }))
                },
                None => None,
            }
        } else {
            None
        }
    } else if ty == MessageType::Heartbeat.to_byte() {
        if p.len() == 0 {
            Some(TxMessage::Heartbeat)
        } else {
            None
        }
    } else {
        None
    }
}

/// Decodes a buffer that holds exactly one frame into the message it carries.
///
/// Gives `None` when the buffer is not one intact frame, or when the frame
/// is not a sensor report, actuator status, acknowledgement or heartbeat of
/// the shape `encode_msg` writes.
pub fn decode_msg(frame: &[u8]) -> (r: Option<TxMessage>)
    ensures
        r == decoding(frame@),
{
    match check_frame(frame) {
        FrameError::Valid(n) => {
            if n == frame.len() && frame[1] >= 1 {
                parse_message(frame[2], vstd::slice::slice_subrange(frame, 3, n - 1))
            } else {
                None
            }
        },
        _ => None,
    }
}

/// Decoding the encoding of any outbound message passes the frame check over
/// the whole frame and gives the message back.
pub proof fn lemma_round_trip(msg: TxMessage)
    ensures
        is_whole_frame(encoding(msg)),
        decoding(encoding(msg)) == Some(msg),
{
    let p = payload_of(msg);
    let ty = message_type_byte(type_of(msg));
    let body = seq![SOF, (p.len() + 1) as u8, ty] + p;
    let e = encoding(msg);
    assert(e.subrange(0, e[1] + 2) =~= body);
    assert(e.subrange(3, e.len() - 1) =~= p);
    match msg {
        TxMessage::Sensor(d) => match d {
            SensorData::SoilMoisture(v) => lemma_be_u16_round_trip(v),
            SensorData::Temperature(v) => {
                lemma_be_u16_round_trip(v as u16);
                assert((v as u16) as i16 == v) by (bit_vector);
            },
            SensorData::Humidity(v) => lemma_be_u16_round_trip(v),
            SensorData::LightIntensity(v) => lemma_be_u16_round_trip(v),
        },
        _ => {},
    }
}

/// XOR-ing one byte of `s` with `m` XORs the checksum of `s` with `m`.
proof fn lemma_xor_flip(s: Seq<u8>, i: int, m: u8)
    requires
        0 <= i < s.len(),
    ensures
        xor_all(s.update(i, s[i] ^ m)) == xor_all(s) ^ m,
    decreases s.len(),
{
    let t = s.update(i, s[i] ^ m);
    let a = xor_all(s.drop_last());
    let b = s.last();
    if i == s.len() - 1 {
        assert(t.drop_last() =~= s.drop_last());
        assert(a ^ (b ^ m) == (a ^ b) ^ m) by (bit_vector);
    } else {
        assert(t.drop_last() =~= s.drop_last().update(i, s[i] ^ m));
        lemma_xor_flip(s.drop_last(), i, m);
        assert((a ^ m) ^ b == (a ^ b) ^ m) by (bit_vector);
    }
}

/// Flipping a single bit of an intact frame in its type, payload or checksum
/// byte makes the check report a checksum failure; flipping one in the start
/// marker makes it report a header failure. Neither passes as valid.
pub proof fn lemma_single_bit_flip_detected(frame: Seq<u8>, i: int, k: u8)
    requires
        is_whole_frame(frame),
        0 <= i < frame.len(),
        i != 1,
        k < 8,
    ensures
        i == 0 ==> frame_check(frame.update(i, frame[i] ^ (1u8 << k))) == FrameError::HeaderError,
        i >= 2 ==> frame_check(frame.update(i, frame[i] ^ (1u8 << k))) == FrameError::CrcError,
{
    let m: u8 = 1u8 << k;
    assert(m != 0) by (bit_vector)
        requires
            m == 1u8 << k,
            k < 8,
    ;
    let f = frame.update(i, frame[i] ^ m);
    let x = frame[i];
    assert(x ^ m != x) by (bit_vector)
        requires
            m != 0,
    ;
    if i >= 2 {
        let n = frame.len() - 1;
        assert(f[1] == frame[1]);
        if i < n {
            assert(f.subrange(0, n) =~= frame.subrange(0, n).update(i, x ^ m));
            lemma_xor_flip(frame.subrange(0, n), i, m);
            let c = xor_all(frame.subrange(0, n));
            assert(c ^ m != c) by (bit_vector)
                requires
                    m != 0,
            ;
        } else {
            assert(f.subrange(0, n) =~= frame.subrange(0, n));
        }
    }
}

} // verus!
