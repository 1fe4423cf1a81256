//! Wire protocol and command routing for a greenhouse controller.
//!
//! The library holds the logic of the serial link: frame encoding and
//! checking, the resynchronising receive window, the tag-length-value
//! command payloads, the command dispatcher and the per-actuator executors.
//! Beside it stand the decoding of the DHT11 sensor's reply, the lines of
//! the status display and the frames of the ESP-01S Wi-Fi link.
pub mod actuator;
pub mod dht11;
pub mod dispatch;
pub mod display_text;
pub mod esp01s;
pub mod frame;
pub mod protocol;
pub mod resync;
pub mod tlv;
