//! Frames exchanged with the ESP-01S Wi-Fi module: data reports, commands
//! and execution receipts.
use vstd::prelude::*;

verus! {

/// A frame was not of the kind asked for.
#[derive(Debug, Clone, Copy, PartialEq, Eq, Structural)]
pub enum FrameTypeError {
    NotReport,
    NotCommand,
    NotReceipt,
}

/// A relay that a command can switch.
#[derive(Debug, Clone, Copy, PartialEq, Eq, Structural)]
pub enum Target {
    Water,
    Light,
    Fan,
    Buzzer,
}

/// What to do with a relay: on, off, or on for a number of seconds.
#[derive(Debug, Clone, Copy, PartialEq, Eq, Structural)]
pub enum Action {
    On,
    Off,
    Duration(u64),
}

/// Periodic report of sensor values and relay states.
#[derive(Debug, Clone, Copy, PartialEq, Eq, Structural)]
pub struct DataReportFrame {
    pub temp: u8,
    pub humi: u8,
    pub soil: u8,
    pub lux: u16,
    pub water: bool,
    pub light: bool,
    pub fan: bool,
    pub buzzer: bool,
}

impl DataReportFrame {
    pub fn new(
        temp: u8,
        humi: u8,
        soil: u8,
        lux: u16,
        water: bool,
        light: bool,
        fan: bool,
        buzzer: bool,
    ) -> (r: DataReportFrame)
        ensures
            r == (DataReportFrame { temp, humi, soil, lux, water, light, fan, buzzer }),
    {
        DataReportFrame { temp, humi, soil, lux, water, light, fan, buzzer }
    }
}

/// A command to apply `action` to `target`.
#[derive(Debug, Clone, Copy, PartialEq, Eq, Structural)]
pub struct CommandExecuteFrame {
    pub target: Target,
    pub action: Action,
}

/// The answer to a command: what was done to which relay, and whether it worked.
#[derive(Debug, Clone, Copy, PartialEq, Eq, Structural)]
pub struct ExecutionReceiptFrame {
    pub target: Target,
    pub action: Action,
    pub result: bool,
}

/// Any frame of the Wi-Fi link.
#[derive(Debug, Clone, Copy, PartialEq, Eq, Structural)]
pub enum FrameType {
    DataReport(DataReportFrame),
    CommandExecute(CommandExecuteFrame),
    ExecutionReceipt(ExecutionReceiptFrame),
}

impl FrameType {
    /// The data report this frame holds, or `NotReport`.
    pub fn analysis_report(self) -> (r: Result<DataReportFrame, FrameTypeError>)
        ensures
            r == match self {
                FrameType::DataReport(v) => Ok(v),
                _ => Err(FrameTypeError::NotReport),
            },
    {
        if let FrameType::DataReport(val) = self {
            Ok(val)
        } else {
            Err(FrameTypeError::NotReport)
        }
    }

    /// The command this frame holds, or `NotCommand`.
    pub fn analysis_command(self) -> (r: Result<CommandExecuteFrame, FrameTypeError>)
        ensures
            r == match self {
                FrameType::CommandExecute(v) => Ok(v),
                _ => Err(FrameTypeError::NotCommand),
            },
    {
        if let FrameType::CommandExecute(val) = self {
            Ok(val)
        } else {
            Err(FrameTypeError::NotCommand)
        }
    }

    /// The receipt this frame holds, or `NotReceipt`.
    pub fn analysis_receipt(self) -> (r: Result<ExecutionReceiptFrame, FrameTypeError>)
        ensures
            r == match self {
                FrameType::ExecutionReceipt(v) => Ok(v),
                _ => Err(FrameTypeError::NotReceipt),
            },
    {
        if let FrameType::ExecutionReceipt(val) = self {
            Ok(val)
        } else {
            Err(FrameTypeError::NotReceipt)
        }
    }
}

} // verus!
