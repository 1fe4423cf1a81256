//! Command payloads: a run of TLV items, one command each.
//!
//! An item of length 1 switches its actuator on (non-zero) or off (zero);
//! an item of length 2 is a big-endian pulse duration in milliseconds and
//! switches on. An item with any other length, or whose tag names no
//! actuator, yields no command.
use vstd::prelude::*;

use crate::frame::{check_frame, is_whole_frame, FrameError};
use crate::protocol::{actuator_of, be_u16, message_type_byte, ActuatorTag, ControlCommand, MessageType};

verus! {

/// The command that one item with tag `tag`, length `len` and value bytes `v` gives.
pub open spec fn command_of(tag: u8, len: u8, v: Seq<u8>) -> Seq<ControlCommand> {
    match actuator_of(tag) {
        Some(a) => if len == 1 {
            seq![ControlCommand { actuator: a, state: v[0] != 0, duration_ms: 0 }]
        } else if len == 2 {
            seq![ControlCommand { actuator: a, state: true, duration_ms: be_u16(v[0], v[1]) }]
        } else {
            seq![]
        },
        None => seq![],
    }
}

/// The commands in payload `p`, in order. Parsing stops at an item that
/// is cut short.
pub open spec fn commands_in(p: Seq<u8>) -> Seq<ControlCommand>
    decreases p.len(),
{
    if p.len() < 2 {
        seq![]
    } else if p.len() < 2 + p[1] {
        seq![]
    } else {
        command_of(p[0], p[1], p.subrange(2, 2 + p[1])) + commands_in(
            p.subrange(2 + p[1], p.len() as int),
        )
    }
}

/// The commands that frame `s` carries: those of its payload when it is one
/// intact command frame, none otherwise.
pub open spec fn frame_commands(s: Seq<u8>) -> Seq<ControlCommand> {
    if is_whole_frame(s) && s[1] >= 1 && s[2] == message_type_byte(MessageType::Command) {
        commands_in(s.subrange(3, s.len() - 1))
    } else {
        seq![]
    }
}

/// Parses the commands of a command payload, in order.
pub fn parse_commands(payload: &[u8]) -> (cmds: Vec<ControlCommand>)
    ensures
        cmds@ == commands_in(payload@),
{
    let n = payload.len();
    let mut out: Vec<ControlCommand> = Vec::new();
    let mut i: usize = 0;
    assert(payload@.subrange(0, n as int) =~= payload@);
    assert(out@ + commands_in(payload@) =~= commands_in(payload@));
    while n - i >= 2
        invariant
            n == payload@.len(),
            i <= n,
            out@ + commands_in(payload@.subrange(i as int, n as int)) == commands_in(payload@),
        decreases n - i,
    {
        let ghost rest = payload@.subrange(i as int, n as int);
        let tag = payload[i];
        let len = payload[i + 1];
        if len as usize > n - i - 2 {
            assert(commands_in(rest) == Seq::<ControlCommand>::empty());
            assert(out@ + Seq::<ControlCommand>::empty() =~= out@);
            assert(payload@.subrange(n as int, n as int) =~= Seq::<u8>::empty());
            i = n;
        } else {
            let val_start = i + 2;
            let val_end = val_start + len as usize;
            assert(rest.subrange(2, 2 + len) =~= payload@.subrange(val_start as int, val_end as int));
            assert(rest.subrange(2 + len, rest.len() as int) =~= payload@.subrange(
                val_end as int,
                n as int,
            ));
            match ActuatorTag::from_byte(tag) {
                Some(actuator) => {
                    if len == 1 {
                        out.push(
                            ControlCommand { actuator, state: payload[val_start] != 0, duration_ms: 0 },
                        );
                    } else if len == 2 {
                        let duration_ms = payload[val_start] as u16 * 256 + payload[val_start
                            + 1] as u16;
                        out.push(ControlCommand { actuator, state: true, duration_ms });
                    }
                },
                None => {},
            }
            assert(out@ + commands_in(payload@.subrange(val_end as int, n as int)) =~= commands_in(
                payload@,
            ));
            i = val_end;
        }
    }
    assert(commands_in(payload@.subrange(i as int, n as int)) == Seq::<ControlCommand>::empty());
    assert(out@ + Seq::<ControlCommand>::empty() =~= out@);
    out
}

/// The commands carried by `frame`: none unless it is one intact frame of
/// the command type.
pub fn commands_in_frame(frame: &[u8]) -> (cmds: Vec<ControlCommand>)
    ensures
        cmds@ == frame_commands(frame@),
{
    match check_frame(frame) {
        FrameError::Valid(n) => {
            if n == frame.len() && frame[1] >= 1 && frame[2] == MessageType::Command.to_byte() {
                parse_commands(vstd::slice::slice_subrange(frame, 3, n - 1))
            } else {
                Vec::new()
            }
        },
        _ => Vec::new(),
    }
}

} // verus!
