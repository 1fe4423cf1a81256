//! The actuator executor: one per output, driving it on, off, or for a pulse.
use vstd::prelude::*;

use crate::protocol::{ActuatorFeedback, ActuatorTag, ControlCommand};

verus! {

/// The electrical level that puts an output in logical state `on`.
pub open spec fn level_for(on: bool, active_high: bool) -> bool {
    on == active_high
}

/// What an executor holds: its polarity, the level it drives and, while a
/// pulse runs, the actuator the pulse belongs to.
#[derive(Debug, Clone, Copy, PartialEq, Eq, Structural)]
pub struct ExecutorState {
    pub active_high: bool,
    pub output_high: bool,
    pub pulse: Option<ActuatorTag>,
}

/// What an executor does in one step: drive the level, report the feedback
/// and, when `pulse_ms > 0`, wait that long and then finish the pulse.
#[derive(Debug, Clone, Copy, PartialEq, Eq, Structural)]
pub struct ExecutorStep {
    pub output_high: bool,
    pub feedback: ActuatorFeedback,
    pub pulse_ms: u16,
}

/// Applying `cmd` in state `s`: refused while a pulse runs, otherwise the
/// level of `cmd.state`, feedback for it, and a pulse when it asks for one.
pub open spec fn apply_spec(s: ExecutorState, cmd: ControlCommand) -> (ExecutorState, Option<
    ExecutorStep,
>) {
    if s.pulse.is_some() {
        (s, None)
    } else {
        let high = level_for(cmd.state, s.active_high);
        let pulse_ms: u16 = if cmd.state && cmd.duration_ms > 0 {
            cmd.duration_ms
        } else {
            0
        };
        (
            ExecutorState {
                active_high: s.active_high,
                output_high: high,
                pulse: if pulse_ms > 0 {
                    Some(cmd.actuator)
                } else {
                    None
                },
            },
            Some(
                ExecutorStep {
                    output_high: high,
                    feedback: ActuatorFeedback { actuator: cmd.actuator, state: cmd.state },
                    pulse_ms,
                },
            ),
        )
    }
}

/// Finishing the running pulse in state `s`: back to the off level, with
/// feedback that the actuator is off. Nothing happens when no pulse runs.
pub open spec fn finish_spec(s: ExecutorState) -> (ExecutorState, Option<ExecutorStep>) {
    match s.pulse {
        Some(a) => {
            let low = level_for(false, s.active_high);
            (
                ExecutorState { active_high: s.active_high, output_high: low, pulse: None },
                Some(
                    ExecutorStep {
                        output_high: low,
                        feedback: ActuatorFeedback { actuator: a, state: false },
                        pulse_ms: 0,
                    },
                ),
            )
        },
        None => (s, None),
    }
}

/// Drives one output from the commands routed to it.
pub struct ActuatorExecutor {
    state: ExecutorState,
}

impl View for ActuatorExecutor {
    type V = ExecutorState;

    closed spec fn view(&self) -> ExecutorState {
        self.state
    }
}

impl ActuatorExecutor {
    /// An executor with the given polarity whose output starts at the off level.
    pub fn new(active_high: bool) -> (r: ActuatorExecutor)
        ensures
            r@ == (ExecutorState {
                active_high,
                output_high: level_for(false, active_high),
                pulse: None,
            }),
    {
        ActuatorExecutor { state: ExecutorState { active_high, output_high: !active_high, pulse: None } }
    }

    /// The level the output is driven at.
    pub fn output_high(&self) -> (r: bool)
        ensures
            r == self@.output_high,
    {
        self.state.output_high
    }

    /// Whether a pulse is running.
    pub fn is_pulsing(&self) -> (r: bool)
        ensures
            r == self@.pulse.is_some(),
    {
        self.state.pulse.is_some()
    }

    /// Applies a command. While a pulse runs this returns `None` and leaves
    /// the executor as it is: the command waits until the pulse is finished.
    pub fn apply(&mut self, cmd: ControlCommand) -> (step: Option<ExecutorStep>)
        ensures
            (final(self)@, step) == apply_spec(old(self)@, cmd),
    {
        if self.state.pulse.is_some() {
            return None;
        }
        let active_high = self.state.active_high;
        let high = cmd.state == active_high;
        let pulse_ms: u16 = if cmd.state && cmd.duration_ms > 0 {
            cmd.duration_ms
        } else {
            0
        };
        self.state = ExecutorState {
            active_high,
            output_high: high,
            pulse: if pulse_ms > 0 {
                Some(cmd.actuator)
            } else {
                None
            },
        };
        Some(
            ExecutorStep {
                output_high: high,
                feedback: ActuatorFeedback { actuator: cmd.actuator, state: cmd.state },
                pulse_ms,
            },
        )
    }

    /// Ends the running pulse, once its duration has passed.
    pub fn finish_pulse(&mut self) -> (step: Option<ExecutorStep>)
        ensures
            (final(self)@, step) == finish_spec(old(self)@),
    {
        match self.state.pulse {
            Some(a) => {
                let low = !self.state.active_high;
                self.state = ExecutorState {
                    active_high: self.state.active_high,
                    output_high: low,
                    pulse: None,
                };
                Some(
                    ExecutorStep {
                        output_high: low,
                        feedback: ActuatorFeedback { actuator: a, state: false },
                        pulse_ms: 0,
                    },
                )
            },
            None => None,
        }
    }
}

/// A pulse switches its actuator on at once and asks for a wait of its
/// duration. Until the pulse is finished every other command is refused
/// and changes nothing. Finishing it switches the output off, reports the
/// actuator off, and lets the next command be applied.
pub proof fn lemma_pulse_not_preempted(s: ExecutorState, cmd: ControlCommand, next: ControlCommand)
    requires
        s.pulse.is_none(),
        cmd.state,
        cmd.duration_ms > 0,
    ensures
        ({
            let (s1, on) = apply_spec(s, cmd);
            let (s2, off) = finish_spec(s1);
            &&& on == Some(
                ExecutorStep {
                    output_high: level_for(true, s.active_high),
                    feedback: ActuatorFeedback { actuator: cmd.actuator, state: true },
                    pulse_ms: cmd.duration_ms,
                },
            )
            &&& apply_spec(s1, next) == (s1, None::<ExecutorStep>)
            &&& off == Some(
                ExecutorStep {
                    output_high: level_for(false, s.active_high),
                    feedback: ActuatorFeedback { actuator: cmd.actuator, state: false },
                    pulse_ms: 0,
                },
            )
            &&& s2.pulse.is_none()
            &&& apply_spec(s2, next).1.is_some()
        }),
{
}

} // verus!
