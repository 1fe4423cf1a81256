//! The command dispatcher: acknowledge, then route to the actuator's queue.
use vstd::prelude::*;

use crate::actuator::{apply_spec, ExecutorState};
use crate::protocol::{ActuatorFeedback, ActuatorTag, CommandAck, ControlCommand, TxMessage};

verus! {

/// Number of actuator queues, one per actuator.
pub const ACTUATOR_COUNT: usize = 4;

/// One step the dispatcher takes for a command.
#[derive(Debug, Clone, Copy, PartialEq, Eq, Structural)]
pub enum RouteStep {
    /// Put this message on the outbound queue.
    Outbound(TxMessage),
    /// Hand this command to the queue of this actuator.
    Actuator(ActuatorTag, ControlCommand),
}

/// The steps for `cmd`, in the order they are taken: the acknowledgement
/// goes out first, then the command goes to its actuator.
pub open spec fn route_of(cmd: ControlCommand) -> Seq<RouteStep> {
    seq![
        RouteStep::Outbound(TxMessage::Ack(CommandAck { actuator: cmd.actuator, success: true })),
        RouteStep::Actuator(cmd.actuator, cmd),
    ]
}

/// Index of the queue that serves an actuator.
pub open spec fn queue_index_of(tag: ActuatorTag) -> int {
    match tag {
        ActuatorTag::Fan => 0,
        ActuatorTag::Pump => 1,
        ActuatorTag::Light => 2,
        ActuatorTag::Buzzer => 3,
    }
}

/// The queue that serves `tag`; each actuator has its own.
pub fn queue_index(tag: ActuatorTag) -> (i: usize)
    ensures
        i == queue_index_of(tag),
        i < ACTUATOR_COUNT,
{
    match tag {
        ActuatorTag::Fan => 0,
        ActuatorTag::Pump => 1,
        ActuatorTag::Light => 2,
        ActuatorTag::Buzzer => 3,
    }
}

/// Distinct actuators are served by distinct queues.
pub proof fn lemma_queue_index_injective(a: ActuatorTag, b: ActuatorTag)
    ensures
        queue_index_of(a) == queue_index_of(b) <==> a == b,
        0 <= queue_index_of(a) < ACTUATOR_COUNT,
{
}

/// What the dispatcher does with one command, as steps to perform in order.
pub fn dispatch(cmd: ControlCommand) -> (steps: Vec<RouteStep>)
    ensures
        steps@ == route_of(cmd),
{
    let ack = CommandAck { actuator: cmd.actuator, success: true };
    let mut steps: Vec<RouteStep> = Vec::new();
    steps.push(RouteStep::Outbound(TxMessage::Ack(ack)));
    steps.push(RouteStep::Actuator(cmd.actuator, cmd));
    assert(steps@ =~= route_of(cmd));
    steps
}

/// The acknowledgement of a command is the dispatcher's first step and the
/// hand-over to the actuator its second; the executor, which reports a
/// transition only for a command it was handed, then reports this one. So
/// on the outbound stream the acknowledgement comes before the feedback.
pub proof fn lemma_ack_before_action(cmd: ControlCommand, s: ExecutorState)
    requires
        s.pulse.is_none(),
    ensures
        route_of(cmd)[0] == RouteStep::Outbound(
            TxMessage::Ack(CommandAck { actuator: cmd.actuator, success: true }),
        ),
        route_of(cmd)[1] == RouteStep::Actuator(cmd.actuator, cmd),
        apply_spec(s, cmd).1 matches Some(step) && step.feedback == (ActuatorFeedback {
            actuator: cmd.actuator,
            state: cmd.state,
        }),
{
}

} // verus!
