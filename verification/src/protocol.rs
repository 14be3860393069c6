use crate::device::{DeviceState, SETPOINT_MAX};
use vstd::prelude::*;
use vstd::string::*;

verus! {

/// The fields of one incoming JSON object, as the decoder found them.
/// `cmd_type` is the object's `type`; `id` and `value` are absent when the
/// object does not carry them.
#[derive(Clone, Debug, PartialEq, Eq)]
pub struct IncomingCommand {
    pub cmd_type: String,
    pub id: Option<u32>,
    pub value: Option<u32>,
}

/// A command that can be answered: its tag is known and it carries the
/// correlation id. Everything else is `Unknown`.
#[derive(Clone, Copy, Debug, PartialEq, Eq, Structural)]
pub enum Command {
    SetValue { id: u32, value: Option<u32> },
    GetValue { id: u32 },
    Calibrate { id: u32 },
    Unknown,
}

/// Why a recognised command was refused.
#[derive(Clone, Copy, Debug, PartialEq, Eq, Structural)]
pub enum Rejection {
    ValueOutOfRange,
    MissingValue,
}

/// A message to the controller, correlated to a command by `id`.
#[derive(Clone, Copy, Debug, PartialEq, Eq, Structural)]
pub enum Response {
    Ack { id: u32 },
    Error { id: u32, message: Rejection },
    Value { id: u32, value: u8 },
}

/// What the client does about one command.
#[derive(Clone, Copy, Debug, PartialEq, Eq, Structural)]
pub enum Reaction {
    /// Nothing is sent.
    Silent,
    /// The response is sent.
    Reply(Response),
    /// The actuator is calibrated first; the response is sent when it is done.
    CalibrateThenReply(Response),
}

/// The command that a `type` tag and the two optional fields stand for.
/// Without an id nothing can be correlated, whatever the tag.
pub open spec fn spec_classify(tag: Seq<char>, id: Option<u32>, value: Option<u32>) -> Command {
    match id {
        None => Command::Unknown,
        Some(id) => if tag == "set_value"@ {
            Command::SetValue { id, value }
        } else if tag == "get_value"@ {
            Command::GetValue { id }
        } else if tag == "calibrate"@ {
            Command::Calibrate { id }
        } else {
            Command::Unknown
        },
    }
}

/// The dispatcher as a function: the setpoint after the command, and the
/// reaction to it.
pub open spec fn spec_dispatch(cmd: Command, setpoint: u8) -> (u8, Reaction) {
    match cmd {
        Command::SetValue { id, value: Some(v) } => if v <= SETPOINT_MAX {
            (v as u8, Reaction::Reply(Response::Ack { id }))
        } else {
            (
                setpoint,
                Reaction::Reply(Response::Error { id, message: Rejection::ValueOutOfRange }),
            )
        },
        Command::SetValue { id, value: None } => (
            setpoint,
            Reaction::Reply(Response::Error { id, message: Rejection::MissingValue }),
        ),
        Command::GetValue { id } => (
            setpoint,
            Reaction::Reply(Response::Value { id, value: setpoint }),
        ),
        Command::Calibrate { id } => (
            setpoint,
            Reaction::CalibrateThenReply(Response::Ack { id }),
        ),
        Command::Unknown => (setpoint, Reaction::Silent),
    }
}

/// Classification followed by dispatch.
pub open spec fn spec_handle(
    tag: Seq<char>,
    id: Option<u32>,
    value: Option<u32>,
    setpoint: u8,
) -> (u8, Reaction) {
    spec_dispatch(spec_classify(tag, id, value), setpoint)
}

impl IncomingCommand {
    /// Tells the command apart by its tag and checks that it can be
    /// correlated.
    pub fn classify(&self) -> (cmd: Command)
        ensures
            cmd == spec_classify(self.cmd_type@, self.id, self.value),
    {
        match self.id {
            None => Command::Unknown,
            Some(id) => {
                if self.cmd_type == String::from_str("set_value") {
                    Command::SetValue { id, value: self.value }
                } else if self.cmd_type == String::from_str("get_value") {
                    Command::GetValue { id }
                } else if self.cmd_type == String::from_str("calibrate") {
                    Command::Calibrate { id }
                } else {
                    Command::Unknown
                }
            },
        }
    }
}

/// Applies one command to the device state and says what to do about it.
pub fn dispatch(cmd: Command, state: &mut DeviceState) -> (reaction: Reaction)
    ensures
        (final(state)@, reaction) == spec_dispatch(cmd, old(state)@),
        old(state).wf() ==> final(state).wf(),
{
    match cmd {
        Command::SetValue { id, value: Some(v) } => {
            if state.store(v) {
                Reaction::Reply(Response::Ack { id })
            } else {
                Reaction::Reply(Response::Error { id, message: Rejection::ValueOutOfRange })
            }
        },
        Command::SetValue { id, value: None } => Reaction::Reply(
            Response::Error { id, message: Rejection::MissingValue },
        ),
        Command::GetValue { id } => Reaction::Reply(
            Response::Value { id, value: state.setpoint() },
        ),
        Command::Calibrate { id } => Reaction::CalibrateThenReply(Response::Ack { id }),
        Command::Unknown => Reaction::Silent,
    }
}

/// Classifies and dispatches the fields of one decoded object.
pub fn handle_command(incoming: &IncomingCommand, state: &mut DeviceState) -> (reaction: Reaction)
    ensures
        (final(state)@, reaction) == spec_handle(
            incoming.cmd_type@,
            incoming.id,
            incoming.value,
            old(state)@,
        ),
        old(state).wf() ==> final(state).wf(),
{
    dispatch(incoming.classify(), state)
}

/// A value in range is stored and acknowledged, and a later `get_value`
/// reports exactly that value under its own id.
pub proof fn lemma_set_then_get(id: u32, value: u32, id2: u32, setpoint: u8)
    requires
        value <= SETPOINT_MAX,
    ensures
        spec_handle("set_value"@, Some(id), Some(value), setpoint) == (
            value as u8,
            Reaction::Reply(Response::Ack { id }),
        ),
        spec_handle("get_value"@, Some(id2), None, value as u8) == (
            value as u8,
            Reaction::Reply(Response::Value { id: id2, value: value as u8 }),
        ),
{
    lemma_tags_differ();
}

/// A value above the range is answered with an error and changes nothing:
/// a later `get_value` still reports the setpoint from before.
pub proof fn lemma_out_of_range_keeps_setpoint(id: u32, value: u32, id2: u32, setpoint: u8)
    requires
        value > SETPOINT_MAX,
    ensures
        spec_handle("set_value"@, Some(id), Some(value), setpoint) == (
            setpoint,
            Reaction::Reply(Response::Error { id, message: Rejection::ValueOutOfRange }),
        ),
        spec_handle("get_value"@, Some(id2), None, setpoint) == (
            setpoint,
            Reaction::Reply(Response::Value { id: id2, value: setpoint }),
        ),
{
    lemma_tags_differ();
}

/// `set_value` without a value is answered with the missing-value error and
/// changes nothing.
pub proof fn lemma_missing_value(id: u32, setpoint: u8)
    ensures
        spec_handle("set_value"@, Some(id), None, setpoint) == (
            setpoint,
            Reaction::Reply(Response::Error { id, message: Rejection::MissingValue }),
        ),
{
}

/// Without an id no command is answered, performed or applied, whatever its
/// tag and value.
pub proof fn lemma_no_id_is_silent(tag: Seq<char>, value: Option<u32>, setpoint: u8)
    ensures
        spec_handle(tag, None, value, setpoint) == (setpoint, Reaction::Silent),
{
}

/// A tag other than the three known ones is never answered and changes
/// nothing.
pub proof fn lemma_unknown_tag_is_silent(
    tag: Seq<char>,
    id: Option<u32>,
    value: Option<u32>,
    setpoint: u8,
)
    requires
        tag != "set_value"@,
        tag != "get_value"@,
        tag != "calibrate"@,
    ensures
        spec_handle(tag, id, value, setpoint) == (setpoint, Reaction::Silent),
{
}

/// `calibrate` with an id runs the actuator and then acknowledges; the
/// setpoint stays.
pub proof fn lemma_calibrate_acks(id: u32, value: Option<u32>, setpoint: u8)
    ensures
        spec_handle("calibrate"@, Some(id), value, setpoint) == (
            setpoint,
            Reaction::CalibrateThenReply(Response::Ack { id }),
        ),
{
    lemma_tags_differ();
}

/// The three known tags are pairwise different.
pub proof fn lemma_tags_differ()
    ensures
        "set_value"@ != "get_value"@,
        "set_value"@ != "calibrate"@,
        "get_value"@ != "calibrate"@,
{
    reveal_strlit("set_value");
    reveal_strlit("get_value");
    reveal_strlit("calibrate");
    assert("set_value"@[0] == 's');
    assert("get_value"@[0] == 'g');
    assert("calibrate"@[0] == 'c');
}

} // verus!
