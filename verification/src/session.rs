use crate::device::{DeviceState, SETPOINT_MAX};
use crate::framer::{
    frames_model, fresh, lemma_invalid_line_is_contained, lemma_oversized_line_is_lost,
    lemma_run_line, run, trim_cr, unterminated, Frame, FrameModel,
    FramerModel, LineFramer, LINE_FEED,
};
use crate::protocol::{handle_command, spec_handle, IncomingCommand, Reaction, Response};
use crate::wire::{register_json, register_line, response_json, wire_line, CLIENT_UUID};
use vstd::prelude::*;
use vstd::string::*;
use vstd::utf8::{decode_utf8, valid_utf8};

verus! {

/// The pause before every connection attempt, in milliseconds.
pub const INTER_ATTEMPT_DELAY_MS: u64 = 1000;

/// The pause after a failed attempt and after a session that ended, in
/// milliseconds.
pub const RECONNECT_DELAY_MS: u64 = 2000;

/// An IPv4 address, as its four octets in order, and a TCP port.
#[derive(Clone, Copy, Debug, PartialEq, Eq, Structural)]
pub struct Endpoint {
    pub a: u8,
    pub b: u8,
    pub c: u8,
    pub d: u8,
    pub port: u16,
}

/// The controller that the client connects to.
pub open spec fn spec_server() -> Endpoint {
    Endpoint { a: 192, b: 168, c: 178, d: 21, port: 9000 }
}

/// The controller that the client connects to.
#[verifier::when_used_as_spec(spec_server)]
pub fn server() -> (endpoint: Endpoint)
    ensures
        endpoint == spec_server(),
{
    Endpoint { a: 192, b: 168, c: 178, d: 21, port: 9000 }
}

/// The most bytes an incoming line may have.
pub const LINE_CAPACITY: usize = 512;

/// The session as the rest of the system sees it.
#[derive(Clone, Copy, Debug, PartialEq, Eq, Structural)]
pub enum SessionState {
    Idle,
    Connecting,
    Registering,
    Serving,
    Closing,
}

/// Where the session manager stands, and with that what it is waiting for.
#[derive(Clone, Copy, Debug, PartialEq, Eq, Structural)]
pub enum Phase {
    /// Not started yet.
    Idle,
    /// Pausing before a connection attempt.
    Pausing,
    /// A connection attempt is under way.
    Connecting,
    /// The register message is being written.
    Registering,
    /// Serving: waiting for bytes from the controller.
    Reading,
    /// Serving: a line was handed out for decoding.
    Decoding,
    /// Serving: the actuator is calibrating; the response is sent afterwards.
    Calibrating(Response),
    /// Serving: a response is being written.
    Replying,
    /// The session is over; pausing before the next one.
    Closing,
}

/// What the transport, the decoder, the actuator and the timer report.
#[derive(Clone, Debug, PartialEq, Eq)]
pub enum SessionEvent {
    /// The session manager's task begins.
    Start,
    /// The pause is over.
    Elapsed,
    /// The connection attempt succeeded.
    Connected,
    /// The connection attempt failed.
    ConnectFailed,
    /// The message was written.
    Sent,
    /// Writing the message failed.
    SendFailed,
    /// The bytes of one read. No bytes at all means that the controller
    /// closed the connection.
    Received(Vec<u8>),
    /// The read failed.
    ReceiveFailed,
    /// The line was decoded; `None` where it is not a command object.
    Decoded(Option<IncomingCommand>),
    /// The calibration is done.
    Calibrated,
}

/// An event with its payload as a mathematical value. A decoded command is
/// its tag, its id and its value.
pub enum EventModel {
    Start,
    Elapsed,
    Connected,
    ConnectFailed,
    Sent,
    SendFailed,
    Received(Seq<u8>),
    ReceiveFailed,
    Decoded(Option<(Seq<char>, Option<u32>, Option<u32>)>),
    Calibrated,
}

impl View for SessionEvent {
    type V = EventModel;

    open spec fn view(&self) -> EventModel {
        match self {
            SessionEvent::Start => EventModel::Start,
            SessionEvent::Elapsed => EventModel::Elapsed,
            SessionEvent::Connected => EventModel::Connected,
            SessionEvent::ConnectFailed => EventModel::ConnectFailed,
            SessionEvent::Sent => EventModel::Sent,
            SessionEvent::SendFailed => EventModel::SendFailed,
            SessionEvent::Received(bytes) => EventModel::Received(bytes@),
            SessionEvent::ReceiveFailed => EventModel::ReceiveFailed,
            SessionEvent::Decoded(None) => EventModel::Decoded(None),
            SessionEvent::Decoded(Some(cmd)) => EventModel::Decoded(
                Some((cmd.cmd_type@, cmd.id, cmd.value)),
            ),
            SessionEvent::Calibrated => EventModel::Calibrated,
        }
    }
}

/// What the session manager asks its driver to do next.
#[derive(Clone, Debug, PartialEq, Eq)]
pub enum SessionAction {
    /// Pause for `ms` milliseconds; report `Elapsed`.
    Wait { ms: u64 },
    /// Open a fresh transport to the controller; report `Connected` or
    /// `ConnectFailed`.
    Connect(Endpoint),
    /// Write the line, which ends in its line feed; report `Sent` or
    /// `SendFailed`.
    Send(String),
    /// Read from the transport; report `Received` or `ReceiveFailed`.
    Receive,
    /// Decode the line as a JSON command object; report `Decoded`.
    Decode(String),
    /// Run the actuator's calibration to its end; report `Calibrated`.
    Calibrate,
}

/// An action with its text as a sequence of characters.
pub enum ActionModel {
    Wait { ms: u64 },
    Connect(Endpoint),
    Send(Seq<char>),
    Receive,
    Decode(Seq<char>),
    Calibrate,
}

impl View for SessionAction {
    type V = ActionModel;

    open spec fn view(&self) -> ActionModel {
        match self {
            SessionAction::Wait { ms } => ActionModel::Wait { ms: *ms },
            SessionAction::Connect(endpoint) => ActionModel::Connect(*endpoint),
            SessionAction::Send(line) => ActionModel::Send(line@),
            SessionAction::Receive => ActionModel::Receive,
            SessionAction::Decode(line) => ActionModel::Decode(line@),
            SessionAction::Calibrate => ActionModel::Calibrate,
        }
    }
}

/// The session manager as a mathematical value: its phase, the cached
/// setpoint, the framer, and the lines that are framed but not yet
/// dispatched, oldest first.
pub struct SessionModel {
    pub phase: Phase,
    pub setpoint: u8,
    pub framer: FramerModel,
    pub queue: Seq<Seq<char>>,
}

/// The session state that a phase amounts to.
pub open spec fn spec_session_state(phase: Phase) -> SessionState {
    match phase {
        Phase::Idle | Phase::Pausing => SessionState::Idle,
        Phase::Connecting => SessionState::Connecting,
        Phase::Registering => SessionState::Registering,
        Phase::Reading | Phase::Decoding | Phase::Calibrating(_) | Phase::Replying =>
            SessionState::Serving,
        Phase::Closing => SessionState::Closing,
    }
}

/// The text lines among the frames, in their order.
pub open spec fn lines_of(frames: Seq<FrameModel>) -> Seq<Seq<char>>
    decreases frames.len(),
{
    if frames.len() == 0 {
        Seq::empty()
    } else {
        let earlier = lines_of(frames.drop_last());
        match frames.last() {
            FrameModel::Line(text) => earlier.push(text),
            FrameModel::InvalidEncoding => earlier,
        }
    }
}

/// The register line of this client.
pub open spec fn register_message() -> Seq<char> {
    wire_line(register_json(CLIENT_UUID@))
}

/// The session given up: nothing of its framer and its lines is kept, the
/// setpoint stays.
pub open spec fn abandon(m: SessionModel, phase: Phase) -> SessionModel {
    SessionModel { phase, setpoint: m.setpoint, framer: fresh(), queue: Seq::empty() }
}

/// The session ended: the reconnect delay runs.
pub open spec fn close(m: SessionModel) -> (SessionModel, ActionModel) {
    (abandon(m, Phase::Closing), ActionModel::Wait { ms: RECONNECT_DELAY_MS })
}

/// Serving goes on: with the oldest line that waits, else with a read.
pub open spec fn advance(m: SessionModel) -> (SessionModel, ActionModel) {
    if m.queue.len() > 0 {
        (
            SessionModel { phase: Phase::Decoding, queue: m.queue.drop_first(), ..m },
            ActionModel::Decode(m.queue[0]),
        )
    } else {
        (SessionModel { phase: Phase::Reading, ..m }, ActionModel::Receive)
    }
}

/// What follows from the dispatcher's reaction to a command.
pub open spec fn react(m: SessionModel, reaction: Reaction) -> (SessionModel, ActionModel) {
    match reaction {
        Reaction::Silent => advance(m),
        Reaction::Reply(response) => (
            SessionModel { phase: Phase::Replying, ..m },
            ActionModel::Send(wire_line(response_json(response))),
        ),
        Reaction::CalibrateThenReply(response) => (
            SessionModel { phase: Phase::Calibrating(response), ..m },
            ActionModel::Calibrate,
        ),
    }
}

/// The session manager's transition: the next value and the action, or
/// `None` where the phase is not waiting for that event.
pub open spec fn spec_step(m: SessionModel, event: EventModel) -> Option<
    (SessionModel, ActionModel),
> {
    match (m.phase, event) {
        (Phase::Idle, EventModel::Start) | (Phase::Closing, EventModel::Elapsed) => Some(
            (
                SessionModel { phase: Phase::Pausing, ..m },
                ActionModel::Wait { ms: INTER_ATTEMPT_DELAY_MS },
            ),
        ),
        (Phase::Pausing, EventModel::Elapsed) => Some(
            (
                SessionModel { phase: Phase::Connecting, ..m },
                ActionModel::Connect(spec_server()),
            ),
        ),
        (Phase::Connecting, EventModel::Connected) => Some(
            (
                SessionModel { phase: Phase::Registering, ..m },
                ActionModel::Send(register_message()),
            ),
        ),
        (Phase::Connecting, EventModel::ConnectFailed) => Some(close(m)),
        (Phase::Registering, EventModel::Sent) => Some(
            (SessionModel { phase: Phase::Reading, ..m }, ActionModel::Receive),
        ),
        (Phase::Registering, EventModel::SendFailed) => Some(
            (abandon(m, Phase::Pausing), ActionModel::Wait { ms: INTER_ATTEMPT_DELAY_MS }),
        ),
        (Phase::Reading, EventModel::Received(bytes)) => if bytes.len() == 0 {
            Some(close(m))
        } else {
            let (framer, frames) = run(LINE_CAPACITY as nat, m.framer, bytes);
            Some(advance(SessionModel { framer, queue: m.queue + lines_of(frames), ..m }))
        },
        (Phase::Reading, EventModel::ReceiveFailed) => Some(close(m)),
        (Phase::Decoding, EventModel::Decoded(None)) => Some(advance(m)),
        (Phase::Decoding, EventModel::Decoded(Some(cmd))) => {
            let (setpoint, reaction) = spec_handle(cmd.0, cmd.1, cmd.2, m.setpoint);
            Some(react(SessionModel { setpoint, ..m }, reaction))
        },
        (Phase::Calibrating(response), EventModel::Calibrated) => Some(
            (
                SessionModel { phase: Phase::Replying, ..m },
                ActionModel::Send(wire_line(response_json(response))),
            ),
        ),
        (Phase::Replying, EventModel::Sent) => Some(advance(m)),
        (Phase::Replying, EventModel::SendFailed) => Some(close(m)),
        _ => None,
    }
}

/// The views of a sequence of texts.
pub open spec fn texts(lines: Seq<String>) -> Seq<Seq<char>> {
    lines.map_values(|s: String| s@)
}

/// Appends the text lines among `frames` to `queue`, in their order.
fn enqueue_lines(queue: &mut Vec<String>, frames: &Vec<Frame>)
    ensures
        texts(final(queue)@) == texts(old(queue)@) + lines_of(frames_model(frames@)),
{
    let ghost all = frames_model(frames@);
    let mut i: usize = 0;
    assert(texts(queue@) + lines_of(all.take(0)) =~= texts(queue@));
    while i < frames.len()
        invariant
            i <= frames.len(),
            all == frames_model(frames@),
            texts(queue@) == texts(old(queue)@) + lines_of(all.take(i as int)),
        decreases frames.len() - i,
    {
        proof {
            assert(all.take(i + 1).drop_last() =~= all.take(i as int));
            assert(all.take(i + 1).last() == frames@[i as int]@);
        }
        let ghost before = queue@;
        match &frames[i] {
            Frame::Line(text) => {
                let line = text.clone();
                queue.push(line);
                assert(texts(queue@) =~= texts(before).push(text@));
                assert(texts(queue@) =~= texts(old(queue)@) + lines_of(all.take(i + 1)));
            },
            Frame::InvalidEncoding => {},
        }
        i += 1;
    }
    assert(all.take(i as int) =~= all);
}

/// The manager of the one TCP session to the controller. It owns the line
/// framer of the session and the cached setpoint, which outlives every
/// session.
pub struct TcpClient {
    phase: Phase,
    device: DeviceState,
    framer: LineFramer,
    queue: Vec<String>,
}

impl View for TcpClient {
    type V = SessionModel;

    closed spec fn view(&self) -> SessionModel {
        SessionModel {
            phase: self.phase,
            setpoint: self.device@,
            framer: self.framer@,
            queue: texts(self.queue@),
        }
    }
}

impl TcpClient {
    /// The framer holds at most `LINE_CAPACITY` bytes and the setpoint lies
    /// in its range.
    pub closed spec fn wf(&self) -> bool {
        &&& self.framer.wf()
        &&& self.framer.spec_capacity() == LINE_CAPACITY
        &&& self.device.wf()
    }

    /// A client that has not started, with setpoint 0.
    pub fn new() -> (client: Self)
        ensures
            client.wf(),
            client@ == (SessionModel {
                phase: Phase::Idle,
                setpoint: 0,
                framer: fresh(),
                queue: Seq::empty(),
            }),
    {
        let client = TcpClient {
            phase: Phase::Idle,
            device: DeviceState::new(),
            framer: LineFramer::new(LINE_CAPACITY),
            queue: Vec::new(),
        };
        assert(client@.queue =~= Seq::empty());
        client
    }

    /// The phase the client is in.
    pub fn phase(&self) -> (phase: Phase)
        ensures
            phase == self@.phase,
    {
        self.phase
    }

    /// The state of the session.
    pub fn state(&self) -> (state: SessionState)
        ensures
            state == spec_session_state(self@.phase),
    {
        match self.phase {
            Phase::Idle | Phase::Pausing => SessionState::Idle,
            Phase::Connecting => SessionState::Connecting,
            Phase::Registering => SessionState::Registering,
            Phase::Reading | Phase::Decoding | Phase::Calibrating(_) | Phase::Replying =>
                SessionState::Serving,
            Phase::Closing => SessionState::Closing,
        }
    }

    /// The cached setpoint.
    pub fn cached_value(&self) -> (value: u8)
        ensures
            value == self@.setpoint,
    {
        self.device.setpoint()
    }

    fn give_up(&mut self, phase: Phase)
        requires
            old(self).wf(),
        ensures
            final(self).wf(),
            final(self)@ == abandon(old(self)@, phase),
    {
        self.phase = phase;
        self.framer = LineFramer::new(LINE_CAPACITY);
        self.queue = Vec::new();
        assert(self@.queue =~= Seq::empty());
    }

    fn end_session(&mut self) -> (action: SessionAction)
        requires
            old(self).wf(),
        ensures
            final(self).wf(),
            (final(self)@, action@) == close(old(self)@),
    {
        self.give_up(Phase::Closing);
        SessionAction::Wait { ms: RECONNECT_DELAY_MS }
    }

    fn go_on(&mut self) -> (action: SessionAction)
        requires
            old(self).wf(),
        ensures
            final(self).wf(),
            (final(self)@, action@) == advance(old(self)@),
    {
        if self.queue.len() > 0 {
            let ghost before = self.queue@;
            let line = self.queue.remove(0);
            self.phase = Phase::Decoding;
            assert(texts(self.queue@) =~= texts(before).drop_first());
            SessionAction::Decode(line)
        } else {
            self.phase = Phase::Reading;
            SessionAction::Receive
        }
    }

    /// Takes an event and returns what to do next. An event that the client
    /// is not waiting for changes nothing and returns `None`.
    pub fn step(&mut self, event: SessionEvent) -> (action: Option<SessionAction>)
        requires
            old(self).wf(),
        ensures
            final(self).wf(),
            match spec_step(old(self)@, event@) {
                Some((next, act)) => final(self)@ == next && action.is_some()
                    && action.unwrap()@ == act,
                None => final(self)@ == old(self)@ && action.is_none(),
            },
    {
        let pause = SessionAction::Wait { ms: INTER_ATTEMPT_DELAY_MS };
        match event {
            SessionEvent::Start => match self.phase {
                Phase::Idle => {
                    self.phase = Phase::Pausing;
                    Some(pause)
                },
                _ => None,
            },
            SessionEvent::Elapsed => match self.phase {
                Phase::Closing => {
                    self.phase = Phase::Pausing;
                    Some(pause)
                },
                Phase::Pausing => {
                    self.phase = Phase::Connecting;
                    Some(SessionAction::Connect(server()))
                },
                _ => None,
            },
            SessionEvent::Connected => match self.phase {
                Phase::Connecting => {
                    self.phase = Phase::Registering;
                    Some(SessionAction::Send(register_line(CLIENT_UUID)))
                },
                _ => None,
            },
            SessionEvent::ConnectFailed => match self.phase {
                Phase::Connecting => Some(self.end_session()),
                _ => None,
            },
            SessionEvent::Sent => match self.phase {
                Phase::Registering => {
                    self.phase = Phase::Reading;
                    Some(SessionAction::Receive)
                },
                Phase::Replying => Some(self.go_on()),
                _ => None,
            },
            SessionEvent::SendFailed => match self.phase {
                Phase::Registering => {
                    self.give_up(Phase::Pausing);
                    Some(pause)
                },
                Phase::Replying => Some(self.end_session()),
                _ => None,
            },
            SessionEvent::Received(bytes) => match self.phase {
                Phase::Reading => {
                    if bytes.len() == 0 {
                        Some(self.end_session())
                    } else {
                        let frames = self.framer.feed(bytes.as_slice());
                        enqueue_lines(&mut self.queue, &frames);
                        Some(self.go_on())
                    }
                },
                _ => None,
            },
            SessionEvent::ReceiveFailed => match self.phase {
                Phase::Reading => Some(self.end_session()),
                _ => None,
            },
            SessionEvent::Decoded(decoded) => match self.phase {
                Phase::Decoding => match decoded {
                    None => Some(self.go_on()),
                    Some(cmd) => match handle_command(&cmd, &mut self.device) {
                        Reaction::Silent => Some(self.go_on()),
                        Reaction::Reply(response) => {
                            self.phase = Phase::Replying;
                            Some(SessionAction::Send(response.to_line()))
                        },
                        Reaction::CalibrateThenReply(response) => {
                            self.phase = Phase::Calibrating(response);
                            Some(SessionAction::Calibrate)
                        },
                    },
                },
                _ => None,
            },
            SessionEvent::Calibrated => match self.phase {
                Phase::Calibrating(response) => {
                    self.phase = Phase::Replying;
                    Some(SessionAction::Send(response.to_line()))
                },
                _ => None,
            },
        }
    }

    /// Reports how the connection attempt ended: `step` with `Connected` or
    /// `ConnectFailed`.
    pub fn connect(&mut self, reached: bool) -> (action: Option<SessionAction>)
        requires
            old(self).wf(),
        ensures
            final(self).wf(),
            match spec_step(
                old(self)@,
                if reached {
                    EventModel::Connected
                } else {
                    EventModel::ConnectFailed
                },
            ) {
                Some((next, act)) => final(self)@ == next && action.is_some()
                    && action.unwrap()@ == act,
                None => final(self)@ == old(self)@ && action.is_none(),
            },
    {
        if reached {
            self.step(SessionEvent::Connected)
        } else {
            self.step(SessionEvent::ConnectFailed)
        }
    }

    /// Reports how writing the register message ended. Outside the
    /// registering phase this changes nothing and returns `None`.
    pub fn register(&mut self, sent: bool) -> (action: Option<SessionAction>)
        requires
            old(self).wf(),
        ensures
            final(self).wf(),
            old(self)@.phase != Phase::Registering ==> final(self)@ == old(self)@
                && action.is_none(),
            old(self)@.phase == Phase::Registering ==> action.is_some() && Some(
                (final(self)@, action.unwrap()@),
            ) == spec_step(
                old(self)@,
                if sent {
                    EventModel::Sent
                } else {
                    EventModel::SendFailed
                },
            ),
    {
        match self.phase {
            Phase::Registering => if sent {
                self.step(SessionEvent::Sent)
            } else {
                self.step(SessionEvent::SendFailed)
            },
            _ => None,
        }
    }

    /// Serves the bytes of one read: `step` with `Received`.
    pub fn serve(&mut self, bytes: Vec<u8>) -> (action: Option<SessionAction>)
        requires
            old(self).wf(),
        ensures
            final(self).wf(),
            match spec_step(old(self)@, EventModel::Received(bytes@)) {
                Some((next, act)) => final(self)@ == next && action.is_some()
                    && action.unwrap()@ == act,
                None => final(self)@ == old(self)@ && action.is_none(),
            },
    {
        self.step(SessionEvent::Received(bytes))
    }
}

/// The bounds that every well-formed client keeps: the buffered part of a
/// line fits the line capacity, and the setpoint lies in its range.
pub open spec fn model_wf(m: SessionModel) -> bool {
    &&& m.framer.pending.len() <= LINE_CAPACITY
    &&& m.framer.discarding ==> m.framer.pending.len() == 0
    &&& m.setpoint <= SETPOINT_MAX
}

/// A well-formed client has a well-formed model.
pub proof fn lemma_wf_model(client: &TcpClient)
    requires
        client.wf(),
    ensures
        model_wf(client@),
{
}

/// When the controller closes the connection, the client pauses for the
/// reconnect delay and then for the inter-attempt delay, makes exactly one
/// connection attempt, and on its success registers anew and serves again,
/// with a fresh framer and the setpoint it had.
pub proof fn lemma_remote_close_reconnects(m: SessionModel)
    requires
        m.phase == Phase::Reading,
    ensures
        spec_step(m, EventModel::Received(Seq::empty())) == Some(
            (abandon(m, Phase::Closing), ActionModel::Wait { ms: RECONNECT_DELAY_MS }),
        ),
        spec_step(abandon(m, Phase::Closing), EventModel::Elapsed) == Some(
            (abandon(m, Phase::Pausing), ActionModel::Wait { ms: INTER_ATTEMPT_DELAY_MS }),
        ),
        spec_step(abandon(m, Phase::Pausing), EventModel::Elapsed) == Some(
            (abandon(m, Phase::Connecting), ActionModel::Connect(spec_server())),
        ),
        spec_step(abandon(m, Phase::Connecting), EventModel::Connected) == Some(
            (abandon(m, Phase::Registering), ActionModel::Send(register_message())),
        ),
        spec_step(abandon(m, Phase::Registering), EventModel::Sent) == Some(
            (abandon(m, Phase::Reading), ActionModel::Receive),
        ),
{
}

/// Only a decoded command changes the setpoint, and then as the dispatcher
/// says: connecting, reading, writing and every way a session ends leave it
/// as it is.
pub proof fn lemma_setpoint_survives(m: SessionModel, event: EventModel)
    requires
        spec_step(m, event).is_some(),
    ensures
        spec_step(m, event).unwrap().0.setpoint == (match (m.phase, event) {
            (Phase::Decoding, EventModel::Decoded(Some(cmd))) => spec_handle(
                cmd.0,
                cmd.1,
                cmd.2,
                m.setpoint,
            ).0,
            _ => m.setpoint,
        }),
        m.setpoint <= SETPOINT_MAX ==> spec_step(m, event).unwrap().0.setpoint
            <= SETPOINT_MAX,
{
}

/// No phase is a dead end: whatever happened before, the client is waiting
/// for some event, so nothing ends its loop.
pub proof fn lemma_session_never_stuck(m: SessionModel)
    ensures
        exists|event: EventModel| spec_step(m, event).is_some(),
{
    match m.phase {
        Phase::Idle => assert(spec_step(m, EventModel::Start).is_some()),
        Phase::Pausing | Phase::Closing => assert(spec_step(m, EventModel::Elapsed).is_some()),
        Phase::Connecting => assert(spec_step(m, EventModel::Connected).is_some()),
        Phase::Registering | Phase::Replying => assert(spec_step(m, EventModel::Sent).is_some()),
        Phase::Reading => assert(spec_step(m, EventModel::ReceiveFailed).is_some()),
        Phase::Decoding => assert(spec_step(m, EventModel::Decoded(None)).is_some()),
        Phase::Calibrating(_) => assert(spec_step(m, EventModel::Calibrated).is_some()),
    }
}

/// A failed write ends the session at once, whatever was still waiting to
/// be dispatched.
pub proof fn lemma_failed_write_ends_session(m: SessionModel)
    requires
        m.phase == Phase::Replying,
    ensures
        spec_step(m, EventModel::SendFailed) == Some(
            (abandon(m, Phase::Closing), ActionModel::Wait { ms: RECONNECT_DELAY_MS }),
        ),
{
}

/// A line that outgrew the buffer is never handed out: once it is
/// terminated the client reads on with nothing buffered, and a line sent
/// right after it is framed on its own.
pub proof fn lemma_oversized_line_is_not_answered(m: SessionModel, long: Seq<u8>)
    requires
        m.phase == Phase::Reading,
        m.queue.len() == 0,
        model_wf(m),
        unterminated(long),
        m.framer.pending.len() + long.len() > LINE_CAPACITY,
    ensures
        spec_step(m, EventModel::Received(long.push(LINE_FEED))) == Some(
            (SessionModel { framer: fresh(), ..m }, ActionModel::Receive),
        ),
{
    lemma_run_line(LINE_CAPACITY as nat, m.framer, long);
    reveal_with_fuel(lines_of, 1);
    assert(m.queue + lines_of(Seq::<FrameModel>::empty()) =~= m.queue);
}

/// A line that is not UTF-8 is never handed out and never answered: the
/// client reads on with nothing buffered.
pub proof fn lemma_invalid_line_is_not_answered(m: SessionModel, bad: Seq<u8>)
    requires
        m.phase == Phase::Reading,
        m.queue.len() == 0,
        m.framer == fresh(),
        unterminated(bad),
        bad.len() <= LINE_CAPACITY,
        trim_cr(bad).len() > 0,
        !valid_utf8(trim_cr(bad)),
    ensures
        spec_step(m, EventModel::Received(bad.push(LINE_FEED))) == Some(
            (m, ActionModel::Receive),
        ),
{
    lemma_run_line(LINE_CAPACITY as nat, fresh(), bad);
    assert(fresh().pending + bad =~= bad);
    let frames = seq![FrameModel::InvalidEncoding];
    assert(frames.drop_last() =~= Seq::<FrameModel>::empty());
    reveal_with_fuel(lines_of, 2);
    assert(lines_of(frames) =~= Seq::<Seq<char>>::empty());
    assert(m.queue + lines_of(frames) =~= m.queue);
}

/// A text line that arrives while the client reads is handed out for
/// decoding as it is, and nothing else is.
pub proof fn lemma_line_is_handed_out(m: SessionModel, line: Seq<u8>)
    requires
        m.phase == Phase::Reading,
        m.queue.len() == 0,
        m.framer == fresh(),
        unterminated(line),
        line.len() <= LINE_CAPACITY,
        trim_cr(line).len() > 0,
        valid_utf8(trim_cr(line)),
    ensures
        spec_step(m, EventModel::Received(line.push(LINE_FEED))) == Some(
            (
                SessionModel { phase: Phase::Decoding, ..m },
                ActionModel::Decode(decode_utf8(trim_cr(line))),
            ),
        ),
{
    lemma_run_line(LINE_CAPACITY as nat, fresh(), line);
    assert(fresh().pending + line =~= line);
    let text = decode_utf8(trim_cr(line));
    let frames = seq![FrameModel::Line(text)];
    assert(frames.drop_last() =~= Seq::<FrameModel>::empty());
    reveal_with_fuel(lines_of, 2);
    assert(lines_of(frames) =~= seq![text]);
    assert(m.queue + lines_of(frames) =~= seq![text]);
    assert(seq![text].drop_first() =~= m.queue);
}

/// The buffer does not leak across an overflow: when a text line follows a
/// line that outgrew the buffer in the same read, the text line alone is
/// handed out for decoding.
pub proof fn lemma_line_after_oversized_is_handed_out(
    m: SessionModel,
    long: Seq<u8>,
    line: Seq<u8>,
)
    requires
        m.phase == Phase::Reading,
        m.queue.len() == 0,
        model_wf(m),
        unterminated(long),
        m.framer.pending.len() + long.len() > LINE_CAPACITY,
        unterminated(line),
        line.len() <= LINE_CAPACITY,
        trim_cr(line).len() > 0,
        valid_utf8(trim_cr(line)),
    ensures
        spec_step(m, EventModel::Received(long.push(LINE_FEED) + line.push(LINE_FEED))) == Some(
            (
                SessionModel { phase: Phase::Decoding, framer: fresh(), ..m },
                ActionModel::Decode(decode_utf8(trim_cr(line))),
            ),
        ),
{
    lemma_oversized_line_is_lost(LINE_CAPACITY as nat, m.framer, long, line);
    let text = decode_utf8(trim_cr(line));
    let frames = seq![FrameModel::Line(text)];
    assert(frames.drop_last() =~= Seq::<FrameModel>::empty());
    reveal_with_fuel(lines_of, 2);
    assert(lines_of(frames) =~= seq![text]);
    assert(m.queue + lines_of(frames) =~= seq![text]);
    assert(seq![text].drop_first() =~= m.queue);
}

/// A line that is not UTF-8 does not disturb the one after it: when a text
/// line follows it in the same read, the text line alone is handed out for
/// decoding.
pub proof fn lemma_line_after_invalid_is_handed_out(m: SessionModel, bad: Seq<u8>, line: Seq<u8>)
    requires
        m.phase == Phase::Reading,
        m.queue.len() == 0,
        m.framer == fresh(),
        unterminated(bad),
        bad.len() <= LINE_CAPACITY,
        trim_cr(bad).len() > 0,
        !valid_utf8(trim_cr(bad)),
        unterminated(line),
        line.len() <= LINE_CAPACITY,
        trim_cr(line).len() > 0,
        valid_utf8(trim_cr(line)),
    ensures
        spec_step(m, EventModel::Received(bad.push(LINE_FEED) + line.push(LINE_FEED))) == Some(
            (
                SessionModel { phase: Phase::Decoding, ..m },
                ActionModel::Decode(decode_utf8(trim_cr(line))),
            ),
        ),
{
    lemma_invalid_line_is_contained(LINE_CAPACITY as nat, bad, line);
    let text = decode_utf8(trim_cr(line));
    let frames = seq![FrameModel::InvalidEncoding, FrameModel::Line(text)];
    let first = seq![FrameModel::InvalidEncoding];
    assert(seq![FrameModel::InvalidEncoding] + seq![FrameModel::Line(text)] =~= frames);
    assert(frames.drop_last() =~= first);
    assert(first.drop_last() =~= Seq::<FrameModel>::empty());
    reveal_with_fuel(lines_of, 3);
    assert(lines_of(first) =~= Seq::<Seq<char>>::empty());
    assert(lines_of(frames) =~= seq![text]);
    assert(m.queue + lines_of(frames) =~= seq![text]);
    assert(seq![text].drop_first() =~= m.queue);
}

} // verus!
