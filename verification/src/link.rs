use vstd::prelude::*;

verus! {

/// The pause after a lost link and after a failed attempt, in milliseconds.
pub const LINK_RETRY_DELAY_MS: u64 = 5000;

/// The wireless link as the rest of the system sees it.
#[derive(Clone, Copy, Debug, PartialEq, Eq, Structural)]
pub enum LinkState {
    Disconnected,
    Connecting,
    Connected,
}

/// Where the supervisor stands, and with that what it is waiting for.
#[derive(Clone, Copy, Debug, PartialEq, Eq, Structural)]
pub enum LinkPhase {
    /// Not started yet.
    Down,
    /// Asked whether the radio is started.
    Checking,
    /// Configuring and starting the radio.
    Starting,
    /// A connection attempt is under way.
    Connecting,
    /// Connected, waiting for the disconnect notification.
    Up,
    /// Pausing after a lost link or a failure.
    Holding,
}

/// What the radio and the timer report to the supervisor.
#[derive(Clone, Copy, Debug, PartialEq, Eq, Structural)]
pub enum LinkEvent {
    /// The supervisor's task begins.
    Start,
    /// The answer to `CheckStarted`.
    Started(bool),
    /// The radio was configured and started.
    StartDone,
    /// Configuring or starting the radio failed.
    StartFailed,
    /// The connection attempt succeeded.
    ConnectOk,
    /// The connection attempt failed.
    ConnectFailed,
    /// The station was disconnected.
    DisconnectSeen,
    /// The pause is over.
    Elapsed,
}

/// What the supervisor asks its driver to do next.
#[derive(Clone, Copy, Debug, PartialEq, Eq, Structural)]
pub enum LinkAction {
    /// Ask the radio whether it is started; report `Started`.
    CheckStarted,
    /// Configure the radio with the static credentials and start it; report
    /// `StartDone` or `StartFailed`.
    ConfigureAndStart,
    /// Attempt a connection; report `ConnectOk` or `ConnectFailed`.
    Connect,
    /// Suspend until the station is disconnected; report `DisconnectSeen`.
    AwaitDisconnect,
    /// Pause for `ms` milliseconds; report `Elapsed`.
    Wait { ms: u64 },
}

/// The link state that a phase amounts to.
pub open spec fn spec_link_state(phase: LinkPhase) -> LinkState {
    match phase {
        LinkPhase::Connecting => LinkState::Connecting,
        LinkPhase::Up => LinkState::Connected,
        _ => LinkState::Disconnected,
    }
}

/// The supervisor's transition: the next phase and the action, or `None`
/// where the phase is not waiting for that event.
pub open spec fn spec_link_step(phase: LinkPhase, event: LinkEvent) -> Option<
    (LinkPhase, LinkAction),
> {
    match (phase, event) {
        (LinkPhase::Down, LinkEvent::Start) => Some((LinkPhase::Checking, LinkAction::CheckStarted)),
        (LinkPhase::Checking, LinkEvent::Started(true)) => Some(
            (LinkPhase::Connecting, LinkAction::Connect),
        ),
        (LinkPhase::Checking, LinkEvent::Started(false)) => Some(
            (LinkPhase::Starting, LinkAction::ConfigureAndStart),
        ),
        (LinkPhase::Starting, LinkEvent::StartDone) => Some(
            (LinkPhase::Connecting, LinkAction::Connect),
        ),
        (LinkPhase::Starting, LinkEvent::StartFailed) => Some(
            (LinkPhase::Holding, LinkAction::Wait { ms: LINK_RETRY_DELAY_MS }),
        ),
        (LinkPhase::Connecting, LinkEvent::ConnectOk) => Some(
            (LinkPhase::Up, LinkAction::AwaitDisconnect),
        ),
        (LinkPhase::Connecting, LinkEvent::ConnectFailed) => Some(
            (LinkPhase::Holding, LinkAction::Wait { ms: LINK_RETRY_DELAY_MS }),
        ),
        (LinkPhase::Up, LinkEvent::DisconnectSeen) => Some(
            (LinkPhase::Holding, LinkAction::Wait { ms: LINK_RETRY_DELAY_MS }),
        ),
        (LinkPhase::Holding, LinkEvent::Elapsed) => Some(
            (LinkPhase::Checking, LinkAction::CheckStarted),
        ),
        _ => None,
    }
}

/// The phase after a run of events, skipping those that the phase at that
/// point is not waiting for.
pub open spec fn spec_link_run(phase: LinkPhase, events: Seq<LinkEvent>) -> LinkPhase
    decreases events.len(),
{
    if events.len() == 0 {
        phase
    } else {
        let before = spec_link_run(phase, events.drop_last());
        match spec_link_step(before, events.last()) {
            Some((next, _)) => next,
            None => before,
        }
    }
}

/// The actions that connection attempts ask for among those of a run of
/// events.
pub open spec fn spec_link_attempts(phase: LinkPhase, events: Seq<LinkEvent>) -> nat
    decreases events.len(),
{
    if events.len() == 0 {
        0
    } else {
        let before = spec_link_run(phase, events.drop_last());
        let earlier = spec_link_attempts(phase, events.drop_last());
        match spec_link_step(before, events.last()) {
            Some((_, LinkAction::Connect)) => earlier + 1,
            _ => earlier,
        }
    }
}

/// One failed attempt on a started radio, up to the next attempt.
pub open spec fn failed_round() -> Seq<LinkEvent> {
    seq![LinkEvent::ConnectFailed, LinkEvent::Elapsed, LinkEvent::Started(true)]
}

/// `n` failed attempts in a row.
pub open spec fn failed_rounds(n: nat) -> Seq<LinkEvent>
    decreases n,
{
    if n == 0 {
        Seq::empty()
    } else {
        failed_rounds((n - 1) as nat) + failed_round()
    }
}

/// Keeps the wireless link up: connects, waits for the link to drop, pauses,
/// and tries again, without end and without giving up.
#[derive(Clone, Copy, Debug, PartialEq, Eq)]
pub struct LinkSupervisor {
    phase: LinkPhase,
}

impl View for LinkSupervisor {
    type V = LinkPhase;

    closed spec fn view(&self) -> LinkPhase {
        self.phase
    }
}

impl LinkSupervisor {
    /// A supervisor that has not started: the link is down.
    pub fn new() -> (supervisor: Self)
        ensures
            supervisor@ == LinkPhase::Down,
    {
        LinkSupervisor { phase: LinkPhase::Down }
    }

    /// The phase the supervisor is in.
    pub fn phase(&self) -> (phase: LinkPhase)
        ensures
            phase == self@,
    {
        self.phase
    }

    /// The state of the link.
    pub fn state(&self) -> (state: LinkState)
        ensures
            state == spec_link_state(self@),
    {
        match self.phase {
            LinkPhase::Connecting => LinkState::Connecting,
            LinkPhase::Up => LinkState::Connected,
            _ => LinkState::Disconnected,
        }
    }

    /// Takes an event and returns what to do next. An event that the
    /// supervisor is not waiting for changes nothing and returns `None`.
    pub fn step(&mut self, event: LinkEvent) -> (action: Option<LinkAction>)
        ensures
            match spec_link_step(old(self)@, event) {
                Some((next, act)) => final(self)@ == next && action == Some(act),
                None => final(self)@ == old(self)@ && action.is_none(),
            },
    {
        let wait = LinkAction::Wait { ms: LINK_RETRY_DELAY_MS };
        let (next, action) = match (self.phase, event) {
            (LinkPhase::Down, LinkEvent::Start) => (LinkPhase::Checking, LinkAction::CheckStarted),
            (LinkPhase::Checking, LinkEvent::Started(true)) => (
                LinkPhase::Connecting,
                LinkAction::Connect,
            ),
            (LinkPhase::Checking, LinkEvent::Started(false)) => (
                LinkPhase::Starting,
                LinkAction::ConfigureAndStart,
            ),
            (LinkPhase::Starting, LinkEvent::StartDone) => (
                LinkPhase::Connecting,
                LinkAction::Connect,
            ),
            (LinkPhase::Starting, LinkEvent::StartFailed) => (LinkPhase::Holding, wait),
            (LinkPhase::Connecting, LinkEvent::ConnectOk) => (
                LinkPhase::Up,
                LinkAction::AwaitDisconnect,
            ),
            (LinkPhase::Connecting, LinkEvent::ConnectFailed) => (LinkPhase::Holding, wait),
            (LinkPhase::Up, LinkEvent::DisconnectSeen) => (LinkPhase::Holding, wait),
            (LinkPhase::Holding, LinkEvent::Elapsed) => (
                LinkPhase::Checking,
                LinkAction::CheckStarted,
            ),
            _ => {
                return None;
            },
        };
        self.phase = next;
        Some(action)
    }
}

/// No phase is a dead end: in every phase the supervisor is waiting for some
/// event, so it never stops.
pub proof fn lemma_link_never_stuck(phase: LinkPhase)
    ensures
        exists|event: LinkEvent| spec_link_step(phase, event).is_some(),
{
    match phase {
        LinkPhase::Down => assert(spec_link_step(phase, LinkEvent::Start).is_some()),
        LinkPhase::Checking => assert(spec_link_step(phase, LinkEvent::Started(true)).is_some()),
        LinkPhase::Starting => assert(spec_link_step(phase, LinkEvent::StartDone).is_some()),
        LinkPhase::Connecting => assert(spec_link_step(phase, LinkEvent::ConnectOk).is_some()),
        LinkPhase::Up => assert(spec_link_step(phase, LinkEvent::DisconnectSeen).is_some()),
        LinkPhase::Holding => assert(spec_link_step(phase, LinkEvent::Elapsed).is_some()),
    }
}

/// A lost link is answered with the fixed pause and then, on a radio that
/// is still started, with exactly one connection attempt.
pub proof fn lemma_disconnect_reconnects_once()
    ensures
        spec_link_step(LinkPhase::Up, LinkEvent::DisconnectSeen) == Some(
            (LinkPhase::Holding, LinkAction::Wait { ms: LINK_RETRY_DELAY_MS }),
        ),
        spec_link_step(LinkPhase::Holding, LinkEvent::Elapsed) == Some(
            (LinkPhase::Checking, LinkAction::CheckStarted),
        ),
        spec_link_step(LinkPhase::Checking, LinkEvent::Started(true)) == Some(
            (LinkPhase::Connecting, LinkAction::Connect),
        ),
        spec_link_attempts(
            LinkPhase::Up,
            seq![LinkEvent::DisconnectSeen, LinkEvent::Elapsed, LinkEvent::Started(true)],
        ) == 1,
{
    let events = seq![LinkEvent::DisconnectSeen, LinkEvent::Elapsed, LinkEvent::Started(true)];
    let two = seq![LinkEvent::DisconnectSeen, LinkEvent::Elapsed];
    let one = seq![LinkEvent::DisconnectSeen];
    assert(events.drop_last() =~= two);
    assert(two.drop_last() =~= one);
    assert(one.drop_last() =~= Seq::<LinkEvent>::empty());
    reveal_with_fuel(spec_link_run, 4);
    reveal_with_fuel(spec_link_attempts, 4);
    assert(spec_link_run(LinkPhase::Up, one) == LinkPhase::Holding);
    assert(spec_link_run(LinkPhase::Up, two) == LinkPhase::Checking);
    assert(spec_link_attempts(LinkPhase::Up, one) == 0);
    assert(spec_link_attempts(LinkPhase::Up, two) == 0);
}

/// However often the attempt fails, the supervisor is attempting again after
/// each pause: every failure is followed by exactly one new attempt.
pub proof fn lemma_failures_keep_retrying(n: nat)
    ensures
        spec_link_run(LinkPhase::Connecting, failed_rounds(n)) == LinkPhase::Connecting,
        spec_link_attempts(LinkPhase::Connecting, failed_rounds(n)) == n,
    decreases n,
{
    if n > 0 {
        lemma_failures_keep_retrying((n - 1) as nat);
        let earlier = failed_rounds((n - 1) as nat);
        let a = earlier.push(LinkEvent::ConnectFailed);
        let b = a.push(LinkEvent::Elapsed);
        let c = b.push(LinkEvent::Started(true));
        assert(failed_rounds(n) =~= c);
        assert(c.drop_last() =~= b);
        assert(b.drop_last() =~= a);
        assert(a.drop_last() =~= earlier);
        assert(spec_link_run(LinkPhase::Connecting, a) == LinkPhase::Holding);
        assert(spec_link_run(LinkPhase::Connecting, b) == LinkPhase::Checking);
        assert(spec_link_run(LinkPhase::Connecting, c) == LinkPhase::Connecting);
        assert(spec_link_attempts(LinkPhase::Connecting, a) == n - 1);
        assert(spec_link_attempts(LinkPhase::Connecting, b) == n - 1);
    }
}

} // verus!
