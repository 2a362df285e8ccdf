//! The network link supervisor: start the radio, connect, wait for a disconnect,
//! cool down and connect again, for ever.
use vstd::prelude::*;

verus! {

/// Cool-down after a failed attempt or a lost link, in milliseconds.
pub const RECONNECT_DELAY_MS: u32 = 5_000;

/// Period at which link and address readiness are checked, in milliseconds.
pub const READY_POLL_MS: u32 = 500;

/// The state of the network link.
#[derive(Clone, Copy, Debug, PartialEq, Eq, Structural)]
pub enum LinkState {
    Down,
    Connecting,
    Up,
}

/// What happened since the last action.
#[derive(Clone, Copy, Debug, PartialEq, Eq, Structural)]
pub enum LinkEvent {
    /// The radio was configured with the credentials and started.
    Started,
    StartFailed,
    Connected,
    ConnectFailed,
    /// The link was lost.
    Disconnected,
    /// The pause asked for by [`LinkAction::Wait`] is over.
    DelayElapsed,
}

/// What the supervisor asks for next.
#[derive(Clone, Copy, Debug, PartialEq, Eq, Structural)]
pub enum LinkAction {
    /// Configure the radio with the network credentials and start it.
    StartRadio,
    /// Attempt to connect to the network.
    Connect,
    /// Wait until the link is lost.
    AwaitDisconnect,
    /// Pause for this many milliseconds, then report [`LinkEvent::DelayElapsed`].
    Wait(u32),
}

/// The supervisor's state: the link and whether the radio has been started.
#[derive(Clone, Copy, Debug, PartialEq, Eq, Structural)]
pub struct LinkSupervisor {
    pub state: LinkState,
    pub started: bool,
}

/// What to do once a pause is over: start the radio if it is not started, else
/// attempt to connect.
pub open spec fn resume(started: bool) -> (LinkSupervisor, LinkAction) {
    if started {
        (LinkSupervisor { state: LinkState::Connecting, started: true }, LinkAction::Connect)
    } else {
        (LinkSupervisor { state: LinkState::Down, started: false }, LinkAction::StartRadio)
    }
}

/// The next state and action of the supervisor in state `s` once `e` happened.
/// Every failure is followed by the cool-down and a new attempt: there is no limit.
pub open spec fn link_step(s: LinkSupervisor, e: LinkEvent) -> (LinkSupervisor, LinkAction) {
    match e {
        LinkEvent::Started => (
            LinkSupervisor { state: LinkState::Connecting, started: true },
            LinkAction::Connect,
        ),
        LinkEvent::StartFailed => (
            LinkSupervisor { state: LinkState::Down, started: false },
            LinkAction::Wait(RECONNECT_DELAY_MS),
        ),
        LinkEvent::Connected => (
            LinkSupervisor { state: LinkState::Up, started: true },
            LinkAction::AwaitDisconnect,
        ),
        LinkEvent::ConnectFailed => (
            LinkSupervisor { state: LinkState::Connecting, started: s.started },
            LinkAction::Wait(RECONNECT_DELAY_MS),
        ),
        LinkEvent::Disconnected => (
            LinkSupervisor { state: LinkState::Connecting, started: s.started },
            LinkAction::Wait(RECONNECT_DELAY_MS),
        ),
        LinkEvent::DelayElapsed => resume(s.started),
    }
}

/// The state after `events`, in order, and the action that the last one gave
/// (`last` where there are none).
pub open spec fn link_run(s: LinkSupervisor, last: LinkAction, events: Seq<LinkEvent>) -> (
    LinkSupervisor,
    LinkAction,
)
    decreases events.len(),
{
    if events.len() == 0 {
        (s, last)
    } else {
        let (n, a) = link_step(s, events[0]);
        link_run(n, a, events.drop_first())
    }
}

impl LinkSupervisor {
    /// A supervisor whose radio is not started and whose link is down.
    pub fn new() -> (s: LinkSupervisor)
        ensures
            s.state == LinkState::Down,
            !s.started,
    {
        LinkSupervisor { state: LinkState::Down, started: false }
    }

    /// The first action: start the radio, or connect if it is already started.
    pub fn begin(&mut self) -> (a: LinkAction)
        ensures
            (*final(self), a) == resume(old(self).started),
    {
        if self.started {
            self.state = LinkState::Connecting;
            LinkAction::Connect
        } else {
            self.state = LinkState::Down;
            LinkAction::StartRadio
        }
    }

    /// Moves the supervisor on after `event` and says what to do next.
    pub fn step(&mut self, event: LinkEvent) -> (a: LinkAction)
        ensures
            (*final(self), a) == link_step(*old(self), event),
    {
        match event {
            LinkEvent::Started => {
                self.state = LinkState::Connecting;
                self.started = true;
                LinkAction::Connect
            },
            LinkEvent::StartFailed => {
                self.state = LinkState::Down;
                self.started = false;
                LinkAction::Wait(RECONNECT_DELAY_MS)
            },
            LinkEvent::Connected => {
                self.state = LinkState::Up;
                self.started = true;
                LinkAction::AwaitDisconnect
            },
            LinkEvent::ConnectFailed => {
                self.state = LinkState::Connecting;
                LinkAction::Wait(RECONNECT_DELAY_MS)
            },
            LinkEvent::Disconnected => {
                self.state = LinkState::Connecting;
                LinkAction::Wait(RECONNECT_DELAY_MS)
            },
            LinkEvent::DelayElapsed => self.begin(),
        }
    }
}

/// Whether the network stack may be handed to the services that run on it.
#[derive(Clone, Copy, Debug, PartialEq, Eq, Structural)]
pub enum Readiness {
    Ready,
    /// Check again after this many milliseconds.
    Poll(u32),
}

/// The stack is ready once the link is up and an address is configured; until then
/// it is polled.
pub fn readiness(link_up: bool, address_configured: bool) -> (r: Readiness)
    ensures
        r == (if link_up && address_configured {
            Readiness::Ready
        } else {
            Readiness::Poll(READY_POLL_MS)
        }),
{
    if link_up && address_configured {
        Readiness::Ready
    } else {
        Readiness::Poll(READY_POLL_MS)
    }
}

/// `n` failed connection attempts, each followed by the cool-down.
pub open spec fn failed_connects(n: nat) -> Seq<LinkEvent>
    decreases n,
{
    if n == 0 {
        seq![]
    } else {
        failed_connects((n - 1) as nat) + seq![LinkEvent::ConnectFailed, LinkEvent::DelayElapsed]
    }
}

proof fn lemma_link_run_append(s: LinkSupervisor, last: LinkAction, a: Seq<LinkEvent>, b: Seq<LinkEvent>)
    ensures
        link_run(s, last, a + b) == link_run(link_run(s, last, a).0, link_run(s, last, a).1, b),
    decreases a.len(),
{
    if a.len() == 0 {
        assert(a + b =~= b);
    } else {
        let (n, x) = link_step(s, a[0]);
        lemma_link_run_append(n, x, a.drop_first(), b);
        assert((a + b).drop_first() =~= a.drop_first() + b);
    }
}

/// Connecting is retried without limit: once the radio is started, after any number
/// of failed attempts, each followed by the cool-down, the next action is again an
/// attempt to connect.
pub proof fn lemma_reconnect_forever(n: nat)
    ensures
        link_run(
            LinkSupervisor { state: LinkState::Connecting, started: true },
            LinkAction::Connect,
            failed_connects(n),
        ) == (LinkSupervisor { state: LinkState::Connecting, started: true }, LinkAction::Connect),
    decreases n,
{
    reveal_with_fuel(link_run, 3);
    let s = LinkSupervisor { state: LinkState::Connecting, started: true };
    if n > 0 {
        lemma_reconnect_forever((n - 1) as nat);
        let pair = seq![LinkEvent::ConnectFailed, LinkEvent::DelayElapsed];
        lemma_link_run_append(s, LinkAction::Connect, failed_connects((n - 1) as nat), pair);
        assert(pair.drop_first() =~= seq![LinkEvent::DelayElapsed]);
        let one = seq![LinkEvent::DelayElapsed];
        assert(one.drop_first() =~= Seq::<LinkEvent>::empty());
        assert(link_run(s, LinkAction::Wait(RECONNECT_DELAY_MS), one) == (s, LinkAction::Connect));
        assert(link_run(s, LinkAction::Connect, pair) == (s, LinkAction::Connect));
        assert(failed_connects(n) == failed_connects((n - 1) as nat) + pair);
    } else {
        assert(failed_connects(0) =~= Seq::<LinkEvent>::empty());
    }
}

} // verus!
