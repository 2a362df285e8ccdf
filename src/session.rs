//! Lifecycle of one messaging session with the broker: connect, authenticate,
//! subscribe, then serve status publications and inbound messages; any error tears
//! the session down and a fresh one is built from the transport up.
use vstd::prelude::*;

verus! {

/// Consecutive refused logins, or failed subscriptions, that are retried; one more
/// gives up the session.
pub const MAX_RETRIES: u32 = 5;

/// Pause before a failed step is tried again, in milliseconds.
pub const RETRY_DELAY_MS: u32 = 5_000;

/// Where the session stands.
#[derive(Clone, Copy, Debug, PartialEq, Eq, Structural)]
pub enum SessionPhase {
    /// No session; nothing has been tried yet.
    Disconnected,
    /// Opening the transport connection to the broker.
    Connecting,
    /// Transport open; logging in to the broker.
    Authenticating,
    /// Logged in; subscribing to the inbound topic.
    Subscribing,
    /// Subscribed; racing status publications against inbound messages.
    Active,
}

/// What happened since the last action.
#[derive(Clone, Copy, Debug, PartialEq, Eq, Structural)]
pub enum SessionEvent {
    TransportConnected,
    TransportFailed,
    BrokerAccepted,
    BrokerRefused,
    Subscribed,
    SubscribeFailed,
    /// The pause asked for by [`SessionAction::Wait`] is over.
    DelayElapsed,
    /// A status is waiting to be published.
    StatusReady,
    PingSucceeded,
    PingFailed,
    Published,
    PublishFailed,
    /// A message arrived on the inbound topic and was handed to the print queue.
    MessageReceived,
    ReceiveFailed,
}

/// What the session asks for next.
#[derive(Clone, Copy, Debug, PartialEq, Eq, Structural)]
pub enum SessionAction {
    /// Open a fresh transport connection to the broker.
    OpenTransport,
    /// Pause for this many milliseconds, then report [`SessionEvent::DelayElapsed`].
    Wait(u32),
    /// Log in to the broker with the client's identity and credentials.
    ConnectBroker,
    /// Subscribe to the inbound topic.
    Subscribe,
    /// Wait for whichever comes first: a status to publish or an inbound message.
    AwaitEvents,
    /// Probe the broker connection before publishing.
    SendPing,
    /// Publish the waiting status on the client's topic.
    PublishStatus,
}

/// The session's state: its phase and the failures of the current request in a row.
#[derive(Clone, Copy, Debug, PartialEq, Eq, Structural)]
pub struct SessionManager {
    pub phase: SessionPhase,
    pub failures: u32,
}

/// A fresh session from the transport up.
pub open spec fn rebuild() -> (SessionManager, SessionAction) {
    (SessionManager { phase: SessionPhase::Connecting, failures: 0 }, SessionAction::OpenTransport)
}

/// A login or subscription in phase `phase` failed after `failures` failures in a row: it
/// is tried again after the retry delay, unless this is one failure more than
/// `MAX_RETRIES`, in which case the session is given up and rebuilt.
pub open spec fn bounded_retry(phase: SessionPhase, failures: u32) -> (SessionManager, SessionAction) {
    if failures >= MAX_RETRIES {
        rebuild()
    } else {
        (SessionManager { phase, failures: (failures + 1) as u32 }, SessionAction::Wait(RETRY_DELAY_MS))
    }
}

/// The next state and action of a session in state `s` once `e` happened. An event
/// that the phase does not expect is treated as an error: the session is rebuilt.
///
/// A refused login and a failed subscription are retried after the retry delay, up
/// to `MAX_RETRIES` times in a row; the failure after that rebuilds the session.
/// Since the broker closes the connection when it refuses a login, each new login
/// attempt opens a fresh transport first, still counting the refusals.
pub open spec fn session_step(s: SessionManager, e: SessionEvent) -> (SessionManager, SessionAction) {
    match s.phase {
        SessionPhase::Disconnected => rebuild(),
        SessionPhase::Connecting => match e {
            SessionEvent::TransportConnected => (
                SessionManager { phase: SessionPhase::Authenticating, failures: 0 },
                SessionAction::ConnectBroker,
            ),
            SessionEvent::TransportFailed => (s, SessionAction::Wait(RETRY_DELAY_MS)),
            SessionEvent::DelayElapsed => (s, SessionAction::OpenTransport),
            _ => rebuild(),
        },
        SessionPhase::Authenticating => match e {
            SessionEvent::BrokerAccepted => (
                SessionManager { phase: SessionPhase::Subscribing, failures: 0 },
                SessionAction::Subscribe,
            ),
            SessionEvent::BrokerRefused => bounded_retry(s.phase, s.failures),
            SessionEvent::DelayElapsed => (s, SessionAction::OpenTransport),
            SessionEvent::TransportConnected => (s, SessionAction::ConnectBroker),
            SessionEvent::TransportFailed => (s, SessionAction::Wait(RETRY_DELAY_MS)),
            _ => rebuild(),
        },
        SessionPhase::Subscribing => match e {
            SessionEvent::Subscribed => (
                SessionManager { phase: SessionPhase::Active, failures: 0 },
                SessionAction::AwaitEvents,
            ),
            SessionEvent::SubscribeFailed => bounded_retry(s.phase, s.failures),
            SessionEvent::DelayElapsed => (s, SessionAction::Subscribe),
            _ => rebuild(),
        },
        SessionPhase::Active => match e {
            SessionEvent::StatusReady => (s, SessionAction::SendPing),
            SessionEvent::PingSucceeded => (s, SessionAction::PublishStatus),
            SessionEvent::Published => (s, SessionAction::AwaitEvents),
            SessionEvent::MessageReceived => (s, SessionAction::AwaitEvents),
            _ => rebuild(),
        },
    }
}

/// The state after `events`, in order, and the action that the last one gave
/// (`last` where there are none).
pub open spec fn session_run(s: SessionManager, last: SessionAction, events: Seq<SessionEvent>) -> (
    SessionManager,
    SessionAction,
)
    decreases events.len(),
{
    if events.len() == 0 {
        (s, last)
    } else {
        let (n, a) = session_step(s, events[0]);
        session_run(n, a, events.drop_first())
    }
}

impl SessionManager {
    /// A session that has not started.
    pub fn new() -> (s: SessionManager)
        ensures
            s.phase == SessionPhase::Disconnected,
            s.failures == 0,
    {
        SessionManager { phase: SessionPhase::Disconnected, failures: 0 }
    }

    /// Starts building a session: the transport connection comes first.
    pub fn start(&mut self) -> (a: SessionAction)
        ensures
            (*final(self), a) == rebuild(),
    {
        self.phase = SessionPhase::Connecting;
        self.failures = 0;
        SessionAction::OpenTransport
    }

    fn retry(&mut self) -> (a: SessionAction)
        ensures
            (*final(self), a) == bounded_retry(old(self).phase, old(self).failures),
    {
        if self.failures >= MAX_RETRIES {
            self.start()
        } else {
            self.failures = self.failures + 1;
            SessionAction::Wait(RETRY_DELAY_MS)
        }
    }

    /// Moves the session on after `event` and says what to do next.
    pub fn step(&mut self, event: SessionEvent) -> (a: SessionAction)
        ensures
            (*final(self), a) == session_step(*old(self), event),
    {
        match self.phase {
            SessionPhase::Disconnected => self.start(),
            SessionPhase::Connecting => match event {
                SessionEvent::TransportConnected => {
                    self.phase = SessionPhase::Authenticating;
                    self.failures = 0;
                    SessionAction::ConnectBroker
                },
                SessionEvent::TransportFailed => SessionAction::Wait(RETRY_DELAY_MS),
                SessionEvent::DelayElapsed => SessionAction::OpenTransport,
                _ => self.start(),
            },
            SessionPhase::Authenticating => match event {
                SessionEvent::BrokerAccepted => {
                    self.phase = SessionPhase::Subscribing;
                    self.failures = 0;
                    SessionAction::Subscribe
                },
                SessionEvent::BrokerRefused => self.retry(),
                SessionEvent::DelayElapsed => SessionAction::OpenTransport,
                SessionEvent::TransportConnected => SessionAction::ConnectBroker,
                SessionEvent::TransportFailed => SessionAction::Wait(RETRY_DELAY_MS),
                _ => self.start(),
            },
            SessionPhase::Subscribing => match event {
                SessionEvent::Subscribed => {
                    self.phase = SessionPhase::Active;
                    self.failures = 0;
                    SessionAction::AwaitEvents
                },
                SessionEvent::SubscribeFailed => self.retry(),
                SessionEvent::DelayElapsed => SessionAction::Subscribe,
                _ => self.start(),
            },
            SessionPhase::Active => match event {
                SessionEvent::StatusReady => SessionAction::SendPing,
                SessionEvent::PingSucceeded => SessionAction::PublishStatus,
                SessionEvent::Published => SessionAction::AwaitEvents,
                SessionEvent::MessageReceived => SessionAction::AwaitEvents,
                _ => self.start(),
            },
        }
    }
}

/// `n` failed subscriptions, each followed by the retry delay.
pub open spec fn failed_subscriptions(n: nat) -> Seq<SessionEvent>
    decreases n,
{
    if n == 0 {
        seq![]
    } else {
        failed_subscriptions((n - 1) as nat) + seq![SessionEvent::SubscribeFailed, SessionEvent::DelayElapsed]
    }
}

proof fn lemma_run_append(
    s: SessionManager,
    last: SessionAction,
    a: Seq<SessionEvent>,
    b: Seq<SessionEvent>,
)
    ensures
        session_run(s, last, a + b) == session_run(
            session_run(s, last, a).0,
            session_run(s, last, a).1,
            b,
        ),
    decreases a.len(),
{
    if a.len() == 0 {
        assert(a + b =~= b);
    } else {
        let (n, x) = session_step(s, a[0]);
        lemma_run_append(n, x, a.drop_first(), b);
        assert((a + b).drop_first() =~= a.drop_first() + b);
    }
}

proof fn lemma_subscribe_retries(n: nat)
    requires
        n <= MAX_RETRIES,
    ensures
        session_run(
            SessionManager { phase: SessionPhase::Subscribing, failures: 0 },
            SessionAction::Subscribe,
            failed_subscriptions(n),
        ) == (SessionManager { phase: SessionPhase::Subscribing, failures: n as u32 }, SessionAction::Subscribe),
    decreases n,
{
    reveal_with_fuel(session_run, 3);
    let s0 = SessionManager { phase: SessionPhase::Subscribing, failures: 0 };
    if n > 0 {
        lemma_subscribe_retries((n - 1) as nat);
        let pair = seq![SessionEvent::SubscribeFailed, SessionEvent::DelayElapsed];
        lemma_run_append(s0, SessionAction::Subscribe, failed_subscriptions((n - 1) as nat), pair);
        let mid = SessionManager { phase: SessionPhase::Subscribing, failures: (n - 1) as u32 };
        let after_fail = SessionManager { phase: SessionPhase::Subscribing, failures: n as u32 };
        assert(session_step(mid, SessionEvent::SubscribeFailed) == (after_fail, SessionAction::Wait(RETRY_DELAY_MS)));
        assert(pair.drop_first() =~= seq![SessionEvent::DelayElapsed]);
        let one = seq![SessionEvent::DelayElapsed];
        assert(one.drop_first() =~= Seq::<SessionEvent>::empty());
        assert(session_step(after_fail, SessionEvent::DelayElapsed) == (after_fail, SessionAction::Subscribe));
        assert(session_run(after_fail, SessionAction::Wait(RETRY_DELAY_MS), one) == (after_fail, SessionAction::Subscribe));
        assert(session_run(mid, SessionAction::Subscribe, pair) == (after_fail, SessionAction::Subscribe));
        assert(failed_subscriptions(n) == failed_subscriptions((n - 1) as nat) + pair);
    } else {
        assert(failed_subscriptions(0) =~= Seq::<SessionEvent>::empty());
    }
}

/// Subscribing is retried `MAX_RETRIES` times; the failure after them gives the
/// session up and starts again from the transport connection.
pub proof fn lemma_session_rebuild()
    ensures
        session_run(
            SessionManager { phase: SessionPhase::Subscribing, failures: 0 },
            SessionAction::Subscribe,
            failed_subscriptions(MAX_RETRIES as nat),
        ).1 == SessionAction::Subscribe,
        session_run(
            SessionManager { phase: SessionPhase::Subscribing, failures: 0 },
            SessionAction::Subscribe,
            failed_subscriptions(MAX_RETRIES as nat) + seq![SessionEvent::SubscribeFailed],
        ) == rebuild(),
{
    reveal_with_fuel(session_run, 2);
    let s0 = SessionManager { phase: SessionPhase::Subscribing, failures: 0 };
    lemma_subscribe_retries(MAX_RETRIES as nat);
    lemma_run_append(s0, SessionAction::Subscribe, failed_subscriptions(MAX_RETRIES as nat), seq![SessionEvent::SubscribeFailed]);
    let one = seq![SessionEvent::SubscribeFailed];
    assert(one.drop_first() =~= Seq::<SessionEvent>::empty());
    let full = SessionManager { phase: SessionPhase::Subscribing, failures: MAX_RETRIES };
    assert(session_step(full, SessionEvent::SubscribeFailed) == rebuild());
    assert(session_run(full, SessionAction::Subscribe, one) == rebuild());
}

/// `n` refused logins, each followed by the retry delay and a fresh transport.
pub open spec fn refused_logins(n: nat) -> Seq<SessionEvent>
    decreases n,
{
    if n == 0 {
        seq![]
    } else {
        refused_logins((n - 1) as nat) + seq![
            SessionEvent::BrokerRefused,
            SessionEvent::DelayElapsed,
            SessionEvent::TransportConnected,
        ]
    }
}

proof fn lemma_login_retries(n: nat)
    requires
        n <= MAX_RETRIES,
    ensures
        session_run(
            SessionManager { phase: SessionPhase::Authenticating, failures: 0 },
            SessionAction::ConnectBroker,
            refused_logins(n),
        ) == (SessionManager { phase: SessionPhase::Authenticating, failures: n as u32 }, SessionAction::ConnectBroker),
    decreases n,
{
    reveal_with_fuel(session_run, 4);
    let s0 = SessionManager { phase: SessionPhase::Authenticating, failures: 0 };
    if n > 0 {
        lemma_login_retries((n - 1) as nat);
        let round = seq![
            SessionEvent::BrokerRefused,
            SessionEvent::DelayElapsed,
            SessionEvent::TransportConnected,
        ];
        lemma_run_append(s0, SessionAction::ConnectBroker, refused_logins((n - 1) as nat), round);
        let mid = SessionManager { phase: SessionPhase::Authenticating, failures: (n - 1) as u32 };
        let after = SessionManager { phase: SessionPhase::Authenticating, failures: n as u32 };
        assert(session_step(mid, SessionEvent::BrokerRefused) == (after, SessionAction::Wait(RETRY_DELAY_MS)));
        let two = seq![SessionEvent::DelayElapsed, SessionEvent::TransportConnected];
        let one = seq![SessionEvent::TransportConnected];
        assert(round.drop_first() =~= two);
        assert(two.drop_first() =~= one);
        assert(one.drop_first() =~= Seq::<SessionEvent>::empty());
        assert(session_run(after, SessionAction::OpenTransport, one) == (after, SessionAction::ConnectBroker));
        assert(session_run(after, SessionAction::Wait(RETRY_DELAY_MS), two) == (after, SessionAction::ConnectBroker));
        assert(session_run(mid, SessionAction::ConnectBroker, round) == (after, SessionAction::ConnectBroker));
        assert(refused_logins(n) == refused_logins((n - 1) as nat) + round);
    } else {
        assert(refused_logins(0) =~= Seq::<SessionEvent>::empty());
    }
}

/// A refused login is tried again, after the retry delay and over a fresh transport,
/// `MAX_RETRIES` times; the refusal after them gives the session up and starts again
/// from the transport connection. An acceptance after any of those retries goes on to
/// subscribing at once.
pub proof fn lemma_login_rebuild(n: nat)
    requires
        n <= MAX_RETRIES,
    ensures
        session_run(
            SessionManager { phase: SessionPhase::Authenticating, failures: 0 },
            SessionAction::ConnectBroker,
            refused_logins(n),
        ).1 == SessionAction::ConnectBroker,
        session_run(
            SessionManager { phase: SessionPhase::Authenticating, failures: 0 },
            SessionAction::ConnectBroker,
            refused_logins(n) + seq![SessionEvent::BrokerAccepted],
        ) == (SessionManager { phase: SessionPhase::Subscribing, failures: 0 }, SessionAction::Subscribe),
        session_run(
            SessionManager { phase: SessionPhase::Authenticating, failures: 0 },
            SessionAction::ConnectBroker,
            refused_logins(MAX_RETRIES as nat) + seq![SessionEvent::BrokerRefused],
        ) == rebuild(),
{
    reveal_with_fuel(session_run, 2);
    let s0 = SessionManager { phase: SessionPhase::Authenticating, failures: 0 };
    lemma_login_retries(n);
    lemma_login_retries(MAX_RETRIES as nat);
    let accept = seq![SessionEvent::BrokerAccepted];
    let refuse = seq![SessionEvent::BrokerRefused];
    lemma_run_append(s0, SessionAction::ConnectBroker, refused_logins(n), accept);
    lemma_run_append(s0, SessionAction::ConnectBroker, refused_logins(MAX_RETRIES as nat), refuse);
    assert(accept.drop_first() =~= Seq::<SessionEvent>::empty());
    assert(refuse.drop_first() =~= Seq::<SessionEvent>::empty());
    let at_n = SessionManager { phase: SessionPhase::Authenticating, failures: n as u32 };
    let full = SessionManager { phase: SessionPhase::Authenticating, failures: MAX_RETRIES };
    assert(session_run(at_n, SessionAction::ConnectBroker, accept) == (SessionManager { phase: SessionPhase::Subscribing, failures: 0 }, SessionAction::Subscribe));
    assert(session_step(full, SessionEvent::BrokerRefused) == rebuild());
    assert(session_run(full, SessionAction::ConnectBroker, refuse) == rebuild());
}

} // verus!
