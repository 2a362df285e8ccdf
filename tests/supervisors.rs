use scribe::link::{readiness, LinkAction, LinkEvent, LinkState, LinkSupervisor, Readiness, READY_POLL_MS, RECONNECT_DELAY_MS};
use scribe::power::{next_status, PowerMonitor, ShutdownStatus, Thresholds, NORMAL_POWER, POWER_LOSS, USB_POWER};
use scribe::session::{SessionAction, SessionEvent, SessionManager, SessionPhase, MAX_RETRIES, RETRY_DELAY_MS};

#[test]
fn hysteresis_oscillation_never_goes_low() {
    let mut m = PowerMonitor::new(Thresholds::calibrated());
    for i in 0..1000u32 {
        let sample = if i % 2 == 0 { NORMAL_POWER } else { NORMAL_POWER + 1 };
        assert_eq!(m.observe(Some(sample)), None);
        assert_eq!(m.status(), ShutdownStatus::NormalPower);
    }
    assert_eq!(m.observe(Some(POWER_LOSS)), Some(ShutdownStatus::LowPower));
    assert_eq!(m.status(), ShutdownStatus::LowPower);
}

#[test]
fn transitions_are_announced_once() {
    let mut m = PowerMonitor::new(Thresholds::calibrated());
    assert_eq!(m.observe(Some(1500)), Some(ShutdownStatus::LowPower));
    assert_eq!(m.observe(Some(1500)), None);
    assert_eq!(m.observe(Some(900)), None);
    assert_eq!(m.observe(Some(701)), None);
    assert_eq!(m.status(), ShutdownStatus::LowPower);
    assert_eq!(m.observe(Some(700)), Some(ShutdownStatus::NormalPower));
    assert_eq!(m.observe(Some(0)), None);
    assert_eq!(m.status(), ShutdownStatus::NormalPower);
}

#[test]
fn samples_above_usb_threshold_are_noise() {
    let mut m = PowerMonitor::new(Thresholds::calibrated());
    assert_eq!(m.observe(Some(USB_POWER + 1)), None);
    assert_eq!(m.observe(Some(u16::MAX)), None);
    assert_eq!(m.observe(Some(USB_POWER)), Some(ShutdownStatus::LowPower));
}

#[test]
fn failed_reading_changes_nothing() {
    let mut m = PowerMonitor::new(Thresholds::calibrated());
    assert_eq!(m.observe(Some(POWER_LOSS)), Some(ShutdownStatus::LowPower));
    assert_eq!(m.observe(None), None);
    assert_eq!(m.status(), ShutdownStatus::LowPower);
}

#[test]
fn thresholds_must_not_collapse() {
    assert!(Thresholds::new(700, 700, 2200).is_none());
    assert!(Thresholds::new(800, 700, 2200).is_none());
    assert!(Thresholds::new(700, 2300, 2200).is_none());
    let t = Thresholds::new(10, 20, 20).unwrap();
    assert_eq!((t.normal(), t.loss(), t.usb()), (10, 20, 20));
    assert_eq!(next_status(ShutdownStatus::NormalPower, 20, &t), Some(ShutdownStatus::LowPower));
    assert_eq!(next_status(ShutdownStatus::NormalPower, 19, &t), None);
    assert_eq!(next_status(ShutdownStatus::LowPower, 10, &t), Some(ShutdownStatus::NormalPower));
    assert_eq!(next_status(ShutdownStatus::LowPower, 11, &t), None);
}

fn subscribed_session() -> SessionManager {
    let mut s = SessionManager::new();
    assert_eq!(s.start(), SessionAction::OpenTransport);
    assert_eq!(s.step(SessionEvent::TransportConnected), SessionAction::ConnectBroker);
    assert_eq!(s.step(SessionEvent::BrokerAccepted), SessionAction::Subscribe);
    s
}

#[test]
fn session_rebuilds_after_six_subscribe_failures() {
    let mut s = subscribed_session();
    for _ in 0..MAX_RETRIES {
        assert_eq!(s.step(SessionEvent::SubscribeFailed), SessionAction::Wait(RETRY_DELAY_MS));
        assert_eq!(s.phase, SessionPhase::Subscribing);
        assert_eq!(s.step(SessionEvent::DelayElapsed), SessionAction::Subscribe);
    }
    assert_eq!(s.step(SessionEvent::SubscribeFailed), SessionAction::OpenTransport);
    assert_eq!(s.phase, SessionPhase::Connecting);
    assert_eq!(s.failures, 0);
}

#[test]
fn session_subscribes_after_five_failures() {
    let mut s = subscribed_session();
    for _ in 0..MAX_RETRIES {
        assert_eq!(s.step(SessionEvent::SubscribeFailed), SessionAction::Wait(RETRY_DELAY_MS));
        assert_eq!(s.step(SessionEvent::DelayElapsed), SessionAction::Subscribe);
    }
    assert_eq!(s.step(SessionEvent::Subscribed), SessionAction::AwaitEvents);
    assert_eq!(s.phase, SessionPhase::Active);
}

#[test]
fn refused_login_is_retried_then_rebuilt() {
    let mut s = SessionManager::new();
    s.start();
    assert_eq!(s.step(SessionEvent::TransportConnected), SessionAction::ConnectBroker);
    for n in 1..=MAX_RETRIES {
        assert_eq!(s.step(SessionEvent::BrokerRefused), SessionAction::Wait(RETRY_DELAY_MS));
        assert_eq!(s.failures, n);
        assert_eq!(s.step(SessionEvent::DelayElapsed), SessionAction::OpenTransport);
        assert_eq!(s.phase, SessionPhase::Authenticating);
        assert_eq!(s.step(SessionEvent::TransportConnected), SessionAction::ConnectBroker);
    }
    // the sixth refusal gives the session up
    assert_eq!(s.step(SessionEvent::BrokerRefused), SessionAction::OpenTransport);
    assert_eq!(s.phase, SessionPhase::Connecting);
    assert_eq!(s.failures, 0);
}

#[test]
fn login_accepted_after_refusals_subscribes() {
    let mut s = SessionManager::new();
    s.start();
    s.step(SessionEvent::TransportConnected);
    assert_eq!(s.step(SessionEvent::BrokerRefused), SessionAction::Wait(RETRY_DELAY_MS));
    assert_eq!(s.step(SessionEvent::DelayElapsed), SessionAction::OpenTransport);
    // the fresh transport fails once and is tried again after the delay
    assert_eq!(s.step(SessionEvent::TransportFailed), SessionAction::Wait(RETRY_DELAY_MS));
    assert_eq!(s.step(SessionEvent::DelayElapsed), SessionAction::OpenTransport);
    assert_eq!(s.step(SessionEvent::TransportConnected), SessionAction::ConnectBroker);
    assert_eq!(s.step(SessionEvent::BrokerAccepted), SessionAction::Subscribe);
    assert_eq!(s.phase, SessionPhase::Subscribing);
    assert_eq!(s.failures, 0);
}

#[test]
fn transport_connect_is_retried_without_limit() {
    let mut s = SessionManager::new();
    assert_eq!(s.step(SessionEvent::DelayElapsed), SessionAction::OpenTransport);
    for _ in 0..100 {
        assert_eq!(s.step(SessionEvent::TransportFailed), SessionAction::Wait(RETRY_DELAY_MS));
        assert_eq!(s.step(SessionEvent::DelayElapsed), SessionAction::OpenTransport);
    }
    assert_eq!(s.phase, SessionPhase::Connecting);
}

#[test]
fn active_session_publishes_and_receives() {
    let mut s = subscribed_session();
    s.step(SessionEvent::Subscribed);
    assert_eq!(s.step(SessionEvent::StatusReady), SessionAction::SendPing);
    assert_eq!(s.step(SessionEvent::PingSucceeded), SessionAction::PublishStatus);
    assert_eq!(s.step(SessionEvent::Published), SessionAction::AwaitEvents);
    assert_eq!(s.step(SessionEvent::MessageReceived), SessionAction::AwaitEvents);
    assert_eq!(s.phase, SessionPhase::Active);
}

#[test]
fn active_session_errors_rebuild() {
    for e in [SessionEvent::PingFailed, SessionEvent::PublishFailed, SessionEvent::ReceiveFailed] {
        let mut s = subscribed_session();
        s.step(SessionEvent::Subscribed);
        assert_eq!(s.step(e), SessionAction::OpenTransport);
        assert_eq!(s.phase, SessionPhase::Connecting);
    }
}

#[test]
fn link_reconnects_after_a_hundred_failures() {
    let mut l = LinkSupervisor::new();
    assert_eq!(l.begin(), LinkAction::StartRadio);
    assert_eq!(l.step(LinkEvent::Started), LinkAction::Connect);
    for _ in 0..100 {
        assert_eq!(l.step(LinkEvent::ConnectFailed), LinkAction::Wait(RECONNECT_DELAY_MS));
        assert_eq!(l.step(LinkEvent::DelayElapsed), LinkAction::Connect);
    }
    // the 101st attempt
    assert_eq!(l.step(LinkEvent::Connected), LinkAction::AwaitDisconnect);
    assert_eq!(l.state, LinkState::Up);
}

#[test]
fn link_cools_down_after_disconnect() {
    let mut l = LinkSupervisor::new();
    l.begin();
    l.step(LinkEvent::Started);
    l.step(LinkEvent::Connected);
    assert_eq!(l.step(LinkEvent::Disconnected), LinkAction::Wait(RECONNECT_DELAY_MS));
    assert_eq!(l.state, LinkState::Connecting);
    assert_eq!(l.step(LinkEvent::DelayElapsed), LinkAction::Connect);
}

#[test]
fn link_restarts_radio_after_failed_start() {
    let mut l = LinkSupervisor::new();
    assert_eq!(l.begin(), LinkAction::StartRadio);
    assert_eq!(l.step(LinkEvent::StartFailed), LinkAction::Wait(RECONNECT_DELAY_MS));
    assert_eq!(l.step(LinkEvent::DelayElapsed), LinkAction::StartRadio);
    assert!(!l.started);
}

#[test]
fn stack_is_ready_with_link_and_address() {
    assert_eq!(readiness(true, true), Readiness::Ready);
    assert_eq!(readiness(true, false), Readiness::Poll(READY_POLL_MS));
    assert_eq!(readiness(false, true), Readiness::Poll(READY_POLL_MS));
    assert_eq!(readiness(false, false), Readiness::Poll(500));
}
