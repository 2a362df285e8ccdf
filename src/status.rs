//! Status reports that the device publishes: periodic heartbeats and power changes.
use vstd::prelude::*;
use vstd::string::*;
use crate::power::ShutdownStatus;

verus! {

/// Period of the heartbeat status, in milliseconds.
pub const HEARTBEAT_MS: u32 = 5_000;

/// Decimal digits, by value.
pub const DECIMAL_DIGITS: &'static str = "0123456789";

/// The device's state as reported to the broker.
#[derive(Clone, Copy, Debug, PartialEq, Eq, Structural)]
pub enum StatusState {
    Up,
    ShuttingDown,
    RegainedPower,
    Down,
}

/// One status report: the state and the latest power sample.
#[derive(Clone, Copy, Debug, PartialEq, Eq, Structural)]
pub struct Status {
    pub state: StatusState,
    pub power_level: u16,
}

/// Remembers whether the device is up or going down, and turns heartbeats and power
/// changes into status reports.
pub struct StatusReporter {
    state: StatusState,
}

impl StatusReporter {
    pub closed spec fn state_spec(&self) -> StatusState {
        self.state
    }

    /// A reporter for a device that is up.
    pub fn new() -> (r: StatusReporter)
        ensures
            r.state_spec() == StatusState::Up,
    {
        StatusReporter { state: StatusState::Up }
    }

    pub fn state(&self) -> (r: StatusState)
        ensures
            r == self.state_spec(),
    {
        self.state
    }

    /// The heartbeat report: the current state with the latest power sample.
    pub fn on_tick(&self, power_level: u16) -> (s: Status)
        ensures
            s == (Status { state: self.state_spec(), power_level }),
    {
        Status { state: self.state, power_level }
    }

    /// The report of a power change. Losing power reports `ShuttingDown` and leaves the
    /// device `Down`; regaining it reports `RegainedPower` and leaves it `Up`.
    pub fn on_power_change(&mut self, change: ShutdownStatus, power_level: u16) -> (s: Status)
        ensures
            change == ShutdownStatus::LowPower ==> final(self).state_spec() == StatusState::Down
                && s == (Status { state: StatusState::ShuttingDown, power_level }),
            change == ShutdownStatus::NormalPower ==> final(self).state_spec() == StatusState::Up
                && s == (Status { state: StatusState::RegainedPower, power_level }),
    {
        match change {
            ShutdownStatus::LowPower => {
                self.state = StatusState::Down;
                Status { state: StatusState::ShuttingDown, power_level }
            },
            ShutdownStatus::NormalPower => {
                self.state = StatusState::Up;
                Status { state: StatusState::RegainedPower, power_level }
            },
        }
    }
}

/// The name of a state.
pub open spec fn state_name(s: StatusState) -> Seq<char> {
    match s {
        StatusState::Up => "Up"@,
        StatusState::ShuttingDown => "ShuttingDown"@,
        StatusState::RegainedPower => "RegainedPower"@,
        StatusState::Down => "Down"@,
    }
}

/// `n` in decimal, without leading zeros.
pub open spec fn decimal(n: nat) -> Seq<char>
    decreases n,
{
    if n < 10 {
        seq![DECIMAL_DIGITS@[n as int]]
    } else {
        decimal(n / 10) + seq![DECIMAL_DIGITS@[(n % 10) as int]]
    }
}

/// The text published for a status report.
pub open spec fn status_text(s: Status) -> Seq<char> {
    "Status { state: "@ + state_name(s.state) + ", power_level: "@ + decimal(s.power_level as nat)
        + " }"@
}

fn push_decimal(out: &mut String, n: u16)
    ensures
        final(out)@ == old(out)@ + decimal(n as nat),
    decreases n,
{
    let ghost start = out@;
    proof {
        reveal_strlit("0123456789");
    }
    if n >= 10 {
        push_decimal(out, n / 10);
    }
    let d = (n % 10) as usize;
    let digit = DECIMAL_DIGITS.substring_char(d, d + 1);
    out.append(digit);
    assert(digit@ =~= seq![DECIMAL_DIGITS@[d as int]]);
    assert(out@ =~= start + decimal(n as nat));
}

/// The text published for a status report, for example
/// `Status { state: Up, power_level: 700 }`.
pub fn status_payload(s: &Status) -> (r: String)
    ensures
        r@ == status_text(*s),
{
    let mut out = String::new();
    out.append("Status { state: ");
    let name = match s.state {
        StatusState::Up => "Up",
        StatusState::ShuttingDown => "ShuttingDown",
        StatusState::RegainedPower => "RegainedPower",
        StatusState::Down => "Down",
    };
    out.append(name);
    out.append(", power_level: ");
    push_decimal(&mut out, s.power_level);
    out.append(" }");
    assert(out@ =~= status_text(*s));
    out
}

} // verus!
