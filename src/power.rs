//! Power condition from raw sensor samples, with hysteresis.
use vstd::prelude::*;

verus! {

/// Two-state power condition derived from raw sensor samples.
#[derive(Clone, Copy, Debug, PartialEq, Eq, Structural)]
pub enum ShutdownStatus {
    LowPower,
    NormalPower,
}

/// Largest sample, in the calibration of the board, that counts as regained power.
pub const NORMAL_POWER: u16 = 700;

/// Smallest sample that counts as losing power.
pub const POWER_LOSS: u16 = 1_000;

/// Largest sample that counts as losing power; above it the reading is noise.
pub const USB_POWER: u16 = 2_200;

/// The thresholds of the hysteresis band.
///
/// Power counts as lost when a sample lies in `[loss, usb]` and as regained when it
/// lies in `[0, normal]`. The two edges are distinct: `normal < loss <= usb`.
#[derive(Clone, Copy, Debug, PartialEq, Eq, Structural)]
pub struct Thresholds {
    normal: u16,
    loss: u16,
    usb: u16,
}

impl Thresholds {
    pub closed spec fn normal_spec(&self) -> u16 {
        self.normal
    }

    pub closed spec fn loss_spec(&self) -> u16 {
        self.loss
    }

    pub closed spec fn usb_spec(&self) -> u16 {
        self.usb
    }

    /// The band is not collapsed: the rising edge lies above the falling one.
    pub open spec fn wf(&self) -> bool {
        self.normal_spec() < self.loss_spec() <= self.usb_spec()
    }

    /// Thresholds from their three values; `None` unless `normal < loss <= usb`.
    pub fn new(normal: u16, loss: u16, usb: u16) -> (r: Option<Thresholds>)
        ensures
            r is Some <==> normal < loss <= usb,
            r is Some ==> r->Some_0.wf() && r->Some_0.normal_spec() == normal
                && r->Some_0.loss_spec() == loss && r->Some_0.usb_spec() == usb,
    {
        if normal < loss && loss <= usb {
            Some(Thresholds { normal, loss, usb })
        } else {
            None
        }
    }

    /// The values calibrated for the board's sensor.
    pub fn calibrated() -> (r: Thresholds)
        ensures
            r.wf(),
            r.normal_spec() == NORMAL_POWER,
            r.loss_spec() == POWER_LOSS,
            r.usb_spec() == USB_POWER,
    {
        Thresholds { normal: NORMAL_POWER, loss: POWER_LOSS, usb: USB_POWER }
    }

    pub fn normal(&self) -> (r: u16)
        ensures
            r == self.normal_spec(),
    {
        self.normal
    }

    pub fn loss(&self) -> (r: u16)
        ensures
            r == self.loss_spec(),
    {
        self.loss
    }

    pub fn usb(&self) -> (r: u16)
        ensures
            r == self.usb_spec(),
    {
        self.usb
    }
}

/// The condition that a sample moves `status` to, or `None` where it stays.
pub open spec fn transition(status: ShutdownStatus, sample: u16, t: Thresholds) -> Option<
    ShutdownStatus,
> {
    match status {
        ShutdownStatus::LowPower => if sample <= t.normal_spec() {
            Some(ShutdownStatus::NormalPower)
        } else {
            None
        },
        ShutdownStatus::NormalPower => if t.loss_spec() <= sample <= t.usb_spec() {
            Some(ShutdownStatus::LowPower)
        } else {
            None
        },
    }
}

/// The condition after `status` has seen `sample`.
pub open spec fn after(status: ShutdownStatus, sample: u16, t: Thresholds) -> ShutdownStatus {
    match transition(status, sample, t) {
        Some(s) => s,
        None => status,
    }
}

/// The condition after `status` has seen every sample of `samples`, in order.
pub open spec fn after_all(status: ShutdownStatus, samples: Seq<u16>, t: Thresholds) -> ShutdownStatus
    decreases samples.len(),
{
    if samples.len() == 0 {
        status
    } else {
        after_all(after(status, samples[0], t), samples.drop_first(), t)
    }
}

/// The condition that `sample` moves `status` to, or `None` where it stays.
pub fn next_status(status: ShutdownStatus, sample: u16, t: &Thresholds) -> (r: Option<ShutdownStatus>)
    ensures
        r == transition(status, sample, *t),
{
    match status {
        ShutdownStatus::LowPower => if sample <= t.normal {
            Some(ShutdownStatus::NormalPower)
        } else {
            None
        },
        ShutdownStatus::NormalPower => if t.loss <= sample && sample <= t.usb {
            Some(ShutdownStatus::LowPower)
        } else {
            None
        },
    }
}

/// Tracks the power condition across samples; starts in normal power.
pub struct PowerMonitor {
    status: ShutdownStatus,
    thresholds: Thresholds,
}

impl PowerMonitor {
    pub closed spec fn status_spec(&self) -> ShutdownStatus {
        self.status
    }

    pub closed spec fn thresholds_spec(&self) -> Thresholds {
        self.thresholds
    }

    pub fn new(thresholds: Thresholds) -> (m: PowerMonitor)
        ensures
            m.status_spec() == ShutdownStatus::NormalPower,
            m.thresholds_spec() == thresholds,
    {
        PowerMonitor { status: ShutdownStatus::NormalPower, thresholds }
    }

    pub fn status(&self) -> (r: ShutdownStatus)
        ensures
            r == self.status_spec(),
    {
        self.status
    }

    /// Takes one reading. A failed reading (`None`) changes nothing. A sample moves the
    /// condition as [`transition`] says, and the new condition is returned exactly
    /// when it changed, to be announced once.
    pub fn observe(&mut self, reading: Option<u16>) -> (r: Option<ShutdownStatus>)
        ensures
            final(self).thresholds_spec() == old(self).thresholds_spec(),
            reading is None ==> r is None && final(self).status_spec() == old(self).status_spec(),
            reading is Some ==> r == transition(
                old(self).status_spec(),
                reading->Some_0,
                old(self).thresholds_spec(),
            ) && final(self).status_spec() == after(
                old(self).status_spec(),
                reading->Some_0,
                old(self).thresholds_spec(),
            ),
    {
        match reading {
            None => None,
            Some(sample) => {
                let r = next_status(self.status, sample, &self.thresholds);
                if let Some(s) = r {
                    self.status = s;
                }
                r
            },
        }
    }
}

/// Only a sample within `[loss, usb]` takes normal power to low power, and only a
/// sample within `[0, normal]` takes low power back to normal.
pub proof fn lemma_transition_edges(sample: u16, t: Thresholds)
    ensures
        transition(ShutdownStatus::NormalPower, sample, t) is Some <==> t.loss_spec() <= sample
            <= t.usb_spec(),
        transition(ShutdownStatus::LowPower, sample, t) is Some <==> sample <= t.normal_spec(),
{
}

/// Samples that oscillate between `normal` and `normal + 1` never take normal power
/// to low power, however long they go on, where the band is wider than that step.
pub proof fn lemma_no_chatter(samples: Seq<u16>, t: Thresholds)
    requires
        t.wf(),
        t.normal_spec() + 1 < t.loss_spec(),
        forall|k: int|
            0 <= k < samples.len() ==> #[trigger] samples[k] == t.normal_spec() || samples[k]
                == t.normal_spec() + 1,
    ensures
        after_all(ShutdownStatus::NormalPower, samples, t) == ShutdownStatus::NormalPower,
    decreases samples.len(),
{
    if samples.len() > 0 {
        let rest = samples.drop_first();
        assert forall|k: int| 0 <= k < rest.len() implies #[trigger] rest[k] == t.normal_spec()
            || rest[k] == t.normal_spec() + 1 by {
            assert(rest[k] == samples[k + 1]);
        }
        assert(samples[0] == t.normal_spec() || samples[0] == t.normal_spec() + 1);
        lemma_no_chatter(rest, t);
    }
}

} // verus!
