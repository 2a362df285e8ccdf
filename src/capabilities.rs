//! The modes a wireless controller supports.
use vstd::prelude::*;

verus! {

/// Which wireless modes a controller supports.
#[derive(Clone, Copy, Debug, PartialEq, Eq, Structural)]
pub struct Capabilities {
    pub client: bool,
    pub access_point: bool,
    pub ap_sta: bool,
}

/// Builds a [`Capabilities`] one mode at a time, from none.
pub struct CapabilitiesBuilder(Capabilities);

impl Capabilities {
    /// A builder with no mode set.
    pub fn builder() -> (b: CapabilitiesBuilder)
        ensures
            b.current() == (Capabilities { client: false, access_point: false, ap_sta: false }),
    {
        CapabilitiesBuilder(Capabilities { client: false, access_point: false, ap_sta: false })
    }
}

impl CapabilitiesBuilder {
    /// The capabilities built so far.
    pub closed spec fn current(&self) -> Capabilities {
        self.0
    }

    /// Adds station (client) mode.
    pub fn client_capable(self) -> (b: CapabilitiesBuilder)
        ensures
            b.current() == (Capabilities { client: true, ..self.current() }),
    {
        let mut b = self;
        b.0.client = true;
        b
    }

    /// Adds access point mode.
    pub fn access_point_capable(self) -> (b: CapabilitiesBuilder)
        ensures
            b.current() == (Capabilities { access_point: true, ..self.current() }),
    {
        let mut b = self;
        b.0.access_point = true;
        b
    }

    /// Adds simultaneous access point and station mode.
    pub fn ap_sta_capable(self) -> (b: CapabilitiesBuilder)
        ensures
            b.current() == (Capabilities { ap_sta: true, ..self.current() }),
    {
        let mut b = self;
        b.0.ap_sta = true;
        b
    }

    /// The capabilities built.
    pub fn build(self) -> (c: Capabilities)
        ensures
            c == self.current(),
    {
        self.0
    }
}

/// The capabilities of the board's wireless controller: every mode.
pub fn controller_capabilities() -> (c: Capabilities)
    ensures
        c == (Capabilities { client: true, access_point: true, ap_sta: true }),
{
    Capabilities::builder().access_point_capable().client_capable().ap_sta_capable().build()
}

} // verus!
