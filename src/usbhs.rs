use vstd::prelude::*;

use crate::constants::NUM_ENDPOINTS;

verus! {

/// One hardware endpoint-descriptor entry (one buffer of one direction).
#[derive(Clone, Copy, Debug, PartialEq, Eq, Structural)]
pub struct EpDescriptor {
    /// A transfer is armed or in flight; hardware clears it on completion.
    pub active: bool,
    pub stalled: bool,
    /// Bytes to send (IN), room armed or bytes received once inactive (OUT).
    pub nbytes: usize,
    /// Absolute address of the buffer the entry points at.
    pub addr: u32,
}

impl EpDescriptor {
    pub fn idle() -> (r: Self)
        ensures
            r == Self::idle_spec(),
    {
        EpDescriptor { active: false, stalled: false, nbytes: 0, addr: 0 }
    }
}

/// The device controller's register file as plain values: a powered,
/// clocked and reset peripheral. Interrupt-status bit `2 * i` flags an OUT
/// event on endpoint `i`, bit `2 * i + 1` an IN event, bit 31 the device
/// interrupt.
pub struct UsbHS {
    pub dev_addr: u8,
    pub dev_en: bool,
    pub dcon: bool,
    /// The device is suspended.
    pub dsus: bool,
    /// Bus reset detected.
    pub dres_c: bool,
    /// Suspend state changed.
    pub dsus_c: bool,
    /// Low-power suspend.
    pub lpm_sus: bool,
    /// Remote wakeup pending while in low-power suspend.
    pub lpm_rewp: bool,
    /// A SETUP packet sits in the control endpoint's setup buffer.
    pub setup: bool,
    pub intstat: u32,
    pub inten: u32,
    pub phy_clkgate: bool,
    pub databufstart: u32,
    pub epliststart: u32,
    pub ep_out: Vec<EpDescriptor>,
    pub ep_in: Vec<EpDescriptor>,
    pub setup_desc: EpDescriptor,
}

impl UsbHS {
    pub open spec fn wf(&self) -> bool {
        &&& self.ep_out@.len() == NUM_ENDPOINTS
        &&& self.ep_in@.len() == NUM_ENDPOINTS
    }

    /// The register file right after bring-up: everything cleared.
    pub fn new() -> (r: Self)
        ensures
            r.wf(),
            r.dev_addr == 0,
            !r.dev_en && !r.dcon && !r.dsus && !r.dres_c && !r.dsus_c,
            !r.lpm_sus && !r.lpm_rewp && !r.setup && !r.phy_clkgate,
            r.intstat == 0 && r.inten == 0 && r.databufstart == 0 && r.epliststart == 0,
            forall|i: int| 0 <= i < NUM_ENDPOINTS ==> r.ep_out@[i] == EpDescriptor::idle_spec(),
            forall|i: int| 0 <= i < NUM_ENDPOINTS ==> r.ep_in@[i] == EpDescriptor::idle_spec(),
            r.setup_desc == EpDescriptor::idle_spec(),
    {
        let mut ep_out: Vec<EpDescriptor> = Vec::new();
        let mut ep_in: Vec<EpDescriptor> = Vec::new();
        let mut i: usize = 0;
        while i < NUM_ENDPOINTS
            invariant
                i <= NUM_ENDPOINTS,
                ep_out@.len() == i,
                ep_in@.len() == i,
                forall|k: int| 0 <= k < i ==> ep_out@[k] == EpDescriptor::idle_spec(),
                forall|k: int| 0 <= k < i ==> ep_in@[k] == EpDescriptor::idle_spec(),
            decreases NUM_ENDPOINTS - i,
        {
            ep_out.push(EpDescriptor::idle());
            ep_in.push(EpDescriptor::idle());
            i = i + 1;
        }
        UsbHS {
            dev_addr: 0,
            dev_en: false,
            dcon: false,
            dsus: false,
            dres_c: false,
            dsus_c: false,
            lpm_sus: false,
            lpm_rewp: false,
            setup: false,
            intstat: 0,
            inten: 0,
            phy_clkgate: false,
            databufstart: 0,
            epliststart: 0,
            ep_out,
            ep_in,
            setup_desc: EpDescriptor::idle(),
        }
    }
}

impl EpDescriptor {
    pub open spec fn idle_spec() -> EpDescriptor {
        EpDescriptor { active: false, stalled: false, nbytes: 0, addr: 0 }
    }
}

} // verus!
