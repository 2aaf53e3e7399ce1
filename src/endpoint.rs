use vstd::prelude::*;

use crate::constants::{EP_MEM_ADDR, EP_MEM_SIZE, NUM_ENDPOINTS};
use crate::endpoint_memory::EndpointBuffer;
use crate::error::UsbError;
use crate::usbhs::{EpDescriptor, UsbHS};

verus! {

/// Direction of traffic, seen from the host.
#[derive(Clone, Copy, Debug, PartialEq, Eq, Structural)]
pub enum UsbDirection {
    Out,
    In,
}

/// Transfer type of an endpoint.
#[derive(Clone, Copy, Debug, PartialEq, Eq, Structural)]
pub enum EndpointType {
    Control,
    Isochronous,
    Bulk,
    Interrupt,
}

/// A logical endpoint index together with a direction.
#[derive(Clone, Copy, Debug, PartialEq, Eq, Structural)]
pub struct EndpointAddress {
    pub index: usize,
    pub direction: UsbDirection,
}

/// Absolute address of a buffer, as programmed into a descriptor.
pub open spec fn buf_addr(b: EndpointBuffer) -> u32 {
    (EP_MEM_ADDR + b.spec_offset()) as u32
}

/// Descriptor of an OUT (or SETUP) buffer armed to receive a full buffer.
pub open spec fn armed_out(b: EndpointBuffer, old_d: EpDescriptor) -> EpDescriptor {
    EpDescriptor { active: true, stalled: old_d.stalled, nbytes: b.bytes().len() as usize, addr: buf_addr(b) }
}

/// Descriptor of an IN buffer with nothing to send.
pub open spec fn idle_in(b: EndpointBuffer, old_d: EpDescriptor) -> EpDescriptor {
    EpDescriptor { active: false, stalled: old_d.stalled, nbytes: 0, addr: buf_addr(b) }
}

/// Descriptor of the setup buffer, ready for the next SETUP packet.
pub open spec fn idle_setup(b: EndpointBuffer) -> EpDescriptor {
    EpDescriptor { active: false, stalled: false, nbytes: 0, addr: buf_addr(b) }
}

/// `x` with bit `k` cleared.
pub open spec fn clear_bit(x: u32, k: int) -> u32 {
    x & !(1u32 << (k as u32))
}

/// Whether a buffer lies inside the endpoint buffer region.
pub open spec fn buf_in_region(b: Option<EndpointBuffer>) -> bool {
    b matches Some(x) ==> x.spec_offset() + x.bytes().len() <= EP_MEM_SIZE
}

/// What reading endpoint `ep` does: `regs`, `buf` before; `r`, `regs2`,
/// `buf2` after.
pub open spec fn read_outcome(
    ep: Endpoint,
    regs: UsbHS,
    buf: Seq<u8>,
    r: Result<usize, UsbError>,
    regs2: UsbHS,
    buf2: Seq<u8>,
) -> bool {
    &&& (r is Err ==> regs2 == regs && buf2 == buf)
    &&& if ep.index == 0 && regs.setup {
        match ep.setup_buf {
            None => r == Err::<usize, UsbError>(UsbError::InvalidEndpoint),
            Some(b) => if buf.len() < b.bytes().len() {
                r == Err::<usize, UsbError>(UsbError::BufferOverflow)
            } else {
                &&& r == Ok::<usize, UsbError>(b.bytes().len() as usize)
                &&& buf2 == b.bytes() + buf.skip(b.bytes().len() as int)
                &&& regs2 == (UsbHS {
                    setup: false,
                    intstat: clear_bit(regs.intstat, 0),
                    ..regs
                })
            },
        }
    } else {
        match ep.out_buf {
            None => r == Err::<usize, UsbError>(UsbError::InvalidEndpoint),
            Some(b) => {
                let d = regs.ep_out@[ep.index as int];
                let n = if d.nbytes < b.bytes().len() {
                    d.nbytes as int
                } else {
                    b.bytes().len() as int
                };
                if d.active {
                    r == Err::<usize, UsbError>(UsbError::WouldBlock)
                } else if buf.len() < n {
                    r == Err::<usize, UsbError>(UsbError::BufferOverflow)
                } else {
                    &&& r == Ok::<usize, UsbError>(n as usize)
                    &&& buf2 == b.bytes().take(n) + buf.skip(n)
                    &&& regs2 == (UsbHS {
                        ep_out: regs2.ep_out,
                        intstat: clear_bit(regs.intstat, 2 * ep.index),
                        ..regs
                    })
                    &&& regs2.ep_out@ == regs.ep_out@.update(
                        ep.index as int,
                        armed_out(b, d),
                    )
                }
            },
        }
    }
}

/// What writing `buf` to endpoint `ep` does: `ep`, `regs` before; `r`,
/// `ep2`, `regs2` after.
pub open spec fn write_outcome(
    ep: Endpoint,
    regs: UsbHS,
    buf: Seq<u8>,
    r: Result<usize, UsbError>,
    ep2: Endpoint,
    regs2: UsbHS,
) -> bool {
    &&& (r is Err ==> regs2 == regs && ep2 == ep)
    &&& match ep.in_buf {
        None => r == Err::<usize, UsbError>(UsbError::InvalidEndpoint),
        Some(b) => {
            let d = regs.ep_in@[ep.index as int];
            if d.active {
                r == Err::<usize, UsbError>(UsbError::WouldBlock)
            } else if buf.len() > b.bytes().len() {
                r == Err::<usize, UsbError>(UsbError::BufferOverflow)
            } else {
                &&& r == Ok::<usize, UsbError>(buf.len() as usize)
                &&& ep2.in_buf matches Some(nb) && nb.spec_offset()
                    == b.spec_offset() && nb.bytes() == buf + b.bytes().skip(
                    buf.len() as int,
                )
                &&& regs2 == (UsbHS { ep_in: regs2.ep_in, ..regs })
                &&& regs2.ep_in@ == regs.ep_in@.update(
                    ep.index as int,
                    EpDescriptor { active: true, nbytes: buf.len() as usize, ..d },
                )
            }
        },
    }
}

/// Whether a bound buffer lies within `[lo, hi)` of the region.
pub open spec fn buf_between(b: Option<EndpointBuffer>, lo: nat, hi: nat) -> bool {
    b matches Some(x) ==> lo <= x.spec_offset() && x.spec_offset() + x.bytes().len() <= hi
}

/// Per-endpoint state: its index, its negotiated type and its bound buffers.
pub struct Endpoint {
    pub index: u8,
    pub ep_type: Option<EndpointType>,
    pub out_buf: Option<EndpointBuffer>,
    pub in_buf: Option<EndpointBuffer>,
    pub setup_buf: Option<EndpointBuffer>,
}

impl Endpoint {
    pub open spec fn wf(&self) -> bool {
        &&& self.index < NUM_ENDPOINTS
        &&& (self.out_buf is Some || self.in_buf is Some) ==> self.ep_type is Some
        &&& self.setup_buf is Some ==> self.index == 0 && self.out_buf is Some
        &&& buf_in_region(self.out_buf)
        &&& buf_in_region(self.in_buf)
        &&& buf_in_region(self.setup_buf)
    }

    /// Whether every buffer bound to this endpoint lies within `[lo, hi)`.
    pub open spec fn bufs_between(&self, lo: nat, hi: nat) -> bool {
        &&& buf_between(self.out_buf, lo, hi)
        &&& buf_between(self.in_buf, lo, hi)
        &&& buf_between(self.setup_buf, lo, hi)
    }

    pub open spec fn has_buf(&self, dir: UsbDirection) -> bool {
        match dir {
            UsbDirection::Out => self.out_buf is Some,
            UsbDirection::In => self.in_buf is Some,
        }
    }

    /// An endpoint with no type and no buffers.
    pub fn new(index: u8) -> (r: Self)
        ensures
            r.index == index,
            r.ep_type is None,
            r.out_buf is None && r.in_buf is None && r.setup_buf is None,
    {
        Endpoint { index, ep_type: None, out_buf: None, in_buf: None, setup_buf: None }
    }

    pub fn index(&self) -> (r: u8)
        ensures
            r == self.index,
    {
        self.index
    }

    pub fn ep_type(&self) -> (r: Option<EndpointType>)
        ensures
            r == self.ep_type,
    {
        self.ep_type
    }

    pub fn is_out_buf_set(&self) -> (r: bool)
        ensures
            r == self.out_buf is Some,
    {
        self.out_buf.is_some()
    }

    pub fn is_in_buf_set(&self) -> (r: bool)
        ensures
            r == self.in_buf is Some,
    {
        self.in_buf.is_some()
    }

    /// Re-arms the OUT descriptor of this endpoint to receive into its buffer.
    pub fn reset_out_buf(&self, regs: &mut UsbHS)
        requires
            self.wf(),
            old(regs).wf(),
            self.out_buf is Some,
        ensures
            *final(regs) == (UsbHS {
                ep_out: final(regs).ep_out,
                ..*old(regs)
            }),
            final(regs).ep_out@ == old(regs).ep_out@.update(
                self.index as int,
                armed_out(self.out_buf->0, old(regs).ep_out@[self.index as int]),
            ),
    {
        let i = self.index as usize;
        if let Some(b) = &self.out_buf {
            let d = EpDescriptor {
                active: true,
                stalled: regs.ep_out[i].stalled,
                nbytes: b.capacity(),
                addr: b.addr(),
            };
            regs.ep_out.set(i, d);
        }
    }

    /// Returns the IN descriptor of this endpoint to idle.
    pub fn reset_in_buf(&self, regs: &mut UsbHS)
        requires
            self.wf(),
            old(regs).wf(),
            self.in_buf is Some,
        ensures
            *final(regs) == (UsbHS {
                ep_in: final(regs).ep_in,
                ..*old(regs)
            }),
            final(regs).ep_in@ == old(regs).ep_in@.update(
                self.index as int,
                idle_in(self.in_buf->0, old(regs).ep_in@[self.index as int]),
            ),
    {
        let i = self.index as usize;
        if let Some(b) = &self.in_buf {
            let d = EpDescriptor {
                active: false,
                stalled: regs.ep_in[i].stalled,
                nbytes: 0,
                addr: b.addr(),
            };
            regs.ep_in.set(i, d);
        }
    }

    /// Points the setup descriptor at this endpoint's setup buffer.
    pub fn reset_setup_buf(&self, regs: &mut UsbHS)
        requires
            self.wf(),
            old(regs).wf(),
            self.setup_buf is Some,
        ensures
            *final(regs) == (UsbHS { setup_desc: idle_setup(self.setup_buf->0), ..*old(regs) }),
    {
        if let Some(b) = &self.setup_buf {
            regs.setup_desc = EpDescriptor { active: false, stalled: false, nbytes: 0, addr: b.addr() };
        }
    }

    /// Re-arms the descriptors of every bound buffer, leaving the others
    /// as they are.
    pub fn rearm(&self, regs: &mut UsbHS)
        requires
            self.wf(),
            old(regs).wf(),
        ensures
            final(regs).wf(),
            *final(regs) == (UsbHS {
                ep_out: final(regs).ep_out,
                ep_in: final(regs).ep_in,
                setup_desc: final(regs).setup_desc,
                ..*old(regs)
            }),
            final(regs).ep_out@ == old(regs).ep_out@.update(
                self.index as int,
                match self.out_buf {
                    Some(b) => armed_out(b, old(regs).ep_out@[self.index as int]),
                    None => old(regs).ep_out@[self.index as int],
                },
            ),
            final(regs).ep_in@ == old(regs).ep_in@.update(
                self.index as int,
                match self.in_buf {
                    Some(b) => idle_in(b, old(regs).ep_in@[self.index as int]),
                    None => old(regs).ep_in@[self.index as int],
                },
            ),
            final(regs).setup_desc == match self.setup_buf {
                Some(b) => idle_setup(b),
                None => old(regs).setup_desc,
            },
    {
        if self.out_buf.is_some() {
            self.reset_out_buf(regs);
            if self.setup_buf.is_some() {
                self.reset_setup_buf(regs);
            }
        }
        if self.in_buf.is_some() {
            self.reset_in_buf(regs);
        }
        assert(regs.ep_out@ =~= old(regs).ep_out@.update(
            self.index as int,
            match self.out_buf {
                Some(b) => armed_out(b, old(regs).ep_out@[self.index as int]),
                None => old(regs).ep_out@[self.index as int],
            },
        ));
        assert(regs.ep_in@ =~= old(regs).ep_in@.update(
            self.index as int,
            match self.in_buf {
                Some(b) => idle_in(b, old(regs).ep_in@[self.index as int]),
                None => old(regs).ep_in@[self.index as int],
            },
        ));
    }

    /// Reprograms every descriptor of this endpoint from its bindings:
    /// bound OUT and setup buffers armed, bound IN buffers idle, unbound
    /// entries cleared, stalls lifted.
    pub fn configure(&self, regs: &mut UsbHS)
        requires
            self.wf(),
            old(regs).wf(),
        ensures
            final(regs).wf(),
            *final(regs) == (UsbHS {
                ep_out: final(regs).ep_out,
                ep_in: final(regs).ep_in,
                setup_desc: final(regs).setup_desc,
                ..*old(regs)
            }),
            final(regs).ep_out@ == old(regs).ep_out@.update(
                self.index as int,
                match self.out_buf {
                    Some(b) => armed_out(b, EpDescriptor::idle_spec()),
                    None => EpDescriptor::idle_spec(),
                },
            ),
            final(regs).ep_in@ == old(regs).ep_in@.update(
                self.index as int,
                match self.in_buf {
                    Some(b) => idle_in(b, EpDescriptor::idle_spec()),
                    None => EpDescriptor::idle_spec(),
                },
            ),
            final(regs).setup_desc == match self.setup_buf {
                Some(b) => idle_setup(b),
                None => old(regs).setup_desc,
            },
    {
        let i = self.index as usize;
        regs.ep_out.set(i, EpDescriptor::idle());
        regs.ep_in.set(i, EpDescriptor::idle());
        if self.out_buf.is_some() {
            self.reset_out_buf(regs);
        }
        if self.in_buf.is_some() {
            self.reset_in_buf(regs);
        }
        if self.setup_buf.is_some() {
            self.reset_setup_buf(regs);
        }
    }

    /// Drains a pending SETUP packet (control endpoint) or OUT packet into
    /// `buf` and re-arms the hardware for the next one.
    pub fn read(&self, buf: &mut [u8], regs: &mut UsbHS) -> (r: Result<usize, UsbError>)
        requires
            self.wf(),
            old(regs).wf(),
        ensures
            final(regs).wf(),
            final(buf)@.len() == old(buf)@.len(),
            read_outcome(*self, *old(regs), old(buf)@, r, *final(regs), final(buf)@),
    {
        let i = self.index as usize;
        if i == 0 && regs.setup {
            match &self.setup_buf {
                None => Err(UsbError::InvalidEndpoint),
                Some(b) => {
                    let cap = b.capacity();
                    if buf.len() < cap {
                        return Err(UsbError::BufferOverflow);
                    }
                    let n = b.read(buf);
                    assert(old(buf)@.skip(cap as int) =~= old(buf)@.skip(n as int));
                    assert(b.bytes().take(n as int) =~= b.bytes());
                    regs.setup = false;
                    regs.intstat = regs.intstat & !(1u32 << 0u32);
                    Ok(n)
                },
            }
        } else {
            match &self.out_buf {
                None => Err(UsbError::InvalidEndpoint),
                Some(b) => {
                    let d = regs.ep_out[i];
                    if d.active {
                        return Err(UsbError::WouldBlock);
                    }
                    let cap = b.capacity();
                    let n: usize = if d.nbytes < cap {
                        d.nbytes
                    } else {
                        cap
                    };
                    if buf.len() < n {
                        return Err(UsbError::BufferOverflow);
                    }
                    b.read_prefix(buf, n);
                    self.reset_out_buf(regs);
                    regs.intstat = regs.intstat & !(1u32 << (2 * i) as u32);
                    Ok(n)
                },
            }
        }
    }

    /// Stages `buf` in the IN buffer and arms transmission.
    pub fn write(&mut self, buf: &[u8], regs: &mut UsbHS) -> (r: Result<usize, UsbError>)
        requires
            old(self).wf(),
            old(regs).wf(),
        ensures
            final(regs).wf(),
            final(self).wf(),
            final(self).index == old(self).index,
            final(self).ep_type == old(self).ep_type,
            final(self).out_buf == old(self).out_buf,
            final(self).setup_buf == old(self).setup_buf,
            write_outcome(*old(self), *old(regs), buf@, r, *final(self), *final(regs)),
    {
        let i = self.index as usize;
        match &mut self.in_buf {
            None => Err(UsbError::InvalidEndpoint),
            Some(b) => {
                let d = regs.ep_in[i];
                if d.active {
                    return Err(UsbError::WouldBlock);
                }
                if buf.len() > b.capacity() {
                    return Err(UsbError::BufferOverflow);
                }
                let n = b.write(buf);
                assert(buf@.take(n as int) =~= buf@);
                regs.ep_in.set(i, EpDescriptor { active: true, nbytes: n, ..d });
                Ok(n)
            },
        }
    }
}

} // verus!
