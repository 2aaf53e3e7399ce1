use vstd::prelude::*;

verus! {

/// Errors reported by the bus and its endpoints.
#[derive(Clone, Copy, Debug, PartialEq, Eq, Structural)]
pub enum UsbError {
    /// No data is pending, or the previous transfer is still in flight.
    WouldBlock,
    /// A buffer is too short for the data, or the data is too long for the buffer.
    BufferOverflow,
    /// No free endpoint slot for an allocation without a fixed address.
    EndpointOverflow,
    /// The endpoint buffer region is exhausted.
    EndpointMemoryOverflow,
    /// The address is out of range, already taken, or of the wrong direction.
    InvalidEndpoint,
}

} // verus!
